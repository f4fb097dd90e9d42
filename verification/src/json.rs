//! JSON values.
use crate::toml_value::{
    entry_views as toml_entry_views, item_views as toml_item_views, TomlValue, TomlView,
};
use vstd::prelude::*;

verus! {

/// One JSON value. A number beyond the whole numbers of 64 bits is carried as
/// it is written.
#[derive(Debug, PartialEq)]
pub enum Json {
    Null,
    Bool(bool),
    Int(i64),
    Number(String),
    Text(String),
    List(Vec<Json>),
    Object(Vec<(String, Json)>),
}

/// What a [`Json`] value stands for.
pub enum JsonView {
    Null,
    Bool(bool),
    Int(int),
    Number(Seq<char>),
    Text(Seq<char>),
    List(Seq<JsonView>),
    Object(Seq<(Seq<char>, JsonView)>),
}

pub open spec fn json_view(v: Json) -> JsonView
    decreases v,
{
    match v {
        Json::Null => JsonView::Null,
        Json::Bool(b) => JsonView::Bool(b),
        Json::Int(n) => JsonView::Int(n as int),
        Json::Number(s) => JsonView::Number(s@),
        Json::Text(s) => JsonView::Text(s@),
        Json::List(items) => JsonView::List(list_views(items@)),
        Json::Object(entries) => JsonView::Object(object_views(entries@)),
    }
}

pub open spec fn list_views(items: Seq<Json>) -> Seq<JsonView>
    decreases items,
{
    if items.len() == 0 {
        Seq::empty()
    } else {
        list_views(items.drop_last()).push(json_view(items.last()))
    }
}

pub open spec fn object_views(entries: Seq<(String, Json)>) -> Seq<(Seq<char>, JsonView)>
    decreases entries,
{
    if entries.len() == 0 {
        Seq::empty()
    } else {
        object_views(entries.drop_last()).push((entries.last().0@, json_view(entries.last().1)))
    }
}

impl View for Json {
    type V = JsonView;

    open spec fn view(&self) -> JsonView {
        json_view(*self)
    }
}

pub broadcast proof fn list_push(items: Seq<Json>, v: Json)
    ensures
        #[trigger] list_views(items.push(v)) == list_views(items).push(v@),
{
    assert(items.push(v).drop_last() =~= items);
}

pub broadcast proof fn object_push(entries: Seq<(String, Json)>, e: (String, Json))
    ensures
        #[trigger] object_views(entries.push(e)) == object_views(entries).push((e.0@, e.1@)),
{
    assert(entries.push(e).drop_last() =~= entries);
}

pub proof fn lemma_object_views(entries: Seq<(String, Json)>)
    ensures
        object_views(entries).len() == entries.len(),
    decreases entries,
{
    if entries.len() > 0 {
        lemma_object_views(entries.drop_last());
    }
}

/// A JSON object under construction.
pub struct Fields {
    pub entries: Vec<(String, Json)>,
}

impl View for Fields {
    type V = Seq<(Seq<char>, JsonView)>;

    open spec fn view(&self) -> Seq<(Seq<char>, JsonView)> {
        object_views(self.entries@)
    }
}

impl Fields {
    pub fn new() -> (out: Fields)
        ensures
            out@ == Seq::<(Seq<char>, JsonView)>::empty(),
    {
        Fields { entries: Vec::new() }
    }

    pub fn put(&mut self, key: &str, value: Json)
        ensures
            final(self)@ == old(self)@.push((key@, value@)),
    {
        broadcast use object_push;

        self.entries.push((key.to_owned(), value));
    }

    pub fn put_text(&mut self, key: &str, value: &str)
        ensures
            final(self)@ == old(self)@.push((key@, JsonView::Text(value@))),
    {
        self.put(key, Json::Text(value.to_owned()));
    }

    pub fn put_bool(&mut self, key: &str, value: bool)
        ensures
            final(self)@ == old(self)@.push((key@, JsonView::Bool(value))),
    {
        self.put(key, Json::Bool(value));
    }

    pub fn is_empty(&self) -> (r: bool)
        ensures
            r == (self@.len() == 0),
    {
        proof {
            lemma_object_views(self.entries@);
        }
        self.entries.len() == 0
    }

    pub fn object(self) -> (out: Json)
        ensures
            out@ == JsonView::Object(self@),
    {
        Json::Object(self.entries)
    }
}

/// A JSON list of texts.
pub open spec fn text_list(list: Seq<Seq<char>>) -> JsonView {
    JsonView::List(list.map_values(|s: Seq<char>| JsonView::Text(s)))
}

pub fn texts_json(list: &Vec<String>) -> (out: Json)
    ensures
        out@ == text_list(crate::text::texts(list@)),
{
    broadcast use list_push;

    let ghost all = crate::text::texts(list@).map_values(|s: Seq<char>| JsonView::Text(s));
    let mut items: Vec<Json> = Vec::new();
    let mut i: usize = 0;
    assert(list_views(items@) =~= all.take(0));
    while i < list.len()
        invariant
            i <= list@.len(),
            all == crate::text::texts(list@).map_values(|s: Seq<char>| JsonView::Text(s)),
            list_views(items@) == all.take(i as int),
        decreases list@.len() - i,
    {
        let ghost before = items@;
        items.push(Json::Text(list[i].clone()));
        assert(items@.drop_last() =~= before);
        assert(items@.last()@ == JsonView::Text(list@[i as int]@));
        assert(all[i as int] == JsonView::Text(list@[i as int]@));
        i += 1;
        assert(all.take(i as int) =~= all.take(i as int - 1).push(all[i as int - 1]));
    }
    assert(all.take(i as int) =~= all);
    Json::List(items)
}

/// A text, or null.
pub open spec fn text_or_null(o: Option<Seq<char>>) -> JsonView {
    match o {
        Some(s) => JsonView::Text(s),
        None => JsonView::Null,
    }
}

pub fn opt_json(o: &Option<String>) -> (out: Json)
    ensures
        out@ == text_or_null(crate::composer::decl::opt_text(*o)),
{
    match o {
        Some(s) => Json::Text(s.clone()),
        None => Json::Null,
    }
}

/// A float written with a decimal point.
pub open spec fn with_point(s: Seq<char>) -> Seq<char> {
    if s.contains('.') {
        s
    } else {
        s + ".0"@
    }
}

fn pointed(s: &str) -> (out: String)
    ensures
        out@ == with_point(s@),
{
    let mut out: String = s.to_owned();
    match crate::text::split_once(s, '.') {
        Some(_) => {
            proof {
                crate::text::lemma_find_char(s@, '.', 0);
            }
            out
        },
        None => {
            proof {
                crate::text::lemma_find_char(s@, '.', 0);
            }
            out.append(".0");
            out
        },
    }
}

/// How a TOML value is written as JSON. A date is an object around its text.
pub open spec fn toml_json(v: TomlView) -> JsonView
    decreases v,
{
    match v {
        TomlView::Text(s) => JsonView::Text(s),
        TomlView::Integer(n) => JsonView::Int(n),
        TomlView::Float(s) => JsonView::Number(with_point(s)),
        TomlView::Boolean(b) => JsonView::Bool(b),
        TomlView::Datetime(s) => JsonView::Object(
            seq![("$__toml_private_datetime"@, JsonView::Text(s))],
        ),
        TomlView::Array(items) => JsonView::List(toml_json_items(items)),
        TomlView::Table(entries) => JsonView::Object(toml_json_entries(entries)),
    }
}

pub open spec fn toml_json_items(items: Seq<TomlView>) -> Seq<JsonView>
    decreases items,
{
    if items.len() == 0 {
        Seq::empty()
    } else {
        toml_json_items(items.drop_last()).push(toml_json(items.last()))
    }
}

pub open spec fn toml_json_entries(entries: Seq<(Seq<char>, TomlView)>) -> Seq<
    (Seq<char>, JsonView),
>
    decreases entries,
{
    if entries.len() == 0 {
        Seq::empty()
    } else {
        toml_json_entries(entries.drop_last()).push((entries.last().0, toml_json(entries.last().1)))
    }
}

/// The JSON form of a TOML value.
pub fn json_of_toml(v: &TomlValue) -> (out: Json)
    ensures
        out@ == toml_json(v@),
    decreases v,
{
    match v {
        TomlValue::Text(s) => Json::Text(s.clone()),
        TomlValue::Integer(n) => Json::Int(*n),
        TomlValue::Float(s) => Json::Number(pointed(s.as_str())),
        TomlValue::Boolean(b) => Json::Bool(*b),
        TomlValue::Datetime(s) => {
            let mut fields: Fields = Fields::new();
            fields.put_text("$__toml_private_datetime", s.as_str());
            assert(fields@ =~= seq![("$__toml_private_datetime"@, JsonView::Text(s@))]);
            fields.object()
        },
        TomlValue::Array(items) => Json::List(json_of_items(items)),
        TomlValue::Table(entries) => Json::Object(json_of_entries(entries)),
    }
}

fn json_of_items(items: &Vec<TomlValue>) -> (out: Vec<Json>)
    ensures
        list_views(out@) == toml_json_items(toml_item_views(items@)),
    decreases items,
{
    broadcast use list_push;

    let mut out: Vec<Json> = Vec::new();
    let mut i: usize = 0;
    assert(list_views(out@) =~= toml_json_items(toml_item_views(items@.take(0))));
    while i < items.len()
        invariant
            i <= items@.len(),
            list_views(out@) == toml_json_items(toml_item_views(items@.take(i as int))),
        decreases items@.len() - i,
    {
        let ghost seen = items@.take(i as int + 1);
        assert(seen.drop_last() =~= items@.take(i as int));
        assert(toml_item_views(seen).drop_last() =~= toml_item_views(items@.take(i as int)));
        assert(decreases_to!(items => items@[i as int]));
        let ghost before = out@;
        out.push(json_of_toml(&items[i]));
        assert(out@.drop_last() =~= before);
        i += 1;
    }
    assert(items@.take(items@.len() as int) =~= items@);
    out
}

fn json_of_entries(entries: &Vec<(String, TomlValue)>) -> (out: Vec<(String, Json)>)
    ensures
        object_views(out@) == toml_json_entries(toml_entry_views(entries@)),
    decreases entries,
{
    broadcast use object_push;

    let mut out: Vec<(String, Json)> = Vec::new();
    let mut i: usize = 0;
    assert(object_views(out@) =~= toml_json_entries(toml_entry_views(entries@.take(0))));
    while i < entries.len()
        invariant
            i <= entries@.len(),
            object_views(out@) == toml_json_entries(toml_entry_views(entries@.take(i as int))),
        decreases entries@.len() - i,
    {
        let ghost seen = entries@.take(i as int + 1);
        assert(seen.drop_last() =~= entries@.take(i as int));
        assert(toml_entry_views(seen).drop_last() =~= toml_entry_views(entries@.take(i as int)));
        assert(decreases_to!(entries => entries@[i as int]));
        let ghost before = out@;
        out.push((entries[i].0.clone(), json_of_toml(&entries[i].1)));
        assert(out@.drop_last() =~= before);
        i += 1;
    }
    assert(entries@.take(entries@.len() as int) =~= entries@);
    out
}

/// The first value under a key, from an entry on.
pub open spec fn entry(entries: Seq<(Seq<char>, JsonView)>, key: Seq<char>, from: nat) -> Option<
    JsonView,
>
    decreases entries.len() - from,
{
    if from >= entries.len() {
        None
    } else if entries[from as int].0 == key {
        Some(entries[from as int].1)
    } else {
        entry(entries, key, from + 1)
    }
}

/// The member of an object; only objects have members.
pub open spec fn member(v: JsonView, key: Seq<char>) -> Option<JsonView> {
    match v {
        JsonView::Object(entries) => entry(entries, key, 0),
        _ => None,
    }
}

/// The member of an object, or null.
pub open spec fn member_or_null(v: JsonView, key: Seq<char>) -> JsonView {
    match member(v, key) {
        Some(m) => m,
        None => JsonView::Null,
    }
}

/// The text under a key, if there is one.
pub open spec fn text_member(v: JsonView, key: Seq<char>) -> Option<Seq<char>> {
    match member(v, key) {
        Some(JsonView::Text(s)) => Some(s),
        _ => None,
    }
}

/// The entries of an object stand in their places.
pub proof fn lemma_object_entry(entries: Seq<(String, Json)>, i: int)
    requires
        0 <= i < entries.len(),
    ensures
        object_views(entries).len() == entries.len(),
        object_views(entries)[i] == (entries[i].0@, entries[i].1@),
    decreases entries,
{
    lemma_object_views(entries);
    lemma_object_views(entries.drop_last());
    if i < entries.len() - 1 {
        lemma_object_entry(entries.drop_last(), i);
    }
}

/// The items of a list stand in their places.
pub proof fn lemma_list_item(items: Seq<Json>, i: int)
    requires
        0 <= i < items.len(),
    ensures
        list_views(items).len() == items.len(),
        list_views(items)[i] == items[i]@,
    decreases items,
{
    lemma_list_len(items);
    lemma_list_len(items.drop_last());
    if i < items.len() - 1 {
        lemma_list_item(items.drop_last(), i);
    }
}

pub proof fn lemma_list_len(items: Seq<Json>)
    ensures
        list_views(items).len() == items.len(),
    decreases items,
{
    if items.len() > 0 {
        lemma_list_len(items.drop_last());
    }
}

impl Json {
    /// The member under a key.
    pub fn get(&self, key: &str) -> (out: Option<&Json>)
        ensures
            match out {
                Some(v) => member(self@, key@) == Some(v@),
                None => member(self@, key@) is None,
            },
    {
        match self {
            Json::Object(entries) => {
                let mut i: usize = 0;
                proof {
                    lemma_object_views(entries@);
                }
                while i < entries.len()
                    invariant
                        i <= entries@.len(),
                        object_views(entries@).len() == entries@.len(),
                        entry(object_views(entries@), key@, 0) == entry(
                            object_views(entries@),
                            key@,
                            i as nat,
                        ),
                        self@ == JsonView::Object(object_views(entries@)),
                    decreases entries@.len() - i,
                {
                    proof {
                        lemma_object_entry(entries@, i as int);
                    }
                    if crate::text::same_text(entries[i].0.as_str(), key) {
                        return Some(&entries[i].1);
                    }
                    i += 1;
                }
                None
            },
            _ => None,
        }
    }

    /// The text under a key.
    pub fn get_text(&self, key: &str) -> (out: Option<&String>)
        ensures
            match out {
                Some(s) => text_member(self@, key@) == Some(s@),
                None => text_member(self@, key@) is None,
            },
    {
        match self.get(key) {
            Some(Json::Text(s)) => Some(s),
            _ => None,
        }
    }

    /// A copy of the member under a key, or null.
    pub fn get_or_null(&self, key: &str) -> (out: Json)
        ensures
            out@ == member_or_null(self@, key@),
    {
        match self.get(key) {
            Some(v) => copy_json(v),
            None => Json::Null,
        }
    }
}

/// A copy of a value.
pub fn copy_json(v: &Json) -> (out: Json)
    ensures
        out@ == v@,
    decreases v,
{
    match v {
        Json::Null => Json::Null,
        Json::Bool(b) => Json::Bool(*b),
        Json::Int(n) => Json::Int(*n),
        Json::Number(s) => Json::Number(s.clone()),
        Json::Text(s) => Json::Text(s.clone()),
        Json::List(items) => Json::List(copy_items(items)),
        Json::Object(entries) => Json::Object(copy_entries(entries)),
    }
}

/// A copy of a list of values.
pub fn copy_items(items: &Vec<Json>) -> (out: Vec<Json>)
    ensures
        list_views(out@) == list_views(items@),
    decreases items,
{
    broadcast use list_push;

    let mut out: Vec<Json> = Vec::new();
    let mut i: usize = 0;
    assert(list_views(out@) =~= list_views(items@.take(0)));
    while i < items.len()
        invariant
            i <= items@.len(),
            list_views(out@) == list_views(items@.take(i as int)),
        decreases items@.len() - i,
    {
        let ghost seen = items@.take(i as int + 1);
        assert(seen.drop_last() =~= items@.take(i as int));
        assert(decreases_to!(items => items@[i as int]));
        let ghost before = out@;
        out.push(copy_json(&items[i]));
        assert(out@.drop_last() =~= before);
        i += 1;
    }
    assert(items@.take(items@.len() as int) =~= items@);
    out
}

fn copy_entries(entries: &Vec<(String, Json)>) -> (out: Vec<(String, Json)>)
    ensures
        object_views(out@) == object_views(entries@),
    decreases entries,
{
    broadcast use object_push;

    let mut out: Vec<(String, Json)> = Vec::new();
    let mut i: usize = 0;
    assert(object_views(out@) =~= object_views(entries@.take(0)));
    while i < entries.len()
        invariant
            i <= entries@.len(),
            object_views(out@) == object_views(entries@.take(i as int)),
        decreases entries@.len() - i,
    {
        let ghost seen = entries@.take(i as int + 1);
        assert(seen.drop_last() =~= entries@.take(i as int));
        assert(decreases_to!(entries => entries@[i as int]));
        let ghost before = out@;
        out.push((entries[i].0.clone(), copy_json(&entries[i].1)));
        assert(out@.drop_last() =~= before);
        i += 1;
    }
    assert(entries@.take(entries@.len() as int) =~= entries@);
    out
}

/// What a value holds, whatever the order of its keys.
pub enum CanonView {
    Null,
    Bool(bool),
    Int(int),
    Number(Seq<char>),
    Text(Seq<char>),
    List(Seq<CanonView>),
    Object(Map<Seq<char>, CanonView>),
}

/// What a value holds, whatever the order of its keys. Of two values under one
/// key the later counts.
pub open spec fn canon(v: JsonView) -> CanonView
    decreases v,
{
    match v {
        JsonView::Null => CanonView::Null,
        JsonView::Bool(b) => CanonView::Bool(b),
        JsonView::Int(n) => CanonView::Int(n),
        JsonView::Number(s) => CanonView::Number(s),
        JsonView::Text(s) => CanonView::Text(s),
        JsonView::List(items) => CanonView::List(canon_items(items)),
        JsonView::Object(entries) => CanonView::Object(canon_entries(entries)),
    }
}

pub open spec fn canon_items(items: Seq<JsonView>) -> Seq<CanonView>
    decreases items,
{
    if items.len() == 0 {
        Seq::empty()
    } else {
        canon_items(items.drop_last()).push(canon(items.last()))
    }
}

pub open spec fn canon_entries(entries: Seq<(Seq<char>, JsonView)>) -> Map<Seq<char>, CanonView>
    decreases entries,
{
    if entries.len() == 0 {
        Map::empty()
    } else {
        canon_entries(entries.drop_last()).insert(entries.last().0, canon(entries.last().1))
    }
}

/// What an object holds does not depend on the order of its keys: two
/// neighbouring entries under different keys may change places.
pub proof fn law_key_order_does_not_matter(
    before: Seq<(Seq<char>, JsonView)>,
    x: (Seq<char>, JsonView),
    y: (Seq<char>, JsonView),
    after: Seq<(Seq<char>, JsonView)>,
)
    requires
        x.0 != y.0,
    ensures
        canon(JsonView::Object(before.push(x).push(y) + after)) == canon(
            JsonView::Object(before.push(y).push(x) + after),
        ),
    decreases after.len(),
{
    let xy = before.push(x).push(y) + after;
    let yx = before.push(y).push(x) + after;
    if after.len() == 0 {
        assert(xy =~= before.push(x).push(y));
        assert(yx =~= before.push(y).push(x));
        assert(before.push(x).push(y).drop_last() =~= before.push(x));
        assert(before.push(y).push(x).drop_last() =~= before.push(y));
        assert(before.push(x).drop_last() =~= before);
        assert(before.push(y).drop_last() =~= before);
        reveal_with_fuel(canon_entries, 3);
        assert(canon_entries(xy) =~= canon_entries(yx));
    } else {
        law_key_order_does_not_matter(before, x, y, after.drop_last());
        assert(xy.drop_last() =~= before.push(x).push(y) + after.drop_last());
        assert(yx.drop_last() =~= before.push(y).push(x) + after.drop_last());
        assert(xy.last() == after.last());
        assert(yx.last() == after.last());
    }
}

/// The member of an object is the value of its first entry under the key; what is
/// no object has none.
pub proof fn law_members(v: JsonView, key: Seq<char>)
    ensures
        v !is Object ==> member(v, key) is None,
        v matches JsonView::Object(entries) ==> match member(v, key) {
            Some(m) => exists|i: int|
                {
                    &&& 0 <= i < entries.len()
                    &&& #[trigger] entries[i] == (key, m)
                    &&& forall|j: int| 0 <= j < i ==> (#[trigger] entries[j]).0 != key
                },
            None => forall|i: int| 0 <= i < entries.len() ==> (#[trigger] entries[i]).0 != key,
        },
        member_or_null(v, key) == if member(v, key) is Some {
            member(v, key)->Some_0
        } else {
            JsonView::Null
        },
        forall|s: Seq<char>|
            text_member(v, key) == Some(s) <==> member(v, key) == Some(#[trigger] text_value(s)),
{
    if let JsonView::Object(entries) = v {
        lemma_entry(entries, key, 0);
    }
    assert forall|s: Seq<char>|
        text_member(v, key) == Some(s) <==> member(v, key) == Some(#[trigger] text_value(s)) by {}
}

/// A text as a value.
pub open spec fn text_value(s: Seq<char>) -> JsonView {
    JsonView::Text(s)
}

proof fn lemma_entry(entries: Seq<(Seq<char>, JsonView)>, key: Seq<char>, from: nat)
    ensures
        match entry(entries, key, from) {
            Some(m) => exists|i: int|
                {
                    &&& from <= i < entries.len()
                    &&& #[trigger] entries[i] == (key, m)
                    &&& forall|j: int| from <= j < i ==> (#[trigger] entries[j]).0 != key
                },
            None => forall|i: int| from <= i < entries.len() ==> (#[trigger] entries[i]).0 != key,
        },
    decreases entries.len() - from,
{
    if from < entries.len() {
        if entries[from as int].0 == key {
            assert(entries[from as int] == (key, entries[from as int].1));
        } else {
            lemma_entry(entries, key, from + 1);
        }
    }
}

/// A list of texts is a list of them as values, in order; an absent text is null.
pub proof fn law_texts_as_values(list: Seq<Seq<char>>, s: Seq<char>)
    ensures
        text_list(list) is List,
        text_list(list)->List_0.len() == list.len(),
        forall|i: int|
            0 <= i < list.len() ==> #[trigger] text_list(list)->List_0[i] == JsonView::Text(list[i]),
        text_or_null(Some(s)) == JsonView::Text(s),
        text_or_null(None) == JsonView::Null,
{
}

/// A TOML value keeps what it is as JSON: texts, numbers and flags as they are,
/// items and entries one by one and in order, a date as an object around its
/// text. A float has a decimal point.
pub proof fn law_toml_as_json(v: TomlView)
    ensures
        match v {
            TomlView::Text(s) => toml_json(v) == JsonView::Text(s),
            TomlView::Integer(n) => toml_json(v) == JsonView::Int(n),
            TomlView::Boolean(b) => toml_json(v) == JsonView::Bool(b),
            TomlView::Float(s) => toml_json(v) == JsonView::Number(
                if s.contains('.') {
                    s
                } else {
                    s + ".0"@
                },
            ),
            TomlView::Datetime(s) => toml_json(v) == JsonView::Object(
                seq![("$__toml_private_datetime"@, JsonView::Text(s))],
            ),
            TomlView::Array(items) => {
                &&& toml_json(v) is List
                &&& toml_json(v)->List_0 == items.map_values(|i: TomlView| toml_json(i))
            },
            TomlView::Table(entries) => {
                &&& toml_json(v) is Object
                &&& toml_json(v)->Object_0 == entries.map_values(
                    |e: (Seq<char>, TomlView)| (e.0, toml_json(e.1)),
                )
            },
        },
{
    match v {
        TomlView::Array(items) => {
            lemma_json_items(items);
        },
        TomlView::Table(entries) => {
            lemma_json_entries(entries);
        },
        _ => {},
    }
}

proof fn lemma_json_items(items: Seq<TomlView>)
    ensures
        toml_json_items(items) == items.map_values(|i: TomlView| toml_json(i)),
    decreases items.len(),
{
    if items.len() > 0 {
        lemma_json_items(items.drop_last());
    }
    assert(toml_json_items(items) =~= items.map_values(|i: TomlView| toml_json(i)));
}

proof fn lemma_json_entries(entries: Seq<(Seq<char>, TomlView)>)
    ensures
        toml_json_entries(entries) == entries.map_values(
            |e: (Seq<char>, TomlView)| (e.0, toml_json(e.1)),
        ),
    decreases entries.len(),
{
    if entries.len() > 0 {
        lemma_json_entries(entries.drop_last());
    }
    assert(toml_json_entries(entries) =~= entries.map_values(
        |e: (Seq<char>, TomlView)| (e.0, toml_json(e.1)),
    ));
}

} // verus!
