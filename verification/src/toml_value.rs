//! Configuration values as a TOML document holds them.
use crate::lists::lemma_kept_next;
use crate::text::{
    integer, integer_text, join, join_texts, quote, quoted, replace_all, replaced, same_text, texts,
    texts_push,
};
use vstd::prelude::*;

verus! {

/// One TOML value. Floats and dates are carried as they are written: nothing
/// here computes with them.
#[derive(Debug, PartialEq)]
pub enum TomlValue {
    Text(String),
    Integer(i64),
    Float(String),
    Boolean(bool),
    Datetime(String),
    Array(Vec<TomlValue>),
    Table(Vec<(String, TomlValue)>),
}

/// What a [`TomlValue`] stands for.
pub enum TomlView {
    Text(Seq<char>),
    Integer(int),
    Float(Seq<char>),
    Boolean(bool),
    Datetime(Seq<char>),
    Array(Seq<TomlView>),
    Table(Seq<(Seq<char>, TomlView)>),
}

pub open spec fn toml_view(v: TomlValue) -> TomlView
    decreases v,
{
    match v {
        TomlValue::Text(s) => TomlView::Text(s@),
        TomlValue::Integer(n) => TomlView::Integer(n as int),
        TomlValue::Float(s) => TomlView::Float(s@),
        TomlValue::Boolean(b) => TomlView::Boolean(b),
        TomlValue::Datetime(s) => TomlView::Datetime(s@),
        TomlValue::Array(items) => TomlView::Array(item_views(items@)),
        TomlValue::Table(entries) => TomlView::Table(entry_views(entries@)),
    }
}

pub open spec fn item_views(items: Seq<TomlValue>) -> Seq<TomlView>
    decreases items,
{
    if items.len() == 0 {
        Seq::empty()
    } else {
        item_views(items.drop_last()).push(toml_view(items.last()))
    }
}

pub open spec fn entry_views(entries: Seq<(String, TomlValue)>) -> Seq<(Seq<char>, TomlView)>
    decreases entries,
{
    if entries.len() == 0 {
        Seq::empty()
    } else {
        entry_views(entries.drop_last()).push((entries.last().0@, toml_view(entries.last().1)))
    }
}

/// The items of an array stand for the items of its view, one by one.
pub proof fn lemma_item_views(items: Seq<TomlValue>)
    ensures
        item_views(items).len() == items.len(),
        forall|i: int| 0 <= i < items.len() ==> #[trigger] item_views(items)[i] == items[i]@,
    decreases items,
{
    if items.len() > 0 {
        lemma_item_views(items.drop_last());
        assert forall|i: int| 0 <= i < items.len() implies #[trigger] item_views(items)[i]
            == items[i]@ by {
            if i < items.len() - 1 {
                assert(item_views(items)[i] == item_views(items.drop_last())[i]);
            }
        }
    }
}

/// The entries of a table stand for the entries of its view, one by one.
pub proof fn lemma_entry_views(entries: Seq<(String, TomlValue)>)
    ensures
        entry_views(entries).len() == entries.len(),
        forall|i: int|
            0 <= i < entries.len() ==> #[trigger] entry_views(entries)[i] == (
                entries[i].0@,
                entries[i].1@,
            ),
    decreases entries,
{
    if entries.len() > 0 {
        lemma_entry_views(entries.drop_last());
        assert forall|i: int| 0 <= i < entries.len() implies #[trigger] entry_views(entries)[i] == (
            entries[i].0@,
            entries[i].1@,
        ) by {
            if i < entries.len() - 1 {
                assert(entry_views(entries)[i] == entry_views(entries.drop_last())[i]);
            }
        }
    }
}

impl View for TomlValue {
    type V = TomlView;

    open spec fn view(&self) -> TomlView {
        toml_view(*self)
    }
}

/// A text value with its double quotes escaped, between double quotes.
pub open spec fn escaped(s: Seq<char>) -> Seq<char> {
    replaced(s, "\""@, "\\\""@)
}

pub fn escape(s: &str) -> (out: String)
    ensures
        out@ == escaped(s@),
{
    proof {
        reveal_strlit("\"");
    }
    replace_all(s, "\"", "\\\"")
}

/// How a value is written inline.
pub open spec fn value_text(v: TomlView) -> Seq<char>
    decreases v,
{
    match v {
        TomlView::Text(s) => quoted(escaped(s)),
        TomlView::Integer(n) => integer(n),
        TomlView::Float(s) => s,
        TomlView::Boolean(b) => if b {
            "true"@
        } else {
            "false"@
        },
        TomlView::Datetime(s) => s,
        TomlView::Array(items) => "["@ + join(item_texts(items), ", "@) + "]"@,
        TomlView::Table(entries) => "{"@ + join(entry_texts(entries), ", "@) + "}"@,
    }
}

pub open spec fn item_texts(items: Seq<TomlView>) -> Seq<Seq<char>>
    decreases items,
{
    if items.len() == 0 {
        Seq::empty()
    } else {
        item_texts(items.drop_last()).push(value_text(items.last()))
    }
}

pub open spec fn entry_texts(entries: Seq<(Seq<char>, TomlView)>) -> Seq<Seq<char>>
    decreases entries,
{
    if entries.len() == 0 {
        Seq::empty()
    } else {
        entry_texts(entries.drop_last()).push(
            entries.last().0 + " = "@ + value_text(entries.last().1),
        )
    }
}

/// Writes a value inline: texts quoted, arrays in brackets, tables in braces.
pub fn serialize_value(v: &TomlValue) -> (out: String)
    ensures
        out@ == value_text(v@),
    decreases v,
{
    match v {
        TomlValue::Text(s) => quote(escape(s.as_str()).as_str()),
        TomlValue::Integer(n) => integer_text(*n),
        TomlValue::Float(s) => s.clone(),
        TomlValue::Boolean(b) => if *b {
            "true".to_owned()
        } else {
            "false".to_owned()
        },
        TomlValue::Datetime(s) => s.clone(),
        TomlValue::Array(items) => {
            let parts: Vec<String> = serialize_items(items);
            let mut out: String = "[".to_owned();
            out.append(join_texts(&parts, ", ").as_str());
            out.append("]");
            out
        },
        TomlValue::Table(entries) => {
            let parts: Vec<String> = serialize_entries(entries);
            let mut out: String = "{".to_owned();
            out.append(join_texts(&parts, ", ").as_str());
            out.append("}");
            out
        },
    }
}

fn serialize_items(items: &Vec<TomlValue>) -> (out: Vec<String>)
    ensures
        texts(out@) == item_texts(item_views(items@)),
    decreases items,
{
    let mut out: Vec<String> = Vec::new();
    let mut i: usize = 0;
    assert(texts(out@) =~= item_texts(item_views(items@.take(0))));
    while i < items.len()
        invariant
            i <= items@.len(),
            texts(out@) == item_texts(item_views(items@.take(i as int))),
        decreases items@.len() - i,
    {
        let ghost before = texts(out@);
        let ghost seen = items@.take(i as int + 1);
        assert(seen.drop_last() =~= items@.take(i as int));
        assert(item_views(seen).drop_last() =~= item_views(items@.take(i as int)));
        assert(decreases_to!(items => items@[i as int]));
        out.push(serialize_value(&items[i]));
        assert(texts(out@) =~= before.push(value_text(toml_view(items@[i as int]))));
        i += 1;
    }
    assert(items@.take(items@.len() as int) =~= items@);
    out
}

fn serialize_entries(entries: &Vec<(String, TomlValue)>) -> (out: Vec<String>)
    ensures
        texts(out@) == entry_texts(entry_views(entries@)),
    decreases entries,
{
    let mut out: Vec<String> = Vec::new();
    let mut i: usize = 0;
    assert(texts(out@) =~= entry_texts(entry_views(entries@.take(0))));
    while i < entries.len()
        invariant
            i <= entries@.len(),
            texts(out@) == entry_texts(entry_views(entries@.take(i as int))),
        decreases entries@.len() - i,
    {
        let ghost before = texts(out@);
        let ghost seen = entries@.take(i as int + 1);
        assert(seen.drop_last() =~= entries@.take(i as int));
        assert(entry_views(seen).drop_last() =~= entry_views(entries@.take(i as int)));
        assert(decreases_to!(entries => entries@[i as int]));
        let mut line: String = entries[i].0.clone();
        line.append(" = ");
        line.append(serialize_value(&entries[i].1).as_str());
        out.push(line);
        assert(texts(out@) =~= before.push(
            entries@[i as int].0@ + " = "@ + value_text(toml_view(entries@[i as int].1)),
        ));
        i += 1;
    }
    assert(entries@.take(entries@.len() as int) =~= entries@);
    out
}

/// A value equal to the one given.
fn copy_value(v: &TomlValue) -> (out: TomlValue)
    ensures
        out@ == v@,
    decreases v,
{
    match v {
        TomlValue::Text(s) => TomlValue::Text(s.clone()),
        TomlValue::Integer(n) => TomlValue::Integer(*n),
        TomlValue::Float(s) => TomlValue::Float(s.clone()),
        TomlValue::Boolean(b) => TomlValue::Boolean(*b),
        TomlValue::Datetime(s) => TomlValue::Datetime(s.clone()),
        TomlValue::Array(items) => TomlValue::Array(copy_items(items)),
        TomlValue::Table(entries) => TomlValue::Table(copy_entries(entries)),
    }
}

impl Clone for TomlValue {
    fn clone(&self) -> (out: TomlValue)
        ensures
            out@ == self@,
    {
        copy_value(self)
    }
}

fn copy_items(items: &Vec<TomlValue>) -> (out: Vec<TomlValue>)
    ensures
        item_views(out@) == item_views(items@),
    decreases items,
{
    let mut out: Vec<TomlValue> = Vec::new();
    let mut i: usize = 0;
    assert(items@.take(0) =~= out@);
    while i < items.len()
        invariant
            i <= items@.len(),
            item_views(out@) == item_views(items@.take(i as int)),
        decreases items@.len() - i,
    {
        let ghost before = out@;
        let ghost seen = items@.take(i as int + 1);
        assert(seen.drop_last() =~= items@.take(i as int));
        assert(decreases_to!(items => items@[i as int]));
        out.push(copy_value(&items[i]));
        assert(out@.drop_last() =~= before);
        i += 1;
    }
    assert(items@.take(items@.len() as int) =~= items@);
    out
}

fn copy_entries(entries: &Vec<(String, TomlValue)>) -> (out: Vec<(String, TomlValue)>)
    ensures
        entry_views(out@) == entry_views(entries@),
    decreases entries,
{
    let mut out: Vec<(String, TomlValue)> = Vec::new();
    let mut i: usize = 0;
    assert(entries@.take(0) =~= out@);
    while i < entries.len()
        invariant
            i <= entries@.len(),
            entry_views(out@) == entry_views(entries@.take(i as int)),
        decreases entries@.len() - i,
    {
        let ghost before = out@;
        let ghost seen = entries@.take(i as int + 1);
        assert(seen.drop_last() =~= entries@.take(i as int));
        assert(decreases_to!(entries => entries@[i as int]));
        out.push((entries[i].0.clone(), copy_value(&entries[i].1)));
        assert(out@.drop_last() =~= before);
        i += 1;
    }
    assert(entries@.take(entries@.len() as int) =~= entries@);
    out
}

/// The value of the first entry, from `from` on, with the given key.
pub open spec fn find_entry(
    entries: Seq<(Seq<char>, TomlView)>,
    key: Seq<char>,
    from: nat,
) -> Option<TomlView>
    decreases entries.len() - from,
{
    if from >= entries.len() {
        None
    } else if entries[from as int].0 == key {
        Some(entries[from as int].1)
    } else {
        find_entry(entries, key, from + 1)
    }
}

/// The value under a key; only a table has any.
pub open spec fn field(v: TomlView, key: Seq<char>) -> Option<TomlView> {
    match v {
        TomlView::Table(entries) => find_entry(entries, key, 0),
        _ => None,
    }
}

/// The text under a key.
pub open spec fn text_field(v: TomlView, key: Seq<char>) -> Option<Seq<char>> {
    match field(v, key) {
        Some(TomlView::Text(s)) => Some(s),
        _ => None,
    }
}

/// The items under a key; none where there is no array.
pub open spec fn items_field(v: TomlView, key: Seq<char>) -> Seq<TomlView> {
    match field(v, key) {
        Some(TomlView::Array(items)) => items,
        _ => Seq::empty(),
    }
}

/// The number under a key.
pub open spec fn integer_field(v: TomlView, key: Seq<char>) -> Option<int> {
    match field(v, key) {
        Some(TomlView::Integer(n)) => Some(n),
        _ => None,
    }
}

impl TomlValue {
    /// The value under a key.
    pub fn get(&self, key: &str) -> (out: Option<&TomlValue>)
        ensures
            match out {
                Some(v) => field(self@, key@) == Some(v@),
                None => field(self@, key@) is None,
            },
    {
        match self {
            TomlValue::Table(entries) => {
                let ghost views = entry_views(entries@);
                proof {
                    lemma_entry_views(entries@);
                }
                let mut i: usize = 0;
                while i < entries.len()
                    invariant
                        i <= entries@.len(),
                        self@ == TomlView::Table(views),
                        views.len() == entries@.len(),
                        forall|j: int|
                            0 <= j < entries@.len() ==> #[trigger] views[j] == (
                                entries@[j].0@,
                                entries@[j].1@,
                            ),
                        find_entry(views, key@, 0) == find_entry(views, key@, i as nat),
                    decreases entries@.len() - i,
                {
                    assert(views[i as int] == (entries@[i as int].0@, entries@[i as int].1@));
                    if same_text(entries[i].0.as_str(), key) {
                        return Some(&entries[i].1);
                    }
                    i += 1;
                }
                None
            },
            _ => None,
        }
    }

    /// The text under a key.
    pub fn get_text(&self, key: &str) -> (out: Option<String>)
        ensures
            match out {
                Some(s) => text_field(self@, key@) == Some(s@),
                None => text_field(self@, key@) is None,
            },
    {
        match self.get(key) {
            Some(TomlValue::Text(s)) => Some(s.clone()),
            _ => None,
        }
    }

    /// The number under a key.
    pub fn get_integer(&self, key: &str) -> (out: Option<i64>)
        ensures
            match out {
                Some(n) => integer_field(self@, key@) == Some(n as int),
                None => integer_field(self@, key@) is None,
            },
    {
        match self.get(key) {
            Some(TomlValue::Integer(n)) => Some(*n),
            _ => None,
        }
    }

    /// The items under a key.
    pub fn get_items(&self, key: &str) -> (out: Option<&Vec<TomlValue>>)
        ensures
            match out {
                Some(items) => items_field(self@, key@) == item_views(items@),
                None => items_field(self@, key@).len() == 0,
            },
    {
        match self.get(key) {
            Some(TomlValue::Array(items)) => Some(items),
            _ => None,
        }
    }
}

/// Whether two values are the same.
pub fn same_value(a: &TomlValue, b: &TomlValue) -> (r: bool)
    ensures
        r == (a@ == b@),
    decreases a,
{
    match a {
        TomlValue::Text(s) => match b {
            TomlValue::Text(t) => same_text(s.as_str(), t.as_str()),
            _ => false,
        },
        TomlValue::Integer(m) => match b {
            TomlValue::Integer(n) => *m == *n,
            _ => false,
        },
        TomlValue::Float(s) => match b {
            TomlValue::Float(t) => same_text(s.as_str(), t.as_str()),
            _ => false,
        },
        TomlValue::Boolean(p) => match b {
            TomlValue::Boolean(q) => *p == *q,
            _ => false,
        },
        TomlValue::Datetime(s) => match b {
            TomlValue::Datetime(t) => same_text(s.as_str(), t.as_str()),
            _ => false,
        },
        TomlValue::Array(items) => match b {
            TomlValue::Array(others) => {
                proof {
                    lemma_item_views(items@);
                    lemma_item_views(others@);
                }
                if items.len() != others.len() {
                    return false;
                }
                assert(item_views(others@).take(items@.len() as int) =~= item_views(others@));
                starts_same(items, others)
            },
            _ => false,
        },
        TomlValue::Table(entries) => match b {
            TomlValue::Table(others) => same_entries(entries, others),
            _ => false,
        },
    }
}

/// Whether the first items of one array are those of another.
pub fn starts_same(items: &Vec<TomlValue>, others: &Vec<TomlValue>) -> (r: bool)
    requires
        items@.len() <= others@.len(),
    ensures
        r == (item_views(items@) == item_views(others@).take(items@.len() as int)),
    decreases items,
{
    let ghost a = item_views(items@);
    let ghost b = item_views(others@);
    proof {
        lemma_item_views(items@);
        lemma_item_views(others@);
    }
    let mut i: usize = 0;
    while i < items.len()
        invariant
            i <= items@.len() <= others@.len(),
            a == item_views(items@),
            b == item_views(others@),
            a.len() == items@.len(),
            b.len() == others@.len(),
            forall|j: int| 0 <= j < items@.len() ==> #[trigger] a[j] == items@[j]@,
            forall|j: int| 0 <= j < others@.len() ==> #[trigger] b[j] == others@[j]@,
            forall|j: int| 0 <= j < i ==> #[trigger] a[j] == b[j],
        decreases items@.len() - i,
    {
        assert(decreases_to!(items => items@[i as int]));
        assert(a[i as int] == items@[i as int]@ && b[i as int] == others@[i as int]@);
        if !same_value(&items[i], &others[i]) {
            assert(b.take(items@.len() as int)[i as int] == b[i as int]);
            assert(a != b.take(items@.len() as int));
            return false;
        }
        i += 1;
    }
    assert(a =~= b.take(items@.len() as int));
    true
}

fn same_entries(entries: &Vec<(String, TomlValue)>, others: &Vec<(String, TomlValue)>) -> (r: bool)
    ensures
        r == (entry_views(entries@) == entry_views(others@)),
    decreases entries,
{
    let ghost a = entry_views(entries@);
    let ghost b = entry_views(others@);
    proof {
        lemma_entry_views(entries@);
        lemma_entry_views(others@);
    }
    if entries.len() != others.len() {
        return false;
    }
    let mut i: usize = 0;
    while i < entries.len()
        invariant
            i <= entries@.len() == others@.len(),
            a == entry_views(entries@),
            b == entry_views(others@),
            a.len() == entries@.len(),
            b.len() == others@.len(),
            forall|j: int|
                0 <= j < entries@.len() ==> #[trigger] a[j] == (entries@[j].0@, entries@[j].1@),
            forall|j: int|
                0 <= j < others@.len() ==> #[trigger] b[j] == (others@[j].0@, others@[j].1@),
            forall|j: int| 0 <= j < i ==> #[trigger] a[j] == b[j],
        decreases entries@.len() - i,
    {
        assert(decreases_to!(entries => entries@[i as int]));
        assert(a[i as int] == (entries@[i as int].0@, entries@[i as int].1@));
        assert(b[i as int] == (others@[i as int].0@, others@[i as int].1@));
        if !same_text(entries[i].0.as_str(), others[i].0.as_str()) || !same_value(
            &entries[i].1,
            &others[i].1,
        ) {
            return false;
        }
        i += 1;
    }
    assert(a =~= b);
    true
}

/// The texts under a key of the first `n` values.
pub open spec fn texts_at(values: Seq<TomlView>, key: Seq<char>, n: nat) -> Seq<Seq<char>>
    decreases n,
{
    if n == 0 {
        Seq::empty()
    } else {
        let before = texts_at(values, key, (n - 1) as nat);
        match text_field(values[n - 1], key) {
            Some(s) => before.push(s),
            None => before,
        }
    }
}

/// The texts under a key of a list of values, in order.
pub fn collect_texts(values: &Vec<TomlValue>, key: &str) -> (out: Vec<String>)
    ensures
        texts(out@) == texts_at(item_views(values@), key@, item_views(values@).len()),
{
    broadcast use texts_push;

    let ghost views = item_views(values@);
    proof {
        lemma_item_views(values@);
    }
    let mut out: Vec<String> = Vec::new();
    let mut i: usize = 0;
    assert(texts(out@) =~= Seq::<Seq<char>>::empty());
    while i < values.len()
        invariant
            i <= values@.len(),
            views == item_views(values@),
            views.len() == values@.len(),
            forall|j: int| 0 <= j < values@.len() ==> #[trigger] views[j] == values@[j]@,
            texts(out@) == texts_at(views, key@, i as nat),
        decreases values@.len() - i,
    {
        assert(views[i as int] == values@[i as int]@);
        match values[i].get_text(key) {
            Some(s) => {
                out.push(s);
            },
            None => {},
        }
        i += 1;
    }
    out
}

/// How values are written inline: a text in quotes with its quotes escaped, a
/// number or date as it is, a list in brackets and a table in braces, with every
/// item and entry in order.
pub proof fn law_values_inline(v: TomlView)
    ensures
        match v {
            TomlView::Text(s) => value_text(v) == "\""@ + replaced(s, "\""@, "\\\""@) + "\""@,
            TomlView::Integer(n) => value_text(v) == integer(n),
            TomlView::Float(s) => value_text(v) == s,
            TomlView::Boolean(b) => value_text(v) == if b {
                "true"@
            } else {
                "false"@
            },
            TomlView::Datetime(s) => value_text(v) == s,
            TomlView::Array(items) => value_text(v) == "["@ + join(
                items.map_values(|i: TomlView| value_text(i)),
                ", "@,
            ) + "]"@,
            TomlView::Table(entries) => value_text(v) == "{"@ + join(
                entries.map_values(|e: (Seq<char>, TomlView)| e.0 + " = "@ + value_text(e.1)),
                ", "@,
            ) + "}"@,
        },
{
    match v {
        TomlView::Array(items) => {
            lemma_item_texts(items);
        },
        TomlView::Table(entries) => {
            lemma_entry_texts(entries);
        },
        _ => {},
    }
}

proof fn lemma_item_texts(items: Seq<TomlView>)
    ensures
        item_texts(items) == items.map_values(|i: TomlView| value_text(i)),
    decreases items.len(),
{
    if items.len() > 0 {
        lemma_item_texts(items.drop_last());
    }
    assert(item_texts(items) =~= items.map_values(|i: TomlView| value_text(i)));
}

proof fn lemma_entry_texts(entries: Seq<(Seq<char>, TomlView)>)
    ensures
        entry_texts(entries) == entries.map_values(
            |e: (Seq<char>, TomlView)| e.0 + " = "@ + value_text(e.1),
        ),
    decreases entries.len(),
{
    if entries.len() > 0 {
        lemma_entry_texts(entries.drop_last());
    }
    assert(entry_texts(entries) =~= entries.map_values(
        |e: (Seq<char>, TomlView)| e.0 + " = "@ + value_text(e.1),
    ));
}

proof fn lemma_find_entry(entries: Seq<(Seq<char>, TomlView)>, key: Seq<char>, from: nat)
    ensures
        match find_entry(entries, key, from) {
            Some(v) => exists|i: int|
                {
                    &&& from <= i < entries.len()
                    &&& #[trigger] entries[i] == (key, v)
                    &&& forall|j: int| from <= j < i ==> (#[trigger] entries[j]).0 != key
                },
            None => forall|i: int| from <= i < entries.len() ==> (#[trigger] entries[i]).0 != key,
        },
    decreases entries.len() - from,
{
    if from < entries.len() {
        if entries[from as int].0 == key {
            assert(entries[from as int] == (key, entries[from as int].1));
        } else {
            lemma_find_entry(entries, key, from + 1);
        }
    }
}

/// The value under a key is that of the first entry with it; what is no table has
/// none. It is read as a text, a number or a list only where it is one.
pub proof fn law_fields(v: TomlView, key: Seq<char>)
    ensures
        v !is Table ==> field(v, key) is None,
        v matches TomlView::Table(entries) ==> match field(v, key) {
            Some(m) => exists|i: int|
                {
                    &&& 0 <= i < entries.len()
                    &&& #[trigger] entries[i] == (key, m)
                    &&& forall|j: int| 0 <= j < i ==> (#[trigger] entries[j]).0 != key
                },
            None => forall|i: int| 0 <= i < entries.len() ==> (#[trigger] entries[i]).0 != key,
        },
        text_field(v, key) is Some <==> field(v, key) is Some && field(v, key)->Some_0 is Text,
        text_field(v, key) matches Some(s) ==> field(v, key) == Some(TomlView::Text(s)),
        integer_field(v, key) is Some <==> field(v, key) is Some && field(
            v,
            key,
        )->Some_0 is Integer,
        integer_field(v, key) matches Some(n) ==> field(v, key) == Some(TomlView::Integer(n)),
        items_field(v, key).len() > 0 ==> field(v, key) == Some(
            TomlView::Array(items_field(v, key)),
        ),
        field(v, key) matches Some(TomlView::Array(items)) ==> items_field(v, key) == items,
{
    if let TomlView::Table(entries) = v {
        lemma_find_entry(entries, key, 0);
    }
}

/// The texts under a key are those of every value that has one, in order.
pub proof fn law_texts_under_a_key(values: Seq<TomlView>, key: Seq<char>, n: nat)
    requires
        n <= values.len(),
    ensures
        texts_at(values, key, n) == values.take(n as int).filter_map(
            |v: TomlView| text_field(v, key),
        ),
    decreases n,
{
    if n > 0 {
        law_texts_under_a_key(values, key, (n - 1) as nat);
        lemma_kept_next(values, |v: TomlView| text_field(v, key), n - 1);
    }
}

} // verus!
