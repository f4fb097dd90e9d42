//! What the source of a program declares.
use crate::composer::decl::opt_text;
use crate::json::{list_push, list_views, text_list, texts_json, Fields, Json, JsonView};
use crate::lists::{lemma_flat_next, lemma_kept_next, push_has};
use crate::outside::{parse_rust, rust_items};
use crate::text::{
    chars_of, decimal, decimal_text, is_white, parse_u64, parsed_u64, same_text, starts_with,
    strip_prefix, text_of, texts, texts_push, trim, trimmed, white,
};
use vstd::prelude::*;

verus! {

/// A token of a macro call.
pub enum MacroToken {
    Word(String),
    Mark(char),
    Text(String),
    /// A literal that is no string.
    Literal,
    /// Tokens in brackets.
    Group,
}

/// What a [`MacroToken`] stands for.
pub enum TokenView {
    Word(Seq<char>),
    Mark(char),
    Text(Seq<char>),
    Literal,
    Group,
}

impl View for MacroToken {
    type V = TokenView;

    open spec fn view(&self) -> TokenView {
        match *self {
            MacroToken::Word(s) => TokenView::Word(s@),
            MacroToken::Mark(c) => TokenView::Mark(c),
            MacroToken::Text(s) => TokenView::Text(s@),
            MacroToken::Literal => TokenView::Literal,
            MacroToken::Group => TokenView::Group,
        }
    }
}

pub open spec fn token_views(tokens: Seq<MacroToken>) -> Seq<TokenView> {
    tokens.map_values(|t: MacroToken| t@)
}

/// An attribute of an item: its name, where that is one word, and its value,
/// where that is a text.
pub struct RustAttribute {
    pub name: Option<String>,
    pub value: Option<String>,
}

/// What a [`RustAttribute`] stands for.
#[verifier::ext_equal]
pub struct AttributeView {
    pub name: Option<Seq<char>>,
    pub value: Option<Seq<char>>,
}

impl View for RustAttribute {
    type V = AttributeView;

    open spec fn view(&self) -> AttributeView {
        AttributeView { name: opt_text(self.name), value: opt_text(self.value) }
    }
}

pub open spec fn attribute_views(list: Seq<RustAttribute>) -> Seq<AttributeView> {
    list.map_values(|a: RustAttribute| a@)
}

/// The text of a doc comment, which is an attribute.
pub open spec fn doc_text(a: AttributeView) -> Option<Seq<char>> {
    if a.name == Some("doc"@) {
        a.value
    } else {
        None
    }
}

fn read_doc(a: &RustAttribute) -> (out: Option<&String>)
    ensures
        match out {
            Some(doc) => doc_text(a@) == Some(doc@),
            None => doc_text(a@) is None,
        },
{
    match &a.name {
        Some(name) => {
            if same_text(name.as_str(), "doc") {
                match &a.value {
                    Some(value) => Some(value),
                    None => None,
                }
            } else {
                None
            }
        },
        None => None,
    }
}

/// An item of a Rust file: a function with its name, the number of its
/// parameters, its attributes and, where it returns a reference to a named
/// type, the last part of the name; a struct with its fields, an enum with its
/// variants; a macro call with its tokens. A field without a name counts as
/// nothing.
pub enum RustItem {
    Function(String, usize, Vec<RustAttribute>, Option<String>),
    Struct(String, Vec<Option<String>>, Vec<RustAttribute>),
    Enum(String, Vec<String>, Vec<RustAttribute>),
    Macro(Vec<MacroToken>),
    Other,
}

/// What a [`RustItem`] stands for.
pub enum ItemView {
    Function(Seq<char>, nat, Seq<AttributeView>, Option<Seq<char>>),
    Struct(Seq<char>, Seq<Option<Seq<char>>>, Seq<AttributeView>),
    Enum(Seq<char>, Seq<Seq<char>>, Seq<AttributeView>),
    Macro(Seq<TokenView>),
    Other,
}

pub open spec fn optional_texts(list: Seq<Option<String>>) -> Seq<Option<Seq<char>>> {
    list.map_values(|o: Option<String>| opt_text(o))
}

impl View for RustItem {
    type V = ItemView;

    open spec fn view(&self) -> ItemView {
        match *self {
            RustItem::Function(name, params, docs, returned) => ItemView::Function(
                name@,
                params as nat,
                attribute_views(docs@),
                opt_text(returned),
            ),
            RustItem::Struct(name, fields, docs) => ItemView::Struct(
                name@,
                optional_texts(fields@),
                attribute_views(docs@),
            ),
            RustItem::Enum(name, variants, docs) => ItemView::Enum(
                name@,
                texts(variants@),
                attribute_views(docs@),
            ),
            RustItem::Macro(tokens) => ItemView::Macro(token_views(tokens@)),
            RustItem::Other => ItemView::Other,
        }
    }
}

pub open spec fn item_views(items: Seq<RustItem>) -> Seq<ItemView> {
    items.map_values(|i: RustItem| i@)
}

/// Where the first white space stands, from a position on.
pub open spec fn find_white(s: Seq<char>, from: nat) -> nat
    decreases s.len() - from,
{
    if from >= s.len() || is_white(s[from as int]) {
        from
    } else {
        find_white(s, from + 1)
    }
}

/// A declaration in a doc comment: what follows `nirdosha:`, cut at its first
/// white space.
pub open spec fn declaration(doc: Seq<char>) -> Option<(Seq<char>, Seq<char>)> {
    let text = trimmed(doc);
    if starts_with(text, "nirdosha:"@) {
        let rest = text.skip("nirdosha:"@.len() as int);
        let at = find_white(rest, 0) as int;
        if at < rest.len() {
            Some((rest.take(at), trimmed(rest.skip(at + 1))))
        } else {
            None
        }
    } else {
        None
    }
}

fn read_declaration(doc: &str) -> (out: Option<(String, String)>)
    ensures
        match out {
            Some((kind, payload)) => declaration(doc@) == Some((kind@, payload@)),
            None => declaration(doc@) is None,
        },
{
    let text: String = trim(doc);
    let rest: String = match strip_prefix(text.as_str(), "nirdosha:") {
        Some(rest) => rest,
        None => {
            return None;
        },
    };
    let chars: Vec<char> = chars_of(rest.as_str());
    let mut i: usize = 0;
    while i < chars.len() && !white(chars[i])
        invariant
            i <= chars@.len(),
            chars@ == rest@,
            find_white(rest@, 0) == find_white(rest@, i as nat),
        decreases chars@.len() - i,
    {
        i += 1;
    }
    if i >= chars.len() {
        return None;
    }
    let kind: String = text_of(&chars, 0, i);
    let behind: String = text_of(&chars, i + 1, chars.len());
    assert(kind@ =~= rest@.take(i as int));
    assert(behind@ =~= rest@.skip(i as int + 1));
    Some((kind, trim(behind.as_str())))
}

pub open spec fn declaration_json(
    owner: Seq<char>,
    kind: Seq<char>,
    payload: Seq<char>,
) -> JsonView {
    JsonView::Object(
        seq![
            ("owner"@, JsonView::Text(owner)),
            ("kind"@, JsonView::Text(kind)),
            ("payload"@, JsonView::Text(payload)),
        ],
    )
}

/// The declarations among the first `n` attributes of an item.
pub open spec fn declarations(
    owner: Seq<char>,
    docs: Seq<AttributeView>,
    n: nat,
) -> Seq<JsonView>
    decreases n,
{
    if n == 0 {
        Seq::empty()
    } else {
        let before = declarations(owner, docs, (n - 1) as nat);
        match doc_text(docs[n - 1]) {
            None => before,
            Some(doc) => match declaration(doc) {
                None => before,
                Some((kind, payload)) => before.push(declaration_json(owner, kind, payload)),
            },
        }
    }
}

/// Adds the declarations in the doc comments of an item.
fn nirdosha_doc_comments(docs: &Vec<RustAttribute>, owner: &str, out: &mut Vec<Json>)
    ensures
        list_views(final(out)@) == list_views(old(out)@) + declarations(
            owner@,
            attribute_views(docs@),
            docs@.len(),
        ),
{
    broadcast use list_push;

    let ghost views = attribute_views(docs@);
    let ghost start = list_views(out@);
    let mut i: usize = 0;
    assert(start + declarations(owner@, views, 0) =~= start);
    while i < docs.len()
        invariant
            i <= docs@.len(),
            views == attribute_views(docs@),
            list_views(out@) == start + declarations(owner@, views, i as nat),
        decreases docs@.len() - i,
    {
        assert(views[i as int] == docs@[i as int]@);
        if let Some(doc) = read_doc(&docs[i]) {
            if let Some((kind, payload)) = read_declaration(doc.as_str()) {
                let mut fields: Fields = Fields::new();
                fields.put_text("owner", owner);
                fields.put_text("kind", kind.as_str());
                fields.put_text("payload", payload.as_str());
                assert(fields@ =~= declaration_json(owner@, kind@, payload@)->Object_0);
                let made: Json = fields.object();
                let ghost earlier = declarations(owner@, views, i as nat);
                let ghost before = out@;
                assert((start + earlier).push(made@) =~= start + earlier.push(made@));
                out.push(made);
                assert(out@.drop_last() =~= before);
            }
        }
        i += 1;
    }
}

/// The names that there are among the first `n`.
pub open spec fn named(list: Seq<Option<Seq<char>>>, n: nat) -> Seq<Seq<char>>
    decreases n,
{
    if n == 0 {
        Seq::empty()
    } else {
        let before = named(list, (n - 1) as nat);
        match list[n - 1] {
            Some(name) => before.push(name),
            None => before,
        }
    }
}

fn keep_named(list: &Vec<Option<String>>) -> (out: Vec<String>)
    ensures
        texts(out@) == named(optional_texts(list@), list@.len()),
{
    broadcast use texts_push;

    let ghost views = optional_texts(list@);
    let mut out: Vec<String> = Vec::new();
    let mut i: usize = 0;
    assert(texts(out@) =~= Seq::<Seq<char>>::empty());
    while i < list.len()
        invariant
            i <= list@.len(),
            views == optional_texts(list@),
            texts(out@) == named(views, i as nat),
        decreases list@.len() - i,
    {
        assert(views[i as int] == opt_text(list@[i as int]));
        if let Some(name) = &list[i] {
            out.push(name.clone());
        }
        i += 1;
    }
    out
}

/// A function, a struct or an enum in a summary: its name, and one thing more.
pub open spec fn named_json(name: Seq<char>, key: Seq<char>, value: JsonView) -> JsonView {
    JsonView::Object(seq![("name"@, JsonView::Text(name)), (key, value)])
}

fn write_named(name: &str, key: &str, value: Json) -> (out: Json)
    ensures
        out@ == named_json(name@, key@, value@),
{
    let ghost said = value@;
    let mut fields: Fields = Fields::new();
    fields.put_text("name", name);
    fields.put(key, value);
    assert(fields@ =~= named_json(name@, key@, said)->Object_0);
    fields.object()
}

pub open spec fn functions(items: Seq<ItemView>, n: nat) -> Seq<JsonView>
    decreases n,
{
    if n == 0 {
        Seq::empty()
    } else {
        let before = functions(items, (n - 1) as nat);
        match items[n - 1] {
            ItemView::Function(name, params, _, _) => before.push(
                named_json(name, "params"@, JsonView::Number(decimal(params))),
            ),
            _ => before,
        }
    }
}

pub open spec fn structs(items: Seq<ItemView>, n: nat) -> Seq<JsonView>
    decreases n,
{
    if n == 0 {
        Seq::empty()
    } else {
        let before = structs(items, (n - 1) as nat);
        match items[n - 1] {
            ItemView::Struct(name, fields, _) => before.push(
                named_json(name, "fields"@, text_list(named(fields, fields.len()))),
            ),
            _ => before,
        }
    }
}

pub open spec fn enums(items: Seq<ItemView>, n: nat) -> Seq<JsonView>
    decreases n,
{
    if n == 0 {
        Seq::empty()
    } else {
        let before = enums(items, (n - 1) as nat);
        match items[n - 1] {
            ItemView::Enum(name, variants, _) => before.push(
                named_json(name, "variants"@, text_list(variants)),
            ),
            _ => before,
        }
    }
}

pub open spec fn all_declarations(items: Seq<ItemView>, n: nat) -> Seq<JsonView>
    decreases n,
{
    if n == 0 {
        Seq::empty()
    } else {
        let before = all_declarations(items, (n - 1) as nat);
        match items[n - 1] {
            ItemView::Function(name, _, docs, _) => before + declarations(name, docs, docs.len()),
            ItemView::Struct(name, _, docs) => before + declarations(name, docs, docs.len()),
            ItemView::Enum(name, _, docs) => before + declarations(name, docs, docs.len()),
            _ => before,
        }
    }
}

/// The summary of a file: its functions, structs and enums, and what their doc
/// comments declare.
pub open spec fn summary(items: Seq<ItemView>) -> JsonView {
    JsonView::Object(
        seq![
            ("functions"@, JsonView::List(functions(items, items.len()))),
            ("structs"@, JsonView::List(structs(items, items.len()))),
            ("enums"@, JsonView::List(enums(items, items.len()))),
            ("nirdosha_declarations"@, JsonView::List(all_declarations(items, items.len()))),
        ],
    )
}

/// The summary of the items of a file.
pub fn summarize(items: &Vec<RustItem>) -> (out: Json)
    ensures
        out@ == summary(item_views(items@)),
{
    broadcast use list_push;

    let ghost views = item_views(items@);
    let mut fns: Vec<Json> = Vec::new();
    let mut made_structs: Vec<Json> = Vec::new();
    let mut made_enums: Vec<Json> = Vec::new();
    let mut declared: Vec<Json> = Vec::new();
    let mut i: usize = 0;
    assert(list_views(fns@) =~= functions(views, 0));
    assert(list_views(made_structs@) =~= structs(views, 0));
    assert(list_views(made_enums@) =~= enums(views, 0));
    assert(list_views(declared@) =~= all_declarations(views, 0));
    assert(views.len() == items@.len());
    while i < items.len()
        invariant
            i <= items@.len(),
            views == item_views(items@),
            list_views(fns@) == functions(views, i as nat),
            list_views(made_structs@) == structs(views, i as nat),
            list_views(made_enums@) == enums(views, i as nat),
            list_views(declared@) == all_declarations(views, i as nat),
        decreases items@.len() - i,
    {
        assert(views[i as int] == items@[i as int]@);
        match &items[i] {
            RustItem::Function(name, params, docs, _) => {
                assert(attribute_views(docs@).len() == docs@.len());
                let made: Json = write_named(
                    name.as_str(),
                    "params",
                    Json::Number(decimal_text(*params as u64)),
                );
                let ghost before = fns@;
                fns.push(made);
                assert(fns@.drop_last() =~= before);
                nirdosha_doc_comments(docs, name.as_str(), &mut declared);
            },
            RustItem::Struct(name, fields, docs) => {
                assert(attribute_views(docs@).len() == docs@.len());
                assert(optional_texts(fields@).len() == fields@.len());
                let made: Json = write_named(
                    name.as_str(),
                    "fields",
                    texts_json(&keep_named(fields)),
                );
                let ghost before = made_structs@;
                made_structs.push(made);
                assert(made_structs@.drop_last() =~= before);
                nirdosha_doc_comments(docs, name.as_str(), &mut declared);
            },
            RustItem::Enum(name, variants, docs) => {
                assert(attribute_views(docs@).len() == docs@.len());
                let made: Json = write_named(name.as_str(), "variants", texts_json(variants));
                let ghost before = made_enums@;
                made_enums.push(made);
                assert(made_enums@.drop_last() =~= before);
                nirdosha_doc_comments(docs, name.as_str(), &mut declared);
            },
            _ => {},
        }
        i += 1;
    }
    let mut fields: Fields = Fields::new();
    fields.put("functions", Json::List(fns));
    fields.put("structs", Json::List(made_structs));
    fields.put("enums", Json::List(made_enums));
    fields.put("nirdosha_declarations", Json::List(declared));
    assert(fields@ =~= summary(views)->Object_0);
    fields.object()
}

pub open spec fn not_rust(error: Seq<char>) -> Seq<char> {
    "file does not parse as Rust: "@ + error
}

fn say_not_rust(error: &str) -> (out: String)
    ensures
        out@ == not_rust(error@),
{
    let mut out: String = "file does not parse as Rust: ".to_owned();
    out.append(error);
    out
}

/// The summary of a source text, or why it cannot be read.
pub open spec fn described(source: Seq<char>) -> Result<JsonView, Seq<char>> {
    match rust_items(source) {
        Ok(items) => Ok(summary(items)),
        Err(e) => Err(not_rust(e)),
    }
}

/// The summary of a source text.
pub fn describe_v2_source(source: &str) -> (out: Result<Json, String>)
    ensures
        match out {
            Ok(v) => described(source@) == Ok::<JsonView, Seq<char>>(v@),
            Err(e) => described(source@) == Err::<JsonView, Seq<char>>(e@),
        },
{
    match parse_rust(source) {
        Ok(items) => Ok(summarize(&items)),
        Err(e) => Err(say_not_rust(e.as_str())),
    }
}

/// The name of the screen that a macro call mounts: its first entry is
/// `mount: mount_<name>`.
pub open spec fn mounted_screen(tokens: Seq<TokenView>) -> Option<Seq<char>> {
    if tokens.len() >= 3 && tokens[0] == TokenView::Word("mount"@) && tokens[1] == TokenView::Mark(
        ':',
    ) {
        match tokens[2] {
            TokenView::Word(name) => if starts_with(name, "mount_"@) {
                Some(name.skip("mount_"@.len() as int))
            } else {
                None
            },
            _ => None,
        }
    } else {
        None
    }
}

/// The name of the screen that a macro call mounts.
pub fn screen_name(tokens: &Vec<MacroToken>) -> (out: Option<String>)
    ensures
        match out {
            Some(name) => mounted_screen(token_views(tokens@)) == Some(name@),
            None => mounted_screen(token_views(tokens@)) is None,
        },
{
    let ghost views = token_views(tokens@);
    if tokens.len() < 3 {
        return None;
    }
    assert(views[0] == tokens@[0]@ && views[1] == tokens@[1]@ && views[2] == tokens@[2]@);
    let named: bool = match &tokens[0] {
        MacroToken::Word(w) => same_text(w.as_str(), "mount"),
        _ => false,
    };
    let marked: bool = match &tokens[1] {
        MacroToken::Mark(c) => *c == ':',
        _ => false,
    };
    if !named || !marked {
        return None;
    }
    match &tokens[2] {
        MacroToken::Word(name) => strip_prefix(name.as_str(), "mount_"),
        _ => None,
    }
}

/// What a scan of a macro call for its route comes to.
pub enum RouteScan {
    /// A route.
    Found(Seq<char>),
    /// No route.
    NotFound,
    /// An entry that should be a route but is no text, which ends the search.
    Broken,
}

/// The route among the tokens from a position on: the first `path: "..."` that
/// is an absolute path other than the root.
pub open spec fn route_in(tokens: Seq<TokenView>, from: nat) -> RouteScan
    decreases tokens.len() + 3 - from,
{
    if from >= tokens.len() {
        RouteScan::NotFound
    } else if tokens[from as int] != TokenView::Word("path"@) {
        route_in(tokens, from + 1)
    } else if from + 1 >= tokens.len() || tokens[from as int + 1] != TokenView::Mark(':') {
        route_in(tokens, from + 2)
    } else if from + 2 >= tokens.len() {
        RouteScan::NotFound
    } else {
        match tokens[from as int + 2] {
            TokenView::Text(path) => if path.len() > 1 && path[0] == '/' {
                RouteScan::Found(path)
            } else {
                route_in(tokens, from + 3)
            },
            TokenView::Literal => RouteScan::Broken,
            _ => route_in(tokens, from + 3),
        }
    }
}

/// The route of the first macro call, from an item on, that mounts a screen and
/// has one.
pub open spec fn route_of(items: Seq<ItemView>, from: nat) -> Option<Seq<char>>
    decreases items.len() - from,
{
    if from >= items.len() {
        None
    } else {
        match items[from as int] {
            ItemView::Macro(tokens) => if mounted_screen(tokens) is None {
                route_of(items, from + 1)
            } else {
                match route_in(tokens, 0) {
                    RouteScan::Found(path) => Some(path),
                    RouteScan::NotFound => route_of(items, from + 1),
                    RouteScan::Broken => None,
                }
            },
            _ => route_of(items, from + 1),
        }
    }
}

/// What a scan of a macro call for its route comes to.
pub enum FoundRoute {
    Found(String),
    NotFound,
    Broken,
}

impl View for FoundRoute {
    type V = RouteScan;

    open spec fn view(&self) -> RouteScan {
        match *self {
            FoundRoute::Found(s) => RouteScan::Found(s@),
            FoundRoute::NotFound => RouteScan::NotFound,
            FoundRoute::Broken => RouteScan::Broken,
        }
    }
}

fn scan_route(tokens: &Vec<MacroToken>) -> (out: FoundRoute)
    ensures
        out@ == route_in(token_views(tokens@), 0),
{
    let ghost views = token_views(tokens@);
    let n: usize = tokens.len();
    let mut i: usize = 0;
    assert(views.len() == tokens@.len());
    while i < n
        invariant
            i <= n,
            n == tokens@.len(),
            views == token_views(tokens@),
            views.len() == n,
            route_in(views, 0) == route_in(views, i as nat),
        decreases n - i,
    {
        assert(views[i as int] == tokens@[i as int]@);
        let keyed: bool = match &tokens[i] {
            MacroToken::Word(w) => same_text(w.as_str(), "path"),
            _ => false,
        };
        if !keyed {
            i += 1;
            continue;
        }
        if n - i < 2 {
            assert(route_in(views, (i + 2) as nat) is NotFound);
            return FoundRoute::NotFound;
        }
        assert(views[i + 1] == tokens@[i + 1]@);
        let marked: bool = match &tokens[i + 1] {
            MacroToken::Mark(c) => *c == ':',
            _ => false,
        };
        if !marked {
            i += 2;
            continue;
        }
        if n - i < 3 {
            return FoundRoute::NotFound;
        }
        assert(views[i + 2] == tokens@[i + 2]@);
        match &tokens[i + 2] {
            MacroToken::Text(path) => {
                let chars: Vec<char> = chars_of(path.as_str());
                if chars.len() > 1 && chars[0] == '/' {
                    return FoundRoute::Found(path.clone());
                }
            },
            MacroToken::Literal => {
                return FoundRoute::Broken;
            },
            _ => {},
        }
        i += 3;
    }
    FoundRoute::NotFound
}

/// The route of the first screen that the items of a file mount.
pub fn first_route(items: &Vec<RustItem>) -> (out: Option<String>)
    ensures
        match out {
            Some(path) => route_of(item_views(items@), 0) == Some(path@),
            None => route_of(item_views(items@), 0) is None,
        },
{
    let ghost views = item_views(items@);
    let mut i: usize = 0;
    assert(views.len() == items@.len());
    while i < items.len()
        invariant
            i <= items@.len(),
            views == item_views(items@),
            views.len() == items@.len(),
            route_of(views, 0) == route_of(views, i as nat),
        decreases items@.len() - i,
    {
        assert(views[i as int] == items@[i as int]@);
        if let RustItem::Macro(tokens) = &items[i] {
            if screen_name(tokens).is_some() {
                match scan_route(tokens) {
                    FoundRoute::Found(path) => {
                        return Some(path);
                    },
                    FoundRoute::Broken => {
                        return None;
                    },
                    FoundRoute::NotFound => {},
                }
            }
        }
        i += 1;
    }
    None
}

/// The route of the first screen that a source text mounts.
pub open spec fn landing(source: Seq<char>) -> Option<Seq<char>> {
    match rust_items(source) {
        Ok(items) => route_of(items, 0),
        Err(_) => None,
    }
}

/// The route on which a preview of a program opens.
pub fn discover_preview_path(source: &str) -> (out: Option<String>)
    ensures
        match out {
            Some(path) => landing(source@) == Some(path@),
            None => landing(source@) is None,
        },
{
    match parse_rust(source) {
        Ok(items) => first_route(&items),
        Err(_) => None,
    }
}

/// The functions among the first `n` items of a file.
pub open spec fn fn_names(items: Seq<ItemView>, n: nat) -> Seq<Seq<char>>
    decreases n,
{
    if n == 0 {
        Seq::empty()
    } else {
        let before = fn_names(items, (n - 1) as nat);
        match items[n - 1] {
            ItemView::Function(name, _, _, _) => before.push(name),
            _ => before,
        }
    }
}

/// The functions of a file.
pub fn function_names(items: &Vec<RustItem>) -> (out: Vec<String>)
    ensures
        texts(out@) == fn_names(item_views(items@), item_views(items@).len()),
{
    broadcast use texts_push;

    let ghost views = item_views(items@);
    let mut out: Vec<String> = Vec::new();
    let mut i: usize = 0;
    assert(texts(out@) =~= Seq::<Seq<char>>::empty());
    assert(views.len() == items@.len());
    while i < items.len()
        invariant
            i <= items@.len(),
            views == item_views(items@),
            texts(out@) == fn_names(views, i as nat),
        decreases items@.len() - i,
    {
        assert(views[i as int] == items@[i as int]@);
        match &items[i] {
            RustItem::Function(name, _, _, _) => out.push(name.clone()),
            _ => {},
        }
        i += 1;
    }
    out
}

/// The names of the screens that the first `n` items of a file mount.
pub open spec fn screens_of(items: Seq<ItemView>, n: nat) -> Seq<Seq<char>>
    decreases n,
{
    if n == 0 {
        Seq::empty()
    } else {
        let before = screens_of(items, (n - 1) as nat);
        match items[n - 1] {
            ItemView::Macro(tokens) => match mounted_screen(tokens) {
                Some(name) => before.push(name),
                None => before,
            },
            _ => before,
        }
    }
}

proof fn lemma_route_absolute(tokens: Seq<TokenView>, from: nat)
    ensures
        route_in(tokens, from) matches RouteScan::Found(path) ==> path.len() > 1 && path[0] == '/',
    decreases tokens.len() + 3 - from,
{
    if from < tokens.len() {
        lemma_route_absolute(tokens, from + 1);
        lemma_route_absolute(tokens, from + 2);
        lemma_route_absolute(tokens, from + 3);
    }
}

/// A preview never opens on a relative path or on the bare root.
pub proof fn law_landing_is_absolute(items: Seq<ItemView>, from: nat)
    ensures
        route_of(items, from) matches Some(path) ==> path.len() > 1 && path[0] == '/',
    decreases items.len() - from,
{
    if from < items.len() {
        law_landing_is_absolute(items, from + 1);
        if let ItemView::Macro(tokens) = items[from as int] {
            lemma_route_absolute(tokens, 0);
        }
    }
}

/// The port that the first of some written numbers, from one of them on, says.
pub open spec fn port_among(numbers: Seq<Seq<char>>, from: nat) -> Option<nat>
    decreases numbers.len() - from,
{
    if from >= numbers.len() {
        None
    } else {
        match parsed_u64(numbers[from as int]) {
            Some(n) => if n <= u16::MAX {
                Some(n)
            } else {
                port_among(numbers, from + 1)
            },
            None => port_among(numbers, from + 1),
        }
    }
}

/// The first of some written numbers that is a port.
pub fn first_port(numbers: &Vec<String>) -> (out: Option<u16>)
    ensures
        match out {
            Some(port) => port_among(texts(numbers@), 0) == Some(port as nat),
            None => port_among(texts(numbers@), 0) is None,
        },
{
    let ghost views = texts(numbers@);
    let mut i: usize = 0;
    assert(views.len() == numbers@.len());
    while i < numbers.len()
        invariant
            i <= numbers@.len(),
            views == texts(numbers@),
            views.len() == numbers@.len(),
            port_among(views, 0) == port_among(views, i as nat),
        decreases numbers@.len() - i,
    {
        assert(views[i as int] == numbers@[i as int]@);
        match parse_u64(numbers[i].as_str()) {
            Some(n) => {
                if n <= 65535 {
                    return Some(n as u16);
                }
            },
            None => {},
        }
        i += 1;
    }
    None
}

/// The functions that are listed are those that the file declares.
pub proof fn law_listed_functions_are_declared(items: Seq<ItemView>, n: nat, name: Seq<char>)
    requires
        n <= items.len(),
    ensures
        fn_names(items, n).contains(name) <==> exists|k: int|
            0 <= k < n && (#[trigger] items[k] matches ItemView::Function(f, _, _, _) && f == name),
    decreases n,
{
    broadcast use push_has;

    if n > 0 {
        law_listed_functions_are_declared(items, (n - 1) as nat, name);
        assert(items[n - 1] matches ItemView::Function(f, _, _, _) && f == name
            ==> fn_names(items, n).contains(name));
    }
}

/// The functions that are listed stand in the order of the file.
pub proof fn law_functions_keep_their_order(items: Seq<ItemView>, n: nat)
    requires
        n <= items.len(),
    ensures
        fn_names(items, n) == items.take(n as int).filter_map(
            |i: ItemView|
                match i {
                    ItemView::Function(name, _, _, _) => Some(name),
                    _ => None,
                },
        ),
    decreases n,
{
    let f = |i: ItemView|
        match i {
            ItemView::Function(name, _, _, _) => Some(name),
            _ => None,
        };
    if n > 0 {
        law_functions_keep_their_order(items, (n - 1) as nat);
        lemma_kept_next(items, f, n - 1);
    }
}

/// A file mounts a screen exactly where one of its macro calls begins with the
/// words `mount: mount_` and the name of the screen.
pub proof fn law_mounted_screens(items: Seq<ItemView>, n: nat, name: Seq<char>)
    requires
        n <= items.len(),
    ensures
        screens_of(items, n).contains(name) <==> exists|k: int|
            0 <= k < n && (#[trigger] items[k] matches ItemView::Macro(tokens) && {
                &&& tokens.len() >= 3
                &&& tokens[0] == TokenView::Word("mount"@)
                &&& tokens[1] == TokenView::Mark(':')
                &&& tokens[2] == TokenView::Word("mount_"@ + name)
            }),
    decreases n,
{
    broadcast use push_has;

    if n > 0 {
        law_mounted_screens(items, (n - 1) as nat, name);
        if let ItemView::Macro(tokens) = items[n - 1] {
            let m = "mount_"@;
            if tokens.len() >= 3 {
                if let TokenView::Word(word) = tokens[2] {
                    if starts_with(word, m) {
                        assert(word.subrange(0, m.len() as int) == m);
                        assert(word =~= m + word.skip(m.len() as int));
                    }
                    if word == m + name {
                        assert(word.subrange(0, m.len() as int) =~= m);
                        assert(word.skip(m.len() as int) =~= name);
                    }
                    assert(m + name == word ==> mounted_screen(tokens) == Some(name)
                        || tokens[0] != TokenView::Word("mount"@) || tokens[1] != TokenView::Mark(
                        ':',
                    ));
                }
            }
        }
    }
}

proof fn lemma_find_white(s: Seq<char>, from: nat)
    requires
        from <= s.len(),
    ensures
        from <= find_white(s, from) <= s.len(),
        find_white(s, from) < s.len() ==> is_white(s[find_white(s, from) as int]),
        forall|i: int| from <= i < find_white(s, from) ==> !is_white(#[trigger] s[i]),
    decreases s.len() - from,
{
    if from < s.len() && !is_white(s[from as int]) {
        lemma_find_white(s, from + 1);
    }
}

/// A declaration of a doc comment: behind `nirdosha:` stands its kind, free of
/// white space, and behind the white space that ends the kind what is declared,
/// trimmed. A comment without the mark, or without white space behind it,
/// declares nothing.
pub proof fn law_declaration_of_a_comment(doc: Seq<char>)
    ensures
        match declaration(doc) {
            Some((kind, payload)) => {
                &&& forall|i: int| 0 <= i < kind.len() ==> !is_white(#[trigger] kind[i])
                &&& exists|gap: char, rest: Seq<char>|
                    {
                        &&& is_white(gap)
                        &&& trimmed(doc) == "nirdosha:"@ + kind + #[trigger] seq![gap].add(rest)
                        &&& payload == trimmed(rest)
                    }
            },
            None => {
                ||| !starts_with(trimmed(doc), "nirdosha:"@)
                ||| forall|i: int|
                    "nirdosha:"@.len() <= i < trimmed(doc).len() ==> !is_white(
                        #[trigger] trimmed(doc)[i],
                    )
            },
        },
{
    let text = trimmed(doc);
    let mark = "nirdosha:"@;
    if starts_with(text, mark) {
        let rest = text.skip(mark.len() as int);
        lemma_find_white(rest, 0);
        let at = find_white(rest, 0) as int;
        if at < rest.len() {
            assert(mark + rest.take(at) + seq![rest[at]].add(rest.skip(at + 1)) =~= text);
        } else {
            assert forall|i: int| mark.len() <= i < text.len() implies !is_white(
                #[trigger] text[i],
            ) by {
                assert(rest[i - mark.len()] == text[i]);
            }
        }
    }
}

/// What the doc comments of an item declare, each with its owner, in order.
pub open spec fn declared_by(owner: Seq<char>) -> spec_fn(AttributeView) -> Option<JsonView> {
    |a: AttributeView|
        if a.name == Some("doc"@) && a.value is Some && declaration(a.value->Some_0) is Some {
            Some(
                JsonView::Object(
                    seq![
                        ("owner"@, JsonView::Text(owner)),
                        ("kind"@, JsonView::Text(declaration(a.value->Some_0)->Some_0.0)),
                        ("payload"@, JsonView::Text(declaration(a.value->Some_0)->Some_0.1)),
                    ],
                ),
            )
        } else {
            None
        }
}

proof fn lemma_declarations(owner: Seq<char>, docs: Seq<AttributeView>, n: nat)
    requires
        n <= docs.len(),
    ensures
        declarations(owner, docs, n) == docs.take(n as int).filter_map(declared_by(owner)),
    decreases n,
{
    if n > 0 {
        lemma_declarations(owner, docs, (n - 1) as nat);
        lemma_kept_next(docs, declared_by(owner), n - 1);
    }
}

/// What an item declares in its doc comments; only functions, structs and enums
/// do.
pub open spec fn item_declarations() -> spec_fn(ItemView) -> Seq<JsonView> {
    |i: ItemView|
        match i {
            ItemView::Function(name, _, docs, _) => docs.filter_map(declared_by(name)),
            ItemView::Struct(name, _, docs) => docs.filter_map(declared_by(name)),
            ItemView::Enum(name, _, docs) => docs.filter_map(declared_by(name)),
            _ => Seq::empty(),
        }
}

/// The declarations of a file are those of all its items, in order.
pub proof fn law_declarations_of_a_file(items: Seq<ItemView>, n: nat)
    requires
        n <= items.len(),
    ensures
        all_declarations(items, n) == items.map_values(item_declarations()).take(
            n as int,
        ).flatten(),
    decreases n,
{
    let all = items.map_values(item_declarations());
    if n > 0 {
        law_declarations_of_a_file(items, (n - 1) as nat);
        lemma_flat_next(all, n - 1);
        match items[n - 1] {
            ItemView::Function(name, _, docs, _) => {
                lemma_declarations(name, docs, docs.len());
                assert(docs.take(docs.len() as int) =~= docs);
            },
            ItemView::Struct(name, _, docs) => {
                lemma_declarations(name, docs, docs.len());
                assert(docs.take(docs.len() as int) =~= docs);
            },
            ItemView::Enum(name, _, docs) => {
                lemma_declarations(name, docs, docs.len());
                assert(docs.take(docs.len() as int) =~= docs);
            },
            _ => {
                assert(all_declarations(items, n) =~= all.take(n as int).flatten());
            },
        }
    } else {
        assert(all.take(0) =~= Seq::<Seq<JsonView>>::empty());
    }
}

/// The names that there are, in order.
pub proof fn law_names_that_there_are(list: Seq<Option<Seq<char>>>, n: nat)
    requires
        n <= list.len(),
    ensures
        named(list, n) == list.take(n as int).filter_map(|o: Option<Seq<char>>| o),
    decreases n,
{
    if n > 0 {
        law_names_that_there_are(list, (n - 1) as nat);
        lemma_kept_next(list, |o: Option<Seq<char>>| o, n - 1);
    }
}

/// A summary lists every function of a file with the number of its parameters,
/// every struct with its fields, every enum with its variants, and all
/// declarations; nothing else.
pub proof fn law_summary_of_a_file(items: Seq<ItemView>)
    ensures
        summary(items) is Object,
        summary(items)->Object_0.len() == 4,
        summary(items)->Object_0[0] == ("functions"@, JsonView::List(
            items.filter_map(
                |i: ItemView|
                    match i {
                        ItemView::Function(name, params, _, _) => Some(
                            JsonView::Object(
                                seq![
                                    ("name"@, JsonView::Text(name)),
                                    ("params"@, JsonView::Number(decimal(params))),
                                ],
                            ),
                        ),
                        _ => None,
                    },
            ),
        )),
        summary(items)->Object_0[1] == ("structs"@, JsonView::List(
            items.filter_map(
                |i: ItemView|
                    match i {
                        ItemView::Struct(name, fields, _) => Some(
                            JsonView::Object(
                                seq![
                                    ("name"@, JsonView::Text(name)),
                                    ("fields"@, text_list(named(fields, fields.len()))),
                                ],
                            ),
                        ),
                        _ => None,
                    },
            ),
        )),
        summary(items)->Object_0[2] == ("enums"@, JsonView::List(
            items.filter_map(
                |i: ItemView|
                    match i {
                        ItemView::Enum(name, variants, _) => Some(
                            JsonView::Object(
                                seq![
                                    ("name"@, JsonView::Text(name)),
                                    ("variants"@, text_list(variants)),
                                ],
                            ),
                        ),
                        _ => None,
                    },
            ),
        )),
        summary(items)->Object_0[3] == ("nirdosha_declarations"@, JsonView::List(
            items.map_values(item_declarations()).flatten(),
        )),
{
    let n = items.len();
    lemma_functions(items, n);
    lemma_structs(items, n);
    lemma_enums(items, n);
    law_declarations_of_a_file(items, n);
    let all = items.map_values(item_declarations());
    assert(all.take(n as int) =~= all);
    assert(items.take(n as int) =~= items);
}

proof fn lemma_functions(items: Seq<ItemView>, n: nat)
    requires
        n <= items.len(),
    ensures
        functions(items, n) == items.take(n as int).filter_map(
            |i: ItemView|
                match i {
                    ItemView::Function(name, params, _, _) => Some(
                        JsonView::Object(
                            seq![
                                ("name"@, JsonView::Text(name)),
                                ("params"@, JsonView::Number(decimal(params))),
                            ],
                        ),
                    ),
                    _ => None,
                },
        ),
    decreases n,
{
    let f = |i: ItemView|
        match i {
            ItemView::Function(name, params, _, _) => Some(
                JsonView::Object(
                    seq![
                        ("name"@, JsonView::Text(name)),
                        ("params"@, JsonView::Number(decimal(params))),
                    ],
                ),
            ),
            _ => None,
        };
    if n > 0 {
        lemma_functions(items, (n - 1) as nat);
        lemma_kept_next(items, f, n - 1);
    }
}

proof fn lemma_structs(items: Seq<ItemView>, n: nat)
    requires
        n <= items.len(),
    ensures
        structs(items, n) == items.take(n as int).filter_map(
            |i: ItemView|
                match i {
                    ItemView::Struct(name, fields, _) => Some(
                        JsonView::Object(
                            seq![
                                ("name"@, JsonView::Text(name)),
                                ("fields"@, text_list(named(fields, fields.len()))),
                            ],
                        ),
                    ),
                    _ => None,
                },
        ),
    decreases n,
{
    let f = |i: ItemView|
        match i {
            ItemView::Struct(name, fields, _) => Some(
                JsonView::Object(
                    seq![
                        ("name"@, JsonView::Text(name)),
                        ("fields"@, text_list(named(fields, fields.len()))),
                    ],
                ),
            ),
            _ => None,
        };
    if n > 0 {
        lemma_structs(items, (n - 1) as nat);
        lemma_kept_next(items, f, n - 1);
    }
}

proof fn lemma_enums(items: Seq<ItemView>, n: nat)
    requires
        n <= items.len(),
    ensures
        enums(items, n) == items.take(n as int).filter_map(
            |i: ItemView|
                match i {
                    ItemView::Enum(name, variants, _) => Some(
                        JsonView::Object(
                            seq![
                                ("name"@, JsonView::Text(name)),
                                ("variants"@, text_list(variants)),
                            ],
                        ),
                    ),
                    _ => None,
                },
        ),
    decreases n,
{
    let f = |i: ItemView|
        match i {
            ItemView::Enum(name, variants, _) => Some(
                JsonView::Object(
                    seq![
                        ("name"@, JsonView::Text(name)),
                        ("variants"@, text_list(variants)),
                    ],
                ),
            ),
            _ => None,
        };
    if n > 0 {
        lemma_enums(items, (n - 1) as nat);
        lemma_kept_next(items, f, n - 1);
    }
}

/// A route that is found stands behind `path:`, begins with a slash and is more
/// than that; and such a route is found where no other `path` stands before it.
pub proof fn law_route_of_a_macro(tokens: Seq<TokenView>, from: nat)
    ensures
        route_in(tokens, from) matches RouteScan::Found(path) ==> exists|i: int|
            {
                &&& from <= i < tokens.len() - 2
                &&& #[trigger] tokens[i] == TokenView::Word("path"@)
                &&& tokens[i + 1] == TokenView::Mark(':')
                &&& tokens[i + 2] == TokenView::Text(path)
                &&& path.len() > 1
                &&& path[0] == '/'
            },
        forall|i: int|
            {
                &&& from <= i < tokens.len() - 2
                &&& #[trigger] tokens[i] == TokenView::Word("path"@)
                &&& tokens[i + 1] == TokenView::Mark(':')
                &&& tokens[i + 2] is Text
                &&& tokens[i + 2]->Text_0.len() > 1
                &&& tokens[i + 2]->Text_0[0] == '/'
                &&& forall|j: int| from <= j < i ==> #[trigger] tokens[j] != TokenView::Word(
                    "path"@,
                )
            } ==> route_in(tokens, from) == RouteScan::Found(tokens[i + 2]->Text_0),
    decreases tokens.len() + 3 - from,
{
    if from < tokens.len() {
        let at = from as int;
        if tokens[at] != TokenView::Word("path"@) {
            law_route_of_a_macro(tokens, from + 1);
        } else if from + 1 >= tokens.len() || tokens[at + 1] != TokenView::Mark(':') {
            law_route_of_a_macro(tokens, from + 2);
        } else if from + 2 < tokens.len() {
            law_route_of_a_macro(tokens, from + 3);
        }
        if let RouteScan::Found(path) = route_in(tokens, from) {
            if tokens[at] == TokenView::Word("path"@) && at + 2 < tokens.len() && tokens[at + 1]
                == TokenView::Mark(':') && tokens[at + 2] == TokenView::Text(path) {
                assert(tokens[at] == TokenView::Word("path"@));
            }
        }
    }
}

/// The landing route of a file is that of the first macro that mounts a screen
/// and has one.
pub proof fn law_landing_is_the_first_route(items: Seq<ItemView>, from: nat)
    ensures
        route_of(items, from) matches Some(path) ==> exists|k: int|
            {
                &&& from <= k < items.len()
                &&& #[trigger] items[k] is Macro
                &&& mounted_screen(items[k]->Macro_0) is Some
                &&& route_in(items[k]->Macro_0, 0) == RouteScan::Found(path)
                &&& forall|j: int|
                    from <= j < k && #[trigger] items[j] is Macro && mounted_screen(
                        items[j]->Macro_0,
                    ) is Some ==> route_in(items[j]->Macro_0, 0) is NotFound
            },
        route_of(items, from) is None ==> forall|k: int|
            from <= k < items.len() && #[trigger] items[k] is Macro && mounted_screen(
                items[k]->Macro_0,
            ) is Some && route_in(items[k]->Macro_0, 0) is Found ==> exists|j: int|
                {
                    &&& from <= j < k
                    &&& #[trigger] items[j] is Macro
                    &&& mounted_screen(items[j]->Macro_0) is Some
                    &&& route_in(items[j]->Macro_0, 0) is Broken
                },
    decreases items.len() - from,
{
    if from < items.len() {
        law_landing_is_the_first_route(items, from + 1);
        let at = from as int;
        assert(items[at] == items[at]);
    }
}

/// The port that is found is the first of the numbers that is one: below 2^16.
pub proof fn law_first_port(numbers: Seq<Seq<char>>, from: nat)
    ensures
        match port_among(numbers, from) {
            Some(port) => exists|i: int|
                {
                    &&& from <= i < numbers.len()
                    &&& parsed_u64(#[trigger] numbers[i]) == Some(port)
                    &&& port < 65536
                    &&& forall|j: int|
                        from <= j < i ==> (parsed_u64(#[trigger] numbers[j]) matches Some(n)
                            ==> n >= 65536)
                },
            None => forall|j: int|
                from <= j < numbers.len() ==> (parsed_u64(#[trigger] numbers[j]) matches Some(n)
                    ==> n >= 65536),
        },
    decreases numbers.len() - from,
{
    if from < numbers.len() {
        law_first_port(numbers, from + 1);
        assert(parsed_u64(numbers[from as int]) == parsed_u64(numbers[from as int]));
    }
}

/// What is said of a file that cannot be read tells why.
pub proof fn law_what_is_said(a: Seq<char>)
    ensures
        not_rust(a) == "file does not parse as Rust: "@ + a,
{
}

} // verus!
