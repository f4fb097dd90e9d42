//! Adding a screen to the register: the entry is checked against the
//! vocabulary of the register itself, and nothing is written unless every
//! field passes.
use crate::api::query::{body_param, form_param, form_readable, is_form_readable};
use crate::api::register::{
    law_suggested_ids_are_new, next_ids, numberable, parse_failure, screen_words,
    unparsed_register, words,
};
use crate::api::response::{responds_error, responds_json, ApiResponse};
use crate::composer::decl::opt_text;
use crate::composer::entities::or_empty;
use crate::composer::integrity::{hex, hex_bytes};
use crate::composer::render::{list_text, plain_line, text_line};
use crate::json::{Fields, JsonView};
use crate::lists::{lemma_kept_next, lemma_nothing_kept};
use crate::outside::{parse_toml, toml_parsed};
use crate::text::{
    all_digits, capital, chars_of, contains, contains_text, cut, digit, ends_with, find_char,
    has_prefix, has_suffix, has_text, integer, integer_text, is_all_digits, is_alphanumeric,
    is_digit, is_lower, join, join_texts, law_cutting, law_splitting, law_trimming,
    lemma_find_char, lemma_split_two, listed, lower, occurs, occurs_at, quote, quoted, same_text,
    small, split, split_char, split_list, split_once, starts_with, text_of, texts, texts_push,
    to_capital, to_small, trim, trim_end, trimmed, trimmed_end, upper,
};
use crate::toml_value::{
    field, integer_field, item_views, items_field, lemma_item_views, starts_same, TomlValue,
    TomlView,
};
use vstd::prelude::*;
use vstd::string::*;
use vstd::utf8::encode_utf8;

verus! {

/// A screen entry as it was sent; the name and the identifier are trimmed.
#[derive(Debug, PartialEq)]
pub struct ScreenEntry {
    pub name: String,
    pub id: String,
    pub module: String,
    pub archetype: String,
    pub stage: String,
    pub roles: String,
    pub path: String,
    pub file: String,
    pub notes: String,
    pub datasets: String,
    pub blocked_by: String,
}

/// A parameter that is given and not blank.
pub open spec fn given(body: Seq<u8>, key: Seq<char>) -> bool {
    form_param(body, key) matches Some(v) && trimmed(v).len() > 0
}

/// A parameter, empty where it is absent.
pub open spec fn sent(body: Seq<u8>, key: Seq<char>) -> Seq<char> {
    or_empty(form_param(body, key))
}

/// The optional parameters can be decoded.
pub open spec fn rest_readable(body: Seq<u8>) -> bool {
    &&& form_readable(body, "module"@)
    &&& form_readable(body, "archetype"@)
    &&& form_readable(body, "stage"@)
    &&& form_readable(body, "roles"@)
    &&& form_readable(body, "path"@)
    &&& form_readable(body, "file"@)
    &&& form_readable(body, "notes"@)
    &&& form_readable(body, "datasets"@)
    &&& form_readable(body, "blocked_by"@)
}

/// Every parameter that is read can be decoded.
pub open spec fn entry_readable(body: Seq<u8>) -> bool {
    &&& form_readable(body, "name"@)
    &&& given(body, "name"@) ==> form_readable(body, "id"@)
    &&& given(body, "name"@) && given(body, "id"@) ==> rest_readable(body)
}

/// The entry holds what the body says.
pub open spec fn entry_of(body: Seq<u8>, e: ScreenEntry) -> bool {
    &&& e.name@ == trimmed(sent(body, "name"@))
    &&& e.id@ == trimmed(sent(body, "id"@))
    &&& e.module@ == sent(body, "module"@)
    &&& e.archetype@ == sent(body, "archetype"@)
    &&& e.stage@ == sent(body, "stage"@)
    &&& e.roles@ == sent(body, "roles"@)
    &&& e.path@ == sent(body, "path"@)
    &&& e.file@ == sent(body, "file"@)
    &&& e.notes@ == sent(body, "notes"@)
    &&& e.datasets@ == sent(body, "datasets"@)
    &&& e.blocked_by@ == sent(body, "blocked_by"@)
}

fn read_given(body: &[u8], key: &str) -> (out: Option<String>)
    requires
        form_readable(body@, key@),
    ensures
        match out {
            Some(s) => given(body@, key@) && s@ == trimmed(sent(body@, key@)),
            None => !given(body@, key@),
        },
{
    match body_param(body, key) {
        Some(v) => {
            let t: String = trim(v.as_str());
            if t.as_str().is_empty() {
                None
            } else {
                Some(t)
            }
        },
        None => None,
    }
}

fn read_sent(body: &[u8], key: &str) -> (out: String)
    requires
        form_readable(body@, key@),
    ensures
        out@ == sent(body@, key@),
{
    match body_param(body, key) {
        Some(v) => v,
        None => String::new(),
    }
}

fn is_rest_readable(body: &[u8]) -> (r: bool)
    ensures
        r == rest_readable(body@),
{
    is_form_readable(body, "module") && is_form_readable(body, "archetype") && is_form_readable(
        body,
        "stage",
    ) && is_form_readable(body, "roles") && is_form_readable(body, "path") && is_form_readable(
        body,
        "file",
    ) && is_form_readable(body, "notes") && is_form_readable(body, "datasets") && is_form_readable(
        body,
        "blocked_by",
    )
}

/// Reads a screen entry from a request body. A missing name or identifier is
/// answered at once; nothing comes back where a parameter that is read cannot
/// be decoded.
pub fn read_entry(body: &[u8]) -> (out: Option<Result<ScreenEntry, ApiResponse>>)
    ensures
        match out {
            None => !entry_readable(body@),
            Some(r) => entry_readable(body@) && match r {
                Ok(e) => given(body@, "name"@) && given(body@, "id"@) && entry_of(body@, e),
                Err(a) => if !given(body@, "name"@) {
                    responds_error(a, 400, "missing required body param `name`"@)
                } else {
                    !given(body@, "id"@) && responds_error(
                        a,
                        400,
                        "missing required body param `id`"@,
                    )
                },
            },
        },
{
    if !is_form_readable(body, "name") {
        return None;
    }
    let name: String = match read_given(body, "name") {
        Some(name) => name,
        None => {
            return Some(Err(ApiResponse::error(400, "missing required body param `name`")));
        },
    };
    if !is_form_readable(body, "id") {
        return None;
    }
    let id: String = match read_given(body, "id") {
        Some(id) => id,
        None => {
            return Some(Err(ApiResponse::error(400, "missing required body param `id`")));
        },
    };
    if !is_rest_readable(body) {
        return None;
    }
    Some(
        Ok(
            ScreenEntry {
                name,
                id,
                module: read_sent(body, "module"),
                archetype: read_sent(body, "archetype"),
                stage: read_sent(body, "stage"),
                roles: read_sent(body, "roles"),
                path: read_sent(body, "path"),
                file: read_sent(body, "file"),
                notes: read_sent(body, "notes"),
                datasets: read_sent(body, "datasets"),
                blocked_by: read_sent(body, "blocked_by"),
            },
        ),
    )
}

/// What is wrong with a name.
pub open spec fn name_problem(e: ScreenEntry) -> Option<Seq<char>> {
    if encode_utf8(e.name@).len() > 120 {
        Some("keep the name under 120 characters"@)
    } else {
        None
    }
}

/// An identifier is two numbers with a dot between them.
pub open spec fn id_shaped(id: Seq<char>) -> bool {
    let parts = split(id, '.');
    parts.len() == 2 && all_digits(parts[0]) && all_digits(parts[1])
}

/// What is wrong with an identifier.
pub open spec fn id_problem(e: ScreenEntry, doc: TomlView) -> Option<Seq<char>> {
    if !id_shaped(e.id@) {
        Some("use the register's <module-serial>.<seq> shape, e.g. 4.14"@)
    } else if words(doc, "id"@).contains(e.id@) {
        Some("screen "@ + e.id@ + " already exists in the register"@)
    } else {
        None
    }
}

/// What is wrong with a module.
pub open spec fn module_problem(e: ScreenEntry, doc: TomlView) -> Option<Seq<char>> {
    if words(doc, "module"@).contains(e.module@) {
        None
    } else {
        Some("unknown module '"@ + e.module@ + "' -- pick one the register already uses"@)
    }
}

/// What is wrong with an archetype.
pub open spec fn archetype_problem(e: ScreenEntry, doc: TomlView) -> Option<Seq<char>> {
    if words(doc, "archetype"@).contains(e.archetype@) {
        None
    } else {
        Some("unknown archetype '"@ + e.archetype@ + "' -- pick one the register uses"@)
    }
}

/// A role is a name and an access mode.
pub open spec fn role_shaped(role: Seq<char>) -> bool {
    match cut(role, ':') {
        Some((name, mode)) => name.len() > 0 && (mode == "R"@ || mode == "R/W"@ || mode == "W"@),
        None => false,
    }
}

/// Those of the roles that are not of the right shape.
pub open spec fn bad_roles(roles: Seq<Seq<char>>) -> Seq<Seq<char>>
    decreases roles.len(),
{
    if roles.len() == 0 {
        Seq::empty()
    } else {
        let before = bad_roles(roles.drop_last());
        if role_shaped(roles.last()) {
            before
        } else {
            before.push(roles.last())
        }
    }
}

/// The roles of an entry.
pub open spec fn roles_of(e: ScreenEntry) -> Seq<Seq<char>> {
    listed(split(e.roles@, ','))
}

/// What is wrong with the roles.
pub open spec fn roles_problem(e: ScreenEntry) -> Option<Seq<char>> {
    let roles = roles_of(e);
    let bad = bad_roles(roles);
    if roles.len() == 0 {
        Some("pick at least one role"@)
    } else if bad.len() > 0 {
        Some(
            "roles must be `Name:R`, `Name:R/W` or `Name:W` -- got "@ + join(bad, ", "@),
        )
    } else {
        None
    }
}

/// The characters of a route.
pub open spec fn route_char(c: char) -> bool {
    is_lower(c) || is_digit(c) || c == '/' || c == '-' || c == '{' || c == '}' || c == '_'
}

/// A placeholder is closed.
pub open spec fn placeholder_closed(piece: Seq<char>) -> bool {
    starts_with(piece, "{"@) ==> ends_with(piece, "}"@)
}

/// A route starts with a slash, has no empty step, uses only lower-case
/// letters, digits and `/-{}_`, and closes its placeholders.
pub open spec fn route_shaped(route: Seq<char>) -> bool {
    &&& starts_with(route, "/"@)
    &&& !contains_text(route, "//"@)
    &&& forall|i: int| 0 <= i < route.len() ==> route_char(#[trigger] route[i])
    &&& forall|i: int|
        0 <= i < split(route, '/').len() ==> placeholder_closed(#[trigger] split(route, '/')[i])
}

/// What is wrong with a route.
pub open spec fn path_problem(e: ScreenEntry) -> Option<Seq<char>> {
    let route = trimmed(e.path@);
    if route.len() == 0 || route_shaped(route) {
        None
    } else {
        Some("routes are kebab-case with {param} placeholders, e.g. /holds/{id}"@)
    }
}

/// What is wrong with a file.
pub open spec fn file_problem(e: ScreenEntry, doc: TomlView) -> Option<Seq<char>> {
    let file = trimmed(e.file@);
    if file.len() == 0 || words(doc, "file"@).contains(file) {
        None
    } else {
        Some("the file must be one the register already tracks"@)
    }
}

/// What is wrong with a stage.
pub open spec fn stage_problem(e: ScreenEntry, doc: TomlView) -> Option<Seq<char>> {
    let stage = trimmed(e.stage@);
    if stage.len() == 0 || words(doc, "stage"@).contains(stage) {
        None
    } else {
        Some("unknown stage '"@ + stage + "'"@)
    }
}

/// The list with one more problem, where there is one.
pub open spec fn noted(
    list: Seq<(Seq<char>, JsonView)>,
    key: Seq<char>,
    problem: Option<Seq<char>>,
) -> Seq<(Seq<char>, JsonView)> {
    match problem {
        Some(m) => list.push((key, JsonView::Text(m))),
        None => list,
    }
}

/// Everything that is wrong with an entry, field by field.
pub open spec fn problems(e: ScreenEntry, doc: TomlView) -> Seq<(Seq<char>, JsonView)> {
    let p = Seq::empty();
    let p = noted(p, "name"@, name_problem(e));
    let p = noted(p, "id"@, id_problem(e, doc));
    let p = noted(p, "module"@, module_problem(e, doc));
    let p = noted(p, "archetype"@, archetype_problem(e, doc));
    let p = noted(p, "roles"@, roles_problem(e));
    let p = noted(p, "path"@, path_problem(e));
    let p = noted(p, "file"@, file_problem(e, doc));
    noted(p, "stage"@, stage_problem(e, doc))
}

fn note(list: &mut Fields, key: &str, problem: &Option<String>)
    ensures
        final(list)@ == noted(old(list)@, key@, opt_text(*problem)),
{
    match problem {
        Some(m) => {
            list.put_text(key, m.as_str());
        },
        None => {},
    }
}

fn around(before: &str, middle: &str, after: &str) -> (out: String)
    ensures
        out@ == before@ + middle@ + after@,
{
    let mut out: String = before.to_owned();
    out.append(middle);
    out.append(after);
    out
}

fn check_id(e: &ScreenEntry, doc: &TomlValue) -> (out: Option<String>)
    ensures
        opt_text(out) == id_problem(*e, doc@),
{
    let parts: Vec<String> = split_char(e.id.as_str(), '.');
    assert(texts(parts@).len() == parts@.len());
    assert(parts@.len() > 0 ==> texts(parts@)[0] == parts@[0]@);
    assert(parts@.len() > 1 ==> texts(parts@)[1] == parts@[1]@);
    let shaped: bool = parts.len() == 2 && is_all_digits(parts[0].as_str()) && is_all_digits(
        parts[1].as_str(),
    );
    if !shaped {
        Some("use the register's <module-serial>.<seq> shape, e.g. 4.14".to_owned())
    } else if has_text(&screen_words(doc, "id"), e.id.as_str()) {
        Some(around("screen ", e.id.as_str(), " already exists in the register"))
    } else {
        None
    }
}

fn is_role_shaped(role: &str) -> (r: bool)
    ensures
        r == role_shaped(role@),
{
    match split_once(role, ':') {
        Some((name, mode)) => !name.as_str().is_empty() && (same_text(mode.as_str(), "R")
            || same_text(mode.as_str(), "R/W") || same_text(mode.as_str(), "W")),
        None => false,
    }
}

fn check_roles(e: &ScreenEntry) -> (out: Option<String>)
    ensures
        opt_text(out) == roles_problem(*e),
{
    broadcast use texts_push;

    let roles: Vec<String> = split_list(e.roles.as_str());
    let ghost all = texts(roles@);
    assert(all.len() == roles@.len());
    if roles.len() == 0 {
        return Some("pick at least one role".to_owned());
    }
    let mut bad: Vec<String> = Vec::new();
    let mut i: usize = 0;
    assert(texts(bad@) =~= bad_roles(all.take(0)));
    while i < roles.len()
        invariant
            i <= roles@.len(),
            all == texts(roles@),
            texts(bad@) == bad_roles(all.take(i as int)),
        decreases roles@.len() - i,
    {
        assert(all.take(i as int + 1).drop_last() =~= all.take(i as int));
        assert(all[i as int] == roles@[i as int]@);
        if !is_role_shaped(roles[i].as_str()) {
            bad.push(roles[i].clone());
        }
        i += 1;
    }
    assert(all.take(i as int) =~= all);
    assert(texts(bad@).len() == bad@.len());
    if bad.len() > 0 {
        let mut msg: String = "roles must be `Name:R`, `Name:R/W` or `Name:W` -- got ".to_owned();
        msg.append(join_texts(&bad, ", ").as_str());
        return Some(msg);
    }
    None
}

fn is_route_shaped(route: &str) -> (r: bool)
    ensures
        r == route_shaped(route@),
{
    if !has_prefix(route, "/") || contains(route, "//") {
        return false;
    }
    let chars: Vec<char> = chars_of(route);
    let mut i: usize = 0;
    while i < chars.len()
        invariant
            i <= chars@.len(),
            chars@ == route@,
            forall|j: int| 0 <= j < i ==> route_char(#[trigger] route@[j]),
        decreases chars@.len() - i,
    {
        let c: char = chars[i];
        if !(lower(c) || digit(c) || c == '/' || c == '-' || c == '{' || c == '}' || c == '_') {
            assert(!route_char(route@[i as int]));
            return false;
        }
        i += 1;
    }
    let pieces: Vec<String> = split_char(route, '/');
    let ghost all = texts(pieces@);
    let mut k: usize = 0;
    while k < pieces.len()
        invariant
            k <= pieces@.len(),
            all == texts(pieces@),
            all == split(route@, '/'),
            forall|j: int| 0 <= j < k ==> placeholder_closed(#[trigger] all[j]),
        decreases pieces@.len() - k,
    {
        assert(all[k as int] == pieces@[k as int]@);
        if has_prefix(pieces[k].as_str(), "{") && !has_suffix(pieces[k].as_str(), "}") {
            assert(!placeholder_closed(split(route@, '/')[k as int]));
            return false;
        }
        k += 1;
    }
    true
}

/// Everything that is wrong with an entry.
pub fn check_entry(e: &ScreenEntry, doc: &TomlValue) -> (out: Fields)
    ensures
        out@ == problems(*e, doc@),
{
    let name: Option<String> = if e.name.as_str().as_bytes().len() > 120 {
        Some("keep the name under 120 characters".to_owned())
    } else {
        None
    };
    let module: Option<String> = if has_text(&screen_words(doc, "module"), e.module.as_str()) {
        None
    } else {
        Some(
            around(
                "unknown module '",
                e.module.as_str(),
                "' -- pick one the register already uses",
            ),
        )
    };
    let archetype: Option<String> = if has_text(
        &screen_words(doc, "archetype"),
        e.archetype.as_str(),
    ) {
        None
    } else {
        Some(
            around(
                "unknown archetype '",
                e.archetype.as_str(),
                "' -- pick one the register uses",
            ),
        )
    };
    let route: String = trim(e.path.as_str());
    let path: Option<String> = if route.as_str().is_empty() || is_route_shaped(route.as_str()) {
        None
    } else {
        Some("routes are kebab-case with {param} placeholders, e.g. /holds/{id}".to_owned())
    };
    let listed_file: String = trim(e.file.as_str());
    let file: Option<String> = if listed_file.as_str().is_empty() || has_text(
        &screen_words(doc, "file"),
        listed_file.as_str(),
    ) {
        None
    } else {
        Some("the file must be one the register already tracks".to_owned())
    };
    let wanted: String = trim(e.stage.as_str());
    let stage: Option<String> = if wanted.as_str().is_empty() || has_text(
        &screen_words(doc, "stage"),
        wanted.as_str(),
    ) {
        None
    } else {
        Some(around("unknown stage '", wanted.as_str(), "'"))
    };
    let mut list: Fields = Fields::new();
    note(&mut list, "name", &name);
    note(&mut list, "id", &check_id(e, doc));
    note(&mut list, "module", &module);
    note(&mut list, "archetype", &archetype);
    note(&mut list, "roles", &check_roles(e));
    note(&mut list, "path", &path);
    note(&mut list, "file", &file);
    note(&mut list, "stage", &stage);
    list
}

/// The JSON of a refused entry.
pub open spec fn refusal_json(list: Seq<(Seq<char>, JsonView)>) -> JsonView {
    JsonView::Object(
        seq![
            ("error"@, JsonView::Text("invalid screen entry"@)),
            ("fields"@, JsonView::Object(list)),
        ],
    )
}

/// Whether an entry fits the register; the answer with every problem
/// otherwise.
pub fn validate_entry(e: &ScreenEntry, doc: &TomlValue) -> (r: Result<(), ApiResponse>)
    ensures
        match r {
            Ok(_) => problems(*e, doc@).len() == 0,
            Err(a) => problems(*e, doc@).len() > 0 && responds_json(
                a,
                400,
                refusal_json(problems(*e, doc@)),
            ),
        },
{
    let list: Fields = check_entry(e, doc);
    let ghost view = list@;
    if list.is_empty() {
        return Ok(());
    }
    let mut fields: Fields = Fields::new();
    fields.put_text("error", "invalid screen entry");
    fields.put("fields", list.object());
    assert(refusal_json(view)->Object_0 =~= fields@);
    Err(ApiResponse::json_with(400, &fields.object()))
}

/// The name of a screen's unit in the graph: its words run together, each
/// capitalised and otherwise small.
pub open spec fn unit_name(name: Seq<char>) -> Seq<char>
    decreases name.len(),
{
    if name.len() == 0 {
        Seq::empty()
    } else {
        let before = unit_name(name.drop_last());
        let c = name.last();
        if !is_alphanumeric(c) {
            before
        } else if name.len() == 1 || !is_alphanumeric(name[name.len() - 2]) {
            before.push(capital(c))
        } else {
            before.push(small(c))
        }
    }
}

/// The name of a screen's unit, never empty.
pub open spec fn candidate_name(name: Seq<char>) -> Seq<char> {
    if unit_name(name).len() == 0 {
        "NewScreen"@
    } else {
        unit_name(name)
    }
}

/// The name of the graph unit that stands for a screen.
pub fn graph_name(name: &str) -> (out: String)
    ensures
        out@ == candidate_name(name@),
{
    let chars: Vec<char> = chars_of(name);
    let mut out: String = String::new();
    let mut first: bool = true;
    let mut i: usize = 0;
    while i < chars.len()
        invariant
            i <= chars@.len(),
            chars@ == name@,
            out@ == unit_name(name@.take(i as int)),
            first == (i == 0 || !is_alphanumeric(name@[i - 1])),
        decreases chars@.len() - i,
    {
        let c: char = chars[i];
        assert(name@.take(i as int + 1).drop_last() =~= name@.take(i as int));
        if !(lower(c) || upper(c) || digit(c)) {
            first = true;
        } else {
            if first {
                out.push(to_capital(c));
            } else {
                out.push(to_small(c));
            }
            first = false;
        }
        i += 1;
    }
    assert(name@.take(name@.len() as int) =~= name@);
    if out.as_str().is_empty() {
        "NewScreen".to_owned()
    } else {
        out
    }
}

/// What is said where the graph already has a code unit of that name.
pub open spec fn clash_text(unit: Seq<char>) -> Seq<char> {
    "the graph already has a synced code unit named `"@ + unit
        + "` -- tweak the name so the candidate is a distinct node"@
}

/// The answer where the graph already has a code unit of that name.
pub fn name_clash(unit: &str) -> (out: ApiResponse)
    ensures
        responds_error(out, 400, clash_text(unit@)),
{
    ApiResponse::error(
        400,
        around(
            "the graph already has a synced code unit named `",
            unit,
            "` -- tweak the name so the candidate is a distinct node",
        ).as_str(),
    )
}

/// The character may not stand in a TOML string as it is.
pub open spec fn is_control(c: char) -> bool {
    (c as nat) < 32 && c != '\t' || c as nat == 127
}

/// A character as it stands in a TOML string.
pub open spec fn escaped_char(c: char) -> Seq<char> {
    if c == '\\' {
        "\\\\"@
    } else if c == '"' {
        "\\\""@
    } else if c == '\n' {
        "\\n"@
    } else if c == '\r' {
        "\\r"@
    } else if is_control(c) {
        "\\u00"@ + hex(seq![c as u8])
    } else {
        seq![c]
    }
}

/// A text as it stands in a TOML string: on one line, with its backslashes,
/// double quotes and control characters escaped.
pub open spec fn toml_escaped(s: Seq<char>) -> Seq<char>
    decreases s.len(),
{
    if s.len() == 0 {
        Seq::empty()
    } else {
        toml_escaped(s.drop_last()) + escaped_char(s.last())
    }
}

fn escape_char(c: char) -> (out: String)
    ensures
        out@ == escaped_char(c),
{
    if c == '\\' {
        "\\\\".to_owned()
    } else if c == '"' {
        "\\\"".to_owned()
    } else if c == '\n' {
        "\\n".to_owned()
    } else if c == '\r' {
        "\\r".to_owned()
    } else {
        let n: u32 = c as u32;
        if (n < 32 && c != '\t') || n == 127 {
            let mut code: Vec<u8> = Vec::new();
            code.push(n as u8);
            let mut out: String = "\\u00".to_owned();
            out.append(hex_bytes(code.as_slice()).as_str());
            assert(code@ =~= seq![c as u8]);
            out
        } else {
            let mut out: String = String::new();
            out.push(c);
            assert(out@ =~= seq![c]);
            out
        }
    }
}

fn toml_escape(s: &str) -> (out: String)
    ensures
        out@ == toml_escaped(s@),
{
    let chars: Vec<char> = chars_of(s);
    let mut out: String = String::new();
    let mut i: usize = 0;
    assert(s@.take(0) =~= Seq::<char>::empty());
    while i < chars.len()
        invariant
            i <= chars@.len(),
            chars@ == s@,
            out@ == toml_escaped(s@.take(i as int)),
        decreases chars@.len() - i,
    {
        out.append(escape_char(chars[i]).as_str());
        assert(s@.take(i as int + 1).drop_last() =~= s@.take(i as int));
        i += 1;
    }
    assert(s@.take(s@.len() as int) =~= s@);
    out
}

/// The line of an escaped text.
pub open spec fn escaped_line(key: Seq<char>, value: Seq<char>) -> Seq<char> {
    text_line(key, toml_escaped(value))
}

/// The line of a list of escaped texts.
pub open spec fn escaped_list_line(key: Seq<char>, items: Seq<Seq<char>>) -> Seq<char> {
    plain_line(key, list_text(items.map_values(|s: Seq<char>| toml_escaped(s))))
}

fn put_line(key: &str, value: &str) -> (out: String)
    ensures
        out@ == escaped_line(key@, value@),
{
    let mut out: String = key.to_owned();
    out.append(" = \"");
    out.append(toml_escape(value).as_str());
    out.append("\"\n");
    out
}

fn put_list_line(key: &str, items: &Vec<String>) -> (out: String)
    ensures
        out@ == escaped_list_line(key@, texts(items@)),
{
    broadcast use texts_push;

    let ghost all = texts(items@).map_values(|s: Seq<char>| toml_escaped(s));
    let ghost shown = all.map_values(|s: Seq<char>| quoted(s));
    let mut parts: Vec<String> = Vec::new();
    let mut i: usize = 0;
    assert(texts(parts@) =~= shown.take(0));
    while i < items.len()
        invariant
            i <= items@.len(),
            all == texts(items@).map_values(|s: Seq<char>| toml_escaped(s)),
            shown == all.map_values(|s: Seq<char>| quoted(s)),
            texts(parts@) == shown.take(i as int),
        decreases items@.len() - i,
    {
        parts.push(quote(toml_escape(items[i].as_str()).as_str()));
        i += 1;
        assert(shown.take(i as int) =~= shown.take(i as int - 1).push(shown[i as int - 1]));
    }
    assert(shown.take(i as int) =~= shown);
    let mut list: String = "[".to_owned();
    list.append(join_texts(&parts, ", ").as_str());
    list.append("]");
    let mut out: String = key.to_owned();
    out.append(" = ");
    out.append(list.as_str());
    out.append("\n");
    out
}

/// The stage of an entry: the one it names, or the register's own convention
/// for a declared screen.
pub open spec fn stage_of(e: ScreenEntry) -> Seq<char> {
    if trimmed(e.stage@).len() > 0 {
        trimmed(e.stage@)
    } else if trimmed(e.blocked_by@).len() == 0 {
        "emittable"@
    } else {
        "blocked"@
    }
}

fn entry_stage(e: &ScreenEntry) -> (out: String)
    ensures
        out@ == stage_of(*e),
{
    let stage: String = trim(e.stage.as_str());
    if !stage.as_str().is_empty() {
        stage
    } else if trim(e.blocked_by.as_str()).as_str().is_empty() {
        "emittable".to_owned()
    } else {
        "blocked".to_owned()
    }
}

/// A line that is only written where its list is not empty.
pub open spec fn optional_list(key: Seq<char>, raw: Seq<char>) -> Seq<char> {
    let items = listed(split(raw, ','));
    if items.len() > 0 {
        escaped_list_line(key, items)
    } else {
        Seq::empty()
    }
}

/// A line that is only written where its text is not blank.
pub open spec fn optional_line(key: Seq<char>, raw: Seq<char>) -> Seq<char> {
    if trimmed(raw).len() > 0 {
        escaped_line(key, trimmed(raw))
    } else {
        Seq::empty()
    }
}

fn put_optional_list(key: &str, raw: &str) -> (out: String)
    ensures
        out@ == optional_list(key@, raw@),
{
    let items: Vec<String> = split_list(raw);
    assert(texts(items@).len() == items@.len());
    if items.len() > 0 {
        put_list_line(key, &items)
    } else {
        String::new()
    }
}

fn put_optional_line(key: &str, raw: &str) -> (out: String)
    ensures
        out@ == optional_line(key@, raw@),
{
    let t: String = trim(raw);
    if t.as_str().is_empty() {
        String::new()
    } else {
        put_line(key, t.as_str())
    }
}

/// The block that an entry adds to the register.
pub open spec fn block_text(e: ScreenEntry) -> Seq<char> {
    "\n[[screen]]\n"@ + escaped_line("id"@, e.id@) + escaped_line("name"@, e.name@) + escaped_line(
        "module"@,
        e.module@,
    ) + escaped_line("archetype"@, e.archetype@) + "combo = []\n"@ + escaped_list_line(
        "roles"@,
        roles_of(e),
    ) + optional_list("datasets"@, e.datasets@) + optional_list("blocked_by"@, e.blocked_by@)
        + escaped_line("stage"@, stage_of(e)) + optional_line("file"@, e.file@) + optional_line(
        "notes"@,
        e.notes@,
    )
}

/// The block that an entry adds to the register.
pub fn entry_block(e: &ScreenEntry) -> (out: String)
    ensures
        out@ == block_text(*e),
{
    let mut out: String = "\n[[screen]]\n".to_owned();
    out.append(put_line("id", e.id.as_str()).as_str());
    out.append(put_line("name", e.name.as_str()).as_str());
    out.append(put_line("module", e.module.as_str()).as_str());
    out.append(put_line("archetype", e.archetype.as_str()).as_str());
    out.append("combo = []\n");
    out.append(put_list_line("roles", &split_list(e.roles.as_str())).as_str());
    out.append(put_optional_list("datasets", e.datasets.as_str()).as_str());
    out.append(put_optional_list("blocked_by", e.blocked_by.as_str()).as_str());
    out.append(put_line("stage", entry_stage(e).as_str()).as_str());
    out.append(put_optional_line("file", e.file.as_str()).as_str());
    out.append(put_optional_line("notes", e.notes.as_str()).as_str());
    out
}

/// The number of screens that a register declares.
pub open spec fn declared_total(doc: TomlView) -> Option<int> {
    match field(doc, "metadata"@) {
        Some(m) => integer_field(m, "total_screens"@),
        None => None,
    }
}

pub open spec fn is_blank(c: char) -> bool {
    c == ' ' || c == '\t'
}

/// The first position from `from` on that holds no blank.
pub open spec fn blanks_end(s: Seq<char>, from: nat) -> nat
    decreases s.len() - from,
{
    if from < s.len() && is_blank(s[from as int]) {
        blanks_end(s, from + 1)
    } else {
        from
    }
}

/// The character can be part of a number, however it is written.
pub open spec fn is_of_number(c: char) -> bool {
    is_alphanumeric(c) || c == '_' || c == '+' || c == '-'
}

/// The first position from `from` on that is not part of a number.
pub open spec fn number_end(s: Seq<char>, from: nat) -> nat
    decreases s.len() - from,
{
    if from < s.len() && is_of_number(s[from as int]) {
        number_end(s, from + 1)
    } else {
        from
    }
}

/// Where the key that stands at `at` ends: a quote may close it.
pub open spec fn key_end(s: Seq<char>, at: nat) -> nat {
    let end = at + "total_screens"@.len();
    if end < s.len() && (s[end as int] == '"' || s[end as int] == '\'') {
        end + 1
    } else {
        end
    }
}

/// From where to where the number under the key `total_screens` at `at` is
/// written, with any blanks around the equals sign.
pub open spec fn total_range(s: Seq<char>, at: nat) -> Option<(nat, nat)> {
    if !occurs_at(s, "total_screens"@, at as int) {
        None
    } else {
        let sign = blanks_end(s, key_end(s, at));
        if sign < s.len() && s[sign as int] == '=' {
            let from = blanks_end(s, sign + 1);
            let to = number_end(s, from);
            if from < to {
                Some((from, to))
            } else {
                None
            }
        } else {
            None
        }
    }
}

/// The text with another number under the key `total_screens` at `at`.
pub open spec fn with_total(s: Seq<char>, at: nat, n: int) -> Option<Seq<char>> {
    match total_range(s, at) {
        Some((from, to)) => Some(s.take(from as int) + integer(n) + s.skip(to as int)),
        None => None,
    }
}

/// The value under a key is the list of texts; there is none where the list is
/// empty.
pub open spec fn holds_list(v: TomlView, key: Seq<char>, items: Seq<Seq<char>>) -> bool {
    if items.len() > 0 {
        field(v, key) == Some(text_array(items))
    } else {
        field(v, key) is None
    }
}

/// The value under a key is the text; there is none where the text is empty.
pub open spec fn holds_text(v: TomlView, key: Seq<char>, text: Seq<char>) -> bool {
    if text.len() > 0 {
        field(v, key) == Some(TomlView::Text(text))
    } else {
        field(v, key) is None
    }
}

pub open spec fn text_array(items: Seq<Seq<char>>) -> TomlView {
    TomlView::Array(items.map_values(|s: Seq<char>| TomlView::Text(s)))
}

/// The value is the entry, as a register holds it.
pub open spec fn is_entry(v: TomlView, e: ScreenEntry) -> bool {
    &&& field(v, "id"@) == Some(TomlView::Text(e.id@))
    &&& field(v, "name"@) == Some(TomlView::Text(e.name@))
    &&& field(v, "module"@) == Some(TomlView::Text(e.module@))
    &&& field(v, "archetype"@) == Some(TomlView::Text(e.archetype@))
    &&& field(v, "combo"@) == Some(text_array(Seq::empty()))
    &&& field(v, "roles"@) == Some(text_array(roles_of(e)))
    &&& holds_list(v, "datasets"@, listed(split(e.datasets@, ',')))
    &&& holds_list(v, "blocked_by"@, listed(split(e.blocked_by@, ',')))
    &&& field(v, "stage"@) == Some(TomlView::Text(stage_of(e)))
    &&& holds_text(v, "file"@, trimmed(e.file@))
    &&& holds_text(v, "notes"@, trimmed(e.notes@))
}

/// The document has one screen more, the entry, behind its other screens, and
/// declares one more if it declares how many there are.
pub open spec fn has_grown(doc: TomlView, grown: TomlView, e: ScreenEntry) -> bool {
    let before = items_field(doc, "screen"@);
    let after = items_field(grown, "screen"@);
    &&& after.len() == before.len() + 1
    &&& after.take(before.len() as int) == before
    &&& is_entry(after[before.len() as int], e)
    &&& match declared_total(doc) {
        Some(n) => declared_total(grown) == Some(n + 1),
        None => declared_total(grown) is None,
    }
}

/// The text is a register that has grown by the entry.
pub open spec fn reads_as_grown(text: Seq<char>, doc: TomlView, e: ScreenEntry) -> bool {
    toml_parsed(text) matches Ok(grown) && has_grown(doc, grown, e)
}

/// The register with its total written at the first position from `from` on
/// at which the result reads as it should.
pub open spec fn raised_register(
    text: Seq<char>,
    doc: TomlView,
    e: ScreenEntry,
    n: int,
    from: nat,
) -> Option<Seq<char>>
    decreases text.len() - from,
{
    if from >= text.len() {
        None
    } else {
        match with_total(text, from, n) {
            Some(t) => if reads_as_grown(t + block_text(e), doc, e) {
                Some(t + block_text(e))
            } else {
                raised_register(text, doc, e, n, from + 1)
            },
            None => raised_register(text, doc, e, n, from + 1),
        }
    }
}

/// The register with the entry: the block of the entry stands at its end, and
/// its total, where it declares one, is raised. Nothing where that text would
/// not read as a register with this one screen more.
pub open spec fn extended_register(text: Seq<char>, doc: TomlView, e: ScreenEntry) -> Option<
    Seq<char>,
> {
    match declared_total(doc) {
        Some(n) => if n < i64::MAX {
            raised_register(text, doc, e, n + 1, 0)
        } else {
            None
        },
        None => if reads_as_grown(text + block_text(e), doc, e) {
            Some(text + block_text(e))
        } else {
            None
        },
    }
}

fn pass_blanks(chars: &Vec<char>, from: usize) -> (out: usize)
    requires
        from <= chars@.len(),
    ensures
        out == blanks_end(chars@, from as nat),
        from <= out <= chars@.len(),
{
    let mut i: usize = from;
    while i < chars.len() && (chars[i] == ' ' || chars[i] == '\t')
        invariant
            from <= i <= chars@.len(),
            blanks_end(chars@, from as nat) == blanks_end(chars@, i as nat),
        decreases chars@.len() - i,
    {
        i += 1;
    }
    i
}

fn pass_number(chars: &Vec<char>, from: usize) -> (out: usize)
    requires
        from <= chars@.len(),
    ensures
        out == number_end(chars@, from as nat),
        from <= out <= chars@.len(),
{
    let mut i: usize = from;
    while i < chars.len()
        invariant
            from <= i <= chars@.len(),
            number_end(chars@, from as nat) == number_end(chars@, i as nat),
        decreases chars@.len() - i,
    {
        let c: char = chars[i];
        if !(lower(c) || upper(c) || digit(c) || c == '_' || c == '+' || c == '-') {
            return i;
        }
        i += 1;
    }
    i
}

/// From where to where the number under the key `total_screens` at a position
/// is written.
pub fn find_total(chars: &Vec<char>, at: usize) -> (out: Option<(usize, usize)>)
    requires
        at <= chars@.len(),
    ensures
        match out {
            Some((from, to)) => total_range(chars@, at as nat) == Some((from as nat, to as nat))
                && from < to <= chars@.len(),
            None => total_range(chars@, at as nat) is None,
        },
{
    let key: Vec<char> = chars_of("total_screens");
    if !occurs(chars, &key, at) {
        return None;
    }
    let n: usize = chars.len();
    assert(at + key@.len() <= n);
    let mut end: usize = at + key.len();
    if end < n && (chars[end] == '"' || chars[end] == '\'') {
        end += 1;
    }
    let sign: usize = pass_blanks(chars, end);
    if sign >= n || chars[sign] != '=' {
        return None;
    }
    let from: usize = pass_blanks(chars, sign + 1);
    let to: usize = pass_number(chars, from);
    if from < to {
        Some((from, to))
    } else {
        None
    }
}

/// The text with another number under the key `total_screens` at a position.
pub fn put_total(chars: &Vec<char>, at: usize, n: i64) -> (out: Option<String>)
    requires
        at <= chars@.len(),
    ensures
        opt_text(out) == with_total(chars@, at as nat, n as int),
{
    match find_total(chars, at) {
        Some((from, to)) => {
            let mut out: String = text_of(chars, 0, from);
            out.append(integer_text(n).as_str());
            out.append(text_of(chars, to, chars.len()).as_str());
            assert(chars@.subrange(0, from as int) =~= chars@.take(from as int));
            assert(chars@.subrange(to as int, chars@.len() as int) =~= chars@.skip(to as int));
            Some(out)
        },
        None => None,
    }
}

fn has_text_at(v: &TomlValue, key: &str, text: &str) -> (r: bool)
    ensures
        r == (field(v@, key@) == Some(TomlView::Text(text@))),
{
    match v.get(key) {
        Some(TomlValue::Text(s)) => same_text(s.as_str(), text),
        _ => false,
    }
}

fn has_list_at(v: &TomlValue, key: &str, items: &Vec<String>) -> (r: bool)
    ensures
        r == (field(v@, key@) == Some(text_array(texts(items@)))),
{
    let ghost wanted = texts(items@).map_values(|s: Seq<char>| TomlView::Text(s));
    match v.get(key) {
        Some(TomlValue::Array(values)) => {
            let ghost views = item_views(values@);
            proof {
                lemma_item_views(values@);
            }
            if values.len() != items.len() {
                assert(views.len() != wanted.len());
                return false;
            }
            let mut i: usize = 0;
            while i < values.len()
                invariant
                    i <= values@.len() == items@.len(),
                    views == item_views(values@),
                    views.len() == values@.len(),
                    wanted == texts(items@).map_values(|s: Seq<char>| TomlView::Text(s)),
                    forall|j: int| 0 <= j < values@.len() ==> #[trigger] views[j] == values@[j]@,
                    forall|j: int| 0 <= j < i ==> #[trigger] views[j] == wanted[j],
                    field(v@, key@) == Some(TomlView::Array(views)),
                decreases values@.len() - i,
            {
                assert(views[i as int] == values@[i as int]@);
                assert(wanted[i as int] == TomlView::Text(items@[i as int]@));
                let same: bool = match &values[i] {
                    TomlValue::Text(s) => same_text(s.as_str(), items[i].as_str()),
                    _ => false,
                };
                if !same {
                    assert(views != wanted);
                    return false;
                }
                i += 1;
            }
            assert(views =~= wanted);
            true
        },
        _ => false,
    }
}

fn keeps_list(v: &TomlValue, key: &str, raw: &str) -> (r: bool)
    ensures
        r == holds_list(v@, key@, listed(split(raw@, ','))),
{
    let items: Vec<String> = split_list(raw);
    assert(texts(items@).len() == items@.len());
    if items.len() > 0 {
        has_list_at(v, key, &items)
    } else {
        v.get(key).is_none()
    }
}

fn keeps_text(v: &TomlValue, key: &str, raw: &str) -> (r: bool)
    ensures
        r == holds_text(v@, key@, trimmed(raw@)),
{
    let text: String = trim(raw);
    if text.as_str().is_empty() {
        v.get(key).is_none()
    } else {
        has_text_at(v, key, text.as_str())
    }
}

fn matches_entry(v: &TomlValue, e: &ScreenEntry) -> (r: bool)
    ensures
        r == is_entry(v@, *e),
{
    let none: Vec<String> = Vec::new();
    assert(texts(none@) =~= Seq::<Seq<char>>::empty());
    has_text_at(v, "id", e.id.as_str()) && has_text_at(v, "name", e.name.as_str()) && has_text_at(
        v,
        "module",
        e.module.as_str(),
    ) && has_text_at(v, "archetype", e.archetype.as_str()) && has_list_at(v, "combo", &none)
        && has_list_at(v, "roles", &split_list(e.roles.as_str())) && keeps_list(
        v,
        "datasets",
        e.datasets.as_str(),
    ) && keeps_list(v, "blocked_by", e.blocked_by.as_str()) && has_text_at(
        v,
        "stage",
        entry_stage(e).as_str(),
    ) && keeps_text(v, "file", e.file.as_str()) && keeps_text(v, "notes", e.notes.as_str())
}

fn total_of(doc: &TomlValue) -> (out: Option<i64>)
    ensures
        match out {
            Some(n) => declared_total(doc@) == Some(n as int),
            None => declared_total(doc@) is None,
        },
{
    match doc.get("metadata") {
        Some(m) => m.get_integer("total_screens"),
        None => None,
    }
}

/// Whether a document has one screen more than another, the entry, and
/// declares so.
pub fn grows_by(doc: &TomlValue, grown: &TomlValue, e: &ScreenEntry) -> (r: bool)
    ensures
        r == has_grown(doc@, grown@, *e),
{
    let none: Vec<TomlValue> = Vec::new();
    let before: &Vec<TomlValue> = match doc.get_items("screen") {
        Some(items) => items,
        None => &none,
    };
    let after: &Vec<TomlValue> = match grown.get_items("screen") {
        Some(items) => items,
        None => &none,
    };
    proof {
        lemma_item_views(before@);
        lemma_item_views(after@);
    }
    assert(item_views(before@) =~= items_field(doc@, "screen"@));
    assert(item_views(after@) =~= items_field(grown@, "screen"@));
    if after.len() == 0 || after.len() - 1 != before.len() {
        return false;
    }
    assert(items_field(grown@, "screen"@)[before@.len() as int] == after@[before@.len() as int]@);
    let total: bool = match total_of(doc) {
        Some(n) => match total_of(grown) {
            Some(m) => n < i64::MAX && m == n + 1,
            None => false,
        },
        None => total_of(grown).is_none(),
    };
    starts_same(before, after) && matches_entry(&after[before.len()], e) && total
}

fn reads_grown(text: &str, doc: &TomlValue, e: &ScreenEntry) -> (r: bool)
    ensures
        r == reads_as_grown(text@, doc@, *e),
{
    match parse_toml(text) {
        Ok(grown) => grows_by(doc, &grown, e),
        Err(_) => false,
    }
}

/// The register with the entry; nothing where that would not read as a register
/// with this one screen more.
pub fn extend_register(text: &str, doc: &TomlValue, e: &ScreenEntry) -> (out: Option<String>)
    ensures
        opt_text(out) == extended_register(text@, doc@, *e),
{
    let block: String = entry_block(e);
    match total_of(doc) {
        Some(n) => {
            if n == i64::MAX {
                return None;
            }
            let chars: Vec<char> = chars_of(text);
            let mut at: usize = 0;
            while at < chars.len()
                invariant
                    at <= chars@.len(),
                    chars@ == text@,
                    block@ == block_text(*e),
                    declared_total(doc@) == Some(n as int),
                    n < i64::MAX,
                    extended_register(text@, doc@, *e) == raised_register(
                        text@,
                        doc@,
                        *e,
                        n + 1,
                        at as nat,
                    ),
                decreases chars@.len() - at,
            {
                if let Some(raised) = put_total(&chars, at, n + 1) {
                    let mut raised: String = raised;
                    raised.append(block.as_str());
                    if reads_grown(raised.as_str(), doc, e) {
                        return Some(raised);
                    }
                }
                at += 1;
            }
            None
        },
        None => {
            let mut out: String = text.to_owned();
            out.append(block.as_str());
            if reads_grown(out.as_str(), doc, e) {
                Some(out)
            } else {
                None
            }
        },
    }
}

/// A sentence of the driving text that is only written where it has something
/// to say.
pub open spec fn sentence(label: Seq<char>, value: Seq<char>) -> Seq<char> {
    if value.len() > 0 {
        label + value + "."@
    } else {
        Seq::empty()
    }
}

fn put_sentence(label: &str, value: &str) -> (out: String)
    ensures
        out@ == sentence(label@, value@),
{
    if value.is_empty() {
        String::new()
    } else {
        around(label, value, ".")
    }
}

/// The driving text of the candidate that stands for an entry.
pub open spec fn driving(e: ScreenEntry) -> Seq<char> {
    "Screen "@ + e.id@ + " ("@ + e.module@ + ") -- "@ + e.name@ + ". Archetype: "@ + e.archetype@
        + ". Stage: "@ + stage_of(e) + "."@ + (if roles_of(e).len() > 0 {
        " Roles: "@ + join(roles_of(e), ", "@) + "."@
    } else {
        Seq::empty()
    }) + sentence(" Route: "@, trimmed(e.path@)) + sentence(" File: "@, trimmed(e.file@))
        + sentence(" Notes: "@, trimmed(e.notes@))
}

/// The driving text of the candidate that stands for an entry.
pub fn driving_text(e: &ScreenEntry) -> (out: String)
    ensures
        out@ == driving(*e),
{
    let mut out: String = "Screen ".to_owned();
    out.append(e.id.as_str());
    out.append(" (");
    out.append(e.module.as_str());
    out.append(") -- ");
    out.append(e.name.as_str());
    out.append(". Archetype: ");
    out.append(e.archetype.as_str());
    out.append(". Stage: ");
    out.append(entry_stage(e).as_str());
    out.append(".");
    let roles: Vec<String> = split_list(e.roles.as_str());
    assert(texts(roles@).len() == roles@.len());
    let role_sentence: String = if roles.len() > 0 {
        around(" Roles: ", join_texts(&roles, ", ").as_str(), ".")
    } else {
        String::new()
    };
    out.append(role_sentence.as_str());
    out.append(put_sentence(" Route: ", trim(e.path.as_str()).as_str()).as_str());
    out.append(put_sentence(" File: ", trim(e.file.as_str()).as_str()).as_str());
    out.append(put_sentence(" Notes: ", trim(e.notes.as_str()).as_str()).as_str());
    out
}

/// What a valid entry changes: the register's new text, the block it gained,
/// and the candidate for the graph.
#[derive(Debug, PartialEq)]
pub struct Addition {
    pub register: String,
    pub block: String,
    pub unit: String,
    pub driving: String,
}

/// What is said where the register cannot take the entry.
pub open spec fn closed_register(path: Seq<char>) -> Seq<char> {
    path + " cannot be extended by a [[screen]] block and a raised total_screens"@
}

/// The answer where an addition fails: no artifact was changed.
pub fn failed_addition(cause: &str) -> (out: ApiResponse)
    ensures
        responds_error(out, 400, cause@),
{
    ApiResponse::error(400, cause)
}

/// Works out what an entry changes; the answer where it does not fit. Nothing
/// is changed here: an entry that is refused leaves every artifact as it was.
pub fn add_screen(e: &ScreenEntry, text: &str, path: &str) -> (out: Result<Addition, ApiResponse>)
    ensures
        match toml_parsed(text@) {
            Err(cause) => out matches Err(a) && responds_error(a, 400, parse_failure(path@, cause)),
            Ok(doc) => if problems(*e, doc).len() > 0 {
                out matches Err(a) && responds_json(a, 400, refusal_json(problems(*e, doc)))
            } else {
                match extended_register(text@, doc, *e) {
                    Some(register) => out matches Ok(add) && {
                        &&& add.register@ == register
                        &&& add.block@ == block_text(*e)
                        &&& add.unit@ == candidate_name(e.name@)
                        &&& add.driving@ == driving(*e)
                    },
                    None => out matches Err(a) && responds_error(a, 400, closed_register(path@)),
                }
            },
        },
{
    let doc: TomlValue = match parse_toml(text) {
        Ok(doc) => doc,
        Err(cause) => {
            return Err(failed_addition(unparsed_register(path, cause.as_str()).as_str()));
        },
    };
    match validate_entry(e, &doc) {
        Ok(_) => {},
        Err(a) => {
            return Err(a);
        },
    }
    match extend_register(text, &doc, e) {
        Some(register) => Ok(
            Addition {
                register,
                block: entry_block(e),
                unit: graph_name(e.name.as_str()),
                driving: driving_text(e),
            },
        ),
        None => {
            let mut msg: String = path.to_owned();
            msg.append(" cannot be extended by a [[screen]] block and a raised total_screens");
            Err(failed_addition(msg.as_str()))
        },
    }
}

/// The JSON of an added screen.
pub open spec fn added_json(
    node: Seq<char>,
    id: Seq<char>,
    path: Seq<char>,
    block: Seq<char>,
) -> JsonView {
    JsonView::Object(
        seq![
            ("ok"@, JsonView::Bool(true)),
            ("node"@, JsonView::Text(node)),
            ("screen_id"@, JsonView::Text(id)),
            ("register_path"@, JsonView::Text(path)),
            ("appended_toml"@, JsonView::Text(trimmed_end(block))),
        ],
    )
}

/// The answer once a screen was added.
pub fn added(node: &str, id: &str, path: &str, block: &str) -> (out: ApiResponse)
    ensures
        responds_json(out, 200, added_json(node@, id@, path@, block@)),
{
    let mut fields: Fields = Fields::new();
    fields.put_bool("ok", true);
    fields.put_text("node", node);
    fields.put_text("screen_id", id);
    fields.put_text("register_path", path);
    fields.put_text("appended_toml", trim_end(block).as_str());
    assert(added_json(node@, id@, path@, block@)->Object_0 =~= fields@);
    ApiResponse::json(&fields.object())
}

/// The answer for a project without a register.
pub fn nothing_to_extend() -> (out: ApiResponse)
    ensures
        responds_error(
            out,
            400,
            "no screens.toml / screen.toml in this project -- a register entry needs a register"@,
        ),
{
    ApiResponse::error(
        400,
        "no screens.toml / screen.toml in this project -- a register entry needs a register",
    )
}

/// An entry that passes every check has an identifier that is new to the
/// register.
pub proof fn law_accepted_ids_are_new(e: ScreenEntry, doc: TomlView)
    requires
        problems(e, doc).len() == 0,
    ensures
        id_shaped(e.id@),
        !words(doc, "id"@).contains(e.id@),
{
}

/// Nothing is wrong with an identifier that was suggested for the register.
pub proof fn law_suggested_ids_are_accepted(
    modules: Seq<Seq<char>>,
    e: ScreenEntry,
    doc: TomlView,
    k: int,
)
    requires
        numberable(modules, words(doc, "id"@)),
        0 <= k < next_ids(modules, words(doc, "id"@), modules.len()).len(),
        next_ids(modules, words(doc, "id"@), modules.len())[k].1 == JsonView::Text(e.id@),
    ensures
        id_problem(e, doc) is None,
{
    law_suggested_ids_are_new(modules, words(doc, "id"@), k, e.id@);
}

/// An entry that passes every check uses a module and an archetype of the
/// register, and only roles of the right shape.
pub proof fn law_accepted_entries_use_the_vocabulary(e: ScreenEntry, doc: TomlView)
    requires
        problems(e, doc).len() == 0,
    ensures
        words(doc, "module"@).contains(e.module@),
        words(doc, "archetype"@).contains(e.archetype@),
        roles_of(e).len() > 0,
        bad_roles(roles_of(e)).len() == 0,
{
}

proof fn lemma_raised_register(text: Seq<char>, doc: TomlView, e: ScreenEntry, n: int, from: nat)
    requires
        raised_register(text, doc, e, n, from) is Some,
    ensures
        reads_as_grown(raised_register(text, doc, e, n, from)->Some_0, doc, e),
        ends_with(raised_register(text, doc, e, n, from)->Some_0, block_text(e)),
    decreases text.len() - from,
{
    match with_total(text, from, n) {
        Some(t) => if reads_as_grown(t + block_text(e), doc, e) {
            lemma_ends_with_block(t, e);
        } else {
            lemma_raised_register(text, doc, e, n, from + 1);
        },
        None => lemma_raised_register(text, doc, e, n, from + 1),
    }
}

proof fn lemma_ends_with_block(t: Seq<char>, e: ScreenEntry)
    ensures
        ends_with(t + block_text(e), block_text(e)),
{
    let all = t + block_text(e);
    assert(all.subrange(t.len() as int, all.len() as int) =~= block_text(e));
}

/// A register that has taken an entry reads as it did before with the entry
/// behind its other screens and, where it declares a total, with the total
/// raised by one; the block of the entry stands at its end.
pub proof fn law_register_is_extended(text: Seq<char>, doc: TomlView, e: ScreenEntry)
    requires
        extended_register(text, doc, e) is Some,
    ensures
        toml_parsed(extended_register(text, doc, e)->Some_0) is Ok,
        has_grown(doc, toml_parsed(extended_register(text, doc, e)->Some_0)->Ok_0, e),
        ends_with(extended_register(text, doc, e)->Some_0, block_text(e)),
{
    match declared_total(doc) {
        Some(n) => lemma_raised_register(text, doc, e, n + 1, 0),
        None => lemma_ends_with_block(text, e),
    }
}

/// What an entry holds is what the body of the request says under each name,
/// nothing where it says nothing; only the name and the identifier are trimmed.
pub proof fn law_entry_of_a_body(body: Seq<u8>, e: ScreenEntry, key: Seq<char>)
    ensures
        form_param(body, key) matches Some(v) ==> sent(body, key) == v,
        form_param(body, key) is None ==> sent(body, key).len() == 0,
        given(body, key) <==> trimmed(sent(body, key)).len() > 0,
        entry_of(body, e) <==> {
            &&& e.name@ == trimmed(sent(body, "name"@))
            &&& e.id@ == trimmed(sent(body, "id"@))
            &&& e.module@ == sent(body, "module"@)
            &&& e.archetype@ == sent(body, "archetype"@)
            &&& e.stage@ == sent(body, "stage"@)
            &&& e.roles@ == sent(body, "roles"@)
            &&& e.path@ == sent(body, "path"@)
            &&& e.file@ == sent(body, "file"@)
            &&& e.notes@ == sent(body, "notes"@)
            &&& e.datasets@ == sent(body, "datasets"@)
            &&& e.blocked_by@ == sent(body, "blocked_by"@)
        },
{
    law_trimming(Seq::<char>::empty());
    assert(trimmed(Seq::<char>::empty()).len() == 0);
}

/// An identifier is of the right shape exactly where it is two rows of digits
/// with a dot between them.
pub proof fn law_shape_of_an_identifier(id: Seq<char>)
    ensures
        id_shaped(id) <==> exists|a: Seq<char>, b: Seq<char>|
            #![trigger a.push('.') + b]
            id == a.push('.') + b && all_digits(a) && all_digits(b),
{
    if id_shaped(id) {
        let parts = split(id, '.');
        law_splitting(id, '.');
        assert(parts.drop_last().len() == 1);
        assert(join(parts.drop_last(), seq!['.']) == parts[0]);
        assert(id =~= parts[0].push('.') + parts[1]);
    }
    if exists|a: Seq<char>, b: Seq<char>|
        #![trigger a.push('.') + b]
        id == a.push('.') + b && all_digits(a) && all_digits(b) {
        let (a, b) = choose|a: Seq<char>, b: Seq<char>|
            #![trigger a.push('.') + b]
            id == a.push('.') + b && all_digits(a) && all_digits(b);
        assert(!a.contains('.')) by {
            if a.contains('.') {
                let i = choose|i: int| 0 <= i < a.len() && a[i] == '.';
                assert(is_digit(a[i]));
            }
        }
        assert(!b.contains('.')) by {
            if b.contains('.') {
                let i = choose|i: int| 0 <= i < b.len() && b[i] == '.';
                assert(is_digit(b[i]));
            }
        }
        lemma_split_two(a, b, '.');
    }
}

/// A role is of the right shape exactly where it is a name and one of the three
/// modes of access, with a colon between them.
pub proof fn law_shape_of_a_role(role: Seq<char>)
    ensures
        role_shaped(role) <==> exists|name: Seq<char>, mode: Seq<char>|
            {
                &&& role == #[trigger] (name.push(':') + mode)
                &&& name.len() > 0
                &&& !name.contains(':')
                &&& mode == "R"@ || mode == "R/W"@ || mode == "W"@
            },
{
    law_cutting(role, ':');
    if exists|name: Seq<char>, mode: Seq<char>|
        {
            &&& role == #[trigger] (name.push(':') + mode)
            &&& name.len() > 0
            &&& !name.contains(':')
            &&& mode == "R"@ || mode == "R/W"@ || mode == "W"@
        } {
        let (name, mode) = choose|name: Seq<char>, mode: Seq<char>|
            {
                &&& role == #[trigger] (name.push(':') + mode)
                &&& name.len() > 0
                &&& !name.contains(':')
                &&& mode == "R"@ || mode == "R/W"@ || mode == "W"@
            };
        lemma_find_char(role, ':', 0);
        let at = find_char(role, ':', 0) as int;
        assert(role[name.len() as int] == ':');
        if at < name.len() {
            assert(name[at] == ':');
        }
        assert(at == name.len());
        assert(role.take(at) =~= name);
        assert(role.skip(at + 1) =~= mode);
    }
}

/// The roles that are refused are those of the wrong shape, in order.
pub proof fn law_refused_roles(roles: Seq<Seq<char>>)
    ensures
        bad_roles(roles) == roles.filter_map(
            |r: Seq<char>|
                if role_shaped(r) {
                    None
                } else {
                    Some(r)
                },
        ),
    decreases roles.len(),
{
    let f = |r: Seq<char>|
        if role_shaped(r) {
            None
        } else {
            Some(r)
        };
    if roles.len() > 0 {
        let n = roles.len() - 1;
        law_refused_roles(roles.drop_last());
        lemma_kept_next(roles, f, n);
        assert(roles.take(n) =~= roles.drop_last());
        assert(roles.take(n + 1) =~= roles);
    }
}

/// What is told of an entry that does not fit: every field with what is wrong
/// with it, in one order, and nothing of a field that is right.
pub proof fn law_every_problem_is_told(e: ScreenEntry, doc: TomlView)
    ensures
        problems(e, doc) == seq![
            ("name"@, name_problem(e)),
            ("id"@, id_problem(e, doc)),
            ("module"@, module_problem(e, doc)),
            ("archetype"@, archetype_problem(e, doc)),
            ("roles"@, roles_problem(e)),
            ("path"@, path_problem(e)),
            ("file"@, file_problem(e, doc)),
            ("stage"@, stage_problem(e, doc)),
        ].filter_map(
            |p: (Seq<char>, Option<Seq<char>>)|
                if p.1 is Some {
                    Some((p.0, JsonView::Text(p.1->Some_0)))
                } else {
                    None
                },
        ),
{
    let all = seq![
        ("name"@, name_problem(e)),
        ("id"@, id_problem(e, doc)),
        ("module"@, module_problem(e, doc)),
        ("archetype"@, archetype_problem(e, doc)),
        ("roles"@, roles_problem(e)),
        ("path"@, path_problem(e)),
        ("file"@, file_problem(e, doc)),
        ("stage"@, stage_problem(e, doc)),
    ];
    let f = |p: (Seq<char>, Option<Seq<char>>)|
        if p.1 is Some {
            Some((p.0, JsonView::Text(p.1->Some_0)))
        } else {
            None
        };
    assert(all.take(0).filter_map(f) =~= Seq::<(Seq<char>, JsonView)>::empty());
    lemma_kept_next(all, f, 0);
    lemma_kept_next(all, f, 1);
    lemma_kept_next(all, f, 2);
    lemma_kept_next(all, f, 3);
    lemma_kept_next(all, f, 4);
    lemma_kept_next(all, f, 5);
    lemma_kept_next(all, f, 6);
    lemma_kept_next(all, f, 7);
    assert(all.take(8) =~= all);
}

/// An entry is accepted exactly where its name is not too long, its identifier is
/// of the right shape and new, its module and archetype are in use, it has roles
/// and all are of the right shape, and its route, its file and its stage, each
/// where it has one, are right.
pub proof fn law_when_an_entry_is_accepted(e: ScreenEntry, doc: TomlView)
    ensures
        name_problem(e) is None <==> encode_utf8(e.name@).len() <= 120,
        id_problem(e, doc) is None <==> id_shaped(e.id@) && !words(doc, "id"@).contains(e.id@),
        module_problem(e, doc) is None <==> words(doc, "module"@).contains(e.module@),
        archetype_problem(e, doc) is None <==> words(doc, "archetype"@).contains(e.archetype@),
        roles_problem(e) is None <==> {
            let roles = listed(split(e.roles@, ','));
            roles.len() > 0 && forall|i: int| 0 <= i < roles.len() ==> role_shaped(#[trigger] roles[i])
        },
        path_problem(e) is None <==> trimmed(e.path@).len() == 0 || route_shaped(trimmed(e.path@)),
        file_problem(e, doc) is None <==> trimmed(e.file@).len() == 0 || words(
            doc,
            "file"@,
        ).contains(trimmed(e.file@)),
        stage_problem(e, doc) is None <==> trimmed(e.stage@).len() == 0 || words(
            doc,
            "stage"@,
        ).contains(trimmed(e.stage@)),
        problems(e, doc).len() == 0 <==> name_problem(e) is None && id_problem(e, doc) is None
            && module_problem(e, doc) is None && archetype_problem(e, doc) is None && roles_problem(
            e,
        ) is None && path_problem(e) is None && file_problem(e, doc) is None && stage_problem(
            e,
            doc,
        ) is None,
{
    let roles = roles_of(e);
    let f = |r: Seq<char>|
        if role_shaped(r) {
            None
        } else {
            Some(r)
        };
    law_refused_roles(roles);
    lemma_nothing_kept(roles, f);
    if bad_roles(roles).len() == 0 {
        assert forall|i: int| 0 <= i < roles.len() implies role_shaped(#[trigger] roles[i]) by {
            assert(f(roles[i]) is None);
        }
    }
}

/// The route of a screen: it begins with a slash, no two slashes stand together,
/// its characters are lower-case letters, digits and `/-{}_`, and a step that
/// opens a placeholder closes it.
pub proof fn law_shape_of_a_route(route: Seq<char>)
    ensures
        route_shaped(route) <==> {
            &&& route.len() > 0
            &&& route[0] == '/'
            &&& forall|i: int|
                0 <= i < route.len() - 1 ==> !(#[trigger] route[i] == '/' && route[i + 1] == '/')
            &&& forall|i: int|
                0 <= i < route.len() ==> {
                    let c = #[trigger] route[i];
                    'a' <= c <= 'z' || '0' <= c <= '9' || c == '/' || c == '-' || c == '{' || c
                        == '}' || c == '_'
                }
            &&& forall|i: int|
                0 <= i < split(route, '/').len() && (#[trigger] split(route, '/')[i]).len() > 0
                    && split(route, '/')[i][0] == '{' ==> split(route, '/')[i].last() == '}'
        },
{
    reveal_strlit("/");
    reveal_strlit("//");
    reveal_strlit("{");
    reveal_strlit("}");
    if route_shaped(route) {
        assert(route.subrange(0, 1)[0] == '/');
        assert forall|i: int| 0 <= i < route.len() - 1 implies !(#[trigger] route[i] == '/'
            && route[i + 1] == '/') by {
            if route[i] == '/' && route[i + 1] == '/' {
                assert(route.subrange(i, i + 2) =~= "//"@);
                assert(occurs_at(route, "//"@, i));
            }
        }
        assert forall|i: int| 0 <= i < route.len() implies {
            let c = #[trigger] route[i];
            'a' <= c <= 'z' || '0' <= c <= '9' || c == '/' || c == '-' || c == '{' || c == '}' || c
                == '_'
        } by {
            assert(route_char(route[i]));
        }
        assert forall|i: int|
            0 <= i < split(route, '/').len() && (#[trigger] split(route, '/')[i]).len() > 0 && split(
                route,
                '/',
            )[i][0] == '{' implies split(route, '/')[i].last() == '}' by {
            let piece = split(route, '/')[i];
            assert(placeholder_closed(piece));
            assert(piece.subrange(0, 1) =~= "{"@);
            assert(ends_with(piece, "}"@));
            assert(piece.subrange(piece.len() - 1, piece.len() as int)[0] == '}');
        }
    }
    if {
        &&& route.len() > 0
        &&& route[0] == '/'
        &&& forall|i: int|
            0 <= i < route.len() - 1 ==> !(#[trigger] route[i] == '/' && route[i + 1] == '/')
        &&& forall|i: int|
            0 <= i < route.len() ==> {
                let c = #[trigger] route[i];
                'a' <= c <= 'z' || '0' <= c <= '9' || c == '/' || c == '-' || c == '{' || c == '}'
                    || c == '_'
            }
        &&& forall|i: int|
            0 <= i < split(route, '/').len() && (#[trigger] split(route, '/')[i]).len() > 0
                && split(route, '/')[i][0] == '{' ==> split(route, '/')[i].last() == '}'
    } {
        assert(route.subrange(0, 1) =~= "/"@);
        assert(!contains_text(route, "//"@)) by {
            if contains_text(route, "//"@) {
                let at = choose|at: int| occurs_at(route, "//"@, at);
                assert(route.subrange(at, at + 2)[0] == '/');
                assert(route.subrange(at, at + 2)[1] == '/');
                assert(route[at] == '/' && route[at + 1] == '/');
            }
        }
        assert forall|i: int| 0 <= i < route.len() implies route_char(#[trigger] route[i]) by {
            let c = route[i];
            assert('a' <= c <= 'z' || '0' <= c <= '9' || c == '/' || c == '-' || c == '{' || c == '}'
                || c == '_');
        }
        assert forall|i: int| 0 <= i < split(route, '/').len() implies placeholder_closed(
            #[trigger] split(route, '/')[i],
        ) by {
            let piece = split(route, '/')[i];
            if starts_with(piece, "{"@) {
                assert(piece.subrange(0, 1)[0] == '{');
                assert(piece.last() == '}');
                assert(piece.subrange(piece.len() - 1, piece.len() as int) =~= "}"@);
            }
        }
    }
}

/// The unit of a word is the word with its first letter capital and the others
/// small.
pub proof fn law_unit_of_a_word(word: Seq<char>)
    requires
        word.len() > 0,
        forall|i: int| 0 <= i < word.len() ==> is_alphanumeric(#[trigger] word[i]),
    ensures
        unit_name(word) == seq![capital(word[0])] + word.drop_first().map_values(
            |c: char| small(c),
        ),
        candidate_name(word) == unit_name(word),
    decreases word.len(),
{
    let front = word.drop_last();
    assert(is_alphanumeric(word[word.len() - 1]));
    if word.len() == 1 {
        assert(unit_name(front) =~= Seq::<char>::empty());
        assert(unit_name(word) =~= seq![capital(word[0])] + word.drop_first().map_values(
            |c: char| small(c),
        ));
    } else {
        assert forall|i: int| 0 <= i < front.len() implies is_alphanumeric(#[trigger] front[i]) by {
            assert(is_alphanumeric(word[i]));
        }
        law_unit_of_a_word(front);
        assert(is_alphanumeric(word[word.len() - 2]));
        assert(unit_name(word) =~= seq![capital(word[0])] + word.drop_first().map_values(
            |c: char| small(c),
        ));
    }
}

/// The unit of words between other characters is those of the words run together.
pub proof fn law_unit_of_words(a: Seq<char>, gap: char, b: Seq<char>)
    requires
        !is_alphanumeric(gap),
    ensures
        unit_name(a.push(gap) + b) == unit_name(a) + unit_name(b),
        unit_name(Seq::empty()) == Seq::<char>::empty(),
        unit_name(a).len() == 0 ==> candidate_name(a) == "NewScreen"@,
        unit_name(a).len() > 0 ==> candidate_name(a) == unit_name(a),
    decreases b.len(),
{
    let name = a.push(gap) + b;
    if b.len() == 0 {
        assert(name.drop_last() =~= a);
        assert(unit_name(a) + unit_name(b) =~= unit_name(a));
    } else {
        let front = b.drop_last();
        law_unit_of_words(a, gap, front);
        assert(name.drop_last() =~= a.push(gap) + front);
        assert(name.last() == b.last());
        if b.len() > 1 {
            assert(name[name.len() - 2] == b[b.len() - 2]);
        } else {
            assert(name[name.len() - 2] == gap);
        }
        assert(unit_name(name) =~= unit_name(a) + unit_name(b));
    }
}

/// Texts are escaped character by character: backslashes, double quotes, line
/// feeds, carriage returns and control characters other than tabs; anything else
/// stays.
pub proof fn law_escaping(a: Seq<char>, b: Seq<char>, c: char)
    ensures
        toml_escaped(Seq::empty()) == Seq::<char>::empty(),
        toml_escaped(a + b) == toml_escaped(a) + toml_escaped(b),
        toml_escaped(seq!['\\']) == "\\\\"@,
        toml_escaped(seq!['"']) == "\\\""@,
        toml_escaped(seq!['\n']) == "\\n"@,
        toml_escaped(seq!['\r']) == "\\r"@,
        ((c as nat) < 32 && c != '\t' && c != '\n' && c != '\r') || c as nat == 127 ==> toml_escaped(
            seq![c],
        ) == "\\u00"@ + hex(seq![c as u8]),
        c == '\t' || (c as nat >= 32 && c as nat != 127 && c != '\\' && c != '"') ==> toml_escaped(
            seq![c],
        ) == seq![c],
    decreases b.len(),
{
    lemma_escaped_one('\\');
    lemma_escaped_one('"');
    lemma_escaped_one('\n');
    lemma_escaped_one('\r');
    lemma_escaped_one(c);
    if b.len() == 0 {
        assert(a + b =~= a);
        assert(toml_escaped(a) + toml_escaped(b) =~= toml_escaped(a));
    } else {
        law_escaping(a, b.drop_last(), c);
        assert((a + b).drop_last() =~= a + b.drop_last());
        assert(toml_escaped(a) + toml_escaped(b.drop_last()) + escaped_char(b.last())
            =~= toml_escaped(a) + (toml_escaped(b.drop_last()) + escaped_char(b.last())));
    }
}

proof fn lemma_escaped_one(c: char)
    ensures
        toml_escaped(seq![c]) == escaped_char(c),
{
    assert(seq![c].drop_last() =~= Seq::<char>::empty());
    assert(toml_escaped(seq![c].drop_last()) =~= Seq::<char>::empty());
    assert(Seq::<char>::empty() + escaped_char(c) =~= escaped_char(c));
}

/// The stage of an entry is the one that it names; without one it is that of a
/// screen that can be made, or that of one that something blocks.
pub proof fn law_stage_of_an_entry(e: ScreenEntry)
    ensures
        trimmed(e.stage@).len() > 0 ==> stage_of(e) == trimmed(e.stage@),
        trimmed(e.stage@).len() == 0 && trimmed(e.blocked_by@).len() == 0 ==> stage_of(e)
            == "emittable"@,
        trimmed(e.stage@).len() == 0 && trimmed(e.blocked_by@).len() > 0 ==> stage_of(e)
            == "blocked"@,
{
}

/// The block that an entry adds to the register holds everything that the entry
/// does, escaped.
pub proof fn law_block_of_an_entry(e: ScreenEntry, key: Seq<char>, raw: Seq<char>)
    ensures
        block_text(e) == "\n[[screen]]\n"@ + escaped_line("id"@, e.id@) + escaped_line(
            "name"@,
            e.name@,
        ) + escaped_line("module"@, e.module@) + escaped_line("archetype"@, e.archetype@)
            + "combo = []\n"@ + escaped_list_line("roles"@, listed(split(e.roles@, ',')))
            + optional_list("datasets"@, e.datasets@) + optional_list("blocked_by"@, e.blocked_by@)
            + escaped_line("stage"@, stage_of(e)) + optional_line("file"@, e.file@)
            + optional_line("notes"@, e.notes@),
        escaped_line(key, raw) == key + " = \""@ + toml_escaped(raw) + "\"\n"@,
        ({
            let items = listed(split(raw, ','));
            optional_list(key, raw) == if items.len() > 0 {
                escaped_list_line(key, items)
            } else {
                Seq::empty()
            }
        }),
        optional_line(key, raw) == if trimmed(raw).len() > 0 {
            escaped_line(key, trimmed(raw))
        } else {
            Seq::empty()
        },
{
}

/// A register has grown by an entry exactly where it holds its old screens and
/// behind them one that is the entry in everything, and counts one more if it
/// counts them.
pub proof fn law_what_growing_is(doc: TomlView, grown: TomlView, e: ScreenEntry)
    ensures
        has_grown(doc, grown, e) <==> {
            let before = items_field(doc, "screen"@);
            let after = items_field(grown, "screen"@);
            let new = after[before.len() as int];
            &&& after.len() == before.len() + 1
            &&& after.take(before.len() as int) == before
            &&& field(new, "id"@) == Some(TomlView::Text(e.id@))
            &&& field(new, "name"@) == Some(TomlView::Text(e.name@))
            &&& field(new, "module"@) == Some(TomlView::Text(e.module@))
            &&& field(new, "archetype"@) == Some(TomlView::Text(e.archetype@))
            &&& field(new, "combo"@) == Some(text_array(Seq::empty()))
            &&& field(new, "roles"@) == Some(text_array(listed(split(e.roles@, ','))))
            &&& holds_list(new, "datasets"@, listed(split(e.datasets@, ',')))
            &&& holds_list(new, "blocked_by"@, listed(split(e.blocked_by@, ',')))
            &&& field(new, "stage"@) == Some(TomlView::Text(stage_of(e)))
            &&& holds_text(new, "file"@, trimmed(e.file@))
            &&& holds_text(new, "notes"@, trimmed(e.notes@))
            &&& declared_total(doc) matches Some(n) ==> declared_total(grown) == Some(n + 1)
            &&& declared_total(doc) is None ==> declared_total(grown) is None
        },
        field(doc, "metadata"@) matches Some(m) ==> declared_total(doc) == integer_field(
            m,
            "total_screens"@,
        ),
        field(doc, "metadata"@) is None ==> declared_total(doc) is None,
{
}

/// A list or a text is held under a key exactly where the value there is it; an
/// empty one where there is no value.
pub proof fn law_what_is_held(
    v: TomlView,
    key: Seq<char>,
    items: Seq<Seq<char>>,
    text: Seq<char>,
)
    ensures
        items.len() > 0 ==> (holds_list(v, key, items) <==> field(v, key) == Some(
            TomlView::Array(items.map_values(|s: Seq<char>| TomlView::Text(s))),
        )),
        items.len() == 0 ==> (holds_list(v, key, items) <==> field(v, key) is None),
        text.len() > 0 ==> (holds_text(v, key, text) <==> field(v, key) == Some(
            TomlView::Text(text),
        )),
        text.len() == 0 ==> (holds_text(v, key, text) <==> field(v, key) is None),
{
}

proof fn lemma_blanks_end(s: Seq<char>, from: nat)
    requires
        from <= s.len(),
    ensures
        from <= blanks_end(s, from) <= s.len(),
        forall|i: int| from <= i < blanks_end(s, from) ==> is_blank(#[trigger] s[i]),
        blanks_end(s, from) < s.len() ==> !is_blank(s[blanks_end(s, from) as int]),
    decreases s.len() - from,
{
    if from < s.len() && is_blank(s[from as int]) {
        lemma_blanks_end(s, from + 1);
    }
}

proof fn lemma_number_end(s: Seq<char>, from: nat)
    requires
        from <= s.len(),
    ensures
        from <= number_end(s, from) <= s.len(),
        forall|i: int| from <= i < number_end(s, from) ==> is_of_number(#[trigger] s[i]),
        number_end(s, from) < s.len() ==> !is_of_number(s[number_end(s, from) as int]),
    decreases s.len() - from,
{
    if from < s.len() && is_of_number(s[from as int]) {
        lemma_number_end(s, from + 1);
    }
}

/// The total of a register stands behind its key and an equals sign, with nothing
/// but blanks, and a quote that closes the key, between them; only the number
/// there is replaced.
pub proof fn law_where_the_total_stands(s: Seq<char>, at: nat, n: int)
    ensures
        total_range(s, at) matches Some((from, to)) ==> {
            &&& occurs_at(s, "total_screens"@, at as int)
            &&& from < to <= s.len()
            &&& forall|i: int| from <= i < to ==> is_of_number(#[trigger] s[i])
            &&& to < s.len() ==> !is_of_number(s[to as int])
            &&& exists|sign: int|
                {
                    &&& at + "total_screens"@.len() <= sign < from
                    &&& #[trigger] s[sign] == '='
                    &&& forall|i: int| sign < i < from ==> is_blank(#[trigger] s[i])
                    &&& forall|i: int|
                        at + "total_screens"@.len() < i < sign ==> is_blank(#[trigger] s[i])
                }
            &&& with_total(s, at, n) == Some(s.take(from as int) + integer(n) + s.skip(to as int))
        },
        total_range(s, at) is None ==> with_total(s, at, n) is None,
{
    if let Some((from, to)) = total_range(s, at) {
        let end = key_end(s, at);
        lemma_blanks_end(s, end);
        let sign = blanks_end(s, end);
        lemma_blanks_end(s, sign + 1);
        lemma_number_end(s, from);
        assert(s[sign as int] == '=');
    }
}

/// The register with its total raised is the first text that reads as it should,
/// and there is one exactly where some place of the total gives such a text.
pub proof fn law_raised_register(text: Seq<char>, doc: TomlView, e: ScreenEntry, n: int, from: nat)
    ensures
        match raised_register(text, doc, e, n, from) {
            Some(t) => exists|at: nat|
                {
                    &&& from <= at < text.len()
                    &&& #[trigger] with_total(text, at, n) is Some
                    &&& t == with_total(text, at, n)->Some_0 + block_text(e)
                    &&& reads_as_grown(t, doc, e)
                },
            None => forall|at: nat|
                from <= at < text.len() && #[trigger] with_total(text, at, n) is Some
                    ==> !reads_as_grown(
                    with_total(text, at, n)->Some_0 + block_text(e),
                    doc,
                    e,
                ),
        },
    decreases text.len() - from,
{
    if from < text.len() {
        law_raised_register(text, doc, e, n, from + 1);
        assert(with_total(text, from, n) == with_total(text, from, n));
    }
}

/// The register with an entry: without a count the block stands behind the text;
/// with one the count is raised by one as well.
pub proof fn law_extended_register(text: Seq<char>, doc: TomlView, e: ScreenEntry)
    ensures
        declared_total(doc) is None ==> {
            &&& reads_as_grown(text + block_text(e), doc, e) ==> extended_register(text, doc, e)
                == Some(text + block_text(e))
            &&& !reads_as_grown(text + block_text(e), doc, e) ==> extended_register(
                text,
                doc,
                e,
            ) is None
        },
        declared_total(doc) matches Some(n) ==> {
            &&& n < i64::MAX ==> extended_register(text, doc, e) == raised_register(
                text,
                doc,
                e,
                n + 1,
                0,
            )
            &&& n >= i64::MAX ==> extended_register(text, doc, e) is None
        },
        forall|t: Seq<char>| #[trigger]
            reads_as_grown(t, doc, e) <==> toml_parsed(t) is Ok && has_grown(
                doc,
                toml_parsed(t)->Ok_0,
                e,
            ),
{
}

/// The driving text of the candidate tells everything that the entry says.
pub proof fn law_driving_text(e: ScreenEntry, label: Seq<char>, value: Seq<char>)
    ensures
        driving(e) == "Screen "@ + e.id@ + " ("@ + e.module@ + ") -- "@ + e.name@ + ". Archetype: "@
            + e.archetype@ + ". Stage: "@ + stage_of(e) + "."@ + (if listed(
            split(e.roles@, ','),
        ).len() > 0 {
            " Roles: "@ + join(listed(split(e.roles@, ',')), ", "@) + "."@
        } else {
            Seq::empty()
        }) + sentence(" Route: "@, trimmed(e.path@)) + sentence(" File: "@, trimmed(e.file@))
            + sentence(" Notes: "@, trimmed(e.notes@)),
        value.len() > 0 ==> sentence(label, value) == label + value + "."@,
        value.len() == 0 ==> sentence(label, value).len() == 0,
{
}

/// What is said of an added screen, and of one that is refused.
pub proof fn law_answers_to_entries(
    node: Seq<char>,
    id: Seq<char>,
    path: Seq<char>,
    block: Seq<char>,
    list: Seq<(Seq<char>, JsonView)>,
)
    ensures
        added_json(node, id, path, block) == JsonView::Object(
            seq![
                ("ok"@, JsonView::Bool(true)),
                ("node"@, JsonView::Text(node)),
                ("screen_id"@, JsonView::Text(id)),
                ("register_path"@, JsonView::Text(path)),
                ("appended_toml"@, JsonView::Text(trimmed_end(block))),
            ],
        ),
        refusal_json(list) == JsonView::Object(
            seq![
                ("error"@, JsonView::Text("invalid screen entry"@)),
                ("fields"@, JsonView::Object(list)),
            ],
        ),
{
}

/// What is told of a name that the graph already has names the unit.
pub proof fn law_what_is_told_of_a_clash(unit: Seq<char>)
    ensures
        clash_text(unit) == "the graph already has a synced code unit named `"@ + unit
            + "` -- tweak the name so the candidate is a distinct node"@,
{
}

/// What is said of a register that cannot grow names it.
pub proof fn law_what_is_said(a: Seq<char>)
    ensures
        closed_register(a) == a + " cannot be extended by a [[screen]] block and a raised total_screens"@,
{
}

/// An addition can be read where its name can, where its identifier can if it has
/// a name, and where everything else can if it has both: nothing that is not
/// looked at stands in the way.
pub proof fn law_what_must_be_readable(body: Seq<u8>)
    ensures
        rest_readable(body) <==> forall|i: int|
            0 <= i < 9 ==> form_readable(body, #[trigger] optional_keys()[i]),
        !form_readable(body, "name"@) ==> !entry_readable(body),
        form_readable(body, "name"@) && !given(body, "name"@) ==> entry_readable(body),
        form_readable(body, "name"@) && given(body, "name"@) && !given(body, "id"@) ==> (
        entry_readable(body) <==> form_readable(body, "id"@)),
        form_readable(body, "name"@) && given(body, "name"@) && given(body, "id"@) ==> (
        entry_readable(body) <==> form_readable(body, "id"@) && rest_readable(body)),
{
    let keys = optional_keys();
    if forall|i: int| 0 <= i < 9 ==> form_readable(body, #[trigger] keys[i]) {
        assert(form_readable(body, keys[0]) && form_readable(body, keys[1]) && form_readable(
            body,
            keys[2],
        ) && form_readable(body, keys[3]) && form_readable(body, keys[4]) && form_readable(
            body,
            keys[5],
        ) && form_readable(body, keys[6]) && form_readable(body, keys[7]) && form_readable(
            body,
            keys[8],
        ));
    }
}

/// The parameters of an addition that may be left out.
pub open spec fn optional_keys() -> Seq<Seq<char>> {
    seq![
        "module"@,
        "archetype"@,
        "stage"@,
        "roles"@,
        "path"@,
        "file"@,
        "notes"@,
        "datasets"@,
        "blocked_by"@,
    ]
}

/// A total is found wherever it is written: behind the key and the quote that
/// may close it an equals sign, and behind that a number, with nothing but
/// blanks between them.
pub proof fn law_a_total_is_found(s: Seq<char>, at: nat, sign: nat, from: nat)
    requires
        occurs_at(s, "total_screens"@, at as int),
        ({
            let end = at + "total_screens"@.len();
            let first = if s[end as int] == '"' || s[end as int] == '\'' {
                end + 1
            } else {
                end
            };
            &&& first <= sign < from < s.len()
            &&& forall|i: int| first <= i < sign ==> is_blank(#[trigger] s[i])
        }),
        s[sign as int] == '=',
        forall|i: int| sign < i < from ==> is_blank(#[trigger] s[i]),
        is_of_number(s[from as int]),
    ensures
        total_range(s, at) is Some,
        total_range(s, at)->Some_0.0 == from,
{
    let end = at + "total_screens"@.len();
    let first = if s[end as int] == '"' || s[end as int] == '\'' {
        end + 1
    } else {
        end
    };
    lemma_blanks_end(s, first);
    let found = blanks_end(s, first);
    assert(!is_blank(s[sign as int]));
    if found < sign {
        assert(is_blank(s[found as int]));
    }
    lemma_blanks_end(s, sign + 1);
    let number = blanks_end(s, sign + 1);
    assert(!is_blank(s[from as int]));
    if number < from {
        assert(is_blank(s[number as int]));
    }
    lemma_number_end(s, from);
}

} // verus!
