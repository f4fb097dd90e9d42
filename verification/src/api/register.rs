//! The screen register as the console shows it: the vocabularies that the
//! project's own register uses, and the next free identifier of each module.
use crate::api::response::{responds_error, responds_json, ApiResponse};
use crate::json::{json_of_toml, texts_json, text_list, toml_json, Fields, Json, JsonView};
use crate::lists::{lemma_flat_next, lemma_kept_next};
use crate::order::{sort_texts, sorted_texts};
use crate::outside::{parse_toml, toml_parsed};
use crate::text::{
    all_digits, cut, decimal, decimal_text, distinct, distinct_texts, is_all_digits, is_digit,
    lemma_decimal, lemma_split_two, parse_u64, parsed_u64, split, split_once, starts_with,
    strip_prefix, texts, texts_push, unsigned,
};
use crate::toml_value::{
    collect_texts, field, item_views, items_field, lemma_item_views, texts_at, TomlValue, TomlView,
};
use vstd::prelude::*;

verus! {

/// The screens of a register.
pub open spec fn screens_of(doc: TomlView) -> Seq<TomlView> {
    items_field(doc, "screen"@)
}

/// The texts that the screens give under a key, in order.
pub open spec fn words(doc: TomlView, key: Seq<char>) -> Seq<Seq<char>> {
    texts_at(screens_of(doc), key, screens_of(doc).len())
}

/// The texts that the screens of a register give under a key.
pub fn screen_words(doc: &TomlValue, key: &str) -> (out: Vec<String>)
    ensures
        texts(out@) == words(doc@, key@),
{
    match doc.get_items("screen") {
        Some(screens) => collect_texts(screens, key),
        None => {
            let out: Vec<String> = Vec::new();
            assert(texts(out@) =~= words(doc@, key@));
            out
        },
    }
}

/// The role names among the first `n` items of a role list: what stands before
/// the first colon of an item that has one.
pub open spec fn names_in(items: Seq<TomlView>, n: nat) -> Seq<Seq<char>>
    decreases n,
{
    if n == 0 {
        Seq::empty()
    } else {
        let before = names_in(items, (n - 1) as nat);
        match items[n - 1] {
            TomlView::Text(s) => match cut(s, ':') {
                Some((name, _)) => before.push(name),
                None => before,
            },
            _ => before,
        }
    }
}

/// The role names of the first `n` screens.
pub open spec fn role_names(screens: Seq<TomlView>, n: nat) -> Seq<Seq<char>>
    decreases n,
{
    if n == 0 {
        Seq::empty()
    } else {
        let roles = items_field(screens[n - 1], "roles"@);
        role_names(screens, (n - 1) as nat) + names_in(roles, roles.len())
    }
}

fn push_names(items: &Vec<TomlValue>, out: &mut Vec<String>)
    ensures
        texts(final(out)@) == texts(old(out)@) + names_in(
            item_views(items@),
            item_views(items@).len(),
        ),
{
    broadcast use texts_push;

    let ghost views = item_views(items@);
    let ghost start = texts(out@);
    proof {
        lemma_item_views(items@);
    }
    let mut i: usize = 0;
    assert(start + names_in(views, 0) =~= start);
    while i < items.len()
        invariant
            i <= items@.len(),
            views == item_views(items@),
            views.len() == items@.len(),
            forall|j: int| 0 <= j < items@.len() ==> #[trigger] views[j] == items@[j]@,
            texts(out@) == start + names_in(views, i as nat),
        decreases items@.len() - i,
    {
        assert(views[i as int] == items@[i as int]@);
        let ghost made = names_in(views, i as nat);
        match &items[i] {
            TomlValue::Text(s) => match split_once(s.as_str(), ':') {
                Some((name, _)) => {
                    let ghost view = name@;
                    out.push(name);
                    assert((start + made).push(view) =~= start + made.push(view));
                },
                None => {},
            },
            _ => {},
        }
        i += 1;
    }
}

fn all_role_names(doc: &TomlValue) -> (out: Vec<String>)
    ensures
        texts(out@) == role_names(screens_of(doc@), screens_of(doc@).len()),
{
    let mut out: Vec<String> = Vec::new();
    assert(texts(out@) =~= Seq::<Seq<char>>::empty());
    match doc.get_items("screen") {
        Some(screens) => {
            let ghost views = item_views(screens@);
            proof {
                lemma_item_views(screens@);
            }
            let mut i: usize = 0;
            while i < screens.len()
                invariant
                    i <= screens@.len(),
                    views.len() == screens@.len(),
                    forall|j: int|
                        0 <= j < screens@.len() ==> #[trigger] views[j] == screens@[j]@,
                    texts(out@) == role_names(views, i as nat),
                decreases screens@.len() - i,
            {
                assert(views[i as int] == screens@[i as int]@);
                let ghost before = texts(out@);
                match screens[i].get_items("roles") {
                    Some(roles) => {
                        push_names(roles, &mut out);
                    },
                    None => {
                        assert(names_in(items_field(views[i as int], "roles"@), 0).len() == 0);
                        assert(before + names_in(
                            items_field(views[i as int], "roles"@),
                            items_field(views[i as int], "roles"@).len(),
                        ) =~= before);
                    },
                }
                i += 1;
            }
        },
        None => {},
    }
    out
}

/// The identifier prefix of a module: module `M4` numbers its screens `4.1`,
/// `4.2` and so on.
pub open spec fn id_prefix(module: Seq<char>) -> Option<Seq<char>> {
    if starts_with(module, "M"@) && all_digits(module.skip(1)) {
        Some(module.skip(1) + "."@)
    } else {
        None
    }
}

fn prefix_of(module: &str) -> (out: Option<String>)
    ensures
        match out {
            Some(p) => id_prefix(module@) == Some(p@),
            None => id_prefix(module@) is None,
        },
{
    proof {
        reveal_strlit("M");
    }
    match strip_prefix(module, "M") {
        Some(serial) => {
            if !is_all_digits(serial.as_str()) {
                return None;
            }
            let mut p: String = serial;
            p.append(".");
            Some(p)
        },
        None => None,
    }
}

/// The number of an identifier under a prefix.
pub open spec fn number_under(id: Seq<char>, prefix: Seq<char>) -> Option<nat> {
    if starts_with(id, prefix) {
        parsed_u64(id.skip(prefix.len() as int))
    } else {
        None
    }
}

/// The highest number among the first `n` identifiers under a prefix; 0 where
/// there is none.
pub open spec fn highest(ids: Seq<Seq<char>>, prefix: Seq<char>, n: nat) -> nat
    decreases n,
{
    if n == 0 {
        0
    } else {
        let before = highest(ids, prefix, (n - 1) as nat);
        match number_under(ids[n - 1], prefix) {
            Some(k) => if k > before {
                k
            } else {
                before
            },
            None => before,
        }
    }
}

fn highest_number(ids: &Vec<String>, prefix: &str) -> (out: u64)
    ensures
        out == highest(texts(ids@), prefix@, ids@.len()),
{
    let mut best: u64 = 0;
    let mut i: usize = 0;
    while i < ids.len()
        invariant
            i <= ids@.len(),
            best == highest(texts(ids@), prefix@, i as nat),
        decreases ids@.len() - i,
    {
        assert(texts(ids@)[i as int] == ids@[i as int]@);
        match strip_prefix(ids[i].as_str(), prefix) {
            Some(rest) => match parse_u64(rest.as_str()) {
                Some(k) => {
                    if k > best {
                        best = k;
                    }
                },
                None => {},
            },
            None => {},
        }
        i += 1;
    }
    best
}

/// The next identifier of each of the first `n` modules that number their
/// screens: one above the highest in use.
pub open spec fn next_ids(modules: Seq<Seq<char>>, ids: Seq<Seq<char>>, n: nat) -> Seq<
    (Seq<char>, JsonView),
>
    decreases n,
{
    if n == 0 {
        Seq::empty()
    } else {
        let before = next_ids(modules, ids, (n - 1) as nat);
        match id_prefix(modules[n - 1]) {
            Some(p) => before.push(
                (modules[n - 1], JsonView::Text(p + decimal(highest(ids, p, ids.len()) + 1))),
            ),
            None => before,
        }
    }
}

/// No module has used up its numbers.
pub open spec fn numberable(modules: Seq<Seq<char>>, ids: Seq<Seq<char>>) -> bool {
    forall|i: int|
        0 <= i < modules.len() ==> (id_prefix(#[trigger] modules[i]) matches Some(p) ==> highest(
            ids,
            p,
            ids.len(),
        ) < u64::MAX)
}

/// The next identifier of each module; nothing where a module has used up its
/// numbers.
pub fn suggest_ids(modules: &Vec<String>, ids: &Vec<String>) -> (out: Option<Fields>)
    ensures
        match out {
            Some(f) => numberable(texts(modules@), texts(ids@)) && f@ == next_ids(
                texts(modules@),
                texts(ids@),
                modules@.len(),
            ),
            None => !numberable(texts(modules@), texts(ids@)),
        },
{
    let ghost ms = texts(modules@);
    let ghost is = texts(ids@);
    let mut out: Fields = Fields::new();
    let mut i: usize = 0;
    while i < modules.len()
        invariant
            i <= modules@.len(),
            ms == texts(modules@),
            is == texts(ids@),
            out@ == next_ids(ms, is, i as nat),
            forall|j: int|
                0 <= j < i ==> (id_prefix(#[trigger] ms[j]) matches Some(p) ==> highest(
                    is,
                    p,
                    is.len(),
                ) < u64::MAX),
        decreases modules@.len() - i,
    {
        assert(ms[i as int] == modules@[i as int]@);
        match prefix_of(modules[i].as_str()) {
            Some(p) => {
                let best: u64 = highest_number(ids, p.as_str());
                if best == u64::MAX {
                    assert(!numberable(ms, is));
                    return None;
                }
                let mut next: String = p;
                next.append(decimal_text(best + 1).as_str());
                out.put_text(modules[i].as_str(), next.as_str());
            },
            None => {},
        }
        i += 1;
    }
    Some(out)
}

/// The modules of a register, sorted.
pub open spec fn modules_of(doc: TomlView) -> Seq<Seq<char>> {
    sorted_texts(distinct(words(doc, "module"@)))
}

/// What the console shows of a register.
pub open spec fn register_json(doc: TomlView, file_name: Seq<char>) -> JsonView {
    let modules = modules_of(doc);
    let ids = words(doc, "id"@);
    let names = role_names(screens_of(doc), screens_of(doc).len());
    JsonView::Object(
        seq![
            ("exists"@, JsonView::Bool(true)),
            ("path"@, JsonView::Text(file_name)),
            (
                "metadata"@,
                match field(doc, "metadata"@) {
                    Some(m) => toml_json(m),
                    None => JsonView::Null,
                },
            ),
            ("modules"@, text_list(modules)),
            ("archetypes"@, text_list(sorted_texts(distinct(words(doc, "archetype"@))))),
            ("stages"@, text_list(distinct(words(doc, "stage"@)))),
            ("roles"@, text_list(sorted_texts(distinct(names)))),
            ("files"@, text_list(sorted_texts(distinct(words(doc, "file"@))))),
            ("ids"@, text_list(ids)),
            ("next_ids"@, JsonView::Object(next_ids(modules, ids, modules.len()))),
        ],
    )
}

/// The vocabularies of a register and the next identifier of each module;
/// nothing where a module has used up its numbers.
pub fn register_summary(doc: &TomlValue, file_name: &str) -> (out: Option<Json>)
    ensures
        match out {
            Some(j) => numberable(modules_of(doc@), words(doc@, "id"@)) && j@ == register_json(
                doc@,
                file_name@,
            ),
            None => !numberable(modules_of(doc@), words(doc@, "id"@)),
        },
{
    let modules: Vec<String> = sort_texts(&distinct_texts(&screen_words(doc, "module")));
    let archetypes: Vec<String> = sort_texts(&distinct_texts(&screen_words(doc, "archetype")));
    let stages: Vec<String> = distinct_texts(&screen_words(doc, "stage"));
    let roles: Vec<String> = sort_texts(&distinct_texts(&all_role_names(doc)));
    let files: Vec<String> = sort_texts(&distinct_texts(&screen_words(doc, "file")));
    let ids: Vec<String> = screen_words(doc, "id");
    assert(texts(modules@).len() == modules@.len());
    let next: Fields = match suggest_ids(&modules, &ids) {
        Some(f) => f,
        None => {
            return None;
        },
    };
    let metadata: Json = match doc.get("metadata") {
        Some(m) => json_of_toml(m),
        None => Json::Null,
    };
    let mut fields: Fields = Fields::new();
    fields.put_bool("exists", true);
    fields.put_text("path", file_name);
    fields.put("metadata", metadata);
    fields.put("modules", texts_json(&modules));
    fields.put("archetypes", texts_json(&archetypes));
    fields.put("stages", texts_json(&stages));
    fields.put("roles", texts_json(&roles));
    fields.put("files", texts_json(&files));
    fields.put("ids", texts_json(&ids));
    fields.put("next_ids", next.object());
    assert(JsonView::Object(fields@) == register_json(doc@, file_name@)) by {
        assert(register_json(doc@, file_name@)->Object_0 =~= fields@);
    }
    Some(fields.object())
}

/// The answer for a project without a register.
pub fn no_register() -> (out: ApiResponse)
    ensures
        responds_json(
            out,
            200,
            JsonView::Object(seq![("exists"@, JsonView::Bool(false))]),
        ),
{
    let mut fields: Fields = Fields::new();
    fields.put_bool("exists", false);
    assert(fields@ =~= seq![("exists"@, JsonView::Bool(false))]);
    ApiResponse::json(&fields.object())
}

/// What is said of a register that is no TOML document.
pub open spec fn parse_failure(path: Seq<char>, cause: Seq<char>) -> Seq<char> {
    path + " did not parse as TOML: "@ + cause
}

/// What is said of a register that is no TOML document.
pub fn unparsed_register(path: &str, cause: &str) -> (out: String)
    ensures
        out@ == parse_failure(path@, cause@),
{
    let mut msg: String = path.to_owned();
    msg.append(" did not parse as TOML: ");
    msg.append(cause);
    msg
}

/// Reads a register, or answers with what is wrong with it.
pub fn read_register(text: &str, path: &str) -> (r: Result<TomlValue, ApiResponse>)
    ensures
        match toml_parsed(text@) {
            Ok(doc) => r matches Ok(v) && v@ == doc,
            Err(cause) => r matches Err(a) && responds_error(a, 500, parse_failure(path@, cause)),
        },
{
    match parse_toml(text) {
        Ok(v) => Ok(v),
        Err(cause) => Err(
            ApiResponse::error(500, unparsed_register(path, cause.as_str()).as_str()),
        ),
    }
}

/// The answer to a request for the register with the given text; nothing where
/// a module has used up its numbers.
pub fn show_register(text: &str, path: &str, file_name: &str) -> (out: Option<ApiResponse>)
    ensures
        match toml_parsed(text@) {
            Ok(doc) => match out {
                Some(a) => numberable(modules_of(doc), words(doc, "id"@)) && responds_json(
                    a,
                    200,
                    register_json(doc, file_name@),
                ),
                None => !numberable(modules_of(doc), words(doc, "id"@)),
            },
            Err(cause) => out matches Some(a) && responds_error(
                a,
                500,
                parse_failure(path@, cause),
            ),
        },
{
    match read_register(text, path) {
        Ok(doc) => match register_summary(&doc, file_name) {
            Some(j) => Some(ApiResponse::json(&j)),
            None => None,
        },
        Err(a) => Some(a),
    }
}

proof fn lemma_highest(ids: Seq<Seq<char>>, prefix: Seq<char>, n: nat, i: int)
    requires
        0 <= i < n <= ids.len(),
        number_under(ids[i], prefix) is Some,
    ensures
        number_under(ids[i], prefix)->Some_0 <= highest(ids, prefix, n),
    decreases n,
{
    if i < n - 1 {
        lemma_highest(ids, prefix, (n - 1) as nat, i);
    }
}

/// A suggested number lies above every number in use.
proof fn lemma_suggested_number_is_new(ids: Seq<Seq<char>>, prefix: Seq<char>, i: int)
    requires
        0 <= i < ids.len(),
        number_under(ids[i], prefix) is Some,
    ensures
        number_under(ids[i], prefix)->Some_0 < highest(ids, prefix, ids.len()) + 1,
{
    lemma_highest(ids, prefix, ids.len(), i);
}

/// Every suggestion is for a module that numbers its screens.
proof fn lemma_next_ids(modules: Seq<Seq<char>>, ids: Seq<Seq<char>>, n: nat, k: int) -> (i: int)
    requires
        n <= modules.len(),
        0 <= k < next_ids(modules, ids, n).len(),
    ensures
        0 <= i < n,
        id_prefix(modules[i]) is Some,
        next_ids(modules, ids, n)[k] == (
            modules[i],
            JsonView::Text(
                id_prefix(modules[i])->Some_0 + decimal(
                    highest(ids, id_prefix(modules[i])->Some_0, ids.len()) + 1,
                ),
            ),
        ),
    decreases n,
{
    let before = next_ids(modules, ids, (n - 1) as nat);
    if k < before.len() {
        lemma_next_ids(modules, ids, (n - 1) as nat, k)
    } else {
        n - 1
    }
}

/// A suggested identifier is two numbers with a dot between them, and none that
/// is in use.
pub proof fn law_suggested_ids_are_new(
    modules: Seq<Seq<char>>,
    ids: Seq<Seq<char>>,
    k: int,
    id: Seq<char>,
)
    requires
        numberable(modules, ids),
        0 <= k < next_ids(modules, ids, modules.len()).len(),
        next_ids(modules, ids, modules.len())[k].1 == JsonView::Text(id),
    ensures
        split(id, '.').len() == 2,
        all_digits(split(id, '.')[0]),
        all_digits(split(id, '.')[1]),
        !ids.contains(id),
{
    let i = lemma_next_ids(modules, ids, modules.len(), k);
    let serial = modules[i].skip(1);
    let prefix = serial + "."@;
    let n = highest(ids, prefix, ids.len()) + 1;
    let digits = decimal(n);
    reveal_strlit(".");
    assert(id_prefix(modules[i]) == Some(prefix));
    assert(n <= u64::MAX);
    lemma_decimal(n);
    assert(prefix =~= serial.push('.'));
    assert(id =~= serial.push('.') + digits);
    assert(!serial.contains('.')) by {
        if serial.contains('.') {
            let j = choose|j: int| 0 <= j < serial.len() && serial[j] == '.';
            assert(is_digit(serial[j]));
        }
    }
    assert(!digits.contains('.')) by {
        if digits.contains('.') {
            let j = choose|j: int| 0 <= j < digits.len() && digits[j] == '.';
            assert(is_digit(digits[j]));
        }
    }
    lemma_split_two(serial, digits, '.');
    if ids.contains(id) {
        let j = choose|j: int| 0 <= j < ids.len() && ids[j] == id;
        assert(id.subrange(0, prefix.len() as int) =~= prefix);
        assert(id.skip(prefix.len() as int) =~= digits);
        assert(is_digit(digits[0]));
        assert(unsigned(digits) == digits);
        assert(number_under(ids[j], prefix) == Some(n));
        lemma_suggested_number_is_new(ids, prefix, j);
    }
}

/// The file that holds the register of a project, given which of the two that
/// may is there.
pub fn screen_register_path(has_screens: bool, has_screen: bool) -> (out: Option<&'static str>)
    ensures
        match out {
            Some(name) => name@ == if has_screens {
                "screens.toml"@
            } else {
                "screen.toml"@
            } && (has_screens || has_screen),
            None => !has_screens && !has_screen,
        },
{
    if has_screens {
        Some("screens.toml")
    } else if has_screen {
        Some("screen.toml")
    } else {
        None
    }
}

/// The role names of a role list are what stands before the first colon of each
/// item that has one, in order.
pub proof fn law_names_in_a_list(items: Seq<TomlView>, n: nat)
    requires
        n <= items.len(),
    ensures
        names_in(items, n) == items.take(n as int).filter_map(
            |i: TomlView|
                match i {
                    TomlView::Text(s) => match cut(s, ':') {
                        Some((name, _)) => Some(name),
                        None => None,
                    },
                    _ => None,
                },
        ),
    decreases n,
{
    let f = |i: TomlView|
        match i {
            TomlView::Text(s) => match cut(s, ':') {
                Some((name, _)) => Some(name),
                None => None,
            },
            _ => None,
        };
    if n > 0 {
        law_names_in_a_list(items, (n - 1) as nat);
        lemma_kept_next(items, f, n - 1);
    }
}

/// The role names of a register are those of all its screens.
pub proof fn law_names_of_screens(screens: Seq<TomlView>, n: nat)
    requires
        n <= screens.len(),
    ensures
        role_names(screens, n) == screens.map_values(
            |s: TomlView| names_in(items_field(s, "roles"@), items_field(s, "roles"@).len()),
        ).take(n as int).flatten(),
    decreases n,
{
    let all = screens.map_values(
        |s: TomlView| names_in(items_field(s, "roles"@), items_field(s, "roles"@).len()),
    );
    if n > 0 {
        law_names_of_screens(screens, (n - 1) as nat);
        lemma_flat_next(all, n - 1);
    } else {
        assert(all.take(0) =~= Seq::<Seq<Seq<char>>>::empty());
    }
}

/// A module numbers its screens exactly where it is called `M` and a number; its
/// identifiers begin with that number and a dot.
pub proof fn law_modules_that_number(digits: Seq<char>, module: Seq<char>)
    ensures
        digits.len() > 0 && (forall|i: int| 0 <= i < digits.len() ==> '0' <= #[trigger] digits[i] <= '9')
            ==> id_prefix(seq!['M'] + digits) == Some(digits + "."@),
        id_prefix(module) matches Some(p) ==> {
            &&& module.len() > 1
            &&& module[0] == 'M'
            &&& p == module.drop_first() + "."@
            &&& forall|i: int| 1 <= i < module.len() ==> '0' <= #[trigger] module[i] <= '9'
        },
{
    reveal_strlit("M");
    assert("M"@ =~= seq!['M']);
    let whole = seq!['M'] + digits;
    assert(whole.subrange(0, 1) =~= seq!['M']);
    assert(whole.skip(1) =~= digits);
    if forall|i: int| 0 <= i < digits.len() ==> '0' <= #[trigger] digits[i] <= '9' {
        assert forall|i: int| 0 <= i < digits.len() implies is_digit(#[trigger] digits[i]) by {
            assert('0' <= digits[i] <= '9');
        }
    }
    if id_prefix(module) is Some {
        assert(module.subrange(0, 1)[0] == 'M');
        assert(module.skip(1) =~= module.drop_first());
        assert forall|i: int| 1 <= i < module.len() implies '0' <= #[trigger] module[i] <= '9' by {
            assert(is_digit(module.skip(1)[i - 1]));
        }
    }
}

/// The highest number of a module is one that is in use, or nought, and none in
/// use is above it.
pub proof fn law_highest_number(ids: Seq<Seq<char>>, prefix: Seq<char>, n: nat)
    requires
        n <= ids.len(),
    ensures
        forall|i: int|
            0 <= i < n ==> (number_under(#[trigger] ids[i], prefix) matches Some(k) ==> k <= highest(
                ids,
                prefix,
                n,
            )),
        highest(ids, prefix, n) == 0 || exists|i: int|
            0 <= i < n && number_under(#[trigger] ids[i], prefix) == Some(highest(ids, prefix, n)),
    decreases n,
{
    if n > 0 {
        law_highest_number(ids, prefix, (n - 1) as nat);
        assert(number_under(ids[n - 1], prefix) == number_under(ids[n - 1], prefix));
    }
}

/// The number of an identifier is what stands behind the prefix, where that is a
/// number.
pub proof fn law_number_of_an_identifier(prefix: Seq<char>, rest: Seq<char>, id: Seq<char>)
    ensures
        number_under(prefix + rest, prefix) == parsed_u64(rest),
        number_under(id, prefix) is Some ==> exists|tail: Seq<char>|
            id == #[trigger] (prefix + tail) && parsed_u64(tail) == number_under(id, prefix),
{
    let whole = prefix + rest;
    assert(whole.subrange(0, prefix.len() as int) =~= prefix);
    assert(whole.skip(prefix.len() as int) =~= rest);
    if number_under(id, prefix) is Some {
        assert(id =~= prefix + id.skip(prefix.len() as int));
    }
}

/// Every module that numbers its screens is given the identifier one above its
/// highest, in order, and no other module is given any.
pub proof fn law_next_identifiers(modules: Seq<Seq<char>>, ids: Seq<Seq<char>>, n: nat)
    requires
        n <= modules.len(),
    ensures
        next_ids(modules, ids, n) == modules.take(n as int).filter_map(
            |m: Seq<char>|
                if id_prefix(m) is Some {
                    Some(
                        (
                            m,
                            JsonView::Text(
                                id_prefix(m)->Some_0 + decimal(
                                    highest(ids, id_prefix(m)->Some_0, ids.len()) + 1,
                                ),
                            ),
                        ),
                    )
                } else {
                    None
                },
        ),
    decreases n,
{
    let f = |m: Seq<char>|
        if id_prefix(m) is Some {
            Some(
                (
                    m,
                    JsonView::Text(
                        id_prefix(m)->Some_0 + decimal(
                            highest(ids, id_prefix(m)->Some_0, ids.len()) + 1,
                        ),
                    ),
                ),
            )
        } else {
            None
        };
    if n > 0 {
        law_next_identifiers(modules, ids, (n - 1) as nat);
        lemma_kept_next(modules, f, n - 1);
    }
}

/// What the console shows of a register: its metadata, each word that its screens
/// use under a key once, in order of the dictionary or, for stages, of first use,
/// all identifiers, and the next one of each module.
pub proof fn law_what_a_register_shows(doc: TomlView, file_name: Seq<char>)
    ensures
        register_json(doc, file_name) is Object,
        ({
            let fields = register_json(doc, file_name)->Object_0;
            let modules = sorted_texts(distinct(words(doc, "module"@)));
            let ids = words(doc, "id"@);
            &&& fields.len() == 10
            &&& fields[0] == ("exists"@, JsonView::Bool(true))
            &&& fields[1] == ("path"@, JsonView::Text(file_name))
            &&& fields[2].0 == "metadata"@
            &&& field(doc, "metadata"@) matches Some(m) ==> fields[2].1 == toml_json(m)
            &&& field(doc, "metadata"@) is None ==> fields[2].1 == JsonView::Null
            &&& fields[3] == ("modules"@, text_list(modules))
            &&& fields[4] == ("archetypes"@, text_list(
                sorted_texts(distinct(words(doc, "archetype"@))),
            ))
            &&& fields[5] == ("stages"@, text_list(distinct(words(doc, "stage"@))))
            &&& fields[6] == ("roles"@, text_list(
                sorted_texts(
                    distinct(
                        role_names(
                            items_field(doc, "screen"@),
                            items_field(doc, "screen"@).len(),
                        ),
                    ),
                ),
            ))
            &&& fields[7] == ("files"@, text_list(sorted_texts(distinct(words(doc, "file"@)))))
            &&& fields[8] == ("ids"@, text_list(ids))
            &&& fields[9] == ("next_ids"@, JsonView::Object(next_ids(modules, ids, modules.len())))
        }),
        forall|key: Seq<char>| #[trigger]
            words(doc, key) == texts_at(
                items_field(doc, "screen"@),
                key,
                items_field(doc, "screen"@).len(),
            ),
{
}

/// What is told of a register that cannot be read names the file and the cause.
pub proof fn law_what_is_told_of_a_register(path: Seq<char>, cause: Seq<char>)
    ensures
        parse_failure(path, cause) == path + " did not parse as TOML: "@ + cause,
{
}

} // verus!
