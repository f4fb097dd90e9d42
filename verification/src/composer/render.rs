//! The composed register and menu as TOML documents.
use crate::composer::decl::{
    opt_text, pairs, ApprovalChainDecl, BindingView, ChainView, CodegenDecl, CodegenView,
    DataBinding, EntryView, FieldDecl, FieldView, GroupView, GuardDecl, GuardView, MenuEntry,
    MenuGroup, MenuGuard, MenuGuardView, MenusView, ModuleMenus, ModuleRegister, PolicyDecl,
    PolicyView, RegisterView, ScreenDecl, ScreenView,
};
use crate::lists::{lemma_flat_next, lemma_in_a_row};
use crate::order::{
    key_before, key_views, law_ordering_keeps_everything, law_sorted_order, order_of, positions,
    sorted_order, KeyView, SortKey,
};
use crate::outside::{toml_document, toml_to_string};
use crate::text::{
    decimal, decimal_text, integer, integer_text, join, join_texts, lines, lines_of, quote, quoted,
    text_before, texts, texts_push,
};
use crate::toml_value::{
    entry_views, escape, escaped, lemma_entry_views, serialize_value, value_text, TomlValue,
    TomlView,
};
use vstd::prelude::*;

verus! {

/// `key = "value"` on a line of its own.
pub open spec fn text_line(key: Seq<char>, value: Seq<char>) -> Seq<char> {
    key + " = \""@ + value + "\"\n"@
}

/// `key = value` on a line of its own.
pub open spec fn plain_line(key: Seq<char>, value: Seq<char>) -> Seq<char> {
    key + " = "@ + value + "\n"@
}

/// The line of an optional text; nothing where it is absent.
pub open spec fn opt_line(key: Seq<char>, value: Option<Seq<char>>) -> Seq<char> {
    match value {
        Some(v) => text_line(key, v),
        None => Seq::empty(),
    }
}

/// The line of a text; nothing where it is empty.
pub open spec fn nonempty_line(key: Seq<char>, value: Seq<char>) -> Seq<char> {
    if value.len() > 0 {
        text_line(key, value)
    } else {
        Seq::empty()
    }
}

/// A list of texts in brackets.
pub open spec fn list_text(items: Seq<Seq<char>>) -> Seq<char> {
    "["@ + join(items.map_values(|s: Seq<char>| quoted(s)), ", "@) + "]"@
}

/// The line of a list of texts; nothing where it is empty.
pub open spec fn list_line(key: Seq<char>, items: Seq<Seq<char>>) -> Seq<char> {
    if items.len() > 0 {
        plain_line(key, list_text(items))
    } else {
        Seq::empty()
    }
}

fn put_text(key: &str, value: &str) -> (out: String)
    ensures
        out@ == text_line(key@, value@),
{
    let mut out: String = key.to_owned();
    out.append(" = \"");
    out.append(value);
    out.append("\"\n");
    out
}

fn put_plain(key: &str, value: &str) -> (out: String)
    ensures
        out@ == plain_line(key@, value@),
{
    let mut out: String = key.to_owned();
    out.append(" = ");
    out.append(value);
    out.append("\n");
    out
}

fn put_opt(key: &str, value: &Option<String>) -> (out: String)
    ensures
        out@ == opt_line(key@, opt_text(*value)),
{
    match value {
        Some(v) => put_text(key, v.as_str()),
        None => String::new(),
    }
}

fn put_nonempty(key: &str, value: &str) -> (out: String)
    ensures
        out@ == nonempty_line(key@, value@),
{
    if value.is_empty() {
        String::new()
    } else {
        put_text(key, value)
    }
}

fn bracketed(items: &Vec<String>) -> (out: String)
    ensures
        out@ == list_text(texts(items@)),
{
    broadcast use texts_push;

    let ghost all = texts(items@).map_values(|s: Seq<char>| quoted(s));
    let mut parts: Vec<String> = Vec::new();
    let mut i: usize = 0;
    assert(texts(parts@) =~= all.take(0));
    while i < items.len()
        invariant
            i <= items@.len(),
            all == texts(items@).map_values(|s: Seq<char>| quoted(s)),
            texts(parts@) == all.take(i as int),
        decreases items@.len() - i,
    {
        parts.push(quote(items[i].as_str()));
        i += 1;
        assert(all.take(i as int) =~= all.take(i as int - 1).push(all[i as int - 1]));
    }
    assert(all.take(i as int) =~= all);
    let mut out: String = "[".to_owned();
    out.append(join_texts(&parts, ", ").as_str());
    out.append("]");
    out
}

fn put_list(key: &str, items: &Vec<String>) -> (out: String)
    ensures
        out@ == list_line(key@, texts(items@)),
{
    if items.len() > 0 {
        put_plain(key, bracketed(items).as_str())
    } else {
        String::new()
    }
}

/// The head of the register document.
pub open spec fn register_head(r: RegisterView) -> Seq<char> {
    "# Generated by nirdosha-hi composer\n# DO NOT EDIT BY HAND -- regenerate from the template modules.\n\n[metadata]\n"@
        + text_line("schema"@, "nirdosha.screen-register/v2"@) + text_line(
        "register_id"@,
        r.register_id,
    ) + text_line("version"@, "1.0.0"@) + text_line("module"@, r.module) + plain_line(
        "total_screens"@,
        decimal(r.total_screens),
    ) + text_line("canonical_order"@, "module_then_id"@) + text_line(
        "codegen_profile"@,
        "web-default"@,
    ) + text_line("generator_version"@, "nirdosha-screen-codegen/1"@) + text_line(
        "default_timezone"@,
        "UTC"@,
    ) + text_line("default_locale"@, "en"@) + "\n"@
}

fn put_head(r: &ModuleRegister) -> (out: String)
    ensures
        out@ == register_head(r@),
{
    let mut out: String =
        "# Generated by nirdosha-hi composer\n# DO NOT EDIT BY HAND -- regenerate from the template modules.\n\n[metadata]\n".to_owned();
    out.append(put_text("schema", "nirdosha.screen-register/v2").as_str());
    out.append(put_text("register_id", r.metadata.register_id.as_str()).as_str());
    out.append(put_text("version", "1.0.0").as_str());
    out.append(put_text("module", r.metadata.module.as_str()).as_str());
    out.append(
        put_plain("total_screens", decimal_text(r.metadata.total_screens as u64).as_str()).as_str(),
    );
    out.append(put_text("canonical_order", "module_then_id").as_str());
    out.append(put_text("codegen_profile", "web-default").as_str());
    out.append(put_text("generator_version", "nirdosha-screen-codegen/1").as_str());
    out.append(put_text("default_timezone", "UTC").as_str());
    out.append(put_text("default_locale", "en").as_str());
    out.append("\n");
    out
}

/// One approval chain.
pub open spec fn chain_text(c: ChainView) -> Seq<char> {
    "[[approval_chain]]\n"@ + text_line("name"@, c.name) + plain_line("quorum"@, integer(c.quorum))
        + plain_line("approvers"@, list_text(c.approvers)) + "\n"@
}

fn put_chain(c: &ApprovalChainDecl) -> (out: String)
    ensures
        out@ == chain_text(c@),
{
    let mut out: String = "[[approval_chain]]\n".to_owned();
    out.append(put_text("name", c.name.as_str()).as_str());
    out.append(put_plain("quorum", integer_text(c.quorum).as_str()).as_str());
    out.append(put_plain("approvers", bracketed(&c.approvers).as_str()).as_str());
    out.append("\n");
    out
}

/// How a screen is generated.
pub open spec fn codegen_text(c: CodegenView) -> Seq<char> {
    "[screen.codegen]\n"@ + text_line("template"@, c.template) + opt_line(
        "mount_symbol"@,
        c.mount_symbol,
    ) + opt_line("route_path"@, c.route_path) + list_line("generated_files"@, c.generated_files)
}

fn put_codegen(c: &CodegenDecl) -> (out: String)
    ensures
        out@ == codegen_text(c@),
{
    let mut out: String = "[screen.codegen]\n".to_owned();
    out.append(put_text("template", c.template.as_str()).as_str());
    out.append(put_opt("mount_symbol", &c.mount_symbol).as_str());
    out.append(put_opt("route_path", &c.route_path).as_str());
    out.append(put_list("generated_files", &c.generated_files).as_str());
    out
}

/// The guarded table of a screen.
pub open spec fn guard_text(g: GuardView) -> Seq<char> {
    "[screen.data_binding.guard]\n"@ + text_line("table"@, g.table) + text_line(
        "purpose"@,
        g.purpose,
    ) + opt_line("row_id"@, g.row_id)
}

fn put_guard(g: &GuardDecl) -> (out: String)
    ensures
        out@ == guard_text(g@),
{
    let mut out: String = "[screen.data_binding.guard]\n".to_owned();
    out.append(put_text("table", g.table.as_str()).as_str());
    out.append(put_text("purpose", g.purpose.as_str()).as_str());
    out.append(put_opt("row_id", &g.row_id).as_str());
    out
}

/// A flag that is written only where it holds.
pub open spec fn flag_line(key: Seq<char>, on: bool) -> Seq<char> {
    if on {
        key + " = true\n"@
    } else {
        Seq::empty()
    }
}

fn put_flag(key: &str, on: bool) -> (out: String)
    ensures
        out@ == flag_line(key@, on),
{
    if on {
        let mut out: String = key.to_owned();
        out.append(" = true\n");
        out
    } else {
        String::new()
    }
}

/// One field of a screen. A sensitive field is written as a masked one.
pub open spec fn field_text(f: FieldView) -> Seq<char> {
    "[[screen.data_binding.fields]]\n"@ + text_line("name"@, f.name) + text_line("type"@, f.ty)
        + flag_line("masked"@, f.masked || f.sensitive) + flag_line("required"@, f.required)
}

fn put_field(f: &FieldDecl) -> (out: String)
    ensures
        out@ == field_text(f@),
{
    let mut out: String = "[[screen.data_binding.fields]]\n".to_owned();
    out.append(put_text("name", f.name.as_str()).as_str());
    out.append(put_text("type", f.ty.as_str()).as_str());
    out.append(put_flag("masked", f.masked || f.sensitive).as_str());
    out.append(put_flag("required", f.required).as_str());
    out
}

/// The first `n` fields of a screen.
pub open spec fn fields_text(fields: Seq<FieldView>, n: nat) -> Seq<char>
    decreases n,
{
    if n == 0 {
        Seq::empty()
    } else {
        fields_text(fields, (n - 1) as nat) + field_text(fields[n - 1])
    }
}

fn put_fields(fields: &Vec<FieldDecl>) -> (out: String)
    ensures
        out@ == fields_text(fields@.map_values(|x: FieldDecl| x@), fields@.len()),
{
    let ghost views = fields@.map_values(|x: FieldDecl| x@);
    let mut out: String = String::new();
    let mut i: usize = 0;
    while i < fields.len()
        invariant
            i <= fields@.len(),
            views == fields@.map_values(|x: FieldDecl| x@),
            out@ == fields_text(views, i as nat),
        decreases fields@.len() - i,
    {
        assert(views[i as int] == fields@[i as int]@);
        out.append(put_field(&fields[i]).as_str());
        i += 1;
    }
    out
}

/// The data that a screen is bound to.
pub open spec fn binding_text(b: BindingView) -> Seq<char> {
    "[screen.data_binding]\n"@ + list_line("entities"@, b.entities) + opt_line(
        "primary_key"@,
        b.primary_key,
    ) + (match b.guard {
        Some(g) => guard_text(g),
        None => Seq::empty(),
    }) + fields_text(b.fields, b.fields.len())
}

fn put_binding(b: &DataBinding) -> (out: String)
    ensures
        out@ == binding_text(b@),
{
    let mut out: String = "[screen.data_binding]\n".to_owned();
    out.append(put_list("entities", &b.entities).as_str());
    out.append(put_opt("primary_key", &b.primary_key).as_str());
    let guard: String = match &b.guard {
        Some(g) => put_guard(g),
        None => String::new(),
    };
    out.append(guard.as_str());
    out.append(put_fields(&b.fields).as_str());
    out
}

/// What a screen may be used for.
pub open spec fn policy_text(p: PolicyView) -> Seq<char> {
    "[screen.policy]\n"@ + opt_line("purpose"@, p.purpose) + list_line(
        "allowed_actions"@,
        p.allowed_actions,
    )
}

fn put_policy(p: &PolicyDecl) -> (out: String)
    ensures
        out@ == policy_text(p@),
{
    let mut out: String = "[screen.policy]\n".to_owned();
    out.append(put_opt("purpose", &p.purpose).as_str());
    out.append(put_list("allowed_actions", &p.allowed_actions).as_str());
    out
}

/// The first `n` parameters of a screen.
pub open spec fn parameter_lines(entries: Seq<(Seq<char>, TomlView)>, n: nat) -> Seq<char>
    decreases n,
{
    if n == 0 {
        Seq::empty()
    } else {
        parameter_lines(entries, (n - 1) as nat) + plain_line(
            entries[n - 1].0,
            value_text(entries[n - 1].1),
        )
    }
}

/// The parameters of a screen; nothing where they are not a table or an empty
/// one.
pub open spec fn parameters_text(p: TomlView) -> Seq<char> {
    match p {
        TomlView::Table(entries) => if entries.len() > 0 {
            "[screen.parameters]\n"@ + parameter_lines(entries, entries.len())
        } else {
            Seq::empty()
        },
        _ => Seq::empty(),
    }
}

fn put_parameters(p: &TomlValue) -> (out: String)
    ensures
        out@ == parameters_text(p@),
{
    match p {
        TomlValue::Table(entries) => {
            proof {
                lemma_entry_views(entries@);
            }
            if entries.len() == 0 {
                return String::new();
            }
            let ghost views = entry_views(entries@);
            let mut body: String = String::new();
            let mut i: usize = 0;
            while i < entries.len()
                invariant
                    i <= entries@.len(),
                    views.len() == entries@.len(),
                    forall|j: int|
                        0 <= j < entries@.len() ==> #[trigger] views[j] == (
                            entries@[j].0@,
                            entries@[j].1@,
                        ),
                    body@ == parameter_lines(views, i as nat),
                decreases entries@.len() - i,
            {
                assert(views[i as int] == (entries@[i as int].0@, entries@[i as int].1@));
                let value: String = serialize_value(&entries[i].1);
                body.append(put_plain(entries[i].0.as_str(), value.as_str()).as_str());
                i += 1;
            }
            let mut out: String = "[screen.parameters]\n".to_owned();
            out.append(body.as_str());
            out
        },
        _ => String::new(),
    }
}

/// One screen of the register: its own lines, then its tables.
pub open spec fn screen_text(s: ScreenView) -> Seq<char> {
    "[[screen]]\n"@ + text_line("id"@, s.id) + text_line("name"@, s.name) + text_line(
        "module"@,
        s.module,
    ) + text_line("archetype"@, s.archetype) + list_line("combo"@, s.combo) + list_line(
        "roles"@,
        s.roles,
    ) + list_line("datasets"@, s.datasets) + list_line("blocked_by"@, s.blocked_by)
        + nonempty_line("stage"@, s.stage) + nonempty_line("file"@, s.file) + nonempty_line(
        "notes"@,
        escaped(s.notes),
    ) + (match s.codegen {
        Some(c) => codegen_text(c),
        None => Seq::empty(),
    }) + (match s.data_binding {
        Some(b) => binding_text(b),
        None => Seq::empty(),
    }) + (match s.policy {
        Some(p) => policy_text(p),
        None => Seq::empty(),
    }) + parameters_text(s.parameters) + "\n"@
}

fn put_screen(s: &ScreenDecl) -> (out: String)
    ensures
        out@ == screen_text(s@),
{
    let mut out: String = "[[screen]]\n".to_owned();
    out.append(put_text("id", s.id.as_str()).as_str());
    out.append(put_text("name", s.name.as_str()).as_str());
    out.append(put_text("module", s.module.as_str()).as_str());
    out.append(put_text("archetype", s.archetype.as_str()).as_str());
    out.append(put_list("combo", &s.combo).as_str());
    out.append(put_list("roles", &s.roles).as_str());
    out.append(put_list("datasets", &s.datasets).as_str());
    out.append(put_list("blocked_by", &s.blocked_by).as_str());
    out.append(put_nonempty("stage", s.stage.as_str()).as_str());
    out.append(put_nonempty("file", s.file.as_str()).as_str());
    out.append(put_nonempty("notes", escape(s.notes.as_str()).as_str()).as_str());
    let codegen: String = match &s.codegen {
        Some(c) => put_codegen(c),
        None => String::new(),
    };
    out.append(codegen.as_str());
    let binding: String = match &s.data_binding {
        Some(b) => put_binding(b),
        None => String::new(),
    };
    out.append(binding.as_str());
    let policy: String = match &s.policy {
        Some(p) => put_policy(p),
        None => String::new(),
    };
    out.append(policy.as_str());
    out.append(put_parameters(&s.parameters).as_str());
    out.append("\n");
    out
}

/// The first `n` chains, after `start`.
pub open spec fn chains_text(start: Seq<char>, chains: Seq<ChainView>, n: nat) -> Seq<char>
    decreases n,
{
    if n == 0 {
        start
    } else {
        chains_text(start, chains, (n - 1) as nat) + chain_text(chains[n - 1])
    }
}

/// The first `n` screens, after `start`.
pub open spec fn screens_text(start: Seq<char>, screens: Seq<ScreenView>, n: nat) -> Seq<char>
    decreases n,
{
    if n == 0 {
        start
    } else {
        screens_text(start, screens, (n - 1) as nat) + screen_text(screens[n - 1])
    }
}

/// The register document: its head, its approval chains, its screens.
pub open spec fn register_text(r: RegisterView) -> Seq<char> {
    screens_text(
        chains_text(register_head(r), r.approval_chain, r.approval_chain.len()),
        r.screen,
        r.screen.len(),
    )
}

/// Writes the register as a TOML document.
pub fn serialize_register(r: &ModuleRegister) -> (out: String)
    ensures
        out@ == register_text(r@),
{
    let ghost head = register_head(r@);
    let mut out: String = put_head(r);
    let mut i: usize = 0;
    while i < r.approval_chain.len()
        invariant
            i <= r.approval_chain@.len(),
            out@ == chains_text(head, r@.approval_chain, i as nat),
        decreases r.approval_chain@.len() - i,
    {
        assert(r@.approval_chain[i as int] == r.approval_chain@[i as int]@);
        out.append(put_chain(&r.approval_chain[i]).as_str());
        i += 1;
    }
    let ghost start = out@;
    let mut k: usize = 0;
    while k < r.screen.len()
        invariant
            k <= r.screen@.len(),
            out@ == screens_text(start, r@.screen, k as nat),
        decreases r.screen@.len() - k,
    {
        assert(r@.screen[k as int] == r.screen@[k as int]@);
        out.append(put_screen(&r.screen[k]).as_str());
        k += 1;
    }
    out
}

/// The first `n` lines, each ended by a line feed, after `start`.
pub open spec fn relined(start: Seq<char>, list: Seq<Seq<char>>, n: nat) -> Seq<char>
    decreases n,
{
    if n == 0 {
        start
    } else {
        relined(start, list, (n - 1) as nat) + (list[n - 1] + "\n"@)
    }
}

/// The head of the menu document, around the document of its metadata.
pub open spec fn menus_head(meta: Option<Seq<char>>) -> Seq<char> {
    let start = "# Generated by nirdosha-hi composer\n\n[meta]\n"@;
    (match meta {
        Some(text) => relined(start, lines(text), lines(text).len()),
        None => start,
    }) + "\n"@
}

fn put_menus_head(meta: &Option<String>) -> (out: String)
    ensures
        out@ == menus_head(opt_text(*meta)),
{
    let mut out: String = "# Generated by nirdosha-hi composer\n\n[meta]\n".to_owned();
    let ghost start = out@;
    match meta {
        Some(text) => {
            let list: Vec<String> = lines_of(text.as_str());
            let mut i: usize = 0;
            while i < list.len()
                invariant
                    i <= list@.len(),
                    out@ == relined(start, texts(list@), i as nat),
                decreases list@.len() - i,
            {
                assert(texts(list@)[i as int] == list@[i as int]@);
                let mut line: String = list[i].clone();
                line.append("\n");
                out.append(line.as_str());
                i += 1;
            }
        },
        None => {},
    }
    out.append("\n");
    out
}

/// What a landing route is ordered by: its role.
pub open spec fn landing_key(entry: (Seq<char>, Seq<char>)) -> KeyView {
    KeyView { major: 0, minor: 0, id: entry.0 }
}

/// The first `n` of the landing routes that `order` lists.
pub open spec fn landing_lines(
    start: Seq<char>,
    landing: Seq<(Seq<char>, Seq<char>)>,
    order: Seq<int>,
    n: nat,
) -> Seq<char>
    decreases n,
{
    if n == 0 {
        start
    } else {
        landing_lines(start, landing, order, (n - 1) as nat) + text_line(
            landing[order[n - 1]].0,
            landing[order[n - 1]].1,
        )
    }
}

/// The landing routes, by role; nothing where there are none.
pub open spec fn landing_text(landing: Seq<(Seq<char>, Seq<char>)>) -> Seq<char> {
    if landing.len() > 0 {
        let keys = landing.map_values(|e: (Seq<char>, Seq<char>)| landing_key(e));
        landing_lines("[landing]\n"@, landing, sorted_order(keys, keys.len()), landing.len())
            + "\n"@
    } else {
        Seq::empty()
    }
}

/// The landing routes are written by ascending role, each of them once.
pub proof fn law_landing_roles_ascend(landing: Seq<(Seq<char>, Seq<char>)>)
    ensures
        ({
            let keys = landing.map_values(|e: (Seq<char>, Seq<char>)| landing_key(e));
            let order = sorted_order(keys, keys.len());
            &&& order.len() == landing.len()
            &&& forall|i: int| 0 <= i < order.len() ==> 0 <= #[trigger] order[i] < landing.len()
            &&& forall|i: int, j: int|
                0 <= i < j < order.len() ==> #[trigger] order[i] != #[trigger] order[j]
            &&& forall|i: int, j: int|
                0 <= i < j < order.len() ==> !text_before(
                    landing[#[trigger] order[j]].0,
                    landing[#[trigger] order[i]].0,
                )
        }),
{
    let keys = landing.map_values(|e: (Seq<char>, Seq<char>)| landing_key(e));
    let order = sorted_order(keys, keys.len());
    law_sorted_order(keys, keys.len());
    assert forall|i: int, j: int| 0 <= i < j < order.len() implies !text_before(
        landing[#[trigger] order[j]].0,
        landing[#[trigger] order[i]].0,
    ) by {
        assert(!key_before(keys[order[j]], keys[order[i]]));
    }
}

fn put_landing(landing: &Vec<(String, String)>) -> (out: String)
    ensures
        out@ == landing_text(pairs(landing@)),
{
    if landing.len() == 0 {
        return String::new();
    }
    let ghost views = pairs(landing@);
    let ghost wanted = views.map_values(|e: (Seq<char>, Seq<char>)| landing_key(e));
    let mut keys: Vec<SortKey> = Vec::new();
    let mut i: usize = 0;
    while i < landing.len()
        invariant
            i <= landing@.len(),
            views == pairs(landing@),
            wanted == views.map_values(|e: (Seq<char>, Seq<char>)| landing_key(e)),
            keys@.len() == i,
            forall|j: int| 0 <= j < i ==> #[trigger] keys@[j]@ == wanted[j],
        decreases landing@.len() - i,
    {
        keys.push(SortKey { major: 0, minor: 0, id: landing[i].0.clone() });
        assert(keys@[i as int]@ =~= wanted[i as int]);
        i += 1;
    }
    assert(key_views(keys@) =~= wanted);
    let order: Vec<usize> = order_of(&keys);
    let mut out: String = "[landing]\n".to_owned();
    let ghost start = out@;
    let mut n: usize = 0;
    while n < order.len()
        invariant
            n <= order@.len(),
            order@.len() == landing@.len(),
            views == pairs(landing@),
            forall|j: int| 0 <= j < order@.len() ==> #[trigger] order@[j] < landing@.len(),
            out@ == landing_lines(start, views, positions(order@), n as nat),
        decreases order@.len() - n,
    {
        let at: usize = order[n];
        assert(positions(order@)[n as int] == at);
        assert(views[at as int] == (landing@[at as int].0@, landing@[at as int].1@));
        out.append(put_text(landing[at].0.as_str(), landing[at].1.as_str()).as_str());
        n += 1;
    }
    out.append("\n");
    out
}

/// One group of the menu.
pub open spec fn group_text(g: GroupView) -> Seq<char> {
    "[[group]]\n"@ + text_line("id"@, g.id) + text_line("label_key"@, g.label_key) + plain_line(
        "order"@,
        integer(g.order),
    ) + "\n"@
}

fn put_group(g: &MenuGroup) -> (out: String)
    ensures
        out@ == group_text(g@),
{
    let mut out: String = "[[group]]\n".to_owned();
    out.append(put_text("id", g.id.as_str()).as_str());
    out.append(put_text("label_key", g.label_key.as_str()).as_str());
    out.append(put_plain("order", integer_text(g.order).as_str()).as_str());
    out.append("\n");
    out
}

/// What a menu entry asks permission for.
pub open spec fn menu_guard_text(g: MenuGuardView) -> Seq<char> {
    "[menu.guard]\n"@ + text_line("action"@, g.action) + text_line("resource"@, g.resource)
}

fn put_menu_guard(g: &MenuGuard) -> (out: String)
    ensures
        out@ == menu_guard_text(g@),
{
    let mut out: String = "[menu.guard]\n".to_owned();
    out.append(put_text("action", g.action.as_str()).as_str());
    out.append(put_text("resource", g.resource.as_str()).as_str());
    out
}

/// One entry of the menu. What it asks permission for is a table of its own and
/// stands last.
pub open spec fn entry_text(e: EntryView) -> Seq<char> {
    "[[menu]]\n"@ + text_line("id"@, e.id) + text_line("label_key"@, e.label_key) + text_line(
        "group"@,
        e.group,
    ) + text_line("screen_id"@, e.screen_id) + text_line("route"@, e.route) + list_line(
        "roles"@,
        e.roles,
    ) + plain_line("order"@, integer(e.order)) + (match e.guard {
        Some(g) => menu_guard_text(g),
        None => Seq::empty(),
    }) + "\n"@
}

fn put_entry(e: &MenuEntry) -> (out: String)
    ensures
        out@ == entry_text(e@),
{
    let mut out: String = "[[menu]]\n".to_owned();
    out.append(put_text("id", e.id.as_str()).as_str());
    out.append(put_text("label_key", e.label_key.as_str()).as_str());
    out.append(put_text("group", e.group.as_str()).as_str());
    out.append(put_text("screen_id", e.screen_id.as_str()).as_str());
    out.append(put_text("route", e.route.as_str()).as_str());
    out.append(put_list("roles", &e.roles).as_str());
    out.append(put_plain("order", integer_text(e.order).as_str()).as_str());
    let guard: String = match &e.guard {
        Some(g) => put_menu_guard(g),
        None => String::new(),
    };
    out.append(guard.as_str());
    out.append("\n");
    out
}

/// The first `n` groups, after `start`.
pub open spec fn groups_text(start: Seq<char>, groups: Seq<GroupView>, n: nat) -> Seq<char>
    decreases n,
{
    if n == 0 {
        start
    } else {
        groups_text(start, groups, (n - 1) as nat) + group_text(groups[n - 1])
    }
}

/// The first `n` entries, after `start`.
pub open spec fn entries_text(start: Seq<char>, entries: Seq<EntryView>, n: nat) -> Seq<char>
    decreases n,
{
    if n == 0 {
        start
    } else {
        entries_text(start, entries, (n - 1) as nat) + entry_text(entries[n - 1])
    }
}

/// The menu document around the document of its metadata: its landing routes,
/// its groups, its entries.
pub open spec fn menus_text(m: MenusView, meta: Option<Seq<char>>) -> Seq<char> {
    entries_text(
        groups_text(menus_head(meta) + landing_text(m.landing), m.group, m.group.len()),
        m.menu,
        m.menu.len(),
    )
}

/// Writes the menu around a given document of its metadata.
pub fn render_menus(m: &ModuleMenus, meta: &Option<String>) -> (out: String)
    ensures
        out@ == menus_text(m@, opt_text(*meta)),
{
    let mut out: String = put_menus_head(meta);
    out.append(put_landing(&m.landing).as_str());
    let ghost start = out@;
    let mut i: usize = 0;
    while i < m.group.len()
        invariant
            i <= m.group@.len(),
            out@ == groups_text(start, m@.group, i as nat),
        decreases m.group@.len() - i,
    {
        assert(m@.group[i as int] == m.group@[i as int]@);
        out.append(put_group(&m.group[i]).as_str());
        i += 1;
    }
    let ghost mid = out@;
    let mut k: usize = 0;
    while k < m.menu.len()
        invariant
            k <= m.menu@.len(),
            out@ == entries_text(mid, m@.menu, k as nat),
        decreases m.menu@.len() - k,
    {
        assert(m@.menu[k as int] == m.menu@[k as int]@);
        out.append(put_entry(&m.menu[k]).as_str());
        k += 1;
    }
    out
}

/// Writes the menu as a TOML document.
pub fn serialize_menus(m: &ModuleMenus) -> (out: String)
    ensures
        out@ == menus_text(m@, toml_document(m@.meta)),
{
    let meta: Option<String> = toml_to_string(&m.meta);
    render_menus(m, &meta)
}

/// The lines of a document: a key, an equals sign, and a text in quotes or a
/// value as it is. An absent or empty value has no line, nor has a flag that does
/// not hold.
pub proof fn law_document_lines(key: Seq<char>, value: Seq<char>, items: Seq<Seq<char>>, on: bool)
    ensures
        text_line(key, value) == key + " = \""@ + value + "\"\n"@,
        plain_line(key, value) == key + " = "@ + value + "\n"@,
        opt_line(key, Some(value)) == key + " = \""@ + value + "\"\n"@,
        opt_line(key, None) == Seq::<char>::empty(),
        value.len() > 0 ==> nonempty_line(key, value) == key + " = \""@ + value + "\"\n"@,
        value.len() == 0 ==> nonempty_line(key, value) == Seq::<char>::empty(),
        list_text(items) == "["@ + join(
            items.map_values(|s: Seq<char>| "\""@ + s + "\""@),
            ", "@,
        ) + "]"@,
        items.len() > 0 ==> list_line(key, items) == key + " = "@ + list_text(items) + "\n"@,
        items.len() == 0 ==> list_line(key, items) == Seq::<char>::empty(),
        flag_line(key, on) == if on {
            key + " = true\n"@
        } else {
            Seq::empty()
        },
{
    assert(items.map_values(|s: Seq<char>| quoted(s)) =~= items.map_values(
        |s: Seq<char>| "\""@ + s + "\""@,
    ));
}

proof fn lemma_chains_text(start: Seq<char>, chains: Seq<ChainView>, n: nat)
    requires
        n <= chains.len(),
    ensures
        chains_text(start, chains, n) == start + chains.map_values(
            |c: ChainView| chain_text(c),
        ).take(n as int).flatten(),
    decreases n,
{
    let all = chains.map_values(|c: ChainView| chain_text(c));
    if n > 0 {
        lemma_chains_text(start, chains, (n - 1) as nat);
        lemma_flat_next(all, n - 1);
        lemma_in_a_row(start, all.take(n - 1).flatten(), all[n - 1]);
    } else {
        assert(all.take(0) =~= Seq::<Seq<char>>::empty());
        assert(start + Seq::<char>::empty() =~= start);
    }
}

#[verifier::rlimit(60)]
proof fn lemma_screens_text(start: Seq<char>, screens: Seq<ScreenView>, n: nat)
    requires
        n <= screens.len(),
    ensures
        screens_text(start, screens, n) == start + screens.map_values(
            |s: ScreenView| screen_text(s),
        ).take(n as int).flatten(),
    decreases n,
{
    let all = screens.map_values(|s: ScreenView| screen_text(s));
    if n > 0 {
        lemma_screens_text(start, screens, (n - 1) as nat);
        lemma_flat_next(all, n - 1);
        lemma_in_a_row(start, all.take(n - 1).flatten(), all[n - 1]);
    } else {
        assert(all.take(0) =~= Seq::<Seq<char>>::empty());
        assert(start + Seq::<char>::empty() =~= start);
    }
}

proof fn lemma_fields_text(fields: Seq<FieldView>, n: nat)
    requires
        n <= fields.len(),
    ensures
        fields_text(fields, n) == fields.map_values(|f: FieldView| field_text(f)).take(
            n as int,
        ).flatten(),
    decreases n,
{
    let all = fields.map_values(|f: FieldView| field_text(f));
    if n > 0 {
        lemma_fields_text(fields, (n - 1) as nat);
        lemma_flat_next(all, n - 1);
    } else {
        assert(all.take(0) =~= Seq::<Seq<char>>::empty());
    }
}

proof fn lemma_groups_text(start: Seq<char>, groups: Seq<GroupView>, n: nat)
    requires
        n <= groups.len(),
    ensures
        groups_text(start, groups, n) == start + groups.map_values(
            |g: GroupView| group_text(g),
        ).take(n as int).flatten(),
    decreases n,
{
    let all = groups.map_values(|g: GroupView| group_text(g));
    if n > 0 {
        lemma_groups_text(start, groups, (n - 1) as nat);
        lemma_flat_next(all, n - 1);
        lemma_in_a_row(start, all.take(n - 1).flatten(), all[n - 1]);
    } else {
        assert(all.take(0) =~= Seq::<Seq<char>>::empty());
        assert(start + Seq::<char>::empty() =~= start);
    }
}

proof fn lemma_entries_text(start: Seq<char>, entries: Seq<EntryView>, n: nat)
    requires
        n <= entries.len(),
    ensures
        entries_text(start, entries, n) == start + entries.map_values(
            |e: EntryView| entry_text(e),
        ).take(n as int).flatten(),
    decreases n,
{
    let all = entries.map_values(|e: EntryView| entry_text(e));
    if n > 0 {
        lemma_entries_text(start, entries, (n - 1) as nat);
        lemma_flat_next(all, n - 1);
        lemma_in_a_row(start, all.take(n - 1).flatten(), all[n - 1]);
    } else {
        assert(all.take(0) =~= Seq::<Seq<char>>::empty());
        assert(start + Seq::<char>::empty() =~= start);
    }
}

proof fn lemma_relined(start: Seq<char>, list: Seq<Seq<char>>, n: nat)
    requires
        n <= list.len(),
    ensures
        relined(start, list, n) == start + list.map_values(|l: Seq<char>| l + "\n"@).take(
            n as int,
        ).flatten(),
    decreases n,
{
    let all = list.map_values(|l: Seq<char>| l + "\n"@);
    if n > 0 {
        lemma_relined(start, list, (n - 1) as nat);
        lemma_flat_next(all, n - 1);
        assert(relined(start, list, n) =~= start + all.take(n as int).flatten());
    } else {
        assert(all.take(0) =~= Seq::<Seq<char>>::empty());
        assert(start + Seq::<char>::empty() =~= start);
    }
}

/// The register document is its head, all its approval chains, and all its
/// screens, in order.
pub proof fn law_register_document(r: RegisterView)
    ensures
        register_text(r) == register_head(r) + r.approval_chain.map_values(
            |c: ChainView| chain_text(c),
        ).flatten() + r.screen.map_values(|s: ScreenView| screen_text(s)).flatten(),
{
    let chains = r.approval_chain.map_values(|c: ChainView| chain_text(c));
    let screens = r.screen.map_values(|s: ScreenView| screen_text(s));
    lemma_chains_text(register_head(r), r.approval_chain, r.approval_chain.len());
    assert(chains.take(r.approval_chain.len() as int) =~= chains);
    lemma_screens_text(register_head(r) + chains.flatten(), r.screen, r.screen.len());
    assert(screens.take(r.screen.len() as int) =~= screens);
}

/// The menu document is its head, its landing routes, all its groups, and all
/// its entries, in order. The lines of the metadata stand in the head, each
/// ended by a line feed.
pub proof fn law_menu_document(m: MenusView, meta: Option<Seq<char>>)
    ensures
        menus_text(m, meta) == menus_head(meta) + landing_text(m.landing) + m.group.map_values(
            |g: GroupView| group_text(g),
        ).flatten() + m.menu.map_values(|e: EntryView| entry_text(e)).flatten(),
        meta matches Some(text) ==> menus_head(meta)
            == "# Generated by nirdosha-hi composer\n\n[meta]\n"@ + lines(text).map_values(
            |l: Seq<char>| l + "\n"@,
        ).flatten() + "\n"@,
        menus_head(None) == "# Generated by nirdosha-hi composer\n\n[meta]\n"@ + "\n"@,
{
    let start = menus_head(meta) + landing_text(m.landing);
    let groups = m.group.map_values(|g: GroupView| group_text(g));
    let entries = m.menu.map_values(|e: EntryView| entry_text(e));
    lemma_groups_text(start, m.group, m.group.len());
    assert(groups.take(m.group.len() as int) =~= groups);
    lemma_entries_text(start + groups.flatten(), m.menu, m.menu.len());
    assert(entries.take(m.menu.len() as int) =~= entries);
    match meta {
        Some(text) => {
            let all = lines(text).map_values(|l: Seq<char>| l + "\n"@);
            lemma_relined(
                "# Generated by nirdosha-hi composer\n\n[meta]\n"@,
                lines(text),
                lines(text).len(),
            );
            assert(all.take(lines(text).len() as int) =~= all);
        },
        None => {},
    }
}

/// An approval chain is written with its name, its quorum and its approvers.
pub proof fn law_chain_in_a_document(c: ChainView)
    ensures
        chain_text(c) == "[[approval_chain]]\n"@ + text_line("name"@, c.name) + plain_line(
            "quorum"@,
            integer(c.quorum),
        ) + plain_line("approvers"@, list_text(c.approvers)) + "\n"@,
{
}

/// A screen is written with everything that it declares: first its own lines,
/// then how it is generated, what data it is bound to, what it may be used for,
/// and its parameters, each where there is any.
pub proof fn law_screen_in_a_document(s: ScreenView)
    ensures
        screen_text(s) == "[[screen]]\n"@ + text_line("id"@, s.id) + text_line("name"@, s.name)
            + text_line("module"@, s.module) + text_line("archetype"@, s.archetype) + list_line(
            "combo"@,
            s.combo,
        ) + list_line("roles"@, s.roles) + list_line("datasets"@, s.datasets) + list_line(
            "blocked_by"@,
            s.blocked_by,
        ) + nonempty_line("stage"@, s.stage) + nonempty_line("file"@, s.file) + nonempty_line(
            "notes"@,
            escaped(s.notes),
        ) + (if s.codegen is Some {
            codegen_text(s.codegen->Some_0)
        } else {
            Seq::empty()
        }) + (if s.data_binding is Some {
            binding_text(s.data_binding->Some_0)
        } else {
            Seq::empty()
        }) + (if s.policy is Some {
            policy_text(s.policy->Some_0)
        } else {
            Seq::empty()
        }) + parameters_text(s.parameters) + "\n"@,
{
}

/// How a screen is generated is written with its template and, where they are
/// known, its mount function, its route and its files.
pub proof fn law_codegen_in_a_document(c: CodegenView)
    ensures
        codegen_text(c) == "[screen.codegen]\n"@ + text_line("template"@, c.template) + opt_line(
            "mount_symbol"@,
            c.mount_symbol,
        ) + opt_line("route_path"@, c.route_path) + list_line(
            "generated_files"@,
            c.generated_files,
        ),
{
}

/// The data that a screen is bound to is written with its entities, its key, its
/// guard where it has one, and all its fields.
pub proof fn law_binding_in_a_document(b: BindingView)
    ensures
        binding_text(b) == "[screen.data_binding]\n"@ + list_line("entities"@, b.entities)
            + opt_line("primary_key"@, b.primary_key) + (if b.guard is Some {
            "[screen.data_binding.guard]\n"@ + text_line("table"@, b.guard->Some_0.table)
                + text_line("purpose"@, b.guard->Some_0.purpose) + opt_line(
                "row_id"@,
                b.guard->Some_0.row_id,
            )
        } else {
            Seq::empty()
        }) + b.fields.map_values(|f: FieldView| field_text(f)).flatten(),
{
    let all = b.fields.map_values(|f: FieldView| field_text(f));
    lemma_fields_text(b.fields, b.fields.len());
    assert(all.take(b.fields.len() as int) =~= all);
}

/// A field is written with its name and type, as masked where it is masked or
/// sensitive, and as required where it is.
pub proof fn law_field_in_a_document(f: FieldView)
    ensures
        field_text(f) == "[[screen.data_binding.fields]]\n"@ + text_line("name"@, f.name)
            + text_line("type"@, f.ty) + (if f.masked || f.sensitive {
            "masked"@ + " = true\n"@
        } else {
            Seq::empty()
        }) + (if f.required {
            "required"@ + " = true\n"@
        } else {
            Seq::empty()
        }),
{
}

/// What a screen may be used for is written with its purpose and its actions.
pub proof fn law_policy_in_a_document(p: PolicyView)
    ensures
        policy_text(p) == "[screen.policy]\n"@ + opt_line("purpose"@, p.purpose) + list_line(
            "allowed_actions"@,
            p.allowed_actions,
        ),
{
}

/// Every parameter of a screen is written, in order.
pub proof fn law_parameters_in_a_document(entries: Seq<(Seq<char>, TomlView)>, n: nat)
    requires
        n <= entries.len(),
    ensures
        parameter_lines(entries, n) == entries.map_values(
            |e: (Seq<char>, TomlView)| plain_line(e.0, value_text(e.1)),
        ).take(n as int).flatten(),
        entries.len() > 0 ==> parameters_text(TomlView::Table(entries)) == "[screen.parameters]\n"@
            + parameter_lines(entries, entries.len()),
    decreases n,
{
    let all = entries.map_values(
        |e: (Seq<char>, TomlView)| plain_line(e.0, value_text(e.1)),
    );
    if n > 0 {
        law_parameters_in_a_document(entries, (n - 1) as nat);
        lemma_flat_next(all, n - 1);
    } else {
        assert(all.take(0) =~= Seq::<Seq<char>>::empty());
    }
}

/// A group is written with its identifier, its label key and its order.
pub proof fn law_group_in_a_document(g: GroupView)
    ensures
        group_text(g) == "[[group]]\n"@ + text_line("id"@, g.id) + text_line(
            "label_key"@,
            g.label_key,
        ) + plain_line("order"@, integer(g.order)) + "\n"@,
{
}

/// An entry is written with everything that it declares, its guard last.
pub proof fn law_entry_in_a_document(e: EntryView)
    ensures
        entry_text(e) == "[[menu]]\n"@ + text_line("id"@, e.id) + text_line(
            "label_key"@,
            e.label_key,
        ) + text_line("group"@, e.group) + text_line("screen_id"@, e.screen_id) + text_line(
            "route"@,
            e.route,
        ) + list_line("roles"@, e.roles) + plain_line("order"@, integer(e.order)) + (
        if e.guard is Some {
            "[menu.guard]\n"@ + text_line("action"@, e.guard->Some_0.action) + text_line(
                "resource"@,
                e.guard->Some_0.resource,
            )
        } else {
            Seq::empty()
        }) + "\n"@,
{
}

proof fn lemma_landing_lines(
    start: Seq<char>,
    landing: Seq<(Seq<char>, Seq<char>)>,
    order: Seq<int>,
    n: nat,
)
    requires
        n <= order.len(),
    ensures
        landing_lines(start, landing, order, n) == start + order.map_values(
            |i: int| text_line(landing[i].0, landing[i].1),
        ).take(n as int).flatten(),
    decreases n,
{
    let all = order.map_values(|i: int| text_line(landing[i].0, landing[i].1));
    if n > 0 {
        lemma_landing_lines(start, landing, order, (n - 1) as nat);
        lemma_flat_next(all, n - 1);
        assert(landing_lines(start, landing, order, n) =~= start + all.take(n as int).flatten());
    } else {
        assert(all.take(0) =~= Seq::<Seq<char>>::empty());
        assert(start + Seq::<char>::empty() =~= start);
    }
}

/// Every landing route is written, in dictionary order of the roles: the table is
/// made of the routes put in some order that loses none and adds none.
pub proof fn law_landing_in_a_document(landing: Seq<(Seq<char>, Seq<char>)>)
    ensures
        landing.len() == 0 ==> landing_text(landing).len() == 0,
        landing.len() > 0 ==> exists|routes: Seq<(Seq<char>, Seq<char>)>|
            {
                &&& #[trigger] routes.to_multiset() == landing.to_multiset()
                &&& routes.len() == landing.len()
                &&& forall|i: int, j: int|
                    0 <= i < j < routes.len() ==> !text_before(
                        (#[trigger] routes[j]).0,
                        (#[trigger] routes[i]).0,
                    )
                &&& landing_text(landing) == "[landing]\n"@ + routes.map_values(
                    |e: (Seq<char>, Seq<char>)| text_line(e.0, e.1),
                ).flatten() + "\n"@
            },
{
    if landing.len() > 0 {
        let keys = landing.map_values(|e: (Seq<char>, Seq<char>)| landing_key(e));
        let order = sorted_order(keys, keys.len());
        let routes = order.map_values(|i: int| landing[i]);
        law_sorted_order(keys, keys.len());
        law_ordering_keeps_everything(landing, keys, keys.len());
        assert(landing.take(keys.len() as int) =~= landing);
        let all = order.map_values(|i: int| text_line(landing[i].0, landing[i].1));
        lemma_landing_lines("[landing]\n"@, landing, order, order.len());
        assert(all.take(order.len() as int) =~= all);
        assert(all =~= routes.map_values(|e: (Seq<char>, Seq<char>)| text_line(e.0, e.1)));
        assert forall|i: int, j: int| 0 <= i < j < routes.len() implies !text_before(
            (#[trigger] routes[j]).0,
            (#[trigger] routes[i]).0,
        ) by {
            assert(!key_before(keys[order[j]], keys[order[i]]));
        }
    }
}

} // verus!
