//! Composing a project: which modules take part, what the merged register and
//! menu hold, and the files that make the result a project of its own.
use crate::composer::chains::{
    all_chains, chains_verdict, law_all_chains, law_when_chains_merge, merge_chains,
};
use crate::composer::decl::{
    pairs, ApprovalChainDecl, ComposedProject, MenuEntry, MenuGroup, MenusView, ModuleData,
    ModuleDecl, ModuleDescription, ModuleMenus, ModuleRegister, ModuleView, RegisterMetadata,
    RegisterView, ScreenDecl, TemplateDescription, TemplateEntry, TemplateManifest, opt_text,
    copy_opt,
};
use crate::composer::entities::{
    check_claims, claims_verdict, entity_claims, law_when_modules_agree, module_claims,
    owner_pairs, EntityClaim,
};
use crate::composer::menus::{
    all_entries, all_groups, collect_entries, collect_groups, group_orders,
    law_the_menu_is_complete, menu_form, merge_landing, merged_landing, sort_entries, sort_groups,
    sorted_entries, sorted_groups,
};
use crate::composer::roles::{
    alias_verdict, check_markers, declared_wires, law_when_spellings_pass, marker, screen_wires,
};
use crate::composer::screens::{
    keep_owned, kept_screens, law_blocked_screens, law_merging_keeps_one_screen_per_route,
    law_one_screen_per_route, merge_all, merge_modules, route_of, screens_declared, Merge,
    MergeView,
};
use crate::lists::lemma_kept_next;
use crate::paths::{join_path, joined};
use crate::text::{
    copy_texts, ends_with, join, join_texts, replace_all, replaced, same_text, starts_with,
    text_before, texts, texts_push,
};
use crate::text_set::ascending;
use crate::text_table::{key_texts, TextTable};
use vstd::prelude::*;

verus! {

/// The names in a module table.
pub open spec fn module_names(modules: Seq<(String, ModuleDecl)>) -> Seq<Seq<char>> {
    key_texts(modules)
}

/// The module takes part: it is required, or selected, or on by default where
/// nothing was selected.
pub open spec fn takes_part(m: (String, ModuleDecl), selected: Option<Seq<Seq<char>>>) -> bool {
    m.1.required || (match selected {
        Some(names) => names.contains(m.0@),
        None => m.1.default,
    })
}

/// The names of the first `n` modules that take part, in table order.
pub open spec fn effective(
    modules: Seq<(String, ModuleDecl)>,
    selected: Option<Seq<Seq<char>>>,
    n: nat,
) -> Seq<Seq<char>>
    decreases n,
{
    if n == 0 {
        Seq::empty()
    } else {
        let before = effective(modules, selected, (n - 1) as nat);
        if takes_part(modules[n - 1], selected) {
            before.push(modules[n - 1].0@)
        } else {
            before
        }
    }
}

pub open spec fn selection(user_selected: Option<&[String]>) -> Option<Seq<Seq<char>>> {
    match user_selected {
        Some(names) => Some(texts(names@)),
        None => None,
    }
}

fn is_module(modules: &TextTable<ModuleDecl>, name: &str) -> (r: bool)
    ensures
        r == module_names(modules@).contains(name@),
{
    let mut i: usize = 0;
    while i < modules.len()
        invariant
            i <= modules@.len(),
            forall|j: int| 0 <= j < i ==> module_names(modules@)[j] != name@,
        decreases modules@.len() - i,
    {
        if same_text(modules.entry(i).0.as_str(), name) {
            assert(module_names(modules@)[i as int] == name@);
            return true;
        }
        i += 1;
    }
    false
}

fn in_slice(names: &[String], name: &str) -> (r: bool)
    ensures
        r == texts(names@).contains(name@),
{
    let mut i: usize = 0;
    while i < names.len()
        invariant
            i <= names@.len(),
            forall|j: int| 0 <= j < i ==> texts(names@)[j] != name@,
        decreases names@.len() - i,
    {
        if same_text(names[i].as_str(), name) {
            assert(texts(names@)[i as int] == name@);
            return true;
        }
        i += 1;
    }
    false
}

/// The modules that take part: the required ones and the selected ones, or the
/// defaults where nothing was selected. A selected name that the template does
/// not know is an error.
pub fn effective_modules(manifest: &TemplateManifest, user_selected: Option<&[String]>) -> (r:
    Result<Vec<String>, String>)
    ensures
        match r {
            Ok(names) => {
                &&& texts(names@) == effective(
                    manifest.modules@,
                    selection(user_selected),
                    manifest.modules@.len(),
                )
                &&& ascending(texts(names@))
                &&& user_selected matches Some(sel) ==> forall|i: int|
                    0 <= i < sel@.len() ==> module_names(manifest.modules@).contains(
                        #[trigger] texts(sel@)[i],
                    )
            },
            Err(e) => user_selected matches Some(sel) && exists|i: int|
                {
                    &&& 0 <= i < sel@.len()
                    &&& !module_names(manifest.modules@).contains(#[trigger] texts(sel@)[i])
                    &&& forall|j: int|
                        0 <= j < i ==> module_names(manifest.modules@).contains(
                            #[trigger] texts(sel@)[j],
                        )
                    &&& e@ == "unknown module `"@ + texts(sel@)[i] + "`"@
                },
        },
{
    broadcast use texts_push;

    if let Some(sel) = user_selected {
        let mut i: usize = 0;
        while i < sel.len()
            invariant
                i <= sel@.len(),
                user_selected == Some(sel),
                forall|j: int|
                    0 <= j < i ==> module_names(manifest.modules@).contains(
                        #[trigger] texts(sel@)[j],
                    ),
            decreases sel@.len() - i,
        {
            assert(texts(sel@)[i as int] == sel@[i as int]@);
            if !is_module(&manifest.modules, sel[i].as_str()) {
                let mut msg: String = "unknown module `".to_owned();
                msg.append(sel[i].as_str());
                msg.append("`");
                return Err(msg);
            }
            i += 1;
        }
    }
    let modules: &TextTable<ModuleDecl> = &manifest.modules;
    let ghost chosen = selection(user_selected);
    let mut out: Vec<String> = Vec::new();
    let mut i: usize = 0;
    assert(texts(out@) =~= Seq::<Seq<char>>::empty());
    while i < modules.len()
        invariant
            i <= modules@.len(),
            *modules == manifest.modules,
            chosen == selection(user_selected),
            texts(out@) == effective(modules@, chosen, i as nat),
        decreases modules@.len() - i,
    {
        let name: &String = &modules.entry(i).0;
        let decl: &ModuleDecl = &modules.entry(i).1;
        let wanted: bool = match user_selected {
            Some(sel) => in_slice(sel, name.as_str()),
            None => decl.default,
        };
        if decl.required || wanted {
            out.push(name.clone());
        }
        i += 1;
    }
    proof {
        use_type_invariant(&manifest.modules);
        lemma_effective_ascends(modules@, chosen, modules@.len());
    }
    Ok(out)
}

/// The names that take part stand in the order of the table.
proof fn lemma_effective_ascends(
    modules: Seq<(String, ModuleDecl)>,
    selected: Option<Seq<Seq<char>>>,
    n: nat,
)
    requires
        n <= modules.len(),
        ascending(module_names(modules)),
    ensures
        ascending(effective(modules, selected, n)),
        forall|i: int|
            0 <= i < effective(modules, selected, n).len() ==> exists|k: int|
                0 <= k < n && #[trigger] module_names(modules)[k] == #[trigger] effective(
                    modules,
                    selected,
                    n,
                )[i],
    decreases n,
{
    if n > 0 {
        lemma_effective_ascends(modules, selected, (n - 1) as nat);
        let before = effective(modules, selected, (n - 1) as nat);
        let after = effective(modules, selected, n);
        let names = module_names(modules);
        assert(names[n - 1] == modules[n - 1].0@);
        assert forall|i: int| 0 <= i < after.len() implies exists|k: int|
            0 <= k < n && #[trigger] names[k] == #[trigger] after[i] by {
            if i < before.len() {
                let k = choose|k: int|
                    0 <= k < n - 1 && #[trigger] names[k] == before[i];
                assert(names[k] == after[i]);
            } else {
                assert(names[n - 1] == after[i]);
            }
        }
        assert forall|i: int, j: int| 0 <= i < j < after.len() implies text_before(
            #[trigger] after[i],
            #[trigger] after[j],
        ) by {
            assert(after[i] == before[i]);
            if j < before.len() {
                assert(after[j] == before[j]);
            } else {
                let k = choose|k: int| 0 <= k < n - 1 && #[trigger] names[k] == before[i];
                assert(text_before(names[k], names[n - 1]));
            }
        }
    }
}

proof fn lemma_effective_member(
    modules: Seq<(String, ModuleDecl)>,
    selected: Option<Seq<Seq<char>>>,
    n: nat,
    k: int,
)
    requires
        0 <= k < n <= modules.len(),
        takes_part(modules[k], selected),
    ensures
        effective(modules, selected, n).contains(modules[k].0@),
    decreases n,
{
    let before = effective(modules, selected, (n - 1) as nat);
    let after = effective(modules, selected, n);
    if k < n - 1 {
        lemma_effective_member(modules, selected, (n - 1) as nat, k);
        let i = choose|i: int| 0 <= i < before.len() && before[i] == modules[k].0@;
        assert(after[i] == modules[k].0@);
    } else {
        assert(after[before.len() as int] == modules[k].0@);
    }
}

/// Exactly those modules take part that are required, or selected, or on by
/// default where nothing was selected.
pub proof fn law_who_takes_part(
    modules: Seq<(String, ModuleDecl)>,
    selected: Option<Seq<Seq<char>>>,
    n: nat,
    name: Seq<char>,
)
    requires
        n <= modules.len(),
    ensures
        effective(modules, selected, n).contains(name) <==> exists|k: int|
            0 <= k < n && (#[trigger] modules[k]).0@ == name && takes_part(modules[k], selected),
    decreases n,
{
    let after = effective(modules, selected, n);
    if exists|k: int|
        0 <= k < n && (#[trigger] modules[k]).0@ == name && takes_part(modules[k], selected) {
        let k = choose|k: int|
            0 <= k < n && (#[trigger] modules[k]).0@ == name && takes_part(modules[k], selected);
        lemma_effective_member(modules, selected, n, k);
    }
    if n > 0 && after.contains(name) {
        let before = effective(modules, selected, (n - 1) as nat);
        let i = choose|i: int| 0 <= i < after.len() && after[i] == name;
        law_who_takes_part(modules, selected, (n - 1) as nat, name);
        if i < before.len() {
            assert(before[i] == name);
        } else {
            assert(modules[n - 1].0@ == name);
        }
    }
}

/// A required module takes part whatever is selected.
pub proof fn law_required_modules_take_part(
    modules: Seq<(String, ModuleDecl)>,
    selected: Option<Seq<Seq<char>>>,
    k: int,
)
    requires
        0 <= k < modules.len(),
        modules[k].1.required,
    ensures
        effective(modules, selected, modules.len()).contains(modules[k].0@),
{
    lemma_effective_member(modules, selected, modules.len(), k);
}

/// An optional module that was not selected does not take part, though it is
/// on by default.
pub proof fn law_unselected_modules_stay_out(
    modules: Seq<(String, ModuleDecl)>,
    names: Seq<Seq<char>>,
    n: nat,
    name: Seq<char>,
)
    requires
        n <= modules.len(),
        !names.contains(name),
        forall|k: int| 0 <= k < n && (#[trigger] modules[k]).0@ == name ==> !modules[k].1.required,
    ensures
        !effective(modules, Some(names), n).contains(name),
    decreases n,
{
    if n > 0 {
        law_unselected_modules_stay_out(modules, names, (n - 1) as nat, name);
        let before = effective(modules, Some(names), (n - 1) as nat);
        let after = effective(modules, Some(names), n);
        if after.contains(name) {
            let i = choose|i: int| 0 <= i < after.len() && after[i] == name;
            if i < before.len() {
                assert(before[i] == name);
            } else {
                assert(modules[n - 1].0@ == name);
            }
        }
    }
}

/// What is merged from the selected modules.
pub struct Composition {
    pub register: ModuleRegister,
    pub menus: ModuleMenus,
    pub blocked_screens: usize,
}

#[verifier::ext_equal]
pub struct CompositionView {
    pub register: RegisterView,
    pub menus: MenusView,
    pub blocked_screens: nat,
}

impl View for Composition {
    type V = CompositionView;

    open spec fn view(&self) -> CompositionView {
        CompositionView {
            register: self.register@,
            menus: self.menus@,
            blocked_screens: self.blocked_screens as nat,
        }
    }
}

/// The metadata of the composed menu.
pub open spec fn composed_meta(
    manifest: TemplateManifest,
    template_id: Seq<char>,
    selected: Seq<Seq<char>>,
) -> Seq<(Seq<char>, Seq<char>)> {
    seq![
        ("version"@, "1.0.0"@),
        ("app_title"@, manifest.template.app_title@),
        ("app_name"@, manifest.template.app_name@),
        ("org_name"@, manifest.template.org_name@),
        ("environment_name"@, manifest.template.environment_name@),
        ("composed_from"@, template_id + ": "@ + join(selected, ", "@)),
    ]
}

/// The composition of modules whose screens have merged to `st`.
pub open spec fn composition_of(
    manifest: TemplateManifest,
    template_id: Seq<char>,
    selected: Seq<Seq<char>>,
    modules: Seq<ModuleView>,
    st: MergeView,
) -> CompositionView {
    let screens = kept_screens(st.owners, st.screens, st.screens.len());
    let groups = all_groups(modules, modules.len());
    let entries = all_entries(st.owners, screens, st.blocked_ids, modules, modules.len());
    let built = screen_wires(screens, true, screens.len());
    CompositionView {
        register: RegisterView {
            register_id: manifest.template.app_name@ + "-composed"@,
            module: "composed"@,
            total_screens: screens.len(),
            screen: screens,
            approval_chain: all_chains(modules, modules.len()),
        },
        menus: MenusView {
            meta: composed_meta(manifest, template_id, selected),
            landing: merged_landing(built, modules),
            group: sorted_groups(groups),
            menu: sorted_entries(group_orders(groups, groups.len()), entries),
        },
        blocked_screens: st.blocked,
    }
}

/// The modules compose to what `r` says: the modules agree on the entities
/// they share, no approval chain is named twice, no route is claimed twice, no
/// two spellings of a role share a marker type; the first of these that fails,
/// in this order, is the error.
pub open spec fn composes(
    manifest: TemplateManifest,
    template_id: Seq<char>,
    selected: Seq<Seq<char>>,
    modules: Seq<ModuleView>,
    r: Result<CompositionView, Seq<char>>,
) -> bool {
    let claims = module_claims(
        owner_pairs(manifest.shared_entities@),
        modules,
        modules.len(),
    );
    let chains = all_chains(modules, modules.len());
    let merged = merge_modules(modules, modules.len());
    match r {
        Ok(c) => {
            &&& claims_verdict(claims, Ok(()))
            &&& chains_verdict(chains, Ok(chains))
            &&& merged matches Ok(st) && {
                let screens = kept_screens(st.owners, st.screens, st.screens.len());
                &&& alias_verdict(screen_wires(screens, false, screens.len()), Ok(()))
                &&& c == composition_of(manifest, template_id, selected, modules, st)
            }
        },
        Err(e) => {
            ||| claims_verdict(claims, Err(e))
            ||| claims_verdict(claims, Ok(())) && chains_verdict(chains, Err(e))
            ||| claims_verdict(claims, Ok(())) && chains_verdict(chains, Ok(chains))
                && match merged {
                Err(conflict) => e == conflict,
                Ok(st) => {
                    let screens = kept_screens(st.owners, st.screens, st.screens.len());
                    alias_verdict(screen_wires(screens, false, screens.len()), Err(e))
                },
            }
        },
    }
}

/// In a composed register no two screens share a route, and its total counts
/// its screens.
pub proof fn law_composed_routes_are_distinct(
    manifest: TemplateManifest,
    template_id: Seq<char>,
    selected: Seq<Seq<char>>,
    modules: Seq<ModuleView>,
    c: CompositionView,
    i: int,
    j: int,
)
    requires
        composes(manifest, template_id, selected, modules, Ok(c)),
        0 <= i < j < c.register.screen.len(),
        route_of(c.register.screen[i]) is Some,
    ensures
        route_of(c.register.screen[i]) != route_of(c.register.screen[j]),
        c.register.total_screens == c.register.screen.len(),
{
    law_one_screen_per_route(modules, modules.len());
}

fn menu_meta(
    manifest: &TemplateManifest,
    template_id: &str,
    selected_modules: &Vec<String>,
) -> (out: Vec<(String, String)>)
    ensures
        pairs(out@) == composed_meta(*manifest, template_id@, texts(selected_modules@)),
{
    let mut from: String = template_id.to_owned();
    from.append(": ");
    from.append(join_texts(selected_modules, ", ").as_str());
    let mut out: Vec<(String, String)> = Vec::new();
    out.push(("version".to_owned(), "1.0.0".to_owned()));
    out.push(("app_title".to_owned(), manifest.template.app_title.clone()));
    out.push(("app_name".to_owned(), manifest.template.app_name.clone()));
    out.push(("org_name".to_owned(), manifest.template.org_name.clone()));
    out.push(("environment_name".to_owned(), manifest.template.environment_name.clone()));
    out.push(("composed_from".to_owned(), from));
    assert(pairs(out@) =~= composed_meta(*manifest, template_id@, texts(selected_modules@)));
    out
}

/// Composes the selected modules into one register and one menu.
pub fn compose_project(
    manifest: &TemplateManifest,
    template_id: &str,
    selected_modules: &Vec<String>,
    modules: &Vec<ModuleData>,
) -> (r: Result<Composition, String>)
    requires
        screens_declared(modules@.map_values(|m: ModuleData| m@), modules@.len()) <= usize::MAX,
    ensures
        composes(
            *manifest,
            template_id@,
            texts(selected_modules@),
            modules@.map_values(|m: ModuleData| m@),
            match r {
                Ok(c) => Ok(c@),
                Err(e) => Err(e@),
            },
        ),
{
    let ghost views = modules@.map_values(|m: ModuleData| m@);
    let claims: Vec<EntityClaim> = entity_claims(&manifest.shared_entities, modules);
    match check_claims(&claims) {
        Ok(_) => {},
        Err(e) => {
            return Err(e);
        },
    }
    let chains: Vec<ApprovalChainDecl> = match merge_chains(modules) {
        Ok(chains) => chains,
        Err(e) => {
            return Err(e);
        },
    };
    let merge: Merge = match merge_all(modules) {
        Ok(merge) => merge,
        Err(e) => {
            return Err(e);
        },
    };
    let screens: Vec<ScreenDecl> = keep_owned(&merge.owners, &merge.screens);
    let wires: Vec<String> = declared_wires(&screens, false);
    match check_markers(&wires) {
        Ok(_) => {},
        Err(e) => {
            return Err(e);
        },
    }
    let built: Vec<String> = declared_wires(&screens, true);
    let landing: Vec<(String, String)> = merge_landing(&built, modules);
    let groups: Vec<MenuGroup> = collect_groups(modules);
    let entries: Vec<MenuEntry> = collect_entries(
        &merge.owners,
        &screens,
        &merge.blocked_ids,
        modules,
    );
    let menu: Vec<MenuEntry> = sort_entries(&groups, &entries);
    let group: Vec<MenuGroup> = sort_groups(&groups);
    let mut register_id: String = manifest.template.app_name.clone();
    register_id.append("-composed");
    let total_screens: usize = screens.len();
    let out = Composition {
        register: ModuleRegister {
            metadata: RegisterMetadata {
                register_id,
                module: "composed".to_owned(),
                total_screens,
            },
            screen: screens,
            approval_chain: chains,
        },
        menus: ModuleMenus {
            meta: menu_meta(manifest, template_id, selected_modules),
            landing,
            group,
            menu,
        },
        blocked_screens: merge.blocked,
    };
    assert(out@ =~= composition_of(
        *manifest,
        template_id@,
        texts(selected_modules@),
        views,
        merge@,
    ));
    Ok(out)
}

/// The directory that a project is composed into.
pub open spec fn composed_dir(root: Seq<char>, app_name: Seq<char>) -> Seq<char> {
    joined(joined(joined(root, ".nir"@), "composed"@), app_name)
}

/// What is reported of a composition.
pub fn composed_project(
    root: &str,
    manifest: &TemplateManifest,
    selected_modules: &Vec<String>,
    composition: &Composition,
) -> (out: ComposedProject)
    ensures
        out.path@ == composed_dir(root@, manifest.template.app_name@),
        out.app_name@ == manifest.template.app_name@,
        out.app_title@ == manifest.template.app_title@,
        texts(out.modules@) == texts(selected_modules@),
        out.total_screens == composition.register.screen@.len(),
        out.blocked_screens == composition.blocked_screens,
{
    let nir: String = join_path(root, ".nir");
    let dir: String = join_path(nir.as_str(), "composed");
    ComposedProject {
        path: join_path(dir.as_str(), manifest.template.app_name.as_str()),
        app_name: manifest.template.app_name.clone(),
        app_title: manifest.template.app_title.clone(),
        modules: copy_texts(selected_modules),
        total_screens: composition.register.screen.len(),
        blocked_screens: composition.blocked_screens,
    }
}

/// The path of a crate of the workspace.
pub fn repo_relative_path(workspace_root: &str, crate_path: &str) -> (out: String)
    ensures
        out@ == joined(workspace_root@, crate_path@),
{
    join_path(workspace_root, crate_path)
}

/// A dependency on a crate of the workspace.
pub open spec fn path_dependency(root: Seq<char>, name: Seq<char>) -> Seq<char> {
    name + " = { path = \""@ + joined(root, "crates/"@ + name) + "\" }\n"@
}

fn put_dependency(root: &str, name: &str) -> (out: String)
    ensures
        out@ == path_dependency(root@, name@),
{
    let mut leaf: String = "crates/".to_owned();
    leaf.append(name);
    let mut out: String = name.to_owned();
    out.append(" = { path = \"");
    out.append(repo_relative_path(root, leaf.as_str()).as_str());
    out.append("\" }\n");
    out
}

/// The manifest of a composed project.
pub open spec fn stub_manifest(root: Seq<char>, app_name: Seq<char>) -> Seq<char> {
    let crate_name = replaced(app_name, "-"@, "_"@);
    "[package]\nname = \""@ + app_name
        + "\"\nversion = \"0.1.0\"\nedition = \"2024\"\npublish = false\n\n[dependencies]\n"@
        + path_dependency(root, "nirdosha-rt"@) + path_dependency(
        root,
        "nirdosha-guard-registry"@,
    ) + path_dependency(root, "nirdosha-guard-macros"@) + path_dependency(
        root,
        "nirdosha-guard-mic"@,
    ) + path_dependency(root, "nirdosha-guard-core"@) + path_dependency(
        root,
        "nirdosha-guard-screens"@,
    )
        + "serde = { version = \"1\", features = [\"derive\"] }\nserde_json = \"1\"\n\n[dev-dependencies]\ntoml = \"0.8\"\n\n[package.metadata.nirdosha-rt]\ndialect = true\n\n# Opt out of any parent workspace so composed projects can be\n# built independently even when nested under a workspace root.\n[workspace]\n\n[lib]\nname = \""@
        + crate_name + "\"\npath = \"src/lib.nir\"\n\n[[bin]]\nname = \""@ + crate_name
        + "_serve\"\npath = \"src/bin/serve.nir\"\n"@
}

/// The manifest that makes a composed project buildable on its own.
pub fn cargo_project_stub(workspace_root: &str, app_name: &str) -> (out: String)
    ensures
        out@ == stub_manifest(workspace_root@, app_name@),
{
    proof {
        reveal_strlit("-");
    }
    let crate_name: String = replace_all(app_name, "-", "_");
    let mut out: String = "[package]\nname = \"".to_owned();
    out.append(app_name);
    out.append(
        "\"\nversion = \"0.1.0\"\nedition = \"2024\"\npublish = false\n\n[dependencies]\n",
    );
    out.append(put_dependency(workspace_root, "nirdosha-rt").as_str());
    out.append(put_dependency(workspace_root, "nirdosha-guard-registry").as_str());
    out.append(put_dependency(workspace_root, "nirdosha-guard-macros").as_str());
    out.append(put_dependency(workspace_root, "nirdosha-guard-mic").as_str());
    out.append(put_dependency(workspace_root, "nirdosha-guard-core").as_str());
    out.append(put_dependency(workspace_root, "nirdosha-guard-screens").as_str());
    out.append(
        "serde = { version = \"1\", features = [\"derive\"] }\nserde_json = \"1\"\n\n[dev-dependencies]\ntoml = \"0.8\"\n\n[package.metadata.nirdosha-rt]\ndialect = true\n\n# Opt out of any parent workspace so composed projects can be\n# built independently even when nested under a workspace root.\n[workspace]\n\n[lib]\nname = \"",
    );
    out.append(crate_name.as_str());
    out.append("\"\npath = \"src/lib.nir\"\n\n[[bin]]\nname = \"");
    out.append(crate_name.as_str());
    out.append("_serve\"\npath = \"src/bin/serve.nir\"\n");
    out
}

/// The description shows the module as the table declares it.
pub open spec fn describes(m: (String, ModuleDecl), d: ModuleDescription) -> bool {
    &&& d.id@ == m.0@
    &&& d.required == m.1.required
    &&& d.default == m.1.default
    &&& opt_text(d.integration) == opt_text(m.1.integration)
    &&& texts(d.vendors@) == texts(m.1.vendors@)
    &&& opt_text(d.description) == opt_text(m.1.description)
}

/// The identifiers of described modules.
pub open spec fn described_ids(modules: Seq<ModuleDescription>) -> Seq<Seq<char>> {
    modules.map_values(|d: ModuleDescription| d.id@)
}

fn describe_modules(modules: &TextTable<ModuleDecl>) -> (out: Vec<ModuleDescription>)
    ensures
        out@.len() == modules@.len(),
        ascending(described_ids(out@)),
        forall|i: int| 0 <= i < out@.len() ==> #[trigger] describes(modules@[i], out@[i]),
{
    let mut out: Vec<ModuleDescription> = Vec::new();
    let mut i: usize = 0;
    while i < modules.len()
        invariant
            i <= modules@.len(),
            out@.len() == i,
            forall|j: int| 0 <= j < i ==> #[trigger] describes(modules@[j], out@[j]),
        decreases modules@.len() - i,
    {
        let decl: &ModuleDecl = &modules.entry(i).1;
        out.push(
            ModuleDescription {
                id: modules.entry(i).0.clone(),
                required: decl.required,
                default: decl.default,
                integration: copy_opt(&decl.integration),
                vendors: copy_texts(&decl.vendors),
                description: copy_opt(&decl.description),
            },
        );
        i += 1;
    }
    proof {
        use_type_invariant(modules);
        assert forall|j: int| 0 <= j < out@.len() implies #[trigger] described_ids(out@)[j]
            == key_texts(modules@)[j] by {
            assert(describes(modules@[j], out@[j]));
        }
        assert(described_ids(out@) =~= key_texts(modules@));
    }
    out
}

/// Describes every template of the index with the module table of its
/// manifest.
pub fn describe_templates(templates: Vec<(TemplateEntry, TemplateManifest)>) -> (out: Vec<
    TemplateDescription,
>)
    ensures
        out@.len() == templates@.len(),
        forall|i: int|
            0 <= i < out@.len() ==> {
                &&& (#[trigger] out@[i]).entry == templates@[i].0
                &&& out@[i].modules@.len() == templates@[i].1.modules@.len()
                &&& ascending(described_ids(out@[i].modules@))
                &&& forall|j: int|
                    0 <= j < out@[i].modules@.len() ==> #[trigger] describes(
                        templates@[i].1.modules@[j],
                        out@[i].modules@[j],
                    )
            },
{
    let ghost all = templates@;
    let mut rest: Vec<(TemplateEntry, TemplateManifest)> = templates;
    let mut out: Vec<TemplateDescription> = Vec::new();
    while rest.len() > 0
        invariant
            out@.len() + rest@.len() == all.len(),
            rest@ == all.skip(out@.len() as int),
            forall|i: int|
                0 <= i < out@.len() ==> {
                    &&& (#[trigger] out@[i]).entry == all[i].0
                    &&& out@[i].modules@.len() == all[i].1.modules@.len()
                    &&& ascending(described_ids(out@[i].modules@))
                    &&& forall|j: int|
                        0 <= j < out@[i].modules@.len() ==> #[trigger] describes(
                            all[i].1.modules@[j],
                            out@[i].modules@[j],
                        )
                },
        decreases rest@.len(),
    {
        let ghost n = out@.len() as int;
        assert(rest@[0] == all[n]);
        let (entry, manifest) = rest.remove(0);
        let modules: Vec<ModuleDescription> = describe_modules(&manifest.modules);
        out.push(TemplateDescription { entry, modules });
        assert(rest@ =~= all.skip(n + 1));
    }
    out
}

/// A composition holds what its modules do: the register is made of their merged
/// screens and of all their approval chains, and the menu holds, once each, the
/// entries of every module whose route that module owns and whose screen is not
/// blocked, in groups that are those of all modules. `at` tells which screen is
/// mounted at a route.
pub proof fn law_a_composition_is_complete(
    manifest: TemplateManifest,
    template_id: Seq<char>,
    selected: Seq<Seq<char>>,
    modules: Seq<ModuleView>,
    c: CompositionView,
    at: Map<Seq<char>, Seq<char>>,
)
    requires
        composes(manifest, template_id, selected, modules, Ok(c)),
        forall|i: int|
            0 <= i < c.register.screen.len() && route_of(#[trigger] c.register.screen[i]) is Some
                ==> at[route_of(c.register.screen[i])->Some_0] == c.register.screen[i].id,
    ensures
        merge_modules(modules, modules.len()) is Ok,
        ({
            let st = merge_modules(modules, modules.len())->Ok_0;
            &&& c.register.register_id == manifest.template.app_name@ + "-composed"@
            &&& c.register.module == "composed"@
            &&& c.register.screen == st.screens
            &&& c.register.total_screens == st.screens.len()
            &&& c.register.approval_chain == modules.map_values(
                |m: ModuleView| m.register.approval_chain,
            ).flatten()
            &&& c.blocked_screens == st.blocked_ids.len()
            &&& c.menus.meta == seq![
                ("version"@, "1.0.0"@),
                ("app_title"@, manifest.template.app_title@),
                ("app_name"@, manifest.template.app_name@),
                ("org_name"@, manifest.template.org_name@),
                ("environment_name"@, manifest.template.environment_name@),
                ("composed_from"@, template_id + ": "@ + join(selected, ", "@)),
            ]
            &&& c.menus.menu.to_multiset() == modules.map_values(
                |m: ModuleView|
                    m.menus.menu.filter_map(menu_form(st.owners, st.blocked_ids, m.name, at)),
            ).flatten().to_multiset()
        }),
{
    let st = merge_modules(modules, modules.len())->Ok_0;
    law_one_screen_per_route(modules, modules.len());
    law_merging_keeps_one_screen_per_route(modules, modules.len());
    law_blocked_screens(modules, modules.len());
    let groups = all_groups(modules, modules.len());
    assert forall|i: int|
        0 <= i < st.screens.len() && route_of(#[trigger] st.screens[i]) is Some implies at[route_of(
        st.screens[i],
    )->Some_0] == st.screens[i].id by {
        assert(c.register.screen[i] == st.screens[i]);
    }
    law_the_menu_is_complete(modules, st, group_orders(groups, groups.len()), at);
    law_all_chains(modules, modules.len());
    let all = modules.map_values(|m: ModuleView| m.register.approval_chain);
    assert(all.take(modules.len() as int) =~= all);
}

/// The modules that take part are those of the template that are required, or
/// selected, or on by default where nothing was selected, in the order of the
/// template.
pub proof fn law_the_modules_that_take_part(
    modules: Seq<(String, ModuleDecl)>,
    selected: Option<Seq<Seq<char>>>,
    n: nat,
)
    requires
        n <= modules.len(),
    ensures
        effective(modules, selected, n) == modules.take(n as int).filter_map(
            |m: (String, ModuleDecl)|
                if m.1.required || (selected is Some && selected->Some_0.contains(m.0@)) || (
                selected is None && m.1.default) {
                    Some(m.0@)
                } else {
                    None
                },
        ),
    decreases n,
{
    let f = |m: (String, ModuleDecl)|
        if m.1.required || (selected is Some && selected->Some_0.contains(m.0@)) || (
        selected is None && m.1.default) {
            Some(m.0@)
        } else {
            None
        };
    if n > 0 {
        law_the_modules_that_take_part(modules, selected, (n - 1) as nat);
        lemma_kept_next(modules, f, n - 1);
    }
}

/// A project is composed below the design of the project that it comes from,
/// under its own name.
pub proof fn law_where_a_project_is_composed(root: Seq<char>, app_name: Seq<char>)
    ensures
        composed_dir(root, app_name) == joined(
            joined(joined(root, ".nir"@), "composed"@),
            app_name,
        ),
{
}

/// The manifest of a composed project names the project, depends on each crate
/// of the workspace by its path, and names the library and the program after
/// the project, with underscores for its hyphens.
pub proof fn law_what_a_composed_manifest_names(root: Seq<char>, app_name: Seq<char>)
    ensures
        ({
            let crate_name = replaced(app_name, "-"@, "_"@);
            let all = stub_manifest(root, app_name);
            let dependency = |name: Seq<char>|
                name + " = { path = \""@ + joined(root, "crates/"@ + name) + "\" }\n"@;
            &&& starts_with(
                all,
                "[package]\nname = \""@ + app_name
                    + "\"\nversion = \"0.1.0\"\nedition = \"2024\"\npublish = false\n\n[dependencies]\n"@
                    + dependency("nirdosha-rt"@) + dependency("nirdosha-guard-registry"@)
                    + dependency("nirdosha-guard-macros"@) + dependency("nirdosha-guard-mic"@)
                    + dependency("nirdosha-guard-core"@) + dependency("nirdosha-guard-screens"@),
            )
            &&& ends_with(
                all,
                crate_name + "\"\npath = \"src/lib.nir\"\n\n[[bin]]\nname = \""@ + crate_name
                    + "_serve\"\npath = \"src/bin/serve.nir\"\n"@,
            )
        }),
{
    let crate_name = replaced(app_name, "-"@, "_"@);
    let all = stub_manifest(root, app_name);
    let head = "[package]\nname = \""@ + app_name
        + "\"\nversion = \"0.1.0\"\nedition = \"2024\"\npublish = false\n\n[dependencies]\n"@
        + path_dependency(root, "nirdosha-rt"@) + path_dependency(root, "nirdosha-guard-registry"@)
        + path_dependency(root, "nirdosha-guard-macros"@) + path_dependency(
        root,
        "nirdosha-guard-mic"@,
    ) + path_dependency(root, "nirdosha-guard-core"@) + path_dependency(
        root,
        "nirdosha-guard-screens"@,
    );
    let tail = crate_name + "\"\npath = \"src/lib.nir\"\n\n[[bin]]\nname = \""@ + crate_name
        + "_serve\"\npath = \"src/bin/serve.nir\"\n"@;
    assert(all.subrange(0, head.len() as int) =~= head);
    assert(all.subrange(all.len() - tail.len(), all.len() as int) =~= tail);
}

/// A described module is shown under its name, with what the table says of it.
pub proof fn law_what_a_description_shows(m: (String, ModuleDecl), d: ModuleDescription)
    ensures
        describes(m, d) <==> d.id@ == m.0@ && d.required == m.1.required && d.default
            == m.1.default && opt_text(d.integration) == opt_text(m.1.integration) && texts(
            d.vendors@,
        ) == texts(m.1.vendors@) && opt_text(d.description) == opt_text(m.1.description),
{
}

/// Modules compose exactly where their claims on shared entities agree, no two
/// of their approval chains bear one name, their screens merge, and no two
/// spellings of a role share a marker type.
pub proof fn law_when_modules_compose(
    manifest: TemplateManifest,
    template_id: Seq<char>,
    selected: Seq<Seq<char>>,
    modules: Seq<ModuleView>,
    r: Result<CompositionView, Seq<char>>,
)
    requires
        composes(manifest, template_id, selected, modules, r),
    ensures
        ({
            let claims = module_claims(
                owner_pairs(manifest.shared_entities@),
                modules,
                modules.len(),
            );
            let chains = all_chains(modules, modules.len());
            let merged = merge_modules(modules, modules.len());
            let screens = kept_screens(
                merged->Ok_0.owners,
                merged->Ok_0.screens,
                merged->Ok_0.screens.len(),
            );
            let wires = screen_wires(screens, false, screens.len());
            r is Ok <==> {
                &&& forall|i: int, j: int|
                    0 <= i < j < claims.len() && (#[trigger] claims[i]).entity == (
                    #[trigger] claims[j]).entity && !(claims[i].own && claims[j].own)
                        ==> claims[i].pk == claims[j].pk && claims[i].fields == claims[j].fields
                &&& forall|i: int, j: int|
                    0 <= i < j < chains.len() ==> (#[trigger] chains[i]).name != (
                    #[trigger] chains[j]).name
                &&& merged is Ok
                &&& forall|i: int, j: int|
                    0 <= i < j < wires.len() && marker(#[trigger] wires[i]) == marker(
                        #[trigger] wires[j],
                    ) ==> wires[i] == wires[j]
            }
        }),
{
    let claims = module_claims(owner_pairs(manifest.shared_entities@), modules, modules.len());
    let chains = all_chains(modules, modules.len());
    let merged = merge_modules(modules, modules.len());
    if claims_verdict(claims, Ok(())) {
        law_when_modules_agree(claims, Ok(()));
    }
    if chains_verdict(chains, Ok(chains)) {
        law_when_chains_merge(chains, Ok(chains));
    }
    if let Err(e) = r {
        if claims_verdict(claims, Err(e)) {
            law_when_modules_agree(claims, Err(e));
        }
        if chains_verdict(chains, Err(e)) {
            law_when_chains_merge(chains, Err(e));
        }
    }
    if let Ok(st) = merged {
        let screens = kept_screens(st.owners, st.screens, st.screens.len());
        let wires = screen_wires(screens, false, screens.len());
        if alias_verdict(wires, Ok(())) {
            law_when_spellings_pass(wires, Ok(()));
        }
        if let Err(e) = r {
            if alias_verdict(wires, Err(e)) {
                law_when_spellings_pass(wires, Err(e));
            }
        }
    }
}

/// The menu of a composition has the groups of all its modules and the landing
/// routes of the roles that its built screens declare.
pub proof fn law_groups_and_landings_of_a_composition(
    manifest: TemplateManifest,
    template_id: Seq<char>,
    selected: Seq<Seq<char>>,
    modules: Seq<ModuleView>,
    c: CompositionView,
)
    requires
        composes(manifest, template_id, selected, modules, Ok(c)),
    ensures
        c.menus.group == sorted_groups(all_groups(modules, modules.len())),
        c.menus.landing == merged_landing(
            screen_wires(c.register.screen, true, c.register.screen.len()),
            modules,
        ),
{
}

} // verus!
