//! Merging the menus of the selected modules.
use crate::composer::decl::{
    EntryView, GroupView, MenuEntry, MenuGroup, ModuleData, ModuleView, ScreenDecl, ScreenView,
};
use crate::lists::{lemma_flat_has, lemma_flat_next, lemma_kept_has, lemma_kept_next, push_has};
use crate::order::{
    key_before, key_views, law_ordering_keeps_everything, law_sorted_order, order_of, positions,
    sorted_order, KeyView, SortKey,
};
use crate::composer::screens::{
    find_route, first_at_route, lemma_first_at_route, route_of, screen_views, well_merged,
    MergeView,
};
use crate::composer::decl::pairs;
use crate::text::{copy_texts, has_text, same_text, text_before, texts};
use crate::text_map::TextMap;
use vstd::prelude::*;

verus! {

pub open spec fn group_views(groups: Seq<MenuGroup>) -> Seq<GroupView> {
    groups.map_values(|g: MenuGroup| g@)
}

pub open spec fn entry_views(entries: Seq<MenuEntry>) -> Seq<EntryView> {
    entries.map_values(|e: MenuEntry| e@)
}

/// An identifier made unique by the name of its module.
pub open spec fn prefixed(module: Seq<char>, id: Seq<char>) -> Seq<char> {
    module + "_"@ + id
}

fn prefix(module: &str, id: &str) -> (out: String)
    ensures
        out@ == prefixed(module@, id@),
{
    let mut out: String = module.to_owned();
    out.append("_");
    out.append(id);
    out
}

/// A landing route is given for the role.
pub open spec fn has_role(landing: Seq<(Seq<char>, Seq<char>)>, role: Seq<char>) -> bool {
    exists|i: int| 0 <= i < landing.len() && (#[trigger] landing[i]).0 == role
}

/// Adds the first `n` landing routes of a module: those of roles that a built
/// screen declares and that have no landing route yet.
pub open spec fn add_landing(
    built: Seq<Seq<char>>,
    start: Seq<(Seq<char>, Seq<char>)>,
    landing: Seq<(Seq<char>, Seq<char>)>,
    n: nat,
) -> Seq<(Seq<char>, Seq<char>)>
    decreases n,
{
    if n == 0 {
        start
    } else {
        let before = add_landing(built, start, landing, (n - 1) as nat);
        let entry = landing[n - 1];
        if built.contains(entry.0) && !has_role(before, entry.0) {
            before.push(entry)
        } else {
            before
        }
    }
}

/// The landing routes of the first `n` modules, or of those named `core` among
/// them, added to others.
pub open spec fn landing_from(
    built: Seq<Seq<char>>,
    start: Seq<(Seq<char>, Seq<char>)>,
    modules: Seq<ModuleView>,
    core_only: bool,
    n: nat,
) -> Seq<(Seq<char>, Seq<char>)>
    decreases n,
{
    if n == 0 {
        start
    } else {
        let before = landing_from(built, start, modules, core_only, (n - 1) as nat);
        let landing = modules[n - 1].menus.landing;
        if !core_only || modules[n - 1].name == "core"@ {
            add_landing(built, before, landing, landing.len())
        } else {
            before
        }
    }
}

/// The landing routes of the modules: those of `core` first, to which the other
/// modules, in order, add those of roles that have none yet.
pub open spec fn merged_landing(built: Seq<Seq<char>>, modules: Seq<ModuleView>) -> Seq<
    (Seq<char>, Seq<char>),
> {
    landing_from(
        built,
        landing_from(built, Seq::empty(), modules, true, modules.len()),
        modules,
        false,
        modules.len(),
    )
}

fn role_has_landing(landing: &Vec<(String, String)>, role: &str) -> (r: bool)
    ensures
        r == has_role(pairs(landing@), role@),
{
    let mut i: usize = 0;
    while i < landing.len()
        invariant
            i <= landing@.len(),
            forall|j: int| 0 <= j < i ==> (#[trigger] pairs(landing@)[j]).0 != role@,
        decreases landing@.len() - i,
    {
        if same_text(landing[i].0.as_str(), role) {
            assert(pairs(landing@)[i as int].0 == role@);
            return true;
        }
        i += 1;
    }
    false
}

fn add_landings(
    built: &Vec<String>,
    modules: &Vec<ModuleData>,
    core_only: bool,
    out: &mut Vec<(String, String)>,
)
    ensures
        pairs(final(out)@) == landing_from(
            texts(built@),
            pairs(old(out)@),
            modules@.map_values(|m: ModuleData| m@),
            core_only,
            modules@.len(),
        ),
{
    let ghost views = modules@.map_values(|m: ModuleData| m@);
    let ghost roles = texts(built@);
    let ghost first = pairs(out@);
    let mut m: usize = 0;
    while m < modules.len()
        invariant
            m <= modules@.len(),
            views == modules@.map_values(|m: ModuleData| m@),
            roles == texts(built@),
            pairs(out@) == landing_from(roles, first, views, core_only, m as nat),
        decreases modules@.len() - m,
    {
        assert(views[m as int].name == modules@[m as int].name@);
        if !core_only || same_text(modules[m].name.as_str(), "core") {
            let landing: &Vec<(String, String)> = &modules[m].menus.landing;
            let ghost all = pairs(landing@);
            let ghost start = pairs(out@);
            let mut i: usize = 0;
            while i < landing.len()
                invariant
                    i <= landing@.len(),
                    all == pairs(landing@),
                    roles == texts(built@),
                    pairs(out@) == add_landing(roles, start, all, i as nat),
                decreases landing@.len() - i,
            {
                assert(all[i as int] == (landing@[i as int].0@, landing@[i as int].1@));
                if has_text(built, landing[i].0.as_str()) && !role_has_landing(
                    &*out,
                    landing[i].0.as_str(),
                ) {
                    let ghost before = out@;
                    out.push((landing[i].0.clone(), landing[i].1.clone()));
                    assert(pairs(out@) =~= pairs(before).push(all[i as int]));
                }
                i += 1;
            }
            assert(views[m as int].menus.landing == all);
        }
        m += 1;
    }
}

/// The landing routes of all modules: `core` wins, then an earlier module, and
/// only roles of built screens count.
pub fn merge_landing(built: &Vec<String>, modules: &Vec<ModuleData>) -> (out: Vec<(String, String)>)
    ensures
        pairs(out@) == merged_landing(
            texts(built@),
            modules@.map_values(|m: ModuleData| m@),
        ),
{
    let mut out: Vec<(String, String)> = Vec::new();
    assert(pairs(out@) =~= Seq::<(Seq<char>, Seq<char>)>::empty());
    add_landings(built, modules, true, &mut out);
    add_landings(built, modules, false, &mut out);
    out
}

proof fn lemma_landing_roles(
    built: Seq<Seq<char>>,
    start: Seq<(Seq<char>, Seq<char>)>,
    landing: Seq<(Seq<char>, Seq<char>)>,
    n: nat,
)
    requires
        n <= landing.len(),
        landing_valid(built, start),
    ensures
        landing_valid(built, add_landing(built, start, landing, n)),
        start.is_prefix_of(add_landing(built, start, landing, n)),
        forall|i: int|
            0 <= i < n && built.contains((#[trigger] landing[i]).0) ==> has_role(
                add_landing(built, start, landing, n),
                landing[i].0,
            ),
        forall|k: int|
            start.len() <= k < add_landing(built, start, landing, n).len() ==> landing.contains(
                #[trigger] add_landing(built, start, landing, n)[k],
            ),
    decreases n,
{
    if n > 0 {
        lemma_landing_roles(built, start, landing, (n - 1) as nat);
        let before = add_landing(built, start, landing, (n - 1) as nat);
        let after = add_landing(built, start, landing, n);
        assert(before.is_prefix_of(after));
        assert forall|i: int| 0 <= i < n && built.contains((#[trigger] landing[i]).0) implies has_role(
            after,
            landing[i].0,
        ) by {
            if has_role(before, landing[i].0) {
                let k = choose|k: int| 0 <= k < before.len() && (#[trigger] before[k]).0 == landing[i].0;
                assert(after[k].0 == landing[i].0);
            } else {
                assert(i == n - 1);
                assert(after[before.len() as int].0 == landing[i].0);
            }
        }
        assert forall|k: int| start.len() <= k < after.len() implies landing.contains(
            #[trigger] after[k],
        ) by {
            if k < before.len() {
                assert(after[k] == before[k]);
            } else {
                assert(landing[n - 1] == after[k]);
            }
        }
    }
}

/// No role is listed twice, and every role is among `built`.
pub open spec fn landing_valid(
    built: Seq<Seq<char>>,
    landing: Seq<(Seq<char>, Seq<char>)>,
) -> bool {
    &&& forall|i: int, j: int|
        0 <= i < j < landing.len() ==> (#[trigger] landing[i]).0 != (#[trigger] landing[j]).0
    &&& forall|i: int| 0 <= i < landing.len() ==> built.contains((#[trigger] landing[i]).0)
}

proof fn lemma_landing_from(
    built: Seq<Seq<char>>,
    start: Seq<(Seq<char>, Seq<char>)>,
    modules: Seq<ModuleView>,
    core_only: bool,
    n: nat,
)
    requires
        n <= modules.len(),
        landing_valid(built, start),
    ensures
        landing_valid(built, landing_from(built, start, modules, core_only, n)),
        start.is_prefix_of(landing_from(built, start, modules, core_only, n)),
    decreases n,
{
    if n > 0 {
        lemma_landing_from(built, start, modules, core_only, (n - 1) as nat);
        let before = landing_from(built, start, modules, core_only, (n - 1) as nat);
        let landing = modules[n - 1].menus.landing;
        lemma_landing_roles(built, before, landing, landing.len());
        assert(before.is_prefix_of(landing_from(built, start, modules, core_only, n)));
    }
}

/// The landing routes of all modules list no role twice, and list only roles
/// that a built screen declares.
pub proof fn law_landing_roles(built: Seq<Seq<char>>, modules: Seq<ModuleView>)
    ensures
        landing_valid(built, merged_landing(built, modules)),
{
    let core = landing_from(built, Seq::empty(), modules, true, modules.len());
    lemma_landing_from(built, Seq::empty(), modules, true, modules.len());
    lemma_landing_from(built, core, modules, false, modules.len());
}

proof fn lemma_core_landing(built: Seq<Seq<char>>, modules: Seq<ModuleView>, n: nat, c: int, i: int)
    requires
        n <= modules.len(),
        forall|k: int| 0 <= k < n && (#[trigger] modules[k]).name == "core"@ ==> k == c,
        0 <= c < modules.len(),
        modules[c].name == "core"@,
        0 <= i < landing_from(built, Seq::empty(), modules, true, n).len(),
    ensures
        modules[c].menus.landing.contains(
            landing_from(built, Seq::empty(), modules, true, n)[i],
        ),
    decreases n,
{
    if n > 0 {
        let before = landing_from(built, Seq::empty(), modules, true, (n - 1) as nat);
        let landing = modules[n - 1].menus.landing;
        lemma_landing_from(built, Seq::empty(), modules, true, (n - 1) as nat);
        if i < before.len() {
            lemma_core_landing(built, modules, (n - 1) as nat, c, i);
            if modules[n - 1].name == "core"@ {
                lemma_landing_roles(built, before, landing, landing.len());
            }
        } else {
            lemma_landing_roles(built, before, landing, landing.len());
        }
    }
}

proof fn lemma_core_lands(built: Seq<Seq<char>>, modules: Seq<ModuleView>, n: nat, c: int, role: Seq<char>)
    requires
        0 <= c < n <= modules.len(),
        modules[c].name == "core"@,
        built.contains(role),
        has_role(modules[c].menus.landing, role),
    ensures
        has_role(landing_from(built, Seq::empty(), modules, true, n), role),
    decreases n,
{
    let before = landing_from(built, Seq::empty(), modules, true, (n - 1) as nat);
    let after = landing_from(built, Seq::empty(), modules, true, n);
    let landing = modules[n - 1].menus.landing;
    lemma_landing_from(built, Seq::empty(), modules, true, (n - 1) as nat);
    lemma_landing_roles(built, before, landing, landing.len());
    if c < n - 1 {
        lemma_core_lands(built, modules, (n - 1) as nat, c, role);
        let k = choose|k: int| 0 <= k < before.len() && (#[trigger] before[k]).0 == role;
        assert(after[k].0 == role);
    } else {
        let k = choose|k: int| 0 <= k < landing.len() && (#[trigger] landing[k]).0 == role;
        assert(built.contains(landing[k].0));
    }
}

/// A role that `core` gives a landing route lands where `core` says, whatever
/// the other modules say and wherever `core` is listed.
pub proof fn law_core_landing_wins(
    built: Seq<Seq<char>>,
    modules: Seq<ModuleView>,
    c: int,
    role: Seq<char>,
)
    requires
        0 <= c < modules.len(),
        modules[c].name == "core"@,
        forall|k: int| 0 <= k < modules.len() && (#[trigger] modules[k]).name == "core"@ ==> k == c,
        built.contains(role),
        has_role(modules[c].menus.landing, role),
    ensures
        exists|i: int|
            {
                &&& 0 <= i < merged_landing(built, modules).len()
                &&& (#[trigger] merged_landing(built, modules)[i]).0 == role
                &&& modules[c].menus.landing.contains(merged_landing(built, modules)[i])
            },
{
    let core = landing_from(built, Seq::empty(), modules, true, modules.len());
    let all = merged_landing(built, modules);
    lemma_core_lands(built, modules, modules.len(), c, role);
    lemma_landing_from(built, Seq::empty(), modules, true, modules.len());
    lemma_landing_from(built, core, modules, false, modules.len());
    let i = choose|i: int| 0 <= i < core.len() && (#[trigger] core[i]).0 == role;
    lemma_core_landing(built, modules, modules.len(), c, i);
    assert(all[i] == core[i]);
}

/// A group as it stands in the composed menu.
pub open spec fn composed_group(module: Seq<char>, g: GroupView) -> GroupView {
    GroupView {
        id: prefixed(module, g.id),
        label_key: g.label_key,
        label: None,
        order: g.order,
    }
}

/// The groups of the first `n` modules, in order.
pub open spec fn all_groups(modules: Seq<ModuleView>, n: nat) -> Seq<GroupView>
    decreases n,
{
    if n == 0 {
        Seq::empty()
    } else {
        let m = modules[n - 1];
        all_groups(modules, (n - 1) as nat) + m.menus.group.map_values(
            |g: GroupView| composed_group(m.name, g),
        )
    }
}

/// The groups of all modules.
pub fn collect_groups(modules: &Vec<ModuleData>) -> (out: Vec<MenuGroup>)
    ensures
        group_views(out@) == all_groups(
            modules@.map_values(|m: ModuleData| m@),
            modules@.len(),
        ),
{
    let ghost views = modules@.map_values(|m: ModuleData| m@);
    let mut out: Vec<MenuGroup> = Vec::new();
    let mut m: usize = 0;
    assert(group_views(out@) =~= Seq::<GroupView>::empty());
    while m < modules.len()
        invariant
            m <= modules@.len(),
            views == modules@.map_values(|m: ModuleData| m@),
            group_views(out@) == all_groups(views, m as nat),
        decreases modules@.len() - m,
    {
        let module: &ModuleData = &modules[m];
        let groups: &Vec<MenuGroup> = &module.menus.group;
        let ghost start = group_views(out@);
        let ghost more = views[m as int].menus.group.map_values(
            |g: GroupView| composed_group(views[m as int].name, g),
        );
        assert(more.len() == groups@.len());
        assert(views[m as int] == module@);
        let mut i: usize = 0;
        assert(start + more.take(0) =~= start);
        while i < groups.len()
            invariant
                i <= groups@.len(),
                *groups == module.menus.group,
                more == module@.menus.group.map_values(
                    |g: GroupView| composed_group(module.name@, g),
                ),
                group_views(out@) == start + more.take(i as int),
            decreases groups@.len() - i,
        {
            let g: &MenuGroup = &groups[i];
            let ghost before = out@;
            assert(module@.menus.group[i as int] == g@);
            out.push(
                MenuGroup {
                    id: prefix(module.name.as_str(), g.id.as_str()),
                    label_key: g.label_key.clone(),
                    label: None,
                    order: g.order,
                },
            );
            assert(more[i as int] == composed_group(module.name@, g@));
            assert(out@[before.len() as int]@ =~= more[i as int]);
            assert(group_views(out@) =~= group_views(before).push(more[i as int]));
            i += 1;
            assert(more.take(i as int) =~= more.take(i as int - 1).push(more[i as int - 1]));
            assert(start + more.take(i as int) =~= (start + more.take(i as int - 1)).push(
                more[i as int - 1],
            ));
        }
        assert(more.take(i as int) =~= more);
        m += 1;
    }
    out
}

/// The order number of each group; of two groups with the same identifier the
/// later counts.
pub open spec fn group_orders(groups: Seq<GroupView>, n: nat) -> Map<Seq<char>, i64>
    decreases n,
{
    if n == 0 {
        Map::empty()
    } else {
        group_orders(groups, (n - 1) as nat).insert(groups[n - 1].id, groups[n - 1].order as i64)
    }
}

fn orders_of(groups: &Vec<MenuGroup>) -> (out: TextMap<i64>)
    ensures
        out@ == group_orders(group_views(groups@), groups@.len()),
{
    let ghost views = group_views(groups@);
    let mut out: TextMap<i64> = TextMap::new();
    let mut i: usize = 0;
    while i < groups.len()
        invariant
            i <= groups@.len(),
            views == group_views(groups@),
            out@ == group_orders(views, i as nat),
        decreases groups@.len() - i,
    {
        assert(views[i as int] == groups@[i as int]@);
        out.insert(groups[i].id.clone(), groups[i].order);
        i += 1;
    }
    out
}

/// The identifier of the composed screen at `route`; a made-up one where no
/// screen is mounted there.
pub open spec fn target_id(
    screens: Seq<ScreenView>,
    module: Seq<char>,
    entry: EntryView,
) -> Seq<char> {
    let at = first_at_route(screens, entry.route, 0);
    if at < screens.len() {
        screens[at as int].id
    } else {
        module + ".UNKNOWN."@ + entry.screen_id
    }
}

/// The entry leads to a route of its own module and to a built screen.
pub open spec fn entry_kept(
    owners: Map<Seq<char>, Seq<char>>,
    screens: Seq<ScreenView>,
    blocked_ids: Seq<Seq<char>>,
    module: Seq<char>,
    entry: EntryView,
) -> bool {
    &&& owners.contains_key(entry.route)
    &&& owners[entry.route] == module
    &&& !blocked_ids.contains(target_id(screens, module, entry))
}

/// An entry as it stands in the composed menu.
pub open spec fn composed_entry(
    screens: Seq<ScreenView>,
    module: Seq<char>,
    entry: EntryView,
) -> EntryView {
    EntryView {
        id: prefixed(module, entry.id),
        label: None,
        screen_id: target_id(screens, module, entry),
        group: prefixed(module, entry.group),
        ..entry
    }
}

/// The composed forms of the first `n` entries of a module that are kept.
pub open spec fn kept_entries(
    owners: Map<Seq<char>, Seq<char>>,
    screens: Seq<ScreenView>,
    blocked_ids: Seq<Seq<char>>,
    module: Seq<char>,
    entries: Seq<EntryView>,
    n: nat,
) -> Seq<EntryView>
    decreases n,
{
    if n == 0 {
        Seq::empty()
    } else {
        let before = kept_entries(owners, screens, blocked_ids, module, entries, (n - 1) as nat);
        if entry_kept(owners, screens, blocked_ids, module, entries[n - 1]) {
            before.push(composed_entry(screens, module, entries[n - 1]))
        } else {
            before
        }
    }
}

/// The entries of the first `n` modules that are kept, in order.
pub open spec fn all_entries(
    owners: Map<Seq<char>, Seq<char>>,
    screens: Seq<ScreenView>,
    blocked_ids: Seq<Seq<char>>,
    modules: Seq<ModuleView>,
    n: nat,
) -> Seq<EntryView>
    decreases n,
{
    if n == 0 {
        Seq::empty()
    } else {
        let m = modules[n - 1];
        all_entries(owners, screens, blocked_ids, modules, (n - 1) as nat) + kept_entries(
            owners,
            screens,
            blocked_ids,
            m.name,
            m.menus.menu,
            m.menus.menu.len(),
        )
    }
}

fn compose_entry(
    owners: &TextMap<String>,
    screens: &Vec<ScreenDecl>,
    blocked_ids: &Vec<String>,
    module: &str,
    entry: &MenuEntry,
) -> (out: Option<MenuEntry>)
    ensures
        match out {
            Some(e) => entry_kept(
                owners@,
                screen_views(screens@),
                texts(blocked_ids@),
                module@,
                entry@,
            ) && e@ == composed_entry(screen_views(screens@), module@, entry@),
            None => !entry_kept(
                owners@,
                screen_views(screens@),
                texts(blocked_ids@),
                module@,
                entry@,
            ),
        },
{
    match owners.get(entry.route.as_str()) {
        Some(owner) => {
            if !same_text(owner.as_str(), module) {
                return None;
            }
        },
        None => {
            return None;
        },
    }
    let at: usize = find_route(screens, entry.route.as_str());
    let id: String = if at < screens.len() {
        assert(screen_views(screens@)[at as int] == screens@[at as int]@);
        screens[at].id.clone()
    } else {
        let mut made: String = module.to_owned();
        made.append(".UNKNOWN.");
        made.append(entry.screen_id.as_str());
        made
    };
    assert(id@ == target_id(screen_views(screens@), module@, entry@));
    if has_text(blocked_ids, id.as_str()) {
        return None;
    }
    let out = MenuEntry {
        id: prefix(module, entry.id.as_str()),
        label_key: entry.label_key.clone(),
        label: None,
        screen_id: id,
        route: entry.route.clone(),
        group: prefix(module, entry.group.as_str()),
        roles: copy_texts(&entry.roles),
        order: entry.order,
        guard: match &entry.guard {
            Some(g) => Some(g.clone()),
            None => None,
        },
    };
    assert(out@ =~= composed_entry(screen_views(screens@), module@, entry@));
    Some(out)
}

/// The entries of all modules that are kept.
pub fn collect_entries(
    owners: &TextMap<String>,
    screens: &Vec<ScreenDecl>,
    blocked_ids: &Vec<String>,
    modules: &Vec<ModuleData>,
) -> (out: Vec<MenuEntry>)
    ensures
        entry_views(out@) == all_entries(
            owners@,
            screen_views(screens@),
            texts(blocked_ids@),
            modules@.map_values(|m: ModuleData| m@),
            modules@.len(),
        ),
{
    let ghost views = modules@.map_values(|m: ModuleData| m@);
    let ghost sv = screen_views(screens@);
    let ghost ids = texts(blocked_ids@);
    let mut out: Vec<MenuEntry> = Vec::new();
    let mut m: usize = 0;
    assert(entry_views(out@) =~= Seq::<EntryView>::empty());
    while m < modules.len()
        invariant
            m <= modules@.len(),
            views == modules@.map_values(|m: ModuleData| m@),
            sv == screen_views(screens@),
            ids == texts(blocked_ids@),
            entry_views(out@) == all_entries(owners@, sv, ids, views, m as nat),
        decreases modules@.len() - m,
    {
        let module: &ModuleData = &modules[m];
        let entries: &Vec<MenuEntry> = &module.menus.menu;
        let ghost start = entry_views(out@);
        let ghost ev = views[m as int].menus.menu;
        assert(views[m as int] == module@);
        let mut i: usize = 0;
        assert(start + kept_entries(owners@, sv, ids, module.name@, ev, 0) =~= start);
        while i < entries.len()
            invariant
                i <= entries@.len(),
                *entries == module.menus.menu,
                ev == module@.menus.menu,
                sv == screen_views(screens@),
                ids == texts(blocked_ids@),
                entry_views(out@) == start + kept_entries(
                    owners@,
                    sv,
                    ids,
                    module.name@,
                    ev,
                    i as nat,
                ),
            decreases entries@.len() - i,
        {
            assert(ev[i as int] == entries@[i as int]@);
            let ghost before = out@;
            let ghost made = kept_entries(owners@, sv, ids, module.name@, ev, i as nat);
            match compose_entry(owners, screens, blocked_ids, module.name.as_str(), &entries[i]) {
                Some(e) => {
                    let ghost view = e@;
                    out.push(e);
                    assert(entry_views(out@) =~= entry_views(before).push(view));
                    assert((start + made).push(view) =~= start + made.push(view));
                },
                None => {},
            }
            i += 1;
        }
        m += 1;
    }
    out
}

/// No kept entry leads to a screen that is not built.
pub proof fn law_no_entry_to_a_blocked_screen(
    owners: Map<Seq<char>, Seq<char>>,
    screens: Seq<ScreenView>,
    blocked_ids: Seq<Seq<char>>,
    modules: Seq<ModuleView>,
    n: nat,
    i: int,
)
    requires
        n <= modules.len(),
        0 <= i < all_entries(owners, screens, blocked_ids, modules, n).len(),
    ensures
        !blocked_ids.contains(all_entries(owners, screens, blocked_ids, modules, n)[i].screen_id),
        owners.contains_key(all_entries(owners, screens, blocked_ids, modules, n)[i].route),
    decreases n,
{
    if n > 0 {
        let m = modules[n - 1];
        let before = all_entries(owners, screens, blocked_ids, modules, (n - 1) as nat);
        if i < before.len() {
            law_no_entry_to_a_blocked_screen(
                owners,
                screens,
                blocked_ids,
                modules,
                (n - 1) as nat,
                i,
            );
        } else {
            lemma_kept_entry(
                owners,
                screens,
                blocked_ids,
                m.name,
                m.menus.menu,
                m.menus.menu.len(),
                i - before.len(),
            );
        }
    }
}

proof fn lemma_entry_target(
    owners: Map<Seq<char>, Seq<char>>,
    screens: Seq<ScreenView>,
    blocked_ids: Seq<Seq<char>>,
    modules: Seq<ModuleView>,
    n: nat,
    i: int,
)
    requires
        n <= modules.len(),
        0 <= i < all_entries(owners, screens, blocked_ids, modules, n).len(),
    ensures
        ({
            let e = all_entries(owners, screens, blocked_ids, modules, n)[i];
            let at = first_at_route(screens, e.route, 0);
            &&& owners.contains_key(e.route)
            &&& at < screens.len() ==> e.screen_id == screens[at as int].id
        }),
    decreases n,
{
    if n > 0 {
        let m = modules[n - 1];
        let before = all_entries(owners, screens, blocked_ids, modules, (n - 1) as nat);
        if i < before.len() {
            lemma_entry_target(owners, screens, blocked_ids, modules, (n - 1) as nat, i);
        } else {
            lemma_kept_entry(
                owners,
                screens,
                blocked_ids,
                m.name,
                m.menus.menu,
                m.menus.menu.len(),
                i - before.len(),
            );
        }
    }
}

/// Every entry of the composed menu names the screen of the register that is
/// mounted at its route.
pub proof fn law_entries_lead_to_their_screen(
    modules: Seq<ModuleView>,
    st: MergeView,
    n: nat,
    i: int,
)
    requires
        well_merged(st),
        n <= modules.len(),
        0 <= i < all_entries(st.owners, st.screens, st.blocked_ids, modules, n).len(),
    ensures
        ({
            let e = all_entries(st.owners, st.screens, st.blocked_ids, modules, n)[i];
            exists|j: int|
                {
                    &&& 0 <= j < st.screens.len()
                    &&& route_of(#[trigger] st.screens[j]) == Some(e.route)
                    &&& e.screen_id == st.screens[j].id
                }
        }),
{
    let e = all_entries(st.owners, st.screens, st.blocked_ids, modules, n)[i];
    lemma_entry_target(st.owners, st.screens, st.blocked_ids, modules, n, i);
    let k = choose|k: int|
        0 <= k < st.screens.len() && route_of(#[trigger] st.screens[k]) == Some(e.route);
    lemma_first_at_route(st.screens, e.route, 0);
    assert(route_of(st.screens[first_at_route(st.screens, e.route, 0) as int]) == Some(e.route));
}

proof fn lemma_kept_entry(
    owners: Map<Seq<char>, Seq<char>>,
    screens: Seq<ScreenView>,
    blocked_ids: Seq<Seq<char>>,
    module: Seq<char>,
    entries: Seq<EntryView>,
    n: nat,
    i: int,
)
    requires
        n <= entries.len(),
        0 <= i < kept_entries(owners, screens, blocked_ids, module, entries, n).len(),
    ensures
        ({
            let e = kept_entries(owners, screens, blocked_ids, module, entries, n)[i];
            let at = first_at_route(screens, e.route, 0);
            &&& !blocked_ids.contains(e.screen_id)
            &&& owners.contains_key(e.route)
            &&& at < screens.len() ==> e.screen_id == screens[at as int].id
        }),
    decreases n,
{
    if n > 0 {
        let before = kept_entries(owners, screens, blocked_ids, module, entries, (n - 1) as nat);
        if i < before.len() {
            lemma_kept_entry(owners, screens, blocked_ids, module, entries, (n - 1) as nat, i);
        }
    }
}

/// What a group is ordered by.
pub open spec fn group_key(g: GroupView) -> KeyView {
    KeyView { major: g.order, minor: 0, id: g.id }
}

/// What an entry is ordered by: the order of its group, 0 where the group is
/// unknown, then its own.
pub open spec fn entry_key(orders: Map<Seq<char>, i64>, e: EntryView) -> KeyView {
    KeyView {
        major: if orders.contains_key(e.group) {
            orders[e.group] as int
        } else {
            0
        },
        minor: e.order,
        id: e.id,
    }
}

/// The groups in the order of their keys.
pub open spec fn sorted_groups(groups: Seq<GroupView>) -> Seq<GroupView> {
    let keys = groups.map_values(|g: GroupView| group_key(g));
    sorted_order(keys, keys.len()).map_values(|i: int| groups[i])
}

/// The entries in the order of their keys.
pub open spec fn sorted_entries(orders: Map<Seq<char>, i64>, entries: Seq<EntryView>) -> Seq<
    EntryView,
> {
    let keys = entries.map_values(|e: EntryView| entry_key(orders, e));
    sorted_order(keys, keys.len()).map_values(|i: int| entries[i])
}

/// Sorts the groups by order number, then by identifier.
pub fn sort_groups(groups: &Vec<MenuGroup>) -> (out: Vec<MenuGroup>)
    ensures
        group_views(out@) == sorted_groups(group_views(groups@)),
{
    let ghost views = group_views(groups@);
    let ghost wanted = views.map_values(|g: GroupView| group_key(g));
    let mut keys: Vec<SortKey> = Vec::new();
    let mut i: usize = 0;
    while i < groups.len()
        invariant
            i <= groups@.len(),
            views == group_views(groups@),
            wanted == views.map_values(|g: GroupView| group_key(g)),
            keys@.len() == i,
            forall|j: int| 0 <= j < i ==> #[trigger] keys@[j]@ == wanted[j],
        decreases groups@.len() - i,
    {
        assert(views[i as int] == groups@[i as int]@);
        keys.push(SortKey { major: groups[i].order, minor: 0, id: groups[i].id.clone() });
        assert(keys@[i as int]@ =~= wanted[i as int]);
        i += 1;
    }
    assert(key_views(keys@) =~= wanted);
    let order: Vec<usize> = order_of(&keys);
    let mut out: Vec<MenuGroup> = Vec::new();
    let mut n: usize = 0;
    while n < order.len()
        invariant
            n <= order@.len(),
            views == group_views(groups@),
            out@.len() == n,
            order@.len() == groups@.len(),
            forall|j: int| 0 <= j < order@.len() ==> #[trigger] order@[j] < groups@.len(),
            forall|j: int| 0 <= j < n ==> #[trigger] out@[j]@ == views[order@[j] as int],
        decreases order@.len() - n,
    {
        out.push(groups[order[n]].clone());
        assert(views[order@[n as int] as int] == groups@[order@[n as int] as int]@);
        n += 1;
    }
    assert(group_views(out@) =~= positions(order@).map_values(|i: int| views[i]));
    out
}

/// Sorts the entries by the order of their group, their own order, then their
/// identifier.
pub fn sort_entries(groups: &Vec<MenuGroup>, entries: &Vec<MenuEntry>) -> (out: Vec<MenuEntry>)
    ensures
        entry_views(out@) == sorted_entries(
            group_orders(group_views(groups@), groups@.len()),
            entry_views(entries@),
        ),
{
    let orders: TextMap<i64> = orders_of(groups);
    let ghost om = orders@;
    let ghost views = entry_views(entries@);
    let ghost wanted = views.map_values(|e: EntryView| entry_key(om, e));
    let mut keys: Vec<SortKey> = Vec::new();
    let mut i: usize = 0;
    while i < entries.len()
        invariant
            i <= entries@.len(),
            om == orders@,
            views == entry_views(entries@),
            wanted == views.map_values(|e: EntryView| entry_key(om, e)),
            keys@.len() == i,
            forall|j: int| 0 <= j < i ==> #[trigger] keys@[j]@ == wanted[j],
        decreases entries@.len() - i,
    {
        assert(views[i as int] == entries@[i as int]@);
        let major: i64 = match orders.get(entries[i].group.as_str()) {
            Some(n) => *n,
            None => 0,
        };
        keys.push(SortKey { major, minor: entries[i].order, id: entries[i].id.clone() });
        assert(keys@[i as int]@ =~= wanted[i as int]);
        i += 1;
    }
    assert(key_views(keys@) =~= wanted);
    let order: Vec<usize> = order_of(&keys);
    let mut out: Vec<MenuEntry> = Vec::new();
    let mut n: usize = 0;
    while n < order.len()
        invariant
            n <= order@.len(),
            views == entry_views(entries@),
            out@.len() == n,
            order@.len() == entries@.len(),
            forall|j: int| 0 <= j < order@.len() ==> #[trigger] order@[j] < entries@.len(),
            forall|j: int| 0 <= j < n ==> #[trigger] out@[j]@ == views[order@[j] as int],
        decreases order@.len() - n,
    {
        out.push(entries[order[n]].clone());
        assert(views[order@[n as int] as int] == entries@[order@[n as int] as int]@);
        n += 1;
    }
    assert(entry_views(out@) =~= positions(order@).map_values(|i: int| views[i]));
    out
}

/// The entries of a module that are kept are those whose route it owns and whose
/// screen is built, in order, under identifiers of their own. `at` tells which
/// screen is mounted at a route.
pub proof fn law_entries_of_a_module(
    owners: Map<Seq<char>, Seq<char>>,
    screens: Seq<ScreenView>,
    blocked_ids: Seq<Seq<char>>,
    module: Seq<char>,
    entries: Seq<EntryView>,
    at: Map<Seq<char>, Seq<char>>,
    n: nat,
)
    requires
        n <= entries.len(),
        forall|route: Seq<char>| #[trigger]
            owners.contains_key(route) ==> exists|i: int|
                0 <= i < screens.len() && route_of(#[trigger] screens[i]) == Some(route),
        forall|i: int|
            0 <= i < screens.len() && route_of(#[trigger] screens[i]) is Some ==> at[route_of(
                screens[i],
            )->Some_0] == screens[i].id,
    ensures
        kept_entries(owners, screens, blocked_ids, module, entries, n) == entries.take(
            n as int,
        ).filter_map(menu_form(owners, blocked_ids, module, at)),
    decreases n,
{
    if n > 0 {
        let e = entries[n - 1];
        law_entries_of_a_module(
            owners,
            screens,
            blocked_ids,
            module,
            entries,
            at,
            (n - 1) as nat,
        );
        lemma_kept_next(entries, menu_form(owners, blocked_ids, module, at), n - 1);
        if owners.contains_key(e.route) {
            let k = choose|k: int|
                0 <= k < screens.len() && route_of(#[trigger] screens[k]) == Some(e.route);
            lemma_first_at_route(screens, e.route, 0);
            let first = first_at_route(screens, e.route, 0) as int;
            assert(route_of(screens[first]) == Some(e.route));
            assert(at[e.route] == screens[first].id);
        }
    }
}

/// How an entry of a module stands in the composed menu, where it does: its
/// module owns its route, and the screen there, which `at` tells, is not
/// blocked. Its identifier and its group are told apart by the module; its
/// route, label key, roles, order and guard stay what they are.
pub open spec fn menu_form(
    owners: Map<Seq<char>, Seq<char>>,
    blocked_ids: Seq<Seq<char>>,
    module: Seq<char>,
    at: Map<Seq<char>, Seq<char>>,
) -> spec_fn(EntryView) -> Option<EntryView> {
    |e: EntryView|
        if owners.contains_key(e.route) && owners[e.route] == module && !blocked_ids.contains(
            at[e.route],
        ) {
            Some(
                EntryView {
                    id: module + "_"@ + e.id,
                    label_key: e.label_key,
                    label: None,
                    screen_id: at[e.route],
                    route: e.route,
                    group: module + "_"@ + e.group,
                    roles: e.roles,
                    order: e.order,
                    guard: e.guard,
                },
            )
        } else {
            None
        }
}

proof fn lemma_all_entries(
    owners: Map<Seq<char>, Seq<char>>,
    screens: Seq<ScreenView>,
    blocked_ids: Seq<Seq<char>>,
    modules: Seq<ModuleView>,
    at: Map<Seq<char>, Seq<char>>,
    n: nat,
)
    requires
        n <= modules.len(),
        forall|route: Seq<char>| #[trigger]
            owners.contains_key(route) ==> exists|i: int|
                0 <= i < screens.len() && route_of(#[trigger] screens[i]) == Some(route),
        forall|i: int|
            0 <= i < screens.len() && route_of(#[trigger] screens[i]) is Some ==> at[route_of(
                screens[i],
            )->Some_0] == screens[i].id,
    ensures
        all_entries(owners, screens, blocked_ids, modules, n) == modules.map_values(
            |m: ModuleView| m.menus.menu.filter_map(menu_form(owners, blocked_ids, m.name, at)),
        ).take(n as int).flatten(),
    decreases n,
{
    let all = modules.map_values(
        |m: ModuleView| m.menus.menu.filter_map(menu_form(owners, blocked_ids, m.name, at)),
    );
    if n > 0 {
        let m = modules[n - 1];
        lemma_all_entries(owners, screens, blocked_ids, modules, at, (n - 1) as nat);
        law_entries_of_a_module(
            owners,
            screens,
            blocked_ids,
            m.name,
            m.menus.menu,
            at,
            m.menus.menu.len(),
        );
        assert(m.menus.menu.take(m.menus.menu.len() as int) =~= m.menus.menu);
        lemma_flat_next(all, n - 1);
    } else {
        assert(all.take(0) =~= Seq::<Seq<EntryView>>::empty());
    }
}

/// The composed menu is complete: it holds, once each, the entries of every
/// module whose route that module owns and whose screen is not blocked, and
/// nothing else. Only their order is its own. `at` tells which screen is mounted
/// at a route.
pub proof fn law_the_menu_is_complete(
    modules: Seq<ModuleView>,
    st: MergeView,
    orders: Map<Seq<char>, i64>,
    at: Map<Seq<char>, Seq<char>>,
)
    requires
        well_merged(st),
        forall|i: int|
            0 <= i < st.screens.len() && route_of(#[trigger] st.screens[i]) is Some ==> at[route_of(
                st.screens[i],
            )->Some_0] == st.screens[i].id,
    ensures
        sorted_entries(
            orders,
            all_entries(st.owners, st.screens, st.blocked_ids, modules, modules.len()),
        ).to_multiset() == modules.map_values(
            |m: ModuleView|
                m.menus.menu.filter_map(menu_form(st.owners, st.blocked_ids, m.name, at)),
        ).flatten().to_multiset(),
{
    let entries = all_entries(st.owners, st.screens, st.blocked_ids, modules, modules.len());
    let keys = entries.map_values(|e: EntryView| entry_key(orders, e));
    let all = modules.map_values(
        |m: ModuleView| m.menus.menu.filter_map(menu_form(st.owners, st.blocked_ids, m.name, at)),
    );
    lemma_all_entries(st.owners, st.screens, st.blocked_ids, modules, at, modules.len());
    assert(all.take(modules.len() as int) =~= all);
    law_ordering_keeps_everything(entries, keys, keys.len());
    assert(entries.take(keys.len() as int) =~= entries);
}

/// An entry of a module stands in the composed menu exactly where its module
/// owns its route and the screen there is not blocked.
pub proof fn law_an_entry_is_in_the_menu(
    modules: Seq<ModuleView>,
    st: MergeView,
    orders: Map<Seq<char>, i64>,
    k: int,
    j: int,
    s: int,
)
    requires
        well_merged(st),
        0 <= k < modules.len(),
        0 <= j < modules[k].menus.menu.len(),
        0 <= s < st.screens.len(),
        st.owners.contains_key(modules[k].menus.menu[j].route),
        st.owners[modules[k].menus.menu[j].route] == modules[k].name,
        route_of(st.screens[s]) == Some(modules[k].menus.menu[j].route),
        !st.blocked_ids.contains(st.screens[s].id),
    ensures
        ({
            let e = modules[k].menus.menu[j];
            let m = modules[k].name;
            sorted_entries(
                orders,
                all_entries(st.owners, st.screens, st.blocked_ids, modules, modules.len()),
            ).contains(
                EntryView {
                    id: m + "_"@ + e.id,
                    label_key: e.label_key,
                    label: None,
                    screen_id: st.screens[s].id,
                    route: e.route,
                    group: m + "_"@ + e.group,
                    roles: e.roles,
                    order: e.order,
                    guard: e.guard,
                },
            )
        }),
{
    broadcast use vstd::seq_lib::group_to_multiset_ensures;

    let at = Map::<Seq<char>, Seq<char>>::new(
        |route: Seq<char>| true,
        |route: Seq<char>|
            st.screens[choose|i: int|
                0 <= i < st.screens.len() && route_of(#[trigger] st.screens[i]) == Some(route)].id,
    );
    assert forall|i: int|
        0 <= i < st.screens.len() && route_of(#[trigger] st.screens[i]) is Some implies at[route_of(
        st.screens[i],
    )->Some_0] == st.screens[i].id by {
        let route = route_of(st.screens[i])->Some_0;
        let c = choose|c: int|
            0 <= c < st.screens.len() && route_of(#[trigger] st.screens[c]) == Some(route);
        assert(route_of(st.screens[c]) == Some(route));
        if c < i {
            assert(route_of(st.screens[c]) != route_of(st.screens[i]));
        } else if i < c {
            assert(route_of(st.screens[i]) != route_of(st.screens[c]));
        }
    }
    law_the_menu_is_complete(modules, st, orders, at);
    let e = modules[k].menus.menu[j];
    let f = menu_form(st.owners, st.blocked_ids, modules[k].name, at);
    let form = EntryView {
        id: modules[k].name + "_"@ + e.id,
        label_key: e.label_key,
        label: None,
        screen_id: st.screens[s].id,
        route: e.route,
        group: modules[k].name + "_"@ + e.group,
        roles: e.roles,
        order: e.order,
        guard: e.guard,
    };
    let all = modules.map_values(
        |m: ModuleView| m.menus.menu.filter_map(menu_form(st.owners, st.blocked_ids, m.name, at)),
    );
    assert(at[e.route] == st.screens[s].id);
    assert(f(e) == Some(form));
    lemma_kept_has(modules[k].menus.menu, f, form);
    assert(all[k].contains(form));
    lemma_flat_has(all, form);
    assert(all.flatten().to_multiset().count(form) > 0);
}

/// The groups of the composed menu are those of all modules, once each, told
/// apart by their module.
pub proof fn law_the_groups_are_complete(modules: Seq<ModuleView>)
    ensures
        sorted_groups(all_groups(modules, modules.len())).to_multiset() == modules.map_values(
            |m: ModuleView|
                m.menus.group.map_values(
                    |g: GroupView|
                        GroupView {
                            id: m.name + "_"@ + g.id,
                            label_key: g.label_key,
                            label: None,
                            order: g.order,
                        },
                ),
        ).flatten().to_multiset(),
{
    let groups = all_groups(modules, modules.len());
    let keys = groups.map_values(|g: GroupView| group_key(g));
    let all = modules.map_values(
        |m: ModuleView|
            m.menus.group.map_values(
                |g: GroupView|
                    GroupView {
                        id: m.name + "_"@ + g.id,
                        label_key: g.label_key,
                        label: None,
                        order: g.order,
                    },
            ),
    );
    lemma_all_groups(modules, modules.len());
    assert(all.take(modules.len() as int) =~= all);
    law_ordering_keeps_everything(groups, keys, keys.len());
    assert(groups.take(keys.len() as int) =~= groups);
}

proof fn lemma_all_groups(modules: Seq<ModuleView>, n: nat)
    requires
        n <= modules.len(),
    ensures
        all_groups(modules, n) == modules.map_values(
            |m: ModuleView|
                m.menus.group.map_values(
                    |g: GroupView|
                        GroupView {
                            id: m.name + "_"@ + g.id,
                            label_key: g.label_key,
                            label: None,
                            order: g.order,
                        },
                ),
        ).take(n as int).flatten(),
    decreases n,
{
    let all = modules.map_values(
        |m: ModuleView|
            m.menus.group.map_values(
                |g: GroupView|
                    GroupView {
                        id: m.name + "_"@ + g.id,
                        label_key: g.label_key,
                        label: None,
                        order: g.order,
                    },
            ),
    );
    if n > 0 {
        let m = modules[n - 1];
        lemma_all_groups(modules, (n - 1) as nat);
        lemma_flat_next(all, n - 1);
        assert(all[n - 1] =~= m.menus.group.map_values(|g: GroupView| composed_group(m.name, g)));
    } else {
        assert(all.take(0) =~= Seq::<Seq<GroupView>>::empty());
    }
}

/// The groups of the menu stand in the order of their numbers; of groups with one
/// number, in dictionary order of their identifiers.
pub proof fn law_groups_in_order(groups: Seq<GroupView>, i: int, j: int)
    requires
        0 <= i < j < groups.len(),
    ensures
        sorted_groups(groups).len() == groups.len(),
        sorted_groups(groups)[i].order <= sorted_groups(groups)[j].order,
        sorted_groups(groups)[i].order == sorted_groups(groups)[j].order ==> !text_before(
            sorted_groups(groups)[j].id,
            sorted_groups(groups)[i].id,
        ),
{
    let keys = groups.map_values(|g: GroupView| group_key(g));
    let order = sorted_order(keys, keys.len());
    law_sorted_order(keys, keys.len());
    assert(!key_before(keys[order[j]], keys[order[i]]));
}

/// The order number of a group is that of the last group with its identifier.
pub proof fn law_the_later_group_counts(groups: Seq<GroupView>, n: nat, id: Seq<char>)
    requires
        n <= groups.len(),
    ensures
        group_orders(groups, n).contains_key(id) <==> exists|i: int|
            0 <= i < n && (#[trigger] groups[i]).id == id,
        forall|i: int|
            0 <= i < n && (#[trigger] groups[i]).id == id && (forall|j: int|
                i < j < n ==> (#[trigger] groups[j]).id != id) ==> group_orders(groups, n)[id]
                == groups[i].order as i64,
    decreases n,
{
    if n > 0 {
        law_the_later_group_counts(groups, (n - 1) as nat, id);
    }
}

/// The entries of the menu stand in the order of their groups, 0 for a group
/// that is unknown; within it in the order of their numbers; of entries with one
/// number, in dictionary order of their identifiers.
pub proof fn law_entries_in_order(
    orders: Map<Seq<char>, i64>,
    entries: Seq<EntryView>,
    i: int,
    j: int,
)
    requires
        0 <= i < j < entries.len(),
    ensures
        sorted_entries(orders, entries).len() == entries.len(),
        ({
            let a = sorted_entries(orders, entries)[i];
            let b = sorted_entries(orders, entries)[j];
            let p = if orders.contains_key(a.group) {
                orders[a.group] as int
            } else {
                0
            };
            let q = if orders.contains_key(b.group) {
                orders[b.group] as int
            } else {
                0
            };
            &&& p <= q
            &&& p == q ==> a.order <= b.order
            &&& p == q && a.order == b.order ==> !text_before(b.id, a.id)
        }),
{
    let keys = entries.map_values(|e: EntryView| entry_key(orders, e));
    let order = sorted_order(keys, keys.len());
    law_sorted_order(keys, keys.len());
    assert(!key_before(keys[order[j]], keys[order[i]]));
}

proof fn lemma_added_roles(
    built: Seq<Seq<char>>,
    start: Seq<(Seq<char>, Seq<char>)>,
    landing: Seq<(Seq<char>, Seq<char>)>,
    n: nat,
    entry: (Seq<char>, Seq<char>),
)
    requires
        n <= landing.len(),
    ensures
        add_landing(built, start, landing, n).contains(entry) <==> start.contains(entry) || (
        built.contains(entry.0) && !has_role(start, entry.0) && exists|i: int|
            {
                &&& 0 <= i < n
                &&& #[trigger] landing[i] == entry
                &&& forall|j: int| 0 <= j < i ==> (#[trigger] landing[j]).0 != entry.0
            }),
        has_role(add_landing(built, start, landing, n), entry.0) <==> has_role(start, entry.0) || (
        built.contains(entry.0) && exists|i: int|
            0 <= i < n && (#[trigger] landing[i]).0 == entry.0),
    decreases n,
{
    broadcast use push_has;

    if n > 0 {
        let before = add_landing(built, start, landing, (n - 1) as nat);
        let after = add_landing(built, start, landing, n);
        let last = landing[n - 1];
        lemma_added_roles(built, start, landing, (n - 1) as nat, entry);
        assert(has_role(before.push(last), entry.0) <==> has_role(before, entry.0) || last.0
            == entry.0) by {
            let more = before.push(last);
            if has_role(more, entry.0) {
                let k = choose|k: int| 0 <= k < more.len() && (#[trigger] more[k]).0 == entry.0;
                if k < before.len() {
                    assert(before[k].0 == entry.0);
                }
            }
            if has_role(before, entry.0) {
                let k = choose|k: int| 0 <= k < before.len() && (#[trigger] before[k]).0 == entry.0;
                assert(more[k].0 == entry.0);
            }
            if last.0 == entry.0 {
                assert(more[before.len() as int].0 == entry.0);
            }
        }
        if last.0 == entry.0 {
            assert(landing[n - 1].0 == entry.0);
        }
    }
}

/// The landing routes that a module adds are those of roles that a built screen
/// declares and that have none yet; of two routes for one role the first counts.
pub proof fn law_what_a_module_adds(
    built: Seq<Seq<char>>,
    start: Seq<(Seq<char>, Seq<char>)>,
    landing: Seq<(Seq<char>, Seq<char>)>,
    entry: (Seq<char>, Seq<char>),
)
    ensures
        add_landing(built, start, landing, landing.len()).contains(entry) <==> start.contains(entry)
            || (built.contains(entry.0) && (forall|k: int|
            0 <= k < start.len() ==> (#[trigger] start[k]).0 != entry.0) && exists|i: int|
            {
                &&& 0 <= i < landing.len()
                &&& #[trigger] landing[i] == entry
                &&& forall|j: int| 0 <= j < i ==> (#[trigger] landing[j]).0 != entry.0
            }),
{
    lemma_added_roles(built, start, landing, landing.len(), entry);
}

proof fn lemma_landing_has(
    built: Seq<Seq<char>>,
    start: Seq<(Seq<char>, Seq<char>)>,
    modules: Seq<ModuleView>,
    core_only: bool,
    n: nat,
    role: Seq<char>,
)
    requires
        n <= modules.len(),
    ensures
        has_role(landing_from(built, start, modules, core_only, n), role) <==> has_role(
            start,
            role,
        ) || (built.contains(role) && exists|k: int|
            0 <= k < n && (!core_only || modules[k].name == "core"@) && has_role(
                (#[trigger] modules[k]).menus.landing,
                role,
            )),
    decreases n,
{
    if n > 0 {
        let before = landing_from(built, start, modules, core_only, (n - 1) as nat);
        let landing = modules[n - 1].menus.landing;
        lemma_landing_has(built, start, modules, core_only, (n - 1) as nat, role);
        lemma_added_roles(built, before, landing, landing.len(), (role, role));
        if has_role(landing, role) {
            let i = choose|i: int| 0 <= i < landing.len() && (#[trigger] landing[i]).0 == role;
            assert(landing[i].0 == role);
        }
    }
}

/// A role has a landing route exactly where a built screen declares it and some
/// module gives one.
pub proof fn law_who_has_a_landing_route(
    built: Seq<Seq<char>>,
    modules: Seq<ModuleView>,
    role: Seq<char>,
)
    ensures
        (exists|i: int|
            0 <= i < merged_landing(built, modules).len() && (
            #[trigger] merged_landing(built, modules)[i]).0 == role) <==> built.contains(role)
            && exists|k: int, j: int|
            {
                &&& 0 <= k < modules.len()
                &&& 0 <= j < modules[k].menus.landing.len()
                &&& (#[trigger] modules[k].menus.landing[j]).0 == role
            },
{
    let core = landing_from(built, Seq::empty(), modules, true, modules.len());
    let all = merged_landing(built, modules);
    lemma_landing_has(built, Seq::empty(), modules, true, modules.len(), role);
    lemma_landing_has(built, core, modules, false, modules.len(), role);
    assert(!has_role(Seq::empty(), role));
    assert(has_role(all, role) <==> exists|i: int| 0 <= i < all.len() && (#[trigger] all[i]).0 == role);
    if has_role(all, role) {
        let k = choose|k: int|
            0 <= k < modules.len() && has_role((#[trigger] modules[k]).menus.landing, role);
        let j = choose|j: int|
            0 <= j < modules[k].menus.landing.len() && (#[trigger] modules[k].menus.landing[j]).0
                == role;
        assert(modules[k].menus.landing[j].0 == role);
    }
    if exists|k: int, j: int|
        {
            &&& 0 <= k < modules.len()
            &&& 0 <= j < modules[k].menus.landing.len()
            &&& (#[trigger] modules[k].menus.landing[j]).0 == role
        } {
        let (k, j) = choose|k: int, j: int|
            {
                &&& 0 <= k < modules.len()
                &&& 0 <= j < modules[k].menus.landing.len()
                &&& (#[trigger] modules[k].menus.landing[j]).0 == role
            };
        assert(has_role(modules[k].menus.landing, role));
    }
}

} // verus!
