//! The map of screens and the ways between them.
use crate::composer::decl::opt_text;
use crate::lists::lemma_kept_next;
use crate::text::same_text;
use crate::text_map::TextMap;
use vstd::prelude::*;

verus! {

/// An entry of a shell's navigation.
#[derive(Debug, PartialEq)]
pub struct NavEntry {
    pub label: String,
    pub href: String,
}

/// A screen of the project. `screen_nav` holds the navigation of a shell, and
/// `nav` what it says, where it could be read.
#[derive(Debug, PartialEq)]
pub struct ScreenRow {
    pub id: String,
    pub name: String,
    pub screen_type: String,
    pub screen_path: Option<String>,
    pub screen_nav: Option<String>,
    pub nav: Option<Vec<NavEntry>>,
}

/// A way from one screen to another.
#[derive(Debug, PartialEq)]
pub struct NavigationRow {
    pub source_id: String,
    pub target_id: String,
    pub label: String,
    pub inferred: bool,
}

#[verifier::ext_equal]
pub struct NavView {
    pub source: Seq<char>,
    pub target: Seq<char>,
    pub label: Seq<char>,
    pub inferred: bool,
}

impl View for NavigationRow {
    type V = NavView;

    open spec fn view(&self) -> NavView {
        NavView {
            source: self.source_id@,
            target: self.target_id@,
            label: self.label@,
            inferred: self.inferred,
        }
    }
}

pub open spec fn nav_views(rows: Seq<NavigationRow>) -> Seq<NavView> {
    rows.map_values(|r: NavigationRow| r@)
}

/// The last shell among the first `n` screens.
pub open spec fn shell_of(rows: Seq<ScreenRow>, n: nat) -> Option<Seq<char>>
    decreases n,
{
    if n == 0 {
        None
    } else if rows[n - 1].screen_type@ == "shell"@ {
        Some(rows[n - 1].id@)
    } else {
        shell_of(rows, (n - 1) as nat)
    }
}

/// The navigation of the last shell among the first `n` screens whose
/// navigation could be read.
pub open spec fn shell_nav(rows: Seq<ScreenRow>, n: nat) -> Seq<NavEntry>
    decreases n,
{
    if n == 0 {
        Seq::empty()
    } else {
        let row = rows[n - 1];
        match row.nav {
            Some(entries) => if row.screen_type@ == "shell"@ {
                entries@
            } else {
                shell_nav(rows, (n - 1) as nat)
            },
            None => shell_nav(rows, (n - 1) as nat),
        }
    }
}

/// The screen at each path; of two screens at one path the later.
pub open spec fn screens_by_path(rows: Seq<ScreenRow>, n: nat) -> Map<Seq<char>, Seq<char>>
    decreases n,
{
    if n == 0 {
        Map::empty()
    } else {
        let before = screens_by_path(rows, (n - 1) as nat);
        match rows[n - 1].screen_path {
            Some(p) => before.insert(p@, rows[n - 1].id@),
            None => before,
        }
    }
}

/// The ways that the first `n` entries of the shell's navigation open: those
/// that lead to the path of a screen.
pub open spec fn menu_ways(
    shell: Seq<char>,
    entries: Seq<NavEntry>,
    paths: Map<Seq<char>, Seq<char>>,
    n: nat,
) -> Seq<NavView>
    decreases n,
{
    if n == 0 {
        Seq::empty()
    } else {
        let before = menu_ways(shell, entries, paths, (n - 1) as nat);
        let e = entries[n - 1];
        if paths.contains_key(e.href@) {
            before.push(
                NavView {
                    source: shell,
                    target: paths[e.href@],
                    label: e.label@,
                    inferred: false,
                },
            )
        } else {
            before
        }
    }
}

/// The way that is made up from the shell to a screen.
pub open spec fn shell_way(shell: Seq<char>, target: Seq<char>) -> NavView {
    NavView { source: shell, target, label: "app shell"@, inferred: true }
}

/// Some way leads to the screen.
pub open spec fn is_reached(ways: Seq<NavView>, id: Seq<char>) -> bool {
    exists|i: int| 0 <= i < ways.len() && (#[trigger] ways[i]).target == id
}

/// Ways from the shell to those of the first `n` screens, other than itself,
/// that no way of `derived` leads to.
pub open spec fn shell_ways(
    shell: Seq<char>,
    rows: Seq<ScreenRow>,
    derived: Seq<NavView>,
    n: nat,
) -> Seq<NavView>
    decreases n,
{
    if n == 0 {
        Seq::empty()
    } else {
        let before = shell_ways(shell, rows, derived, (n - 1) as nat);
        let id = rows[n - 1].id@;
        if id != shell && !is_reached(derived, id) {
            before.push(shell_way(shell, id))
        } else {
            before
        }
    }
}

/// The first screen of a type, from `from` on.
pub open spec fn first_of_type(rows: Seq<ScreenRow>, kind: Seq<char>, from: nat) -> Option<
    Seq<char>,
>
    decreases rows.len() - from,
{
    if from >= rows.len() {
        None
    } else if rows[from as int].screen_type@ == kind {
        Some(rows[from as int].id@)
    } else {
        first_of_type(rows, kind, from + 1)
    }
}

/// The ways into the application that are made up where a shell, a login
/// screen and a landing screen exist.
pub open spec fn login_ways(rows: Seq<ScreenRow>, shell: Option<Seq<char>>) -> Seq<NavView> {
    match (first_of_type(rows, "login"@, 0), first_of_type(rows, "landing"@, 0), shell) {
        (Some(login), Some(landing), Some(shell)) => seq![
            NavView {
                source: login,
                target: landing,
                label: "post-login landing"@,
                inferred: true,
            },
            NavView { source: shell, target: login, label: "login"@, inferred: true },
        ],
        _ => Seq::empty(),
    }
}

/// The ways between the screens. Where ways were derived from the project they
/// stand, and only a screen that none of them reaches is linked to the shell.
/// Where none were, the shell's navigation, a link from the shell to every
/// screen and the login ways keep the map connected.
pub open spec fn all_ways(rows: Seq<ScreenRow>, derived: Seq<NavView>) -> Seq<NavView> {
    let shell = shell_of(rows, rows.len());
    if derived.len() > 0 {
        match shell {
            Some(s) => derived + shell_ways(s, rows, derived, rows.len()),
            None => derived,
        }
    } else {
        let nav = shell_nav(rows, rows.len());
        let fallback = match shell {
            Some(s) => menu_ways(s, nav, screens_by_path(rows, rows.len()), nav.len())
                + shell_ways(s, rows, Seq::empty(), rows.len()),
            None => Seq::empty(),
        };
        fallback + login_ways(rows, shell)
    }
}

fn find_shell(rows: &Vec<ScreenRow>) -> (out: Option<String>)
    ensures
        opt_text(out) == shell_of(rows@, rows@.len()),
{
    let mut n: usize = rows.len();
    while n > 0
        invariant
            n <= rows@.len(),
            shell_of(rows@, rows@.len()) == shell_of(rows@, n as nat),
        decreases n,
    {
        n -= 1;
        if same_text(rows[n].screen_type.as_str(), "shell") {
            return Some(rows[n].id.clone());
        }
    }
    None
}

fn find_nav(rows: &Vec<ScreenRow>) -> (out: Option<&Vec<NavEntry>>)
    ensures
        match out {
            Some(entries) => shell_nav(rows@, rows@.len()) == entries@,
            None => shell_nav(rows@, rows@.len()).len() == 0,
        },
{
    let mut n: usize = rows.len();
    while n > 0
        invariant
            n <= rows@.len(),
            shell_nav(rows@, rows@.len()) == shell_nav(rows@, n as nat),
        decreases n,
    {
        n -= 1;
        match &rows[n].nav {
            Some(entries) => {
                if same_text(rows[n].screen_type.as_str(), "shell") {
                    return Some(entries);
                }
            },
            None => {},
        }
    }
    None
}

fn index_paths(rows: &Vec<ScreenRow>) -> (out: TextMap<String>)
    ensures
        out@ == screens_by_path(rows@, rows@.len()),
{
    let mut out: TextMap<String> = TextMap::new();
    let mut i: usize = 0;
    while i < rows.len()
        invariant
            i <= rows@.len(),
            out@ == screens_by_path(rows@, i as nat),
        decreases rows@.len() - i,
    {
        match &rows[i].screen_path {
            Some(p) => {
                out.insert(p.clone(), rows[i].id.clone());
            },
            None => {},
        }
        i += 1;
    }
    out
}

fn find_type(rows: &Vec<ScreenRow>, kind: &str) -> (out: Option<String>)
    ensures
        opt_text(out) == first_of_type(rows@, kind@, 0),
{
    let mut i: usize = 0;
    while i < rows.len()
        invariant
            i <= rows@.len(),
            first_of_type(rows@, kind@, 0) == first_of_type(rows@, kind@, i as nat),
        decreases rows@.len() - i,
    {
        if same_text(rows[i].screen_type.as_str(), kind) {
            return Some(rows[i].id.clone());
        }
        i += 1;
    }
    None
}

fn reaches(ways: &Vec<NavigationRow>, count: usize, id: &str) -> (r: bool)
    requires
        count <= ways@.len(),
    ensures
        r == is_reached(nav_views(ways@).take(count as int), id@),
{
    let ghost views = nav_views(ways@).take(count as int);
    let mut i: usize = 0;
    while i < count
        invariant
            i <= count <= ways@.len(),
            views == nav_views(ways@).take(count as int),
            forall|j: int| 0 <= j < i ==> (#[trigger] views[j]).target != id@,
        decreases count - i,
    {
        assert(views[i as int] == ways@[i as int]@);
        if same_text(ways[i].target_id.as_str(), id) {
            return true;
        }
        i += 1;
    }
    false
}

fn push_menu_ways(shell: &str, rows: &Vec<ScreenRow>, out: &mut Vec<NavigationRow>)
    ensures
        nav_views(final(out)@) == nav_views(old(out)@) + menu_ways(
            shell@,
            shell_nav(rows@, rows@.len()),
            screens_by_path(rows@, rows@.len()),
            shell_nav(rows@, rows@.len()).len(),
        ),
{
    let ghost start = nav_views(out@);
    let ghost nav = shell_nav(rows@, rows@.len());
    let paths: TextMap<String> = index_paths(rows);
    let ghost by_path = paths@;
    assert(start + menu_ways(shell@, nav, by_path, 0) =~= start);
    match find_nav(rows) {
        Some(entries) => {
            let mut i: usize = 0;
            while i < entries.len()
                invariant
                    i <= entries@.len(),
                    nav == entries@,
                    by_path == paths@,
                    nav_views(out@) == start + menu_ways(shell@, nav, by_path, i as nat),
                decreases entries@.len() - i,
            {
                let ghost before = out@;
                let ghost made = menu_ways(shell@, nav, by_path, i as nat);
                match paths.get(entries[i].href.as_str()) {
                    Some(target) => {
                        let row: NavigationRow = NavigationRow {
                            source_id: shell.to_owned(),
                            target_id: target.clone(),
                            label: entries[i].label.clone(),
                            inferred: false,
                        };
                        let ghost view = row@;
                        out.push(row);
                        assert(nav_views(out@) =~= nav_views(before).push(view));
                        assert((start + made).push(view) =~= start + made.push(view));
                    },
                    None => {},
                }
                i += 1;
            }
        },
        None => {},
    }
}

fn push_shell_ways(
    shell: &str,
    rows: &Vec<ScreenRow>,
    derived: usize,
    out: &mut Vec<NavigationRow>,
)
    requires
        derived <= old(out)@.len(),
    ensures
        nav_views(final(out)@) == nav_views(old(out)@) + shell_ways(
            shell@,
            rows@,
            nav_views(old(out)@).take(derived as int),
            rows@.len(),
        ),
{
    let ghost start = nav_views(out@);
    let ghost first = start.take(derived as int);
    let mut i: usize = 0;
    assert(start + shell_ways(shell@, rows@, first, 0) =~= start);
    while i < rows.len()
        invariant
            i <= rows@.len(),
            derived <= start.len(),
            first == start.take(derived as int),
            nav_views(out@) == start + shell_ways(shell@, rows@, first, i as nat),
        decreases rows@.len() - i,
    {
        let ghost before = out@;
        let ghost made = shell_ways(shell@, rows@, first, i as nat);
        assert(nav_views(out@).take(derived as int) =~= first);
        assert(nav_views(out@).len() == out@.len());
        if !same_text(rows[i].id.as_str(), shell) && !reaches(&*out, derived, rows[i].id.as_str()) {
            let row: NavigationRow = NavigationRow {
                source_id: shell.to_owned(),
                target_id: rows[i].id.clone(),
                label: "app shell".to_owned(),
                inferred: true,
            };
            let ghost view = row@;
            out.push(row);
            assert(view =~= shell_way(shell@, rows@[i as int].id@));
            assert(nav_views(out@) =~= nav_views(before).push(view));
            assert((start + made).push(view) =~= start + made.push(view));
        }
        i += 1;
    }
}

/// The ways between the screens, given those derived from the project.
pub fn screen_ways(rows: &Vec<ScreenRow>, derived: Vec<NavigationRow>) -> (out: Vec<NavigationRow>)
    ensures
        nav_views(out@) == all_ways(rows@, nav_views(derived@)),
{
    let ghost first = nav_views(derived@);
    let count: usize = derived.len();
    let mut out: Vec<NavigationRow> = derived;
    let shell: Option<String> = find_shell(rows);
    if count > 0 {
        assert(first.take(count as int) =~= first);
        match &shell {
            Some(s) => {
                push_shell_ways(s.as_str(), rows, count, &mut out);
            },
            None => {},
        }
        return out;
    }
    assert(first =~= Seq::<NavView>::empty());
    match &shell {
        Some(s) => {
            push_menu_ways(s.as_str(), rows, &mut out);
            let ghost menu = nav_views(out@);
            assert(menu.take(0) =~= Seq::<NavView>::empty());
            push_shell_ways(s.as_str(), rows, 0, &mut out);
            assert(nav_views(out@) =~= menu + shell_ways(s@, rows@, Seq::empty(), rows@.len()));
        },
        None => {},
    }
    let ghost fallback = nav_views(out@);
    let login: Option<String> = find_type(rows, "login");
    let landing: Option<String> = find_type(rows, "landing");
    match (login, landing, shell) {
        (Some(login), Some(landing), Some(shell)) => {
            out.push(
                NavigationRow {
                    source_id: login.clone(),
                    target_id: landing,
                    label: "post-login landing".to_owned(),
                    inferred: true,
                },
            );
            out.push(
                NavigationRow {
                    source_id: shell,
                    target_id: login,
                    label: "login".to_owned(),
                    inferred: true,
                },
            );
            assert(nav_views(out@) =~= fallback + login_ways(
                rows@,
                shell_of(rows@, rows@.len()),
            ));
        },
        _ => {
            assert(fallback + login_ways(rows@, shell_of(rows@, rows@.len())) =~= fallback);
        },
    }
    out
}

proof fn lemma_shell_ways(
    shell: Seq<char>,
    rows: Seq<ScreenRow>,
    derived: Seq<NavView>,
    n: nat,
    k: int,
)
    requires
        n <= rows.len(),
        0 <= k < shell_ways(shell, rows, derived, n).len(),
    ensures
        ({
            let w = shell_ways(shell, rows, derived, n)[k];
            w == shell_way(shell, w.target) && w.target != shell && !is_reached(derived, w.target)
        }),
    decreases n,
{
    if n > 0 {
        let before = shell_ways(shell, rows, derived, (n - 1) as nat);
        if k < before.len() {
            lemma_shell_ways(shell, rows, derived, (n - 1) as nat, k);
        }
    }
}

/// A screen that a derived way leads to gets no made-up way.
pub proof fn law_reached_screens_get_no_made_up_way(
    rows: Seq<ScreenRow>,
    derived: Seq<NavView>,
    k: int,
)
    requires
        derived.len() > 0,
        forall|i: int| 0 <= i < derived.len() ==> !(#[trigger] derived[i]).inferred,
        0 <= k < all_ways(rows, derived).len(),
        all_ways(rows, derived)[k].inferred,
    ensures
        !is_reached(derived, all_ways(rows, derived)[k].target),
{
    if k >= derived.len() {
        let shell = shell_of(rows, rows.len())->Some_0;
        lemma_shell_ways(shell, rows, derived, rows.len(), k - derived.len());
    }
}

proof fn lemma_shell_reaches(
    shell: Seq<char>,
    rows: Seq<ScreenRow>,
    derived: Seq<NavView>,
    n: nat,
    i: int,
) -> (k: int)
    requires
        0 <= i < n <= rows.len(),
        rows[i].id@ != shell,
        !is_reached(derived, rows[i].id@),
    ensures
        0 <= k < shell_ways(shell, rows, derived, n).len(),
        shell_ways(shell, rows, derived, n)[k].target == rows[i].id@,
    decreases n,
{
    let before = shell_ways(shell, rows, derived, (n - 1) as nat);
    if i == n - 1 {
        before.len() as int
    } else {
        lemma_shell_reaches(shell, rows, derived, (n - 1) as nat, i)
    }
}

/// Where there is a shell, every other screen is reached: no screen is left
/// without a way to it.
pub proof fn law_no_screen_is_orphaned(rows: Seq<ScreenRow>, derived: Seq<NavView>, i: int)
    requires
        0 <= i < rows.len(),
        shell_of(rows, rows.len()) is Some,
        shell_of(rows, rows.len()) != Some(rows[i].id@),
    ensures
        is_reached(all_ways(rows, derived), rows[i].id@),
{
    let shell = shell_of(rows, rows.len())->Some_0;
    let id = rows[i].id@;
    let ways = all_ways(rows, derived);
    if derived.len() > 0 {
        if is_reached(derived, id) {
            let j = choose|j: int| 0 <= j < derived.len() && (#[trigger] derived[j]).target == id;
            assert(ways[j].target == id);
        } else {
            let k = lemma_shell_reaches(shell, rows, derived, rows.len(), i);
            assert(ways[derived.len() + k].target == id);
        }
    } else {
        let none = Seq::<NavView>::empty();
        assert(!is_reached(none, id));
        let k = lemma_shell_reaches(shell, rows, none, rows.len(), i);
        let nav = shell_nav(rows, rows.len());
        let menu = menu_ways(shell, nav, screens_by_path(rows, rows.len()), nav.len());
        assert(ways[menu.len() + k].target == id);
    }
}

/// The shell is the last screen of that type, if there is one.
pub proof fn law_which_screen_is_the_shell(rows: Seq<ScreenRow>, n: nat)
    requires
        n <= rows.len(),
    ensures
        match shell_of(rows, n) {
            Some(id) => exists|i: int|
                {
                    &&& 0 <= i < n
                    &&& (#[trigger] rows[i]).screen_type@ == "shell"@
                    &&& rows[i].id@ == id
                    &&& forall|j: int| i < j < n ==> (#[trigger] rows[j]).screen_type@ != "shell"@
                },
            None => forall|i: int| 0 <= i < n ==> (#[trigger] rows[i]).screen_type@ != "shell"@,
        },
        (exists|i: int|
            {
                &&& 0 <= i < n
                &&& (#[trigger] rows[i]).screen_type@ == "shell"@
                &&& rows[i].nav is Some
                &&& shell_nav(rows, n) == rows[i].nav->Some_0@
                &&& forall|j: int|
                    i < j < n && rows[j].nav is Some ==> (#[trigger] rows[j]).screen_type@
                        != "shell"@
            }) || (shell_nav(rows, n).len() == 0 && forall|i: int|
            0 <= i < n && rows[i].nav is Some ==> (#[trigger] rows[i]).screen_type@ != "shell"@),
    decreases n,
{
    if n > 0 {
        law_which_screen_is_the_shell(rows, (n - 1) as nat);
        if rows[n - 1].screen_type@ == "shell"@ {
            assert(rows[n - 1].screen_type@ == "shell"@);
        }
    }
}

/// The screen at a path is the last one that has it.
pub proof fn law_screen_at_a_path(rows: Seq<ScreenRow>, n: nat, path: Seq<char>)
    requires
        n <= rows.len(),
    ensures
        screens_by_path(rows, n).contains_key(path) <==> exists|i: int|
            0 <= i < n && opt_text((#[trigger] rows[i]).screen_path) == Some(path),
        forall|i: int|
            0 <= i < n && opt_text((#[trigger] rows[i]).screen_path) == Some(path) && (forall|j: int|
                i < j < n ==> opt_text((#[trigger] rows[j]).screen_path) != Some(path))
                ==> screens_by_path(rows, n)[path] == rows[i].id@,
    decreases n,
{
    if n > 0 {
        law_screen_at_a_path(rows, (n - 1) as nat, path);
        assert(opt_text(rows[n - 1].screen_path) == opt_text(rows[n - 1].screen_path));
    }
}

/// The navigation of the shell opens a way for each of its entries that leads to
/// the path of a screen, in order; none of these ways is made up.
pub proof fn law_ways_of_the_navigation(
    shell: Seq<char>,
    entries: Seq<NavEntry>,
    paths: Map<Seq<char>, Seq<char>>,
    n: nat,
)
    requires
        n <= entries.len(),
    ensures
        menu_ways(shell, entries, paths, n) == entries.take(n as int).filter_map(
            |e: NavEntry|
                if paths.contains_key(e.href@) {
                    Some(
                        NavView {
                            source: shell,
                            target: paths[e.href@],
                            label: e.label@,
                            inferred: false,
                        },
                    )
                } else {
                    None
                },
        ),
    decreases n,
{
    let f = |e: NavEntry|
        if paths.contains_key(e.href@) {
            Some(
                NavView {
                    source: shell,
                    target: paths[e.href@],
                    label: e.label@,
                    inferred: false,
                },
            )
        } else {
            None
        };
    if n > 0 {
        law_ways_of_the_navigation(shell, entries, paths, (n - 1) as nat);
        lemma_kept_next(entries, f, n - 1);
    }
}

/// A way from the shell is made up to every other screen that no way leads to.
pub proof fn law_ways_that_are_made_up(
    shell: Seq<char>,
    rows: Seq<ScreenRow>,
    derived: Seq<NavView>,
    n: nat,
)
    requires
        n <= rows.len(),
    ensures
        shell_ways(shell, rows, derived, n) == rows.take(n as int).filter_map(
            |r: ScreenRow|
                if r.id@ == shell || (exists|i: int|
                    0 <= i < derived.len() && (#[trigger] derived[i]).target == r.id@) {
                    None
                } else {
                    Some(
                        NavView {
                            source: shell,
                            target: r.id@,
                            label: "app shell"@,
                            inferred: true,
                        },
                    )
                },
        ),
    decreases n,
{
    let f = |r: ScreenRow|
        if r.id@ == shell || (exists|i: int|
            0 <= i < derived.len() && (#[trigger] derived[i]).target == r.id@) {
            None
        } else {
            Some(NavView { source: shell, target: r.id@, label: "app shell"@, inferred: true })
        };
    if n > 0 {
        law_ways_that_are_made_up(shell, rows, derived, (n - 1) as nat);
        lemma_kept_next(rows, f, n - 1);
    }
}

/// The first screen of a type, if there is one.
pub proof fn law_first_screen_of_a_type(rows: Seq<ScreenRow>, kind: Seq<char>, from: nat)
    ensures
        match first_of_type(rows, kind, from) {
            Some(id) => exists|i: int|
                {
                    &&& from <= i < rows.len()
                    &&& (#[trigger] rows[i]).screen_type@ == kind
                    &&& rows[i].id@ == id
                    &&& forall|j: int| from <= j < i ==> (#[trigger] rows[j]).screen_type@ != kind
                },
            None => forall|i: int|
                from <= i < rows.len() ==> (#[trigger] rows[i]).screen_type@ != kind,
        },
    decreases rows.len() - from,
{
    if from < rows.len() {
        if rows[from as int].screen_type@ != kind {
            law_first_screen_of_a_type(rows, kind, from + 1);
        } else {
            assert(rows[from as int].screen_type@ == kind);
        }
    }
}

/// The ways between the screens: those that were derived and, from the shell, to
/// every screen that none of them reaches. Where none was derived, those of the
/// shell's navigation, from the shell to every other screen, and, where there
/// are a login and a landing screen, from the one to the other and from the
/// shell to the login.
pub proof fn law_all_the_ways(rows: Seq<ScreenRow>, derived: Seq<NavView>)
    ensures
        ({
            let shell = shell_of(rows, rows.len());
            let nav = shell_nav(rows, rows.len());
            let login = first_of_type(rows, "login"@, 0);
            let landing = first_of_type(rows, "landing"@, 0);
            &&& derived.len() > 0 && shell is Some ==> all_ways(rows, derived) == derived
                + shell_ways(shell->Some_0, rows, derived, rows.len())
            &&& derived.len() > 0 && shell is None ==> all_ways(rows, derived) == derived
            &&& derived.len() == 0 && shell is None ==> all_ways(rows, derived).len() == 0
            &&& derived.len() == 0 && shell is Some ==> all_ways(rows, derived) == menu_ways(
                shell->Some_0,
                nav,
                screens_by_path(rows, rows.len()),
                nav.len(),
            ) + shell_ways(shell->Some_0, rows, Seq::empty(), rows.len()) + (if login is Some
                && landing is Some {
                seq![
                    NavView {
                        source: login->Some_0,
                        target: landing->Some_0,
                        label: "post-login landing"@,
                        inferred: true,
                    },
                    NavView {
                        source: shell->Some_0,
                        target: login->Some_0,
                        label: "login"@,
                        inferred: true,
                    },
                ]
            } else {
                Seq::empty()
            })
        }),
{
}

} // verus!
