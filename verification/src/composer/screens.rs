//! Merging the screens of the selected modules: one owner for each route, with
//! the `core` module giving way to any other.
use crate::composer::decl::{
    CodegenDecl, CodegenView, ModuleData, ModuleView, ScreenDecl, ScreenView,
};
use crate::lists::{lemma_flat_next, lemma_kept_next, push_has};
use crate::text::{
    chars_of, has_prefix, has_text, replace_all, replaced, same_text, starts_with, text_of, texts,
    texts_push,
};
use crate::text_map::TextMap;
use vstd::prelude::*;

verus! {

/// The text without the capital `M`s it starts with.
pub open spec fn without_ms(s: Seq<char>) -> Seq<char>
    decreases s.len(),
{
    if s.len() > 0 && s[0] == 'M' {
        without_ms(s.drop_first())
    } else {
        s
    }
}

fn strip_ms(s: &str) -> (out: String)
    ensures
        out@ == without_ms(s@),
{
    let chars: Vec<char> = chars_of(s);
    let mut i: usize = 0;
    assert(s@.skip(0) =~= s@);
    while i < chars.len() && chars[i] == 'M'
        invariant
            i <= chars@.len(),
            chars@ == s@,
            without_ms(s@) == without_ms(s@.skip(i as int)),
        decreases chars@.len() - i,
    {
        assert(s@.skip(i as int).drop_first() =~= s@.skip(i as int + 1));
        i += 1;
    }
    assert(chars@.subrange(i as int, chars@.len() as int) =~= s@.skip(i as int));
    text_of(&chars, i, chars.len())
}

/// A source path moved under the directory of its module.
pub open spec fn moved_path(path: Seq<char>, module: Seq<char>) -> Seq<char> {
    replaced(path, "src/"@, "src/"@ + module + "/"@)
}

fn move_path(path: &str, module: &str) -> (out: String)
    ensures
        out@ == moved_path(path@, module@),
{
    let mut to: String = "src/".to_owned();
    to.append(module);
    to.append("/");
    proof {
        reveal_strlit("src/");
    }
    replace_all(path, "src/", to.as_str())
}

/// The identifier of a screen in the composed register.
pub open spec fn composed_id(module: Seq<char>, screen: ScreenView) -> Seq<char> {
    module + "."@ + without_ms(screen.module) + "."@ + screen.id
}

/// A screen as it stands in the composed register.
pub open spec fn composed_screen(module: Seq<char>, screen: ScreenView) -> ScreenView {
    match screen.codegen {
        Some(codegen) => ScreenView {
            id: composed_id(module, screen),
            codegen: Some(
                CodegenView {
                    generated_files: codegen.generated_files.map_values(
                        |f: Seq<char>| moved_path(f, module),
                    ),
                    ..codegen
                },
            ),
            file: moved_path(screen.file, module),
            ..screen
        },
        None => ScreenView { id: composed_id(module, screen), ..screen },
    }
}

fn move_files(files: &Vec<String>, module: &str) -> (out: Vec<String>)
    ensures
        texts(out@) == texts(files@).map_values(|f: Seq<char>| moved_path(f, module@)),
{
    broadcast use texts_push;

    let ghost all = texts(files@).map_values(|f: Seq<char>| moved_path(f, module@));
    let mut out: Vec<String> = Vec::new();
    let mut i: usize = 0;
    assert(texts(out@) =~= all.take(0));
    while i < files.len()
        invariant
            i <= files@.len(),
            all == texts(files@).map_values(|f: Seq<char>| moved_path(f, module@)),
            texts(out@) == all.take(i as int),
        decreases files@.len() - i,
    {
        out.push(move_path(files[i].as_str(), module));
        i += 1;
        assert(all.take(i as int) =~= all.take(i as int - 1).push(all[i as int - 1]));
    }
    assert(all.take(i as int) =~= all);
    out
}

/// Rewrites a screen for the composed register.
pub fn compose_screen(module: &str, screen: &ScreenDecl) -> (out: ScreenDecl)
    ensures
        out@ == composed_screen(module@, screen@),
{
    let mut id: String = module.to_owned();
    id.append(".");
    id.append(strip_ms(screen.module.as_str()).as_str());
    id.append(".");
    id.append(screen.id.as_str());
    let copy: ScreenDecl = screen.clone();
    match &screen.codegen {
        Some(codegen) => {
            let files: Vec<String> = move_files(&codegen.generated_files, module);
            let file: String = move_path(screen.file.as_str(), module);
            let moved: CodegenDecl = CodegenDecl { generated_files: files, ..codegen.clone() };
            ScreenDecl { id, codegen: Some(moved), file, ..copy }
        },
        None => ScreenDecl { id, ..copy },
    }
}

/// The screen is not built: it declares a stage other than `built`.
pub open spec fn is_blocked(screen: ScreenView) -> bool {
    screen.stage.len() > 0 && screen.stage != "built"@
}

/// The route that a screen is mounted at.
pub open spec fn route_of(screen: ScreenView) -> Option<Seq<char>> {
    match screen.codegen {
        Some(codegen) => codegen.route_path,
        None => None,
    }
}

/// The first of the screens from position `from` on that is mounted at
/// `route`; their number where there is none.
pub open spec fn first_at_route(screens: Seq<ScreenView>, route: Seq<char>, from: nat) -> nat
    decreases screens.len() - from,
{
    if from >= screens.len() {
        screens.len()
    } else if route_of(screens[from as int]) == Some(route) {
        from
    } else {
        first_at_route(screens, route, from + 1)
    }
}

/// What has been merged so far.
#[verifier::ext_equal]
pub struct MergeView {
    /// The composed screens.
    pub screens: Seq<ScreenView>,
    /// The module that owns each route.
    pub owners: Map<Seq<char>, Seq<char>>,
    /// The identifiers of the screens that are not built.
    pub blocked_ids: Seq<Seq<char>>,
    /// How many screens are not built.
    pub blocked: nat,
    /// The routes that the current module has declared.
    pub seen: Seq<Seq<char>>,
}

/// What is reported where two modules other than `core` declare one route.
pub open spec fn route_conflict(route: Seq<char>, first: Seq<char>, second: Seq<char>) -> Seq<
    char,
> {
    "route `"@ + route + "` is declared by both module `"@ + first + "` and module `"@ + second
        + "`"@
}

/// Counts a screen that is not built.
pub open spec fn count_blocked(st: MergeView, s: ScreenView) -> MergeView {
    if is_blocked(s) {
        MergeView { blocked_ids: st.blocked_ids.push(s.id), blocked: st.blocked + 1, ..st }
    } else {
        st
    }
}

/// Places a screen that claims `route`. The first module to claim a route owns
/// it. A `core` screen gives way to the owner; the screen of another module
/// takes the place of the `core` screen; two modules other than `core` cannot
/// share a route, nor can two modules of one name.
pub open spec fn place_routed(
    st: MergeView,
    module: Seq<char>,
    s: ScreenView,
    route: Seq<char>,
) -> Result<MergeView, Seq<char>> {
    if st.seen.contains(route) {
        Ok(st)
    } else {
        let st = MergeView { seen: st.seen.push(route), ..st };
        if !st.owners.contains_key(route) {
            Ok(
                MergeView {
                    owners: st.owners.insert(route, module),
                    screens: st.screens.push(s),
                    ..st
                },
            )
        } else {
            let owner = st.owners[route];
            if module == "core"@ && owner != "core"@ {
                Ok(st)
            } else if owner == "core"@ && module != "core"@ {
                let at = first_at_route(st.screens, route, 0);
                Ok(
                    MergeView {
                        owners: st.owners.insert(route, module),
                        screens: st.screens.update(at as int, s),
                        ..st
                    },
                )
            } else {
                Err(route_conflict(route, owner, module))
            }
        }
    }
}

/// Merges one screen of a module.
pub open spec fn merge_screen(st: MergeView, module: Seq<char>, screen: ScreenView) -> Result<
    MergeView,
    Seq<char>,
> {
    let s = composed_screen(module, screen);
    let st = count_blocked(st, s);
    match route_of(s) {
        Some(route) => place_routed(st, module, s, route),
        None => Ok(MergeView { screens: st.screens.push(s), ..st }),
    }
}

/// Merges the first `n` screens of a module.
pub open spec fn merge_screens(
    st: MergeView,
    module: Seq<char>,
    screens: Seq<ScreenView>,
    n: nat,
) -> Result<MergeView, Seq<char>>
    decreases n,
{
    if n == 0 {
        Ok(MergeView { seen: Seq::empty(), ..st })
    } else {
        match merge_screens(st, module, screens, (n - 1) as nat) {
            Ok(st) => merge_screen(st, module, screens[n - 1]),
            Err(e) => Err(e),
        }
    }
}

pub open spec fn nothing_merged() -> MergeView {
    MergeView {
        screens: Seq::empty(),
        owners: Map::empty(),
        blocked_ids: Seq::empty(),
        blocked: 0,
        seen: Seq::empty(),
    }
}

/// Merges the screens of the first `n` modules.
pub open spec fn merge_modules(modules: Seq<ModuleView>, n: nat) -> Result<MergeView, Seq<char>>
    decreases n,
{
    if n == 0 {
        Ok(nothing_merged())
    } else {
        match merge_modules(modules, (n - 1) as nat) {
            Ok(st) => merge_screens(
                st,
                modules[n - 1].name,
                modules[n - 1].register.screen,
                modules[n - 1].register.screen.len(),
            ),
            Err(e) => Err(e),
        }
    }
}

/// The screens merged so far.
pub struct Merge {
    pub screens: Vec<ScreenDecl>,
    pub owners: TextMap<String>,
    pub blocked_ids: Vec<String>,
    pub blocked: usize,
    pub seen: Vec<String>,
}

pub open spec fn screen_views(screens: Seq<ScreenDecl>) -> Seq<ScreenView> {
    screens.map_values(|s: ScreenDecl| s@)
}

impl View for Merge {
    type V = MergeView;

    open spec fn view(&self) -> MergeView {
        MergeView {
            screens: screen_views(self.screens@),
            owners: self.owners@,
            blocked_ids: texts(self.blocked_ids@),
            blocked: self.blocked as nat,
            seen: texts(self.seen@),
        }
    }
}

pub fn has_route(screen: &ScreenDecl, route: &str) -> (r: bool)
    ensures
        r == (route_of(screen@) == Some(route@)),
{
    match &screen.codegen {
        Some(codegen) => match &codegen.route_path {
            Some(path) => same_text(path.as_str(), route),
            None => false,
        },
        None => false,
    }
}

/// The position of the first screen mounted at `route`.
pub fn find_route(screens: &Vec<ScreenDecl>, route: &str) -> (at: usize)
    ensures
        at == first_at_route(screen_views(screens@), route@, 0),
        at <= screens@.len(),
        at < screens@.len() ==> route_of(screens@[at as int]@) == Some(route@),
{
    let ghost views = screen_views(screens@);
    let mut i: usize = 0;
    while i < screens.len() && !has_route(&screens[i], route)
        invariant
            i <= screens@.len(),
            views == screen_views(screens@),
            first_at_route(views, route@, 0) == first_at_route(views, route@, i as nat),
        decreases screens@.len() - i,
    {
        assert(views[i as int] == screens@[i as int]@);
        i += 1;
    }
    assert(i < screens@.len() ==> views[i as int] == screens@[i as int]@);
    i
}

/// Every owned route has a screen mounted at it.
pub open spec fn owners_mounted(st: MergeView) -> bool {
    forall|route: Seq<char>| #[trigger]
        st.owners.contains_key(route) ==> exists|i: int|
            0 <= i < st.screens.len() && route_of(#[trigger] st.screens[i]) == Some(route)
}

pub proof fn lemma_first_at_route(screens: Seq<ScreenView>, route: Seq<char>, from: nat)
    requires
        from <= screens.len(),
    ensures
        from <= first_at_route(screens, route, from) <= screens.len(),
        first_at_route(screens, route, from) < screens.len() ==> route_of(
            screens[first_at_route(screens, route, from) as int],
        ) == Some(route),
        forall|i: int|
            from <= i < first_at_route(screens, route, from) ==> route_of(#[trigger] screens[i])
                != Some(route),
    decreases screens.len() - from,
{
    if from < screens.len() && route_of(screens[from as int]) != Some(route) {
        lemma_first_at_route(screens, route, from + 1);
    }
}

proof fn lemma_mounted_same(a: MergeView, b: MergeView)
    requires
        owners_mounted(a),
        a.screens == b.screens,
        a.owners == b.owners,
    ensures
        owners_mounted(b),
{
    assert forall|route: Seq<char>| #[trigger] b.owners.contains_key(route) implies exists|i: int|
        0 <= i < b.screens.len() && route_of(#[trigger] b.screens[i]) == Some(route) by {
        assert(a.owners.contains_key(route));
        let i = choose|i: int|
            0 <= i < a.screens.len() && route_of(#[trigger] a.screens[i]) == Some(route);
        assert(route_of(b.screens[i]) == Some(route));
    }
}

/// Merging keeps every owned route mounted.
proof fn lemma_merge_screen_mounted(st: MergeView, module: Seq<char>, screen: ScreenView)
    requires
        owners_mounted(st),
        merge_screen(st, module, screen) is Ok,
    ensures
        owners_mounted(merge_screen(st, module, screen)->Ok_0),
{
    let s = composed_screen(module, screen);
    let mid = count_blocked(st, s);
    let end = merge_screen(st, module, screen)->Ok_0;
    let n = st.screens.len();
    assert forall|route: Seq<char>| #[trigger] end.owners.contains_key(route) implies exists|i: int|
        0 <= i < end.screens.len() && route_of(#[trigger] end.screens[i]) == Some(route) by {
        if route_of(s) == Some(route) {
            if st.owners.contains_key(route) {
                let i = choose|i: int|
                    0 <= i < st.screens.len() && route_of(#[trigger] st.screens[i]) == Some(route);
                lemma_first_at_route(st.screens, route, 0);
                assert(route_of(end.screens[i]) == Some(route));
            } else {
                assert(end.screens[n as int] == s);
            }
        } else {
            let i = choose|i: int|
                0 <= i < st.screens.len() && route_of(#[trigger] st.screens[i]) == Some(route);
            if let Some(r) = route_of(s) {
                lemma_first_at_route(st.screens, r, 0);
            }
            assert(end.screens[i] == st.screens[i]);
        }
    }
}

impl Merge {
    fn new() -> (out: Merge)
        ensures
            out@ == nothing_merged(),
    {
        let out = Merge {
            screens: Vec::new(),
            owners: TextMap::new(),
            blocked_ids: Vec::new(),
            blocked: 0,
            seen: Vec::new(),
        };
        assert(out@ =~= nothing_merged());
        out
    }

    /// Places a screen that claims `route`.
    fn place(&mut self, module: &str, s: ScreenDecl, route: String) -> (r: Result<(), String>)
        requires
            owners_mounted(old(self)@),
        ensures
            match place_routed(old(self)@, module@, s@, route@) {
                Ok(st) => r is Ok && final(self)@ == st,
                Err(e) => r is Err && r->Err_0@ == e,
            },
    {
        broadcast use texts_push;

        let ghost start = self@;
        if has_text(&self.seen, route.as_str()) {
            return Ok(());
        }
        self.seen.push(route.clone());
        let ghost mid = MergeView { seen: start.seen.push(route@), ..start };
        assert(self@ =~= mid);
        let owner: Option<String> = match self.owners.get(route.as_str()) {
            Some(o) => Some(o.clone()),
            None => None,
        };
        match owner {
            None => {
                let ghost before = self.screens@;
                let ghost view = s@;
                self.owners.insert(route, module.to_owned());
                self.screens.push(s);
                assert(screen_views(self.screens@) =~= screen_views(before).push(view));
                Ok(())
            },
            Some(owner) => {
                let module_is_core: bool = same_text(module, "core");
                let owner_is_core: bool = same_text(owner.as_str(), "core");
                if module_is_core && !owner_is_core {
                    return Ok(());
                }
                if owner_is_core && !module_is_core {
                    let at: usize = find_route(&self.screens, route.as_str());
                    proof {
                        assert(start.owners.contains_key(route@));
                        let i = choose|i: int|
                            0 <= i < start.screens.len() && route_of(#[trigger] start.screens[i])
                                == Some(route@);
                        lemma_first_at_route(start.screens, route@, 0);
                        assert(at < self.screens@.len());
                    }
                    let ghost before = self.screens@;
                    let ghost view = s@;
                    self.screens.set(at, s);
                    self.owners.insert(route, module.to_owned());
                    assert(screen_views(self.screens@) =~= screen_views(before).update(
                        at as int,
                        view,
                    ));
                    return Ok(());
                }
                let mut msg: String = "route `".to_owned();
                msg.append(route.as_str());
                msg.append("` is declared by both module `");
                msg.append(owner.as_str());
                msg.append("` and module `");
                msg.append(module);
                msg.append("`");
                Err(msg)
            },
        }
    }

    /// Merges one screen of a module.
    fn add(&mut self, module: &str, screen: &ScreenDecl) -> (r: Result<(), String>)
        requires
            owners_mounted(old(self)@),
            old(self).blocked < usize::MAX,
        ensures
            match merge_screen(old(self)@, module@, screen@) {
                Ok(st) => r is Ok && final(self)@ == st,
                Err(e) => r is Err && r->Err_0@ == e,
            },
    {
        broadcast use texts_push;

        let ghost start = self@;
        let s: ScreenDecl = compose_screen(module, screen);
        if !s.stage.as_str().is_empty() && !same_text(s.stage.as_str(), "built") {
            self.blocked += 1;
            self.blocked_ids.push(s.id.clone());
        }
        assert(self@ =~= count_blocked(start, s@));
        let route: Option<String> = match &s.codegen {
            Some(codegen) => match &codegen.route_path {
                Some(path) => Some(path.clone()),
                None => None,
            },
            None => None,
        };
        match route {
            Some(route) => self.place(module, s, route),
            None => {
                let ghost before = self.screens@;
                let ghost view = s@;
                self.screens.push(s);
                assert(screen_views(self.screens@) =~= screen_views(before).push(view));
                assert(self@ =~= merge_screen(start, module@, screen@)->Ok_0);
                Ok(())
            },
        }
    }
}

proof fn lemma_screens_err(st: MergeView, module: Seq<char>, screens: Seq<ScreenView>, n: nat, m: nat)
    requires
        merge_screens(st, module, screens, n) is Err,
        n <= m,
    ensures
        merge_screens(st, module, screens, m) == merge_screens(st, module, screens, n),
    decreases m,
{
    if n < m {
        lemma_screens_err(st, module, screens, n, (m - 1) as nat);
    }
}

proof fn lemma_modules_err(modules: Seq<ModuleView>, n: nat, m: nat)
    requires
        merge_modules(modules, n) is Err,
        n <= m,
    ensures
        merge_modules(modules, m) == merge_modules(modules, n),
    decreases m,
{
    if n < m {
        lemma_modules_err(modules, n, (m - 1) as nat);
    }
}

/// How many screens the first `n` modules declare.
pub open spec fn screens_declared(modules: Seq<ModuleView>, n: nat) -> nat
    decreases n,
{
    if n == 0 {
        0
    } else {
        screens_declared(modules, (n - 1) as nat) + modules[n - 1].register.screen.len()
    }
}

proof fn lemma_declared_monotone(modules: Seq<ModuleView>, n: nat, m: nat)
    requires
        n <= m,
    ensures
        screens_declared(modules, n) <= screens_declared(modules, m),
    decreases m,
{
    if n < m {
        lemma_declared_monotone(modules, n, (m - 1) as nat);
    }
}

/// Merges the screens of all modules, in the order in which the modules are
/// listed.
pub fn merge_all(modules: &Vec<ModuleData>) -> (r: Result<Merge, String>)
    requires
        screens_declared(modules@.map_values(|m: ModuleData| m@), modules@.len()) <= usize::MAX,
    ensures
        match merge_modules(modules@.map_values(|m: ModuleData| m@), modules@.len()) {
            Ok(st) => r is Ok && r->Ok_0@ == st,
            Err(e) => r is Err && r->Err_0@ == e,
        },
{
    let ghost views = modules@.map_values(|m: ModuleData| m@);
    let mut st: Merge = Merge::new();
    let mut m: usize = 0;
    while m < modules.len()
        invariant
            m <= modules@.len(),
            views == modules@.map_values(|m: ModuleData| m@),
            screens_declared(views, modules@.len()) <= usize::MAX,
            owners_mounted(st@),
            st.blocked <= screens_declared(views, m as nat),
            merge_modules(views, m as nat) == Ok::<MergeView, Seq<char>>(st@),
        decreases modules@.len() - m,
    {
        let module: &ModuleData = &modules[m];
        let screens: &Vec<ScreenDecl> = &module.register.screen;
        let ghost start = st@;
        let ghost screen_list = views[m as int].register.screen;
        st.seen = Vec::new();
        let mut i: usize = 0;
        assert(st@ =~= MergeView { seen: Seq::empty(), ..start });
        proof {
            lemma_mounted_same(start, st@);
            lemma_declared_monotone(views, m as nat + 1, modules@.len());
        }
        while i < screens.len()
            invariant
                i <= screens@.len(),
                m < modules@.len(),
                *module == modules@[m as int],
                *screens == module.register.screen,
                views == modules@.map_values(|m: ModuleData| m@),
                screen_list == views[m as int].register.screen,
                screens_declared(views, m as nat) + screens@.len() <= usize::MAX,
                owners_mounted(st@),
                st.blocked <= screens_declared(views, m as nat) + i,
                merge_modules(views, m as nat) == Ok::<MergeView, Seq<char>>(start),
                merge_screens(start, module.name@, screen_list, i as nat) == Ok::<
                    MergeView,
                    Seq<char>,
                >(st@),
            decreases screens@.len() - i,
        {
            assert(screen_list[i as int] == screens@[i as int]@);
            let ghost before = st@;
            match st.add(module.name.as_str(), &screens[i]) {
                Ok(_) => {
                    proof {
                        lemma_merge_screen_mounted(before, module.name@, screens@[i as int]@);
                    }
                },
                Err(e) => {
                    proof {
                        lemma_screens_err(
                            start,
                            module.name@,
                            screen_list,
                            i as nat + 1,
                            screen_list.len(),
                        );
                        lemma_modules_err(views, m as nat + 1, modules@.len());
                    }
                    return Err(e);
                },
            }
            i += 1;
        }
        m += 1;
    }
    Ok(st)
}

/// Merging never takes a route from a module other than `core`, and a module
/// other than `core` owns every route of its screens merged so far.
proof fn lemma_screens_owned(
    st: MergeView,
    module: Seq<char>,
    screens: Seq<ScreenView>,
    n: nat,
    route: Seq<char>,
)
    requires
        n <= screens.len(),
        merge_screens(st, module, screens, n) is Ok,
    ensures
        ({
            let end = merge_screens(st, module, screens, n)->Ok_0;
            &&& st.owners.contains_key(route) && st.owners[route] != "core"@
                ==> end.owners.contains_key(route) && end.owners[route] == st.owners[route]
            &&& module != "core"@ && end.seen.contains(route) ==> end.owners.contains_key(route)
                && end.owners[route] == module
            &&& forall|j: int|
                0 <= j < n && route_of(#[trigger] screens[j]) == Some(route)
                    ==> end.seen.contains(route)
        }),
    decreases n,
{
    if n > 0 {
        lemma_screens_owned(st, module, screens, (n - 1) as nat, route);
        let before = merge_screens(st, module, screens, (n - 1) as nat)->Ok_0;
        let s = composed_screen(module, screens[n - 1]);
        let mid = count_blocked(before, s);
        let end = merge_screens(st, module, screens, n)->Ok_0;
        assert(route_of(s) == route_of(screens[n - 1]));
        assert(mid.seen == before.seen);
        if let Some(r) = route_of(s) {
            if !before.seen.contains(r) {
                assert(end.seen == before.seen.push(r));
                assert(end.seen[before.seen.len() as int] == r);
                assert forall|x: Seq<char>| end.seen.contains(x) <==> before.seen.contains(x) || x
                    == r by {
                    if before.seen.contains(x) {
                        let i = choose|i: int| 0 <= i < before.seen.len() && before.seen[i] == x;
                        assert(end.seen[i] == x);
                    }
                }
            }
        }
    }
}

/// A module other than `core` owns every route that its screens are mounted
/// at: neither `core` nor, without an error, any other module keeps it.
pub proof fn law_specific_module_owns_its_routes(
    modules: Seq<ModuleView>,
    n: nat,
    k: int,
    j: int,
    route: Seq<char>,
)
    requires
        n <= modules.len(),
        merge_modules(modules, n) is Ok,
        0 <= k < n,
        modules[k].name != "core"@,
        0 <= j < modules[k].register.screen.len(),
        route_of(modules[k].register.screen[j]) == Some(route),
    ensures
        merge_modules(modules, n)->Ok_0.owners.contains_key(route),
        merge_modules(modules, n)->Ok_0.owners[route] == modules[k].name,
    decreases n,
{
    let m = modules[n - 1];
    let before = merge_modules(modules, (n - 1) as nat)->Ok_0;
    lemma_screens_owned(before, m.name, m.register.screen, m.register.screen.len(), route);
    if k < n - 1 {
        law_specific_module_owns_its_routes(modules, (n - 1) as nat, k, j, route);
    }
}

/// The identifier is one that screens of the module get.
pub open spec fn is_of_module(id: Seq<char>, module: Seq<char>) -> bool {
    starts_with(id, module + "."@)
}

/// The screen's route, if any, is not owned by another module than the one its
/// identifier names.
pub open spec fn keeps_route(owners: Map<Seq<char>, Seq<char>>, s: ScreenView) -> bool {
    match route_of(s) {
        Some(route) => owners.contains_key(route) ==> is_of_module(s.id, owners[route]),
        None => true,
    }
}

/// The first `n` screens without those whose route went to another module.
pub open spec fn kept_screens(
    owners: Map<Seq<char>, Seq<char>>,
    screens: Seq<ScreenView>,
    n: nat,
) -> Seq<ScreenView>
    decreases n,
{
    if n == 0 {
        Seq::empty()
    } else {
        let before = kept_screens(owners, screens, (n - 1) as nat);
        if keeps_route(owners, screens[n - 1]) {
            before.push(screens[n - 1])
        } else {
            before
        }
    }
}

fn keeps(owners: &TextMap<String>, s: &ScreenDecl) -> (r: bool)
    ensures
        r == keeps_route(owners@, s@),
{
    match &s.codegen {
        Some(codegen) => match &codegen.route_path {
            Some(route) => match owners.get(route.as_str()) {
                Some(owner) => {
                    let mut start: String = owner.clone();
                    start.append(".");
                    has_prefix(s.id.as_str(), start.as_str())
                },
                None => true,
            },
            None => true,
        },
        None => true,
    }
}

/// Drops the screens whose route went to another module.
pub fn keep_owned(owners: &TextMap<String>, screens: &Vec<ScreenDecl>) -> (out: Vec<ScreenDecl>)
    ensures
        screen_views(out@) == kept_screens(owners@, screen_views(screens@), screens@.len()),
{
    let ghost views = screen_views(screens@);
    let mut out: Vec<ScreenDecl> = Vec::new();
    let mut i: usize = 0;
    assert(screen_views(out@) =~= Seq::<ScreenView>::empty());
    while i < screens.len()
        invariant
            i <= screens@.len(),
            views == screen_views(screens@),
            screen_views(out@) == kept_screens(owners@, views, i as nat),
        decreases screens@.len() - i,
    {
        assert(views[i as int] == screens@[i as int]@);
        if keeps(owners, &screens[i]) {
            let ghost before = out@;
            out.push(screens[i].clone());
            assert(screen_views(out@) =~= screen_views(before).push(views[i as int]));
        }
        i += 1;
    }
    out
}

/// Every screen that remains is mounted at a route of its own module, if it is
/// mounted at an owned route at all.
pub proof fn law_kept_screens_own_their_route(
    owners: Map<Seq<char>, Seq<char>>,
    screens: Seq<ScreenView>,
    n: nat,
    i: int,
)
    requires
        n <= screens.len(),
        0 <= i < kept_screens(owners, screens, n).len(),
    ensures
        keeps_route(owners, kept_screens(owners, screens, n)[i]),
        screens.contains(kept_screens(owners, screens, n)[i]),
    decreases n,
{
    if n > 0 {
        let before = kept_screens(owners, screens, (n - 1) as nat);
        if i < before.len() {
            law_kept_screens_own_their_route(owners, screens, (n - 1) as nat, i);
        } else {
            assert(screens[n - 1] == kept_screens(owners, screens, n)[i]);
        }
    }
}

/// Every screen mounted at a route belongs to the module that owns the route,
/// no route is mounted twice, and every owned route is mounted.
pub open spec fn well_merged(st: MergeView) -> bool {
    &&& owners_mounted(st)
    &&& forall|i: int|
        0 <= i < st.screens.len() ==> (route_of(#[trigger] st.screens[i]) matches Some(route)
            ==> st.owners.contains_key(route) && is_of_module(st.screens[i].id, st.owners[route]))
    &&& forall|i: int, j: int|
        0 <= i < j < st.screens.len() && route_of(#[trigger] st.screens[i]) is Some ==> route_of(
            st.screens[i],
        ) != route_of(#[trigger] st.screens[j])
}

proof fn lemma_merge_screen_well_merged(st: MergeView, module: Seq<char>, screen: ScreenView)
    requires
        well_merged(st),
        merge_screen(st, module, screen) is Ok,
    ensures
        well_merged(merge_screen(st, module, screen)->Ok_0),
{
    let s = composed_screen(module, screen);
    let end = merge_screen(st, module, screen)->Ok_0;
    lemma_merge_screen_mounted(st, module, screen);
    reveal_strlit(".");
    assert(is_of_module(s.id, module)) by {
        assert(s.id == composed_id(module, screen));
        assert(s.id.subrange(0, (module + "."@).len() as int) =~= module + "."@);
    }
    if let Some(route) = route_of(s) {
        lemma_first_at_route(st.screens, route, 0);
        if !st.owners.contains_key(route) {
            assert forall|i: int| 0 <= i < st.screens.len() implies route_of(
                #[trigger] st.screens[i],
            ) != Some(route) by {}
        } else if end.screens != st.screens {
            let at = first_at_route(st.screens, route, 0) as int;
            let k = choose|k: int|
                0 <= k < st.screens.len() && route_of(#[trigger] st.screens[k]) == Some(route);
            assert(at < st.screens.len());
            assert forall|i: int| 0 <= i < end.screens.len() implies route_of(
                #[trigger] end.screens[i],
            ) == route_of(st.screens[i]) by {}
            assert forall|i: int| 0 <= i < end.screens.len() implies (route_of(
                #[trigger] end.screens[i],
            ) matches Some(r) ==> end.owners.contains_key(r) && is_of_module(
                end.screens[i].id,
                end.owners[r],
            )) by {
                assert(route_of(st.screens[i]) == route_of(end.screens[i]));
                if i != at {
                    assert(end.screens[i] == st.screens[i]);
                    assert(route_of(st.screens[at]) == Some(route));
                }
            }
        }
    }
}

proof fn lemma_merge_screens_well_merged(
    st: MergeView,
    module: Seq<char>,
    screens: Seq<ScreenView>,
    n: nat,
)
    requires
        well_merged(st),
        merge_screens(st, module, screens, n) is Ok,
    ensures
        well_merged(merge_screens(st, module, screens, n)->Ok_0),
    decreases n,
{
    if n == 0 {
        lemma_mounted_same(st, MergeView { seen: Seq::empty(), ..st });
    } else {
        lemma_merge_screens_well_merged(st, module, screens, (n - 1) as nat);
        let before = merge_screens(st, module, screens, (n - 1) as nat)->Ok_0;
        lemma_merge_screen_well_merged(before, module, screens[n - 1]);
    }
}

/// However many modules are merged: every screen mounted at a route belongs to
/// the module that owns the route, no route is mounted twice, and every owned
/// route is mounted.
pub proof fn law_merging_keeps_one_screen_per_route(modules: Seq<ModuleView>, n: nat)
    requires
        merge_modules(modules, n) is Ok,
    ensures
        well_merged(merge_modules(modules, n)->Ok_0),
    decreases n,
{
    if n > 0 {
        law_merging_keeps_one_screen_per_route(modules, (n - 1) as nat);
        let m = modules[n - 1];
        lemma_merge_screens_well_merged(
            merge_modules(modules, (n - 1) as nat)->Ok_0,
            m.name,
            m.register.screen,
            m.register.screen.len(),
        );
    }
}

proof fn lemma_all_kept(st: MergeView, n: nat)
    requires
        well_merged(st),
        n <= st.screens.len(),
    ensures
        kept_screens(st.owners, st.screens, n) == st.screens.take(n as int),
    decreases n,
{
    if n > 0 {
        lemma_all_kept(st, (n - 1) as nat);
        assert(keeps_route(st.owners, st.screens[n - 1]));
        assert(st.screens.take(n as int) =~= st.screens.take(n - 1).push(st.screens[n - 1]));
    } else {
        assert(st.screens.take(0) =~= Seq::<ScreenView>::empty());
    }
}

/// Dropping the screens whose route went to another module drops none that
/// merging has left, so no two of the remaining screens share a route.
pub proof fn law_one_screen_per_route(modules: Seq<ModuleView>, n: nat)
    requires
        merge_modules(modules, n) is Ok,
    ensures
        ({
            let st = merge_modules(modules, n)->Ok_0;
            let kept = kept_screens(st.owners, st.screens, st.screens.len());
            &&& kept == st.screens
            &&& forall|i: int, j: int|
                0 <= i < j < kept.len() && route_of(#[trigger] kept[i]) is Some ==> route_of(
                    kept[i],
                ) != route_of(#[trigger] kept[j])
        }),
{
    let st = merge_modules(modules, n)->Ok_0;
    law_merging_keeps_one_screen_per_route(modules, n);
    lemma_all_kept(st, st.screens.len());
    assert(st.screens.take(st.screens.len() as int) =~= st.screens);
}

/// A route that a module other than `core` declares has one screen, and it is
/// a screen of that module, whether or not `core` declares the route as well.
pub proof fn law_core_gives_way(
    modules: Seq<ModuleView>,
    n: nat,
    k: int,
    j: int,
    route: Seq<char>,
)
    requires
        n <= modules.len(),
        merge_modules(modules, n) is Ok,
        0 <= k < n,
        modules[k].name != "core"@,
        0 <= j < modules[k].register.screen.len(),
        route_of(modules[k].register.screen[j]) == Some(route),
    ensures
        ({
            let st = merge_modules(modules, n)->Ok_0;
            let kept = kept_screens(st.owners, st.screens, st.screens.len());
            exists|i: int|
                {
                    &&& 0 <= i < kept.len()
                    &&& route_of(#[trigger] kept[i]) == Some(route)
                    &&& is_of_module(kept[i].id, modules[k].name)
                    &&& forall|h: int|
                        0 <= h < kept.len() && route_of(#[trigger] kept[h]) == Some(route) ==> h
                            == i
                }
        }),
{
    let st = merge_modules(modules, n)->Ok_0;
    let kept = kept_screens(st.owners, st.screens, st.screens.len());
    law_specific_module_owns_its_routes(modules, n, k, j, route);
    law_merging_keeps_one_screen_per_route(modules, n);
    law_one_screen_per_route(modules, n);
    let i = choose|i: int|
        0 <= i < st.screens.len() && route_of(#[trigger] st.screens[i]) == Some(route);
    assert(route_of(kept[i]) == Some(route));
    assert forall|h: int| 0 <= h < kept.len() && route_of(#[trigger] kept[h]) == Some(route) implies h
        == i by {
        if h < i {
            assert(route_of(kept[h]) != route_of(kept[i]));
        } else if i < h {
            assert(route_of(kept[i]) != route_of(kept[h]));
        }
    }
}

/// A text without its leading `M`s: nothing but `M`s is taken from its front,
/// and it does not begin with one.
pub proof fn law_without_ms(s: Seq<char>)
    ensures
        without_ms(s).len() <= s.len(),
        without_ms(s) == s.skip(s.len() - without_ms(s).len()),
        forall|i: int| 0 <= i < s.len() - without_ms(s).len() ==> #[trigger] s[i] == 'M',
        without_ms(s).len() > 0 ==> without_ms(s)[0] != 'M',
    decreases s.len(),
{
    if s.len() > 0 && s[0] == 'M' {
        let rest = s.drop_first();
        law_without_ms(rest);
        let cut = s.len() - without_ms(s).len();
        assert(without_ms(s) =~= s.skip(cut));
        assert forall|i: int| 0 <= i < cut implies #[trigger] s[i] == 'M' by {
            if i > 0 {
                assert(rest[i - 1] == s[i]);
            }
        }
    } else {
        assert(s =~= s.skip(0));
    }
}

/// A screen in the composed register keeps everything but its identifier, which
/// tells its module, and the paths of its files, which move under the directory
/// of the module; a screen without generated files keeps its file as well.
pub proof fn law_what_a_composed_screen_keeps(module: Seq<char>, s: ScreenView)
    ensures
        ({
            let c = composed_screen(module, s);
            &&& c.id == module + "."@ + without_ms(s.module) + "."@ + s.id
            &&& c.name == s.name
            &&& c.module == s.module
            &&& c.archetype == s.archetype
            &&& c.combo == s.combo
            &&& c.roles == s.roles
            &&& c.datasets == s.datasets
            &&& c.blocked_by == s.blocked_by
            &&& c.stage == s.stage
            &&& c.data_binding == s.data_binding
            &&& c.policy == s.policy
            &&& c.parameters == s.parameters
            &&& c.notes == s.notes
            &&& s.codegen is None ==> c.codegen is None && c.file == s.file
            &&& s.codegen matches Some(from) ==> {
                &&& c.file == replaced(s.file, "src/"@, "src/"@ + module + "/"@)
                &&& c.codegen matches Some(to) && {
                    &&& to == (CodegenView { generated_files: to.generated_files, ..from })
                    &&& to.generated_files.len() == from.generated_files.len()
                    &&& forall|i: int|
                        0 <= i < to.generated_files.len() ==> #[trigger] to.generated_files[i]
                            == replaced(
                            from.generated_files[i],
                            "src/"@,
                            "src/"@ + module + "/"@,
                        )
                }
            }
        }),
{
}

/// The identifier of a screen of a module that is declared at a stage other than
/// `built`.
pub open spec fn blocked_id(module: Seq<char>) -> spec_fn(ScreenView) -> Option<Seq<char>> {
    |s: ScreenView|
        if s.stage.len() > 0 && s.stage != "built"@ {
            Some(module + "."@ + without_ms(s.module) + "."@ + s.id)
        } else {
            None
        }
}

proof fn lemma_blocked_screens(
    st: MergeView,
    module: Seq<char>,
    screens: Seq<ScreenView>,
    n: nat,
)
    requires
        n <= screens.len(),
        merge_screens(st, module, screens, n) is Ok,
        st.blocked == st.blocked_ids.len(),
    ensures
        merge_screens(st, module, screens, n)->Ok_0.blocked_ids == st.blocked_ids + screens.take(
            n as int,
        ).filter_map(blocked_id(module)),
        merge_screens(st, module, screens, n)->Ok_0.blocked == merge_screens(
            st,
            module,
            screens,
            n,
        )->Ok_0.blocked_ids.len(),
    decreases n,
{
    if n > 0 {
        lemma_blocked_screens(st, module, screens, (n - 1) as nat);
        lemma_kept_next(screens, blocked_id(module), n - 1);
    }
}

/// The blocked screens are those of all modules that are declared at a stage
/// other than `built`, whether or not they keep their route, and their number is
/// the one that is told.
pub proof fn law_blocked_screens(modules: Seq<ModuleView>, n: nat)
    requires
        n <= modules.len(),
        merge_modules(modules, n) is Ok,
    ensures
        merge_modules(modules, n)->Ok_0.blocked_ids == modules.map_values(
            |m: ModuleView| m.register.screen.filter_map(blocked_id(m.name)),
        ).take(n as int).flatten(),
        merge_modules(modules, n)->Ok_0.blocked == merge_modules(
            modules,
            n,
        )->Ok_0.blocked_ids.len(),
    decreases n,
{
    let all = modules.map_values(
        |m: ModuleView| m.register.screen.filter_map(blocked_id(m.name)),
    );
    if n > 0 {
        let m = modules[n - 1];
        let before = merge_modules(modules, (n - 1) as nat)->Ok_0;
        law_blocked_screens(modules, (n - 1) as nat);
        lemma_blocked_screens(before, m.name, m.register.screen, m.register.screen.len());
        assert(m.register.screen.take(m.register.screen.len() as int) =~= m.register.screen);
        lemma_flat_next(all, n - 1);
    } else {
        assert(all.take(0) =~= Seq::<Seq<Seq<char>>>::empty());
    }
}

proof fn lemma_merged_members(st: MergeView, module: Seq<char>, screens: Seq<ScreenView>, n: nat)
    requires
        n <= screens.len(),
        well_merged(st),
        merge_screens(st, module, screens, n) is Ok,
    ensures
        ({
            let end = merge_screens(st, module, screens, n)->Ok_0;
            &&& forall|i: int|
                0 <= i < end.screens.len() ==> st.screens.contains(#[trigger] end.screens[i])
                    || exists|j: int|
                    0 <= j < n && end.screens[i] == composed_screen(module, #[trigger] screens[j])
            &&& forall|i: int|
                0 <= i < st.screens.len() && route_of(#[trigger] st.screens[i]) is None
                    ==> end.screens.contains(st.screens[i])
            &&& forall|j: int|
                0 <= j < n && route_of(#[trigger] screens[j]) is None ==> end.screens.contains(
                    composed_screen(module, screens[j]),
                )
            &&& forall|route: Seq<char>| #[trigger]
                st.owners.contains_key(route) ==> end.owners.contains_key(route)
            &&& forall|j: int|
                0 <= j < n ==> (route_of(#[trigger] screens[j]) matches Some(route)
                    ==> end.owners.contains_key(route))
            &&& forall|route: Seq<char>| #[trigger]
                end.owners.contains_key(route) ==> (st.owners.contains_key(route)
                    && end.owners[route] == st.owners[route]) || (end.owners[route] == module
                    && exists|j: int|
                    0 <= j < n && route_of(#[trigger] screens[j]) == Some(route))
        }),
    decreases n,
{
    let end = merge_screens(st, module, screens, n)->Ok_0;
    if n > 0 {
        lemma_merged_members(st, module, screens, (n - 1) as nat);
        lemma_merge_screens_well_merged(st, module, screens, (n - 1) as nat);
        let before = merge_screens(st, module, screens, (n - 1) as nat)->Ok_0;
        let s = composed_screen(module, screens[n - 1]);
        assert(route_of(s) == route_of(screens[n - 1]));
        let mid = count_blocked(before, s);
        assert(mid.screens == before.screens && mid.owners == before.owners);
        assert(forall|i: int|
            0 <= i < before.screens.len() && route_of(#[trigger] before.screens[i]) is None
                ==> end.screens.contains(before.screens[i])) by {
            assert forall|i: int|
                0 <= i < before.screens.len() && route_of(#[trigger] before.screens[i]) is None
                implies end.screens.contains(before.screens[i]) by {
                if let Some(route) = route_of(s) {
                    lemma_first_at_route(before.screens, route, 0);
                    if before.owners.contains_key(route) {
                        let k = choose|k: int|
                            0 <= k < before.screens.len() && route_of(#[trigger] before.screens[k])
                                == Some(route);
                        assert(first_at_route(before.screens, route, 0) < before.screens.len());
                    }
                }
                assert(end.screens[i] == before.screens[i]);
            }
        }
        assert(forall|i: int|
            0 <= i < end.screens.len() ==> before.screens.contains(#[trigger] end.screens[i])
                || end.screens[i] == s) by {
            if let Some(route) = route_of(s) {
                lemma_first_at_route(before.screens, route, 0);
                if before.owners.contains_key(route) {
                    let k = choose|k: int|
                        0 <= k < before.screens.len() && route_of(#[trigger] before.screens[k])
                            == Some(route);
                    assert(first_at_route(before.screens, route, 0) < before.screens.len());
                }
            }
            assert forall|i: int|
                0 <= i < end.screens.len() implies before.screens.contains(
                #[trigger] end.screens[i],
            ) || end.screens[i] == s by {
                if i < before.screens.len() {
                    assert(end.screens[i] == before.screens[i] || end.screens[i] == s);
                }
            }
        }
        if route_of(s) is None {
            assert(end.screens[before.screens.len() as int] == s);
        } else {
            let route = route_of(s)->Some_0;
            if before.seen.contains(route) {
                lemma_seen_owned(st, module, screens, (n - 1) as nat, route);
            }
            assert(end.owners.contains_key(route));
        }
        assert forall|i: int| 0 <= i < end.screens.len() implies st.screens.contains(
            #[trigger] end.screens[i],
        ) || exists|j: int|
            0 <= j < n && end.screens[i] == composed_screen(module, #[trigger] screens[j]) by {
            if end.screens[i] == s {
                assert(end.screens[i] == composed_screen(module, screens[n - 1]));
            } else {
                let k = choose|k: int|
                    0 <= k < before.screens.len() && before.screens[k] == end.screens[i];
                if !st.screens.contains(before.screens[k]) {
                    let j = choose|j: int|
                        0 <= j < n - 1 && before.screens[k] == composed_screen(
                            module,
                            #[trigger] screens[j],
                        );
                    assert(end.screens[i] == composed_screen(module, screens[j]));
                }
            }
        }
        assert forall|i: int|
            0 <= i < st.screens.len() && route_of(#[trigger] st.screens[i]) is None
            implies end.screens.contains(st.screens[i]) by {
            let k = choose|k: int|
                0 <= k < before.screens.len() && before.screens[k] == st.screens[i];
            assert(route_of(before.screens[k]) is None);
        }
        assert forall|j: int| 0 <= j < n && route_of(#[trigger] screens[j]) is None implies
            end.screens.contains(composed_screen(module, screens[j])) by {
            if j < n - 1 {
                let x = composed_screen(module, screens[j]);
                let k = choose|k: int| 0 <= k < before.screens.len() && before.screens[k] == x;
                assert(route_of(before.screens[k]) is None);
            }
        }
    } else {
        assert forall|i: int| 0 <= i < end.screens.len() implies st.screens.contains(
            #[trigger] end.screens[i],
        ) by {
            assert(st.screens[i] == end.screens[i]);
        }
    }
}

proof fn lemma_seen_owned(
    st: MergeView,
    module: Seq<char>,
    screens: Seq<ScreenView>,
    n: nat,
    route: Seq<char>,
)
    requires
        n <= screens.len(),
        merge_screens(st, module, screens, n) is Ok,
        merge_screens(st, module, screens, n)->Ok_0.seen.contains(route),
    ensures
        merge_screens(st, module, screens, n)->Ok_0.owners.contains_key(route),
    decreases n,
{
    broadcast use push_has;

    if n > 0 {
        let before = merge_screens(st, module, screens, (n - 1) as nat)->Ok_0;
        if before.seen.contains(route) {
            lemma_seen_owned(st, module, screens, (n - 1) as nat, route);
        }
    }
}

/// No screen is lost in the merge: one without a route is there as its module
/// declares it, and the route of any other is owned.
pub proof fn law_every_screen_is_merged(modules: Seq<ModuleView>, n: nat, k: int, j: int)
    requires
        n <= modules.len(),
        merge_modules(modules, n) is Ok,
        0 <= k < n,
        0 <= j < modules[k].register.screen.len(),
    ensures
        ({
            let st = merge_modules(modules, n)->Ok_0;
            let s = modules[k].register.screen[j];
            match route_of(s) {
                None => st.screens.contains(composed_screen(modules[k].name, s)),
                Some(route) => st.owners.contains_key(route),
            }
        }),
    decreases n,
{
    let m = modules[n - 1];
    let before = merge_modules(modules, (n - 1) as nat)->Ok_0;
    law_merging_keeps_one_screen_per_route(modules, (n - 1) as nat);
    lemma_merged_members(before, m.name, m.register.screen, m.register.screen.len());
    if k < n - 1 {
        law_every_screen_is_merged(modules, (n - 1) as nat, k, j);
        let s = modules[k].register.screen[j];
        if route_of(s) is None {
            let x = composed_screen(modules[k].name, s);
            let i = choose|i: int| 0 <= i < before.screens.len() && before.screens[i] == x;
            assert(route_of(before.screens[i]) is None);
        }
    }
}

/// Nothing is made up in the merge: every screen of it is one that a module
/// declares.
pub proof fn law_every_merged_screen_is_declared(modules: Seq<ModuleView>, n: nat, i: int)
    requires
        n <= modules.len(),
        merge_modules(modules, n) is Ok,
        0 <= i < merge_modules(modules, n)->Ok_0.screens.len(),
    ensures
        exists|k: int, j: int|
            {
                &&& 0 <= k < n
                &&& 0 <= j < modules[k].register.screen.len()
                &&& merge_modules(modules, n)->Ok_0.screens[i] == composed_screen(
                    modules[k].name,
                    #[trigger] modules[k].register.screen[j],
                )
            },
    decreases n,
{
    if n > 0 {
        let m = modules[n - 1];
        let before = merge_modules(modules, (n - 1) as nat)->Ok_0;
        let end = merge_modules(modules, n)->Ok_0;
        law_merging_keeps_one_screen_per_route(modules, (n - 1) as nat);
        lemma_merged_members(before, m.name, m.register.screen, m.register.screen.len());
        if before.screens.contains(end.screens[i]) {
            let h = choose|h: int|
                0 <= h < before.screens.len() && before.screens[h] == end.screens[i];
            law_every_merged_screen_is_declared(modules, (n - 1) as nat, h);
        } else {
            let j = choose|j: int|
                0 <= j < m.register.screen.len() && end.screens[i] == composed_screen(
                    m.name,
                    #[trigger] m.register.screen[j],
                );
            assert(end.screens[i] == composed_screen(
                modules[n - 1].name,
                modules[n - 1].register.screen[j],
            ));
        }
    }
}

/// A route is owned by a module that declares it.
pub proof fn law_owners_declare_their_routes(modules: Seq<ModuleView>, n: nat, route: Seq<char>)
    requires
        n <= modules.len(),
        merge_modules(modules, n) is Ok,
        merge_modules(modules, n)->Ok_0.owners.contains_key(route),
    ensures
        exists|k: int, j: int|
            {
                &&& 0 <= k < n
                &&& 0 <= j < modules[k].register.screen.len()
                &&& modules[k].name == merge_modules(modules, n)->Ok_0.owners[route]
                &&& route_of(#[trigger] modules[k].register.screen[j]) == Some(route)
            },
    decreases n,
{
    if n > 0 {
        let m = modules[n - 1];
        let before = merge_modules(modules, (n - 1) as nat)->Ok_0;
        let end = merge_modules(modules, n)->Ok_0;
        law_merging_keeps_one_screen_per_route(modules, (n - 1) as nat);
        lemma_merged_members(before, m.name, m.register.screen, m.register.screen.len());
        if before.owners.contains_key(route) && end.owners[route] == before.owners[route] {
            law_owners_declare_their_routes(modules, (n - 1) as nat, route);
        } else {
            let j = choose|j: int|
                0 <= j < m.register.screen.len() && route_of(#[trigger] m.register.screen[j])
                    == Some(route);
            assert(route_of(modules[n - 1].register.screen[j]) == Some(route));
        }
    }
}

/// Two modules other than `core` cannot declare one route.
pub proof fn law_two_claims_conflict(
    modules: Seq<ModuleView>,
    n: nat,
    a: int,
    i: int,
    b: int,
    j: int,
)
    requires
        n <= modules.len(),
        0 <= a < n,
        0 <= b < n,
        modules[a].name != "core"@,
        modules[b].name != "core"@,
        modules[a].name != modules[b].name,
        0 <= i < modules[a].register.screen.len(),
        0 <= j < modules[b].register.screen.len(),
        route_of(modules[a].register.screen[i]) is Some,
        route_of(modules[a].register.screen[i]) == route_of(modules[b].register.screen[j]),
    ensures
        merge_modules(modules, n) is Err,
{
    if merge_modules(modules, n) is Ok {
        let route = route_of(modules[a].register.screen[i])->Some_0;
        law_specific_module_owns_its_routes(modules, n, a, i, route);
        law_specific_module_owns_its_routes(modules, n, b, j, route);
    }
}

proof fn lemma_screens_conflict(
    st: MergeView,
    module: Seq<char>,
    screens: Seq<ScreenView>,
    n: nat,
)
    requires
        n <= screens.len(),
        well_merged(st),
        merge_screens(st, module, screens, n) is Err,
    ensures
        exists|j: int|
            {
                &&& 0 <= j < n
                &&& route_of(#[trigger] screens[j]) is Some
                &&& st.owners.contains_key(route_of(screens[j])->Some_0)
                &&& (st.owners[route_of(screens[j])->Some_0] == "core"@) == (module == "core"@)
                &&& merge_screens(st, module, screens, n)->Err_0 == "route `"@ + route_of(
                    screens[j],
                )->Some_0 + "` is declared by both module `"@ + st.owners[route_of(
                    screens[j],
                )->Some_0] + "` and module `"@ + module + "`"@
            },
    decreases n,
{
    if n > 0 {
        if merge_screens(st, module, screens, (n - 1) as nat) is Err {
            lemma_screens_conflict(st, module, screens, (n - 1) as nat);
        } else {
            let before = merge_screens(st, module, screens, (n - 1) as nat)->Ok_0;
            let s = composed_screen(module, screens[n - 1]);
            let route = route_of(s)->Some_0;
            assert(route_of(s) == route_of(screens[n - 1]));
            lemma_merged_members(st, module, screens, (n - 1) as nat);
            lemma_unseen(st, module, screens, (n - 1) as nat, route);
            assert(before.owners.contains_key(route));
            assert(st.owners.contains_key(route) && before.owners[route] == st.owners[route]);
            assert(route_of(screens[n - 1]) is Some);
        }
    }
}

proof fn lemma_unseen(
    st: MergeView,
    module: Seq<char>,
    screens: Seq<ScreenView>,
    n: nat,
    route: Seq<char>,
)
    requires
        n <= screens.len(),
        merge_screens(st, module, screens, n) is Ok,
        !merge_screens(st, module, screens, n)->Ok_0.seen.contains(route),
    ensures
        forall|j: int| 0 <= j < n ==> route_of(#[trigger] screens[j]) != Some(route),
    decreases n,
{
    broadcast use push_has;

    if n > 0 {
        let before = merge_screens(st, module, screens, (n - 1) as nat)->Ok_0;
        let s = composed_screen(module, screens[n - 1]);
        assert(route_of(s) == route_of(screens[n - 1]));
        lemma_unseen(st, module, screens, (n - 1) as nat, route);
    }
}

/// Modules fail to merge only over a route that two of them declare, both of
/// them `core` or neither; the error names the route and the two.
pub proof fn law_what_fails_to_merge(modules: Seq<ModuleView>, n: nat)
    requires
        n <= modules.len(),
        merge_modules(modules, n) is Err,
    ensures
        exists|a: int, i: int, b: int, j: int|
            {
                &&& 0 <= a < b < n
                &&& 0 <= i < modules[a].register.screen.len()
                &&& 0 <= j < modules[b].register.screen.len()
                &&& (modules[a].name == "core"@) == (modules[b].name == "core"@)
                &&& route_of(#[trigger] modules[a].register.screen[i]) is Some
                &&& route_of(modules[a].register.screen[i]) == route_of(
                    #[trigger] modules[b].register.screen[j],
                )
                &&& merge_modules(modules, n)->Err_0 == "route `"@ + route_of(
                    modules[a].register.screen[i],
                )->Some_0 + "` is declared by both module `"@ + modules[a].name + "` and module `"@
                    + modules[b].name + "`"@
            },
    decreases n,
{
    if n > 0 {
        if merge_modules(modules, (n - 1) as nat) is Err {
            law_what_fails_to_merge(modules, (n - 1) as nat);
        } else {
            let m = modules[n - 1];
            let before = merge_modules(modules, (n - 1) as nat)->Ok_0;
            law_merging_keeps_one_screen_per_route(modules, (n - 1) as nat);
            lemma_screens_conflict(before, m.name, m.register.screen, m.register.screen.len());
            let j = choose|j: int|
                {
                    &&& 0 <= j < m.register.screen.len()
                    &&& route_of(#[trigger] m.register.screen[j]) is Some
                    &&& before.owners.contains_key(route_of(m.register.screen[j])->Some_0)
                    &&& (before.owners[route_of(m.register.screen[j])->Some_0] == "core"@) == (
                    m.name == "core"@)
                    &&& merge_screens(
                        before,
                        m.name,
                        m.register.screen,
                        m.register.screen.len(),
                    )->Err_0 == "route `"@ + route_of(m.register.screen[j])->Some_0
                        + "` is declared by both module `"@ + before.owners[route_of(
                        m.register.screen[j],
                    )->Some_0] + "` and module `"@ + m.name + "`"@
                };
            let route = route_of(m.register.screen[j])->Some_0;
            law_owners_declare_their_routes(modules, (n - 1) as nat, route);
            let (a, i) = choose|a: int, i: int|
                {
                    &&& 0 <= a < n - 1
                    &&& 0 <= i < modules[a].register.screen.len()
                    &&& modules[a].name == before.owners[route]
                    &&& route_of(#[trigger] modules[a].register.screen[i]) == Some(route)
                };
            assert(route_of(modules[a].register.screen[i]) == route_of(
                modules[n - 1].register.screen[j],
            ));
        }
    }
}

} // verus!
