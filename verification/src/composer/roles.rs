//! Roles: the marker types that wire names resolve to, and which roles the
//! built screens declare.
use crate::composer::decl::{ScreenDecl, ScreenView};
use crate::composer::entities::verdict_text;
use crate::composer::screens::{is_blocked, screen_views};
use crate::lists::{lemma_flat_next, lemma_kept_next};
use crate::text::{
    capital, chars_of, law_splitting_on, same_text, split, split_char, texts, texts_push,
    to_capital,
};
use vstd::prelude::*;

verus! {

/// The characters that separate the words of a wire name.
pub open spec fn is_separator(c: char) -> bool {
    c == '_' || c == '-' || c == ' '
}

/// The marker type of a wire name: its words run together, each with its first
/// letter capitalised.
pub open spec fn marker(wire: Seq<char>) -> Seq<char>
    decreases wire.len(),
{
    if wire.len() == 0 {
        Seq::empty()
    } else {
        let before = marker(wire.drop_last());
        let c = wire.last();
        if is_separator(c) {
            before
        } else if wire.len() == 1 || is_separator(wire[wire.len() - 2]) {
            before.push(capital(c))
        } else {
            before.push(c)
        }
    }
}

/// The marker type of a wire name.
pub fn role_marker_name(wire: &str) -> (out: String)
    ensures
        out@ == marker(wire@),
{
    let chars: Vec<char> = chars_of(wire);
    let mut out: String = String::new();
    let mut first: bool = true;
    let mut i: usize = 0;
    while i < chars.len()
        invariant
            i <= chars@.len(),
            chars@ == wire@,
            out@ == marker(wire@.take(i as int)),
            first == (i == 0 || is_separator(wire@[i - 1])),
        decreases chars@.len() - i,
    {
        let c: char = chars[i];
        assert(wire@.take(i as int + 1).drop_last() =~= wire@.take(i as int));
        if c == '_' || c == '-' || c == ' ' {
            first = true;
        } else {
            if first {
                out.push(to_capital(c));
            } else {
                out.push(c);
            }
            first = false;
        }
        i += 1;
    }
    assert(wire@.take(wire@.len() as int) =~= wire@);
    out
}

/// The wire name of a role: what stands before its first colon.
pub open spec fn wire_of(role: Seq<char>) -> Seq<char> {
    split(role, ':')[0]
}

/// The wire name stands for one role, not for none or for all.
pub open spec fn names_a_role(wire: Seq<char>) -> bool {
    wire.len() > 0 && wire != "AllRoles"@ && wire != "AllHuman"@
}

/// The wire names of the first `n` roles of a list.
pub open spec fn role_wires(roles: Seq<Seq<char>>, n: nat) -> Seq<Seq<char>>
    decreases n,
{
    if n == 0 {
        Seq::empty()
    } else {
        let before = role_wires(roles, (n - 1) as nat);
        let wire = wire_of(roles[n - 1]);
        if names_a_role(wire) {
            before.push(wire)
        } else {
            before
        }
    }
}

/// The wire names of the first `n` screens; with `built_only`, of those among
/// them that are built.
pub open spec fn screen_wires(screens: Seq<ScreenView>, built_only: bool, n: nat) -> Seq<Seq<char>>
    decreases n,
{
    if n == 0 {
        Seq::empty()
    } else {
        let before = screen_wires(screens, built_only, (n - 1) as nat);
        let s = screens[n - 1];
        if built_only && is_blocked(s) {
            before
        } else {
            before + role_wires(s.roles, s.roles.len())
        }
    }
}

fn push_wires(roles: &Vec<String>, out: &mut Vec<String>)
    ensures
        texts(final(out)@) == texts(old(out)@) + role_wires(texts(roles@), roles@.len()),
{
    broadcast use texts_push;

    let ghost start = texts(out@);
    let mut i: usize = 0;
    assert(start + role_wires(texts(roles@), 0) =~= start);
    while i < roles.len()
        invariant
            i <= roles@.len(),
            texts(out@) == start + role_wires(texts(roles@), i as nat),
        decreases roles@.len() - i,
    {
        let parts: Vec<String> = split_char(roles[i].as_str(), ':');
        assert(texts(parts@)[0] == parts@[0]@);
        assert(texts(roles@)[i as int] == roles@[i as int]@);
        let wire: &String = &parts[0];
        if !wire.as_str().is_empty() && !same_text(wire.as_str(), "AllRoles") && !same_text(
            wire.as_str(),
            "AllHuman",
        ) {
            let ghost made = role_wires(texts(roles@), i as nat);
            out.push(wire.clone());
            assert((start + made).push(wire@) =~= start + made.push(wire@));
        }
        i += 1;
    }
}

/// The wire names that the screens declare, in order; with `built_only`, those
/// of the built screens.
pub fn declared_wires(screens: &Vec<ScreenDecl>, built_only: bool) -> (out: Vec<String>)
    ensures
        texts(out@) == screen_wires(screen_views(screens@), built_only, screens@.len()),
{
    let ghost views = screen_views(screens@);
    let mut out: Vec<String> = Vec::new();
    let mut i: usize = 0;
    assert(texts(out@) =~= Seq::<Seq<char>>::empty());
    while i < screens.len()
        invariant
            i <= screens@.len(),
            views == screen_views(screens@),
            texts(out@) == screen_wires(views, built_only, i as nat),
        decreases screens@.len() - i,
    {
        let s: &ScreenDecl = &screens[i];
        assert(views[i as int] == s@);
        let blocked: bool = !s.stage.as_str().is_empty() && !same_text(s.stage.as_str(), "built");
        if !(built_only && blocked) {
            push_wires(&s.roles, &mut out);
        }
        i += 1;
    }
    out
}

/// The first wire name from position `from` on with the given marker type.
pub open spec fn first_with_marker(wires: Seq<Seq<char>>, m: Seq<char>, from: nat) -> nat
    decreases wires.len() - from,
{
    if from >= wires.len() {
        wires.len()
    } else if marker(wires[from as int]) == m {
        from
    } else {
        first_with_marker(wires, m, from + 1)
    }
}

/// The wire name at `i` resolves to the marker type of an earlier, differently
/// spelled one.
pub open spec fn aliased(wires: Seq<Seq<char>>, i: int) -> bool {
    exists|j: int|
        0 <= j < i && #[trigger] wires[j] != wires[i] && marker(wires[j]) == marker(wires[i])
}

pub open spec fn alias_text(wires: Seq<Seq<char>>, i: int) -> Seq<char> {
    let m = marker(wires[i]);
    "role spellings `"@ + wires[first_with_marker(wires, m, 0) as int] + "` and `"@ + wires[i]
        + "` from selected modules both resolve to marker type `"@ + m
        + "`; normalize the module registers to one wire spelling"@
}

/// No two spellings share a marker type, or the first that does is reported.
pub open spec fn alias_verdict(wires: Seq<Seq<char>>, r: Result<(), Seq<char>>) -> bool {
    match r {
        Ok(_) => forall|i: int| 0 <= i < wires.len() ==> !#[trigger] aliased(wires, i),
        Err(e) => exists|i: int|
            {
                &&& 0 <= i < wires.len()
                &&& #[trigger] aliased(wires, i)
                &&& forall|k: int| 0 <= k < i ==> !#[trigger] aliased(wires, k)
                &&& e == alias_text(wires, i)
            },
    }
}

proof fn lemma_first_with_marker(wires: Seq<Seq<char>>, m: Seq<char>, from: nat, i: int)
    requires
        from <= i < wires.len(),
        marker(wires[i]) == m,
    ensures
        from <= first_with_marker(wires, m, from) <= i,
        marker(wires[first_with_marker(wires, m, from) as int]) == m,
    decreases wires.len() - from,
{
    if marker(wires[from as int]) != m {
        lemma_first_with_marker(wires, m, from + 1, i);
    }
}

/// Whether no two spellings of a role share a marker type.
pub fn check_markers(wires: &Vec<String>) -> (r: Result<(), String>)
    ensures
        alias_verdict(texts(wires@), verdict_text(r)),
{
    let ghost views = texts(wires@);
    let mut i: usize = 0;
    while i < wires.len()
        invariant
            i <= wires@.len(),
            views == texts(wires@),
            forall|k: int| 0 <= k < i ==> !#[trigger] aliased(views, k),
        decreases wires@.len() - i,
    {
        let wire: &String = &wires[i];
        let m: String = role_marker_name(wire.as_str());
        let mut j: usize = 0;
        while j < i && !same_text(role_marker_name(wires[j].as_str()).as_str(), m.as_str())
            invariant
                j <= i < wires@.len(),
                views == texts(wires@),
                m@ == marker(views[i as int]),
                first_with_marker(views, m@, 0) == first_with_marker(views, m@, j as nat),
                forall|k: int| 0 <= k < j ==> marker(#[trigger] views[k]) != m@,
            decreases i - j,
        {
            assert(views[j as int] == wires@[j as int]@);
            j += 1;
        }
        assert(views[i as int] == wire@);
        assert(views[j as int] == wires@[j as int]@);
        if j < i && !same_text(wires[j].as_str(), wire.as_str()) {
            let mut msg: String = "role spellings `".to_owned();
            msg.append(wires[j].as_str());
            msg.append("` and `");
            msg.append(wire.as_str());
            msg.append("` from selected modules both resolve to marker type `");
            msg.append(m.as_str());
            msg.append("`; normalize the module registers to one wire spelling");
            assert(aliased(views, i as int));
            assert(msg@ == alias_text(views, i as int));
            return Err(msg);
        }
        proof {
            if aliased(views, i as int) {
                let k = choose|k: int|
                    0 <= k < i && #[trigger] views[k] != views[i as int] && marker(views[k])
                        == marker(views[i as int]);
                assert(j <= k);
                assert(views[j as int] != views[k]);
                assert(aliased(views, k));
                assert(false);
            }
        }
        i += 1;
    }
    Ok(())
}

/// Where no alias is found, wire names with the same marker type are spelled
/// alike.
pub proof fn law_markers_name_one_spelling(wires: Seq<Seq<char>>, i: int, j: int)
    requires
        alias_verdict(wires, Ok(())),
        0 <= i < wires.len(),
        0 <= j < wires.len(),
        marker(wires[i]) == marker(wires[j]),
    ensures
        wires[i] == wires[j],
{
    assert(!aliased(wires, i));
    assert(!aliased(wires, j));
}

/// The marker type of a word is the word with its first letter capitalised.
pub proof fn law_marker_of_a_word(word: Seq<char>)
    requires
        word.len() > 0,
        !word.contains('_'),
        !word.contains('-'),
        !word.contains(' '),
    ensures
        marker(word) == seq![capital(word[0])] + word.drop_first(),
    decreases word.len(),
{
    let front = word.drop_last();
    let c = word.last();
    assert(word[word.len() - 1] == c);
    assert(!is_separator(c));
    if word.len() == 1 {
        assert(marker(front) =~= Seq::<char>::empty());
        assert(marker(word) =~= seq![capital(word[0])] + word.drop_first());
    } else {
        assert(word[word.len() - 2] == front.last());
        assert forall|x: char| x == '_' || x == '-' || x == ' ' implies !front.contains(x) by {
            if front.contains(x) {
                let i = choose|i: int| 0 <= i < front.len() && front[i] == x;
                assert(word[i] == x);
            }
        }
        assert(word[word.len() - 2] != '_' && word[word.len() - 2] != '-' && word[word.len() - 2]
            != ' ');
        law_marker_of_a_word(front);
        assert(marker(word) =~= seq![capital(word[0])] + word.drop_first());
    }
}

/// The marker type of words between separators is those of the words run
/// together: each is treated as it would be alone.
pub proof fn law_marker_of_words(a: Seq<char>, sep: char, b: Seq<char>)
    requires
        sep == '_' || sep == '-' || sep == ' ',
    ensures
        marker(a.push(sep) + b) == marker(a) + marker(b),
        marker(Seq::empty()) == Seq::<char>::empty(),
    decreases b.len(),
{
    let wire = a.push(sep) + b;
    if b.len() == 0 {
        assert(wire.drop_last() =~= a);
        assert(marker(a) + marker(b) =~= marker(a));
    } else {
        let front = b.drop_last();
        law_marker_of_words(a, sep, front);
        assert(wire.drop_last() =~= a.push(sep) + front);
        assert(wire.last() == b.last());
        if b.len() > 1 {
            assert(wire[wire.len() - 2] == b[b.len() - 2]);
        } else {
            assert(wire[wire.len() - 2] == sep);
        }
        assert(marker(wire) =~= marker(a) + marker(b));
    }
}

/// The wire name of a role is what stands before its first colon, all of it
/// where there is none.
pub proof fn law_wire_of_a_role(a: Seq<char>, b: Seq<char>)
    requires
        !a.contains(':'),
    ensures
        wire_of(a) == a,
        wire_of(a.push(':') + b) == a,
{
    law_splitting_on(a, b, ':');
}

/// The wire name of a role that a list declares, but for those that stand for no
/// role or for all of them.
pub open spec fn declared_wire() -> spec_fn(Seq<char>) -> Option<Seq<char>> {
    |role: Seq<char>|
        if wire_of(role).len() == 0 || wire_of(role) == "AllRoles"@ || wire_of(role)
            == "AllHuman"@ {
            None
        } else {
            Some(wire_of(role))
        }
}

proof fn lemma_role_wires(roles: Seq<Seq<char>>, n: nat)
    requires
        n <= roles.len(),
    ensures
        role_wires(roles, n) == roles.take(n as int).filter_map(declared_wire()),
    decreases n,
{
    if n > 0 {
        lemma_role_wires(roles, (n - 1) as nat);
        lemma_kept_next(roles, declared_wire(), n - 1);
    }
}

/// The wire names that screens declare are those of the roles of every screen,
/// or of every screen that is built: that declares no stage or the stage
/// `built`.
pub proof fn law_wires_of_screens(screens: Seq<ScreenView>, built_only: bool, n: nat)
    requires
        n <= screens.len(),
    ensures
        screen_wires(screens, built_only, n) == screens.map_values(
            |s: ScreenView|
                if built_only && s.stage.len() > 0 && s.stage != "built"@ {
                    Seq::empty()
                } else {
                    s.roles.filter_map(declared_wire())
                },
        ).take(n as int).flatten(),
    decreases n,
{
    let all = screens.map_values(
        |s: ScreenView|
            if built_only && s.stage.len() > 0 && s.stage != "built"@ {
                Seq::empty()
            } else {
                s.roles.filter_map(declared_wire())
            },
    );
    if n > 0 {
        let s = screens[n - 1];
        law_wires_of_screens(screens, built_only, (n - 1) as nat);
        lemma_role_wires(s.roles, s.roles.len());
        assert(s.roles.take(s.roles.len() as int) =~= s.roles);
        lemma_flat_next(all, n - 1);
        assert(screen_wires(screens, built_only, n) =~= all.take(n as int).flatten());
    } else {
        assert(all.take(0) =~= Seq::<Seq<Seq<char>>>::empty());
    }
}

/// The spellings of roles pass exactly where no two of them share a marker type.
pub proof fn law_when_spellings_pass(wires: Seq<Seq<char>>, r: Result<(), Seq<char>>)
    requires
        alias_verdict(wires, r),
    ensures
        r is Ok <==> forall|i: int, j: int|
            0 <= i < j < wires.len() && marker(#[trigger] wires[i]) == marker(#[trigger] wires[j])
                ==> wires[i] == wires[j],
        r matches Err(e) ==> exists|i: int, j: int|
            {
                &&& 0 <= i < j < wires.len()
                &&& marker(#[trigger] wires[i]) == marker(#[trigger] wires[j])
                &&& e == "role spellings `"@ + wires[i] + "` and `"@ + wires[j]
                    + "` from selected modules both resolve to marker type `"@ + marker(wires[j])
                    + "`; normalize the module registers to one wire spelling"@
            },
{
    match r {
        Ok(_) => {
            assert forall|i: int, j: int|
                0 <= i < j < wires.len() && marker(#[trigger] wires[i]) == marker(
                    #[trigger] wires[j],
                ) implies wires[i] == wires[j] by {
                law_markers_name_one_spelling(wires, i, j);
            }
        },
        Err(e) => {
            let j = choose|j: int|
                {
                    &&& 0 <= j < wires.len()
                    &&& #[trigger] aliased(wires, j)
                    &&& forall|k: int| 0 <= k < j ==> !#[trigger] aliased(wires, k)
                    &&& e == alias_text(wires, j)
                };
            let i = choose|i: int|
                0 <= i < j && #[trigger] wires[i] != wires[j] && marker(wires[i]) == marker(
                    wires[j],
                );
            assert(wires[i] != wires[j]);
            lemma_first_marker(wires, marker(wires[j]), 0);
            let f = first_with_marker(wires, marker(wires[j]), 0) as int;
            assert(f <= i);
            assert(marker(wires[f]) == marker(wires[j]));
        },
    }
}

proof fn lemma_first_marker(wires: Seq<Seq<char>>, m: Seq<char>, from: nat)
    requires
        from <= wires.len(),
    ensures
        from <= first_with_marker(wires, m, from) <= wires.len(),
        first_with_marker(wires, m, from) < wires.len() ==> marker(
            wires[first_with_marker(wires, m, from) as int],
        ) == m,
        forall|i: int|
            from <= i < first_with_marker(wires, m, from) ==> marker(#[trigger] wires[i]) != m,
    decreases wires.len() - from,
{
    if from < wires.len() && marker(wires[from as int]) != m {
        lemma_first_marker(wires, m, from + 1);
    }
}

} // verus!
