//! Advice on a failed attempt: what is known by heart, what proved useful
//! before, and what a model makes up.
use super::extract::{bracketed, extract_json_object};
use super::hints::{hint_for, self_repair_hint};
use crate::composer::decl::pairs;
use crate::json::{object_views, Json, JsonView};
use crate::lists::lemma_kept_next;
use crate::outside::{json_parsed, parse_json};
use crate::text::{
    copy_texts, distinct, distinct_texts, has_text, join, join_texts, law_distinct,
    law_distinct_step, law_joining, same_text, texts, texts_push, trim, trimmed,
};
use vstd::prelude::*;

verus! {

/// The patterns that a diagnostic is made of: those of its messages, each
/// once, or the whole of it where it has none.
pub open spec fn patterns_of(diagnostic: Seq<char>, normalized: Seq<Seq<char>>) -> Seq<Seq<char>> {
    if normalized.len() == 0 {
        seq![diagnostic]
    } else {
        distinct(normalized)
    }
}

/// The patterns that a diagnostic is made of. `normalized` are its messages,
/// freed of what differs from case to case.
pub fn hint_patterns(diagnostic: &str, normalized: &Vec<String>) -> (out: Vec<String>)
    ensures
        texts(out@) == patterns_of(diagnostic@, texts(normalized@)),
{
    broadcast use texts_push;

    assert(texts(normalized@).len() == normalized@.len());
    if normalized.len() == 0 {
        let mut out: Vec<String> = Vec::new();
        out.push(diagnostic.to_owned());
        assert(texts(out@) =~= seq![diagnostic@]);
        out
    } else {
        distinct_texts(normalized)
    }
}

/// What there is to say about some patterns, and those that nothing is known
/// about.
pub struct HintPlan {
    pub hints: Vec<String>,
    pub uncovered: Vec<String>,
}

pub open spec fn optional_texts(list: Seq<Option<String>>) -> Seq<Option<Seq<char>>> {
    list.map_values(|o: Option<String>| crate::composer::decl::opt_text(o))
}

/// What is known about a pattern: the advice learned by heart, else what proved
/// useful before.
pub open spec fn known_hint(pattern: Seq<char>, cached: Option<Seq<char>>) -> Option<Seq<char>> {
    if hint_for(pattern).len() > 0 {
        Some(trimmed(hint_for(pattern)))
    } else {
        match cached {
            Some(hint) => Some(trimmed(hint)),
            None => None,
        }
    }
}

/// What is known about the first `n` patterns.
pub open spec fn known_hints(
    patterns: Seq<Seq<char>>,
    cached: Seq<Option<Seq<char>>>,
    n: nat,
) -> Seq<Seq<char>>
    decreases n,
{
    if n == 0 {
        Seq::empty()
    } else {
        let before = known_hints(patterns, cached, (n - 1) as nat);
        match known_hint(patterns[n - 1], cached[n - 1]) {
            Some(hint) => before.push(hint),
            None => before,
        }
    }
}

/// Those of the first `n` patterns that nothing is known about.
pub open spec fn unknown(
    patterns: Seq<Seq<char>>,
    cached: Seq<Option<Seq<char>>>,
    n: nat,
) -> Seq<Seq<char>>
    decreases n,
{
    if n == 0 {
        Seq::empty()
    } else {
        let before = unknown(patterns, cached, (n - 1) as nat);
        match known_hint(patterns[n - 1], cached[n - 1]) {
            Some(_) => before,
            None => before.push(patterns[n - 1]),
        }
    }
}

/// What there is to say about some patterns. `cached` is what proved useful
/// before, pattern by pattern.
pub fn plan_hints(patterns: &Vec<String>, cached: &Vec<Option<String>>) -> (out: HintPlan)
    requires
        cached@.len() == patterns@.len(),
    ensures
        texts(out.hints@) == known_hints(
            texts(patterns@),
            optional_texts(cached@),
            patterns@.len(),
        ),
        texts(out.uncovered@) == unknown(
            texts(patterns@),
            optional_texts(cached@),
            patterns@.len(),
        ),
{
    broadcast use texts_push;

    let ghost views = texts(patterns@);
    let ghost before = optional_texts(cached@);
    let mut hints: Vec<String> = Vec::new();
    let mut uncovered: Vec<String> = Vec::new();
    let mut i: usize = 0;
    assert(texts(hints@) =~= Seq::<Seq<char>>::empty());
    assert(texts(uncovered@) =~= Seq::<Seq<char>>::empty());
    while i < patterns.len()
        invariant
            i <= patterns@.len(),
            cached@.len() == patterns@.len(),
            views == texts(patterns@),
            before == optional_texts(cached@),
            texts(hints@) == known_hints(views, before, i as nat),
            texts(uncovered@) == unknown(views, before, i as nat),
        decreases patterns@.len() - i,
    {
        assert(views[i as int] == patterns@[i as int]@);
        assert(before[i as int] == crate::composer::decl::opt_text(cached@[i as int]));
        let learned: &str = self_repair_hint(patterns[i].as_str());
        if !learned.is_empty() {
            hints.push(trim(learned));
        } else {
            match &cached[i] {
                Some(hint) => hints.push(trim(hint.as_str())),
                None => uncovered.push(patterns[i].clone()),
            }
        }
        i += 1;
    }
    HintPlan { hints, uncovered }
}

/// What a model made up about the first `n` patterns that nothing was known
/// about.
pub open spec fn made_up(synthesized: Seq<Option<Seq<char>>>, n: nat) -> Seq<Seq<char>>
    decreases n,
{
    if n == 0 {
        Seq::empty()
    } else {
        let before = made_up(synthesized, (n - 1) as nat);
        match synthesized[n - 1] {
            Some(hint) => before.push(trimmed(hint)),
            None => before,
        }
    }
}

/// Which pattern each made-up piece of advice is about.
pub open spec fn made_up_pairs(
    uncovered: Seq<Seq<char>>,
    synthesized: Seq<Option<Seq<char>>>,
    n: nat,
) -> Seq<(Seq<char>, Seq<char>)>
    decreases n,
{
    if n == 0 {
        Seq::empty()
    } else {
        let before = made_up_pairs(uncovered, synthesized, (n - 1) as nat);
        match synthesized[n - 1] {
            Some(hint) => before.push((uncovered[n - 1], trimmed(hint))),
            None => before,
        }
    }
}

/// All advice in one text, each piece once, behind a space.
pub open spec fn advice(hints: Seq<Seq<char>>) -> Seq<char> {
    let joined = join(distinct(hints), " "@);
    if joined.len() == 0 {
        joined
    } else {
        " "@ + joined
    }
}

/// The advice on a diagnostic, and what of it still has to prove useful.
pub struct Advice {
    pub text: String,
    pub provisional: Vec<(String, String)>,
}

/// The advice on a diagnostic, once a model was asked about the patterns that
/// nothing was known about. `synthesized` is what it made up, pattern by
/// pattern.
pub fn finish_hints(plan: &HintPlan, synthesized: &Vec<Option<String>>) -> (out: Advice)
    requires
        synthesized@.len() == plan.uncovered@.len(),
    ensures
        out.text@ == advice(
            texts(plan.hints@) + made_up(optional_texts(synthesized@), synthesized@.len()),
        ),
        pairs(out.provisional@) == made_up_pairs(
            texts(plan.uncovered@),
            optional_texts(synthesized@),
            synthesized@.len(),
        ),
{
    broadcast use texts_push;

    let ghost known = texts(plan.hints@);
    let ghost views = texts(plan.uncovered@);
    let ghost made = optional_texts(synthesized@);
    let mut hints: Vec<String> = copy_texts(&plan.hints);
    let mut provisional: Vec<(String, String)> = Vec::new();
    let mut i: usize = 0;
    assert(texts(hints@) =~= known + made_up(made, 0));
    assert(pairs(provisional@) =~= Seq::<(Seq<char>, Seq<char>)>::empty());
    while i < synthesized.len()
        invariant
            i <= synthesized@.len(),
            synthesized@.len() == plan.uncovered@.len(),
            known == texts(plan.hints@),
            views == texts(plan.uncovered@),
            made == optional_texts(synthesized@),
            texts(hints@) == known + made_up(made, i as nat),
            pairs(provisional@) == made_up_pairs(views, made, i as nat),
        decreases synthesized@.len() - i,
    {
        assert(views[i as int] == plan.uncovered@[i as int]@);
        assert(made[i as int] == crate::composer::decl::opt_text(synthesized@[i as int]));
        if let Some(hint) = &synthesized[i] {
            let hint: String = trim(hint.as_str());
            let ghost earlier = made_up(made, i as nat);
            assert((known + earlier).push(hint@) =~= known + earlier.push(hint@));
            let pattern: String = plan.uncovered[i].clone();
            let kept: String = hint.clone();
            assert(pairs(provisional@.push((pattern, kept))) =~= pairs(provisional@).push(
                (pattern@, kept@),
            ));
            hints.push(hint);
            provisional.push((pattern, kept));
        }
        i += 1;
    }
    let joined: String = join_texts(&distinct_texts(&hints), " ");
    let text: String = if joined.as_str().is_empty() {
        joined
    } else {
        let mut text: String = " ".to_owned();
        text.append(joined.as_str());
        text
    };
    Advice { text, provisional }
}

/// The patterns that a new diagnostic still shows. An empty diagnostic shows
/// none.
pub open spec fn still_present(diagnostic: Seq<char>, normalized: Seq<Seq<char>>) -> Seq<Seq<char>> {
    if normalized.len() > 0 {
        normalized
    } else if diagnostic.len() == 0 {
        Seq::empty()
    } else {
        seq![diagnostic]
    }
}

/// The pairs among the first `n` whose pattern is gone.
pub open spec fn cleared(
    provisional: Seq<(Seq<char>, Seq<char>)>,
    present: Seq<Seq<char>>,
    n: nat,
) -> Seq<(Seq<char>, Seq<char>)>
    decreases n,
{
    if n == 0 {
        Seq::empty()
    } else {
        let before = cleared(provisional, present, (n - 1) as nat);
        if present.contains(provisional[n - 1].0) {
            before
        } else {
            before.push(provisional[n - 1])
        }
    }
}

/// The advice that proved useful: the pattern that it was about is gone from
/// the new diagnostic. `normalized` are the messages of the new diagnostic,
/// freed of what differs from case to case.
pub fn validated_hints(
    provisional: &Vec<(String, String)>,
    new_diagnostic: &str,
    normalized: &Vec<String>,
) -> (out: Vec<(String, String)>)
    ensures
        pairs(out@) == cleared(
            pairs(provisional@),
            still_present(new_diagnostic@, texts(normalized@)),
            provisional@.len(),
        ),
{
    broadcast use texts_push;

    assert(texts(normalized@).len() == normalized@.len());
    let mut present: Vec<String> = copy_texts(normalized);
    if normalized.len() == 0 {
        assert(texts(present@) =~= Seq::<Seq<char>>::empty());
        if !new_diagnostic.is_empty() {
            present.push(new_diagnostic.to_owned());
            assert(texts(present@) =~= seq![new_diagnostic@]);
        }
    }
    let ghost gone = still_present(new_diagnostic@, texts(normalized@));
    let ghost views = pairs(provisional@);
    let mut out: Vec<(String, String)> = Vec::new();
    let mut i: usize = 0;
    assert(pairs(out@) =~= Seq::<(Seq<char>, Seq<char>)>::empty());
    while i < provisional.len()
        invariant
            i <= provisional@.len(),
            texts(present@) == gone,
            views == pairs(provisional@),
            pairs(out@) == cleared(views, gone, i as nat),
        decreases provisional@.len() - i,
    {
        assert(views[i as int] == (provisional@[i as int].0@, provisional@[i as int].1@));
        if !has_text(&present, provisional[i].0.as_str()) {
            let pattern: String = provisional[i].0.clone();
            let hint: String = provisional[i].1.clone();
            assert(pairs(out@.push((pattern, hint))) =~= pairs(out@).push((pattern@, hint@)));
            out.push((pattern, hint));
        }
        i += 1;
    }
    out
}

/// Advice is only kept if the pattern that it was about is gone: what the new
/// diagnostic still shows is never learned from.
pub proof fn law_only_what_helped_is_learned(
    provisional: Seq<(Seq<char>, Seq<char>)>,
    present: Seq<Seq<char>>,
    n: nat,
    i: int,
)
    requires
        n <= provisional.len(),
        0 <= i < cleared(provisional, present, n).len(),
    ensures
        !present.contains(cleared(provisional, present, n)[i].0),
        provisional.contains(cleared(provisional, present, n)[i]),
    decreases n,
{
    if n > 0 {
        let before = cleared(provisional, present, (n - 1) as nat);
        if i < before.len() {
            law_only_what_helped_is_learned(provisional, present, (n - 1) as nat, i);
        } else {
            assert(provisional[n - 1] == cleared(provisional, present, n)[i]);
        }
    }
}

/// An attempt without errors clears every pattern: all the advice that led to
/// it is learned.
pub proof fn law_success_learns_everything(provisional: Seq<(Seq<char>, Seq<char>)>, n: nat)
    requires
        n <= provisional.len(),
    ensures
        cleared(provisional, still_present(Seq::empty(), Seq::empty()), n) == provisional.take(
            n as int,
        ),
    decreases n,
{
    let present = still_present(Seq::<char>::empty(), Seq::<Seq<char>>::empty());
    if n > 0 {
        law_success_learns_everything(provisional, (n - 1) as nat);
        assert(!present.contains(provisional[n - 1].0));
        assert(provisional.take(n as int) =~= provisional.take(n - 1).push(provisional[n - 1]));
    } else {
        assert(provisional.take(0) =~= Seq::<(Seq<char>, Seq<char>)>::empty());
    }
}

/// What a model is told that it is when it is asked for advice.
pub const SYNTHESIS_SYSTEM: &'static str = "You are a precise Nirdosha language expert. Answer only from the reference text given; \
    never guess.";

/// What a model is asked for when nothing is known about a pattern.
pub const SYNTHESIS_TASK: &'static str = "You are helping debug a Nirdosha compiler diagnostic that a code-generation self-repair \
    loop hit and has no canned advice for yet. For EACH pattern below, write ONE short, \
    concrete, actionable sentence (or two) telling a model what it did wrong and exactly \
    how to rewrite its code -- the same style as an experienced engineer's inline comment, \
    grounded ONLY in the attached Nirdosha language reference excerpt(s), never invented. \
    Reply with ONLY a JSON object (no prose, no markdown fence) mapping each pattern's \
    exact text (as given) to its hint string.\n\n";

pub open spec fn pattern_entry(pattern: Seq<char>, excerpt: Seq<char>) -> Seq<char> {
    "Pattern: "@
        + pattern
        + "\nRelevant language reference:\n"@
        + excerpt
        + "\n\n"@
}

fn say_pattern_entry(pattern: &str, excerpt: &str) -> (out: String)
    ensures
        out@ == pattern_entry(pattern@, excerpt@),
{
    let mut out: String = "Pattern: ".to_owned();
    out.append(pattern);
    out.append("\nRelevant language reference:\n");
    out.append(excerpt);
    out.append("\n\n");
    out
}

/// The question about the first `n` patterns, each with what the language
/// reference says about it.
pub open spec fn synthesis(
    patterns: Seq<Seq<char>>,
    excerpts: Seq<Seq<char>>,
    n: nat,
) -> Seq<char>
    decreases n,
{
    if n == 0 {
        SYNTHESIS_TASK@
    } else {
        synthesis(patterns, excerpts, (n - 1) as nat) + pattern_entry(
            patterns[n - 1],
            excerpts[n - 1],
        )
    }
}

/// The question about some patterns, each with what the language reference says
/// about it.
pub fn synthesis_prompt(patterns: &Vec<String>, excerpts: &Vec<String>) -> (out: String)
    requires
        excerpts@.len() == patterns@.len(),
    ensures
        out@ == synthesis(texts(patterns@), texts(excerpts@), patterns@.len()),
{
    let ghost views = texts(patterns@);
    let ghost said = texts(excerpts@);
    let mut out: String = SYNTHESIS_TASK.to_owned();
    let mut i: usize = 0;
    while i < patterns.len()
        invariant
            i <= patterns@.len(),
            excerpts@.len() == patterns@.len(),
            views == texts(patterns@),
            said == texts(excerpts@),
            out@ == synthesis(views, said, i as nat),
        decreases patterns@.len() - i,
    {
        assert(views[i as int] == patterns@[i as int]@);
        assert(said[i as int] == excerpts@[i as int]@);
        out.append(say_pattern_entry(patterns[i].as_str(), excerpts[i].as_str()).as_str());
        i += 1;
    }
    out
}

/// Every value of an object is a text.
pub open spec fn all_texts(entries: Seq<(Seq<char>, JsonView)>) -> bool {
    forall|i: int| 0 <= i < entries.len() ==> (#[trigger] entries[i]).1 is Text
}

/// The last text under a key among the first `n` entries of an object.
pub open spec fn last_text(
    entries: Seq<(Seq<char>, JsonView)>,
    key: Seq<char>,
    n: nat,
) -> Option<Seq<char>>
    decreases n,
{
    if n == 0 {
        None
    } else if entries[n - 1].0 == key {
        match entries[n - 1].1 {
            JsonView::Text(text) => Some(text),
            _ => None,
        }
    } else {
        last_text(entries, key, (n - 1) as nat)
    }
}

/// The hint that a reply gives for a pattern: none where the reply cannot be
/// read or is no object of texts, and none where the pattern is missing.
pub open spec fn hint_in(reply: Result<JsonView, Seq<char>>, pattern: Seq<char>) -> Option<
    Seq<char>,
> {
    match reply {
        Ok(JsonView::Object(entries)) => if all_texts(entries) {
            last_text(entries, pattern, entries.len())
        } else {
            None
        },
        _ => None,
    }
}

/// The hints that a reply gives, pattern by pattern.
pub open spec fn hints_in(reply: Result<JsonView, Seq<char>>, patterns: Seq<Seq<char>>) -> Seq<
    Option<Seq<char>>,
> {
    patterns.map_values(|p: Seq<char>| hint_in(reply, p))
}

fn holds_texts(entries: &Vec<(String, Json)>) -> (r: bool)
    ensures
        r == all_texts(object_views(entries@)),
{
    let ghost views = object_views(entries@);
    proof {
        crate::json::lemma_object_views(entries@);
    }
    let mut i: usize = 0;
    while i < entries.len()
        invariant
            i <= entries@.len(),
            views == object_views(entries@),
            views.len() == entries@.len(),
            forall|j: int| 0 <= j < i ==> (#[trigger] views[j]).1 is Text,
        decreases entries@.len() - i,
    {
        proof {
            crate::json::lemma_object_entry(entries@, i as int);
        }
        match &entries[i].1 {
            Json::Text(_) => {},
            _ => {
                assert(!(views[i as int].1 is Text));
                return false;
            },
        }
        i += 1;
    }
    true
}

fn find_last(entries: &Vec<(String, Json)>, key: &str) -> (out: Option<String>)
    ensures
        crate::composer::decl::opt_text(out) == last_text(
            object_views(entries@),
            key@,
            entries@.len(),
        ),
{
    let ghost views = object_views(entries@);
    let mut i: usize = entries.len();
    while i > 0
        invariant
            i <= entries@.len(),
            views == object_views(entries@),
            last_text(views, key@, entries@.len()) == last_text(views, key@, i as nat),
        decreases i,
    {
        proof {
            crate::json::lemma_object_entry(entries@, i as int - 1);
        }
        i -= 1;
        if same_text(entries[i].0.as_str(), key) {
            return match &entries[i].1 {
                Json::Text(text) => Some(text.clone()),
                _ => None,
            };
        }
    }
    None
}

/// The hints that a reply gives, pattern by pattern, once it has been read.
pub fn hints_of(reply: &Json, patterns: &Vec<String>) -> (out: Vec<Option<String>>)
    ensures
        out@.len() == patterns@.len(),
        optional_texts(out@) == hints_in(Ok(reply@), texts(patterns@)),
{
    let ghost views = texts(patterns@);
    let ghost wanted = hints_in(Ok(reply@), views);
    let mut out: Vec<Option<String>> = Vec::new();
    let mut i: usize = 0;
    assert(views.len() == patterns@.len());
    assert(optional_texts(out@) =~= wanted.take(0));
    while i < patterns.len()
        invariant
            i <= patterns@.len(),
            i == out@.len(),
            views == texts(patterns@),
            views.len() == patterns@.len(),
            wanted == hints_in(Ok(reply@), views),
            optional_texts(out@) == wanted.take(i as int),
        decreases patterns@.len() - i,
    {
        assert(views[i as int] == patterns@[i as int]@);
        let hint: Option<String> = match reply {
            Json::Object(entries) => {
                proof {
                    crate::json::lemma_object_views(entries@);
                }
                if holds_texts(entries) {
                    find_last(entries, patterns[i].as_str())
                } else {
                    None
                }
            },
            _ => None,
        };
        assert(crate::composer::decl::opt_text(hint) == wanted[i as int]);
        let ghost before = optional_texts(out@);
        let ghost view = crate::composer::decl::opt_text(hint);
        out.push(hint);
        assert(optional_texts(out@) =~= before.push(view));
        assert(wanted.take(i as int + 1) =~= wanted.take(i as int).push(wanted[i as int]));
        i += 1;
    }
    assert(wanted.take(i as int) =~= wanted);
    out
}

/// The hints in a model's reply, pattern by pattern.
pub fn read_hints(raw: &str, patterns: &Vec<String>) -> (out: Vec<Option<String>>)
    ensures
        out@.len() == patterns@.len(),
        optional_texts(out@) == hints_in(
            json_parsed(bracketed(raw@, '{', '}')),
            texts(patterns@),
        ),
{
    // A reply that cannot be read gives no more than null does.
    match parse_json(extract_json_object(raw).as_str()) {
        Ok(reply) => hints_of(&reply, patterns),
        Err(_) => {
            let out: Vec<Option<String>> = hints_of(&Json::Null, patterns);
            proof {
                let views = texts(patterns@);
                let parsed = json_parsed(bracketed(raw@, '{', '}'));
                assert(hints_in(Ok(JsonView::Null), views) =~= hints_in(parsed, views));
            }
            out
        },
    }
}

/// A reply that cannot be read, or is no object of texts, gives no hint for any
/// pattern; one that is gives none for a pattern that it does not name.
pub proof fn law_no_hint_without_an_entry(reply: Result<JsonView, Seq<char>>, pattern: Seq<char>)
    requires
        hint_in(reply, pattern) is Some,
    ensures
        reply matches Ok(JsonView::Object(entries)) && all_texts(entries) && entries.contains(
            (pattern, JsonView::Text(hint_in(reply, pattern)->Some_0)),
        ),
{
    let entries = reply->Ok_0->Object_0;
    lemma_last_text(entries, pattern, entries.len());
}

proof fn lemma_last_text(entries: Seq<(Seq<char>, JsonView)>, key: Seq<char>, n: nat)
    requires
        n <= entries.len(),
        last_text(entries, key, n) is Some,
    ensures
        entries.contains((key, JsonView::Text(last_text(entries, key, n)->Some_0))),
    decreases n,
{
    if entries[n - 1].0 == key {
        assert(entries[n - 1] == (key, JsonView::Text(last_text(entries, key, n)->Some_0)));
    } else {
        lemma_last_text(entries, key, (n - 1) as nat);
    }
}

/// The patterns of a diagnostic are its messages, none of them twice; a
/// diagnostic without messages is its own pattern.
pub proof fn law_which_patterns_there_are(
    diagnostic: Seq<char>,
    normalized: Seq<Seq<char>>,
    p: Seq<char>,
)
    ensures
        patterns_of(diagnostic, normalized).contains(p) <==> normalized.contains(p) || (
        normalized.len() == 0 && p == diagnostic),
        forall|i: int, j: int|
            0 <= i < j < patterns_of(diagnostic, normalized).len() ==> (
            #[trigger] patterns_of(diagnostic, normalized)[i]) != (
            #[trigger] patterns_of(diagnostic, normalized)[j]),
{
    if normalized.len() == 0 {
        assert(seq![diagnostic][0] == diagnostic);
    } else {
        law_distinct(normalized);
        if distinct(normalized).contains(p) {
            let k = choose|k: int| 0 <= k < distinct(normalized).len() && distinct(normalized)[k] == p;
            assert(normalized.contains(distinct(normalized)[k]));
        }
        if normalized.contains(p) {
            let k = choose|k: int| 0 <= k < normalized.len() && normalized[k] == p;
            assert(distinct(normalized).contains(normalized[k]));
        }
    }
}

/// Every pattern that something is known about contributes one piece of advice,
/// in the patterns' order: what is known by heart, and what proved useful before
/// only where nothing is. The patterns left over are the others.
pub proof fn law_every_pattern_is_heard(
    patterns: Seq<Seq<char>>,
    cached: Seq<Option<Seq<char>>>,
    n: nat,
)
    requires
        patterns.len() == cached.len(),
        n <= patterns.len(),
    ensures
        known_hints(patterns, cached, n) == patterns.zip_with(cached).take(n as int).filter_map(
            |p: (Seq<char>, Option<Seq<char>>)|
                if hint_for(p.0) != Seq::<char>::empty() {
                    Some(trimmed(hint_for(p.0)))
                } else if p.1 is Some {
                    Some(trimmed(p.1->Some_0))
                } else {
                    None
                },
        ),
        unknown(patterns, cached, n) == patterns.zip_with(cached).take(n as int).filter_map(
            |p: (Seq<char>, Option<Seq<char>>)|
                if hint_for(p.0) == Seq::<char>::empty() && p.1 is None {
                    Some(p.0)
                } else {
                    None
                },
        ),
        known_hints(patterns, cached, n).len() + unknown(patterns, cached, n).len() == n,
    decreases n,
{
    let all = patterns.zip_with(cached);
    let known = |p: (Seq<char>, Option<Seq<char>>)|
        if hint_for(p.0) != Seq::<char>::empty() {
            Some(trimmed(hint_for(p.0)))
        } else if p.1 is Some {
            Some(trimmed(p.1->Some_0))
        } else {
            None
        };
    let open = |p: (Seq<char>, Option<Seq<char>>)|
        if hint_for(p.0) == Seq::<char>::empty() && p.1 is None {
            Some(p.0)
        } else {
            None
        };
    if n == 0 {
        assert(all.take(0) =~= Seq::empty());
        assert(all.take(0).filter_map(known) =~= Seq::empty());
        assert(all.take(0).filter_map(open) =~= Seq::empty());
    } else {
        law_every_pattern_is_heard(patterns, cached, (n - 1) as nat);
        lemma_kept_next(all, known, n - 1);
        lemma_kept_next(all, open, n - 1);
        assert(all[n - 1] == (patterns[n - 1], cached[n - 1]));
        let hint = hint_for(patterns[n - 1]);
        if hint.len() == 0 {
            assert(hint =~= Seq::empty());
        }
    }
}

/// What a model made up is kept without the white space around it, next to the
/// pattern that it was asked about; what it left out is passed over.
pub proof fn law_what_was_made_up(
    uncovered: Seq<Seq<char>>,
    synthesized: Seq<Option<Seq<char>>>,
    n: nat,
)
    requires
        uncovered.len() == synthesized.len(),
        n <= uncovered.len(),
    ensures
        made_up_pairs(uncovered, synthesized, n) == uncovered.zip_with(synthesized).take(
            n as int,
        ).filter_map(
            |p: (Seq<char>, Option<Seq<char>>)|
                match p.1 {
                    Some(hint) => Some((p.0, trimmed(hint))),
                    None => None,
                },
        ),
        made_up(synthesized, n) == made_up_pairs(uncovered, synthesized, n).map_values(
            |p: (Seq<char>, Seq<char>)| p.1,
        ),
    decreases n,
{
    let all = uncovered.zip_with(synthesized);
    let kept = |p: (Seq<char>, Option<Seq<char>>)|
        match p.1 {
            Some(hint) => Some((p.0, trimmed(hint))),
            None => None,
        };
    if n == 0 {
        assert(all.take(0) =~= Seq::empty());
        assert(all.take(0).filter_map(kept) =~= Seq::empty());
    } else {
        law_what_was_made_up(uncovered, synthesized, (n - 1) as nat);
        lemma_kept_next(all, kept, n - 1);
        assert(all[n - 1] == (uncovered[n - 1], synthesized[n - 1]));
    }
    assert(made_up(synthesized, n) =~= made_up_pairs(uncovered, synthesized, n).map_values(
        |p: (Seq<char>, Seq<char>)| p.1,
    ));
}

/// Without advice there is no text. A piece of advice that was given is not
/// given again; a new one is written at the end, behind a space.
pub proof fn law_every_advice_is_given_once(hints: Seq<Seq<char>>, hint: Seq<char>)
    ensures
        advice(Seq::empty()) == Seq::<char>::empty(),
        hint.len() > 0 ==> advice(seq![hint]) == seq![' '] + hint,
        hints.contains(hint) ==> advice(hints.push(hint)) == advice(hints),
        !hints.contains(hint) && advice(hints).len() > 0 ==> advice(hints.push(hint)) == advice(
            hints,
        ) + seq![' '] + hint,
{
    reveal_strlit(" ");
    assert(" "@ =~= seq![' ']);
    law_distinct_step(hints, hint);
    law_distinct_step(Seq::empty(), hint);
    assert(Seq::<Seq<char>>::empty().push(hint) =~= seq![hint]);
    law_joining(distinct(hints), seq![hint], " "@);
    law_joining(seq![hint], seq![hint], " "@);
    assert(join(seq![hint], " "@) == hint);
    assert(distinct(hints).push(hint) =~= distinct(hints) + seq![hint]);
    if !hints.contains(hint) && advice(hints).len() > 0 {
        if distinct(hints).len() == 0 {
            assert(distinct(hints) =~= Seq::empty());
        }
        assert(" "@ + (join(distinct(hints), " "@) + " "@ + hint) =~= (" "@ + join(
            distinct(hints),
            " "@,
        )) + " "@ + hint);
    }
}

/// A pattern is gone from a diagnostic unless it is one of its messages, or the
/// whole of it where it has none.
pub proof fn law_which_patterns_are_left(
    diagnostic: Seq<char>,
    normalized: Seq<Seq<char>>,
    p: Seq<char>,
)
    ensures
        still_present(diagnostic, normalized).contains(p) <==> normalized.contains(p) || (
        normalized.len() == 0 && p == diagnostic && p != Seq::<char>::empty()),
{
    if normalized.len() == 0 {
        if diagnostic.len() == 0 {
            assert(diagnostic =~= Seq::empty());
        } else {
            assert(seq![diagnostic][0] == diagnostic);
        }
    }
}

/// All the advice is learned whose pattern is gone, in the order in which it was
/// given, and no other.
pub proof fn law_what_is_learned(
    provisional: Seq<(Seq<char>, Seq<char>)>,
    present: Seq<Seq<char>>,
    n: nat,
)
    requires
        n <= provisional.len(),
    ensures
        cleared(provisional, present, n) == provisional.take(n as int).filter(
            |p: (Seq<char>, Seq<char>)| !present.contains(p.0),
        ),
    decreases n,
{
    let gone = |p: (Seq<char>, Seq<char>)| !present.contains(p.0);
    reveal(Seq::filter);
    if n == 0 {
        assert(provisional.take(0).filter(gone) =~= Seq::empty());
    } else {
        law_what_is_learned(provisional, present, (n - 1) as nat);
        assert(provisional.take(n as int).drop_last() =~= provisional.take(n - 1));
        assert(provisional.take(n as int).last() == provisional[n - 1]);
    }
}

/// A model is told of one pattern after the other, each with what the language
/// reference says about it, behind the task.
pub proof fn law_every_pattern_is_asked_about(
    patterns: Seq<Seq<char>>,
    excerpts: Seq<Seq<char>>,
    n: nat,
)
    requires
        n < patterns.len(),
        patterns.len() == excerpts.len(),
    ensures
        synthesis(patterns, excerpts, 0) == SYNTHESIS_TASK@,
        synthesis(patterns, excerpts, n + 1) == synthesis(patterns, excerpts, n) + "Pattern: "@
            + patterns[n as int] + "\nRelevant language reference:\n"@ + excerpts[n as int]
            + "\n\n"@,
{
    assert(synthesis(patterns, excerpts, n + 1) =~= synthesis(patterns, excerpts, n)
        + "Pattern: "@ + patterns[n as int] + "\nRelevant language reference:\n"@
        + excerpts[n as int] + "\n\n"@);
}

/// A reply gives a hint for a pattern where it is an object of texts with such
/// an entry; the last entry counts. Of every other reply nothing is taken.
pub proof fn law_which_hint_a_reply_gives(
    reply: Result<JsonView, Seq<char>>,
    entries: Seq<(Seq<char>, JsonView)>,
    pattern: Seq<char>,
    k: int,
)
    ensures
        !(reply matches Ok(JsonView::Object(_))) ==> hint_in(reply, pattern) is None,
        reply == Ok::<JsonView, Seq<char>>(JsonView::Object(entries)) && (exists|i: int|
            0 <= i < entries.len() && !((#[trigger] entries[i]).1 is Text)) ==> hint_in(
            reply,
            pattern,
        ) is None,
        reply == Ok::<JsonView, Seq<char>>(JsonView::Object(entries)) && (forall|i: int|
            0 <= i < entries.len() ==> (#[trigger] entries[i]).0 != pattern) ==> hint_in(
            reply,
            pattern,
        ) is None,
        reply == Ok::<JsonView, Seq<char>>(JsonView::Object(entries)) && (forall|i: int|
            0 <= i < entries.len() ==> (#[trigger] entries[i]).1 is Text) && 0 <= k < entries.len()
            && entries[k].0 == pattern && (forall|i: int|
            k < i < entries.len() ==> (#[trigger] entries[i]).0 != pattern) ==> hint_in(
            reply,
            pattern,
        ) == Some(entries[k].1->Text_0),
{
    lemma_which_text(entries, pattern, entries.len(), k);
}

proof fn lemma_which_text(entries: Seq<(Seq<char>, JsonView)>, key: Seq<char>, n: nat, k: int)
    requires
        n <= entries.len(),
    ensures
        (forall|i: int| 0 <= i < n ==> (#[trigger] entries[i]).0 != key) ==> last_text(
            entries,
            key,
            n,
        ) is None,
        0 <= k < n && entries[k].0 == key && entries[k].1 is Text && (forall|i: int|
            k < i < n ==> (#[trigger] entries[i]).0 != key) ==> last_text(entries, key, n) == Some(
            entries[k].1->Text_0,
        ),
    decreases n,
{
    if n > 0 {
        lemma_which_text(entries, key, (n - 1) as nat, k);
        assert(entries[n - 1] == entries[n - 1]);
    }
}

/// The hints of a reply are told pattern by pattern, in the patterns' order.
pub proof fn law_hints_follow_the_patterns(
    reply: Result<JsonView, Seq<char>>,
    patterns: Seq<Seq<char>>,
)
    ensures
        hints_in(reply, patterns).len() == patterns.len(),
        forall|i: int|
            0 <= i < patterns.len() ==> #[trigger] hints_in(reply, patterns)[i] == hint_in(
                reply,
                patterns[i],
            ),
{
}

} // verus!
