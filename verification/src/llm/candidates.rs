//! Units of code that a model proposes, and the gaps that it finds.
use crate::composer::decl::opt_text;
use crate::outside::{debug_of, debug_text};
use crate::text::{
    chars_of, digit, is_digit, is_lower, is_upper, lower, same_text, texts, trimmed, upper,
};
use vstd::prelude::*;

verus! {

/// A unit of code that a model proposes.
pub struct PromptCandidate {
    pub kind: String,
    pub name: String,
    pub driving_text: String,
    pub depends_on: Vec<String>,
}

#[verifier::ext_equal]
pub struct CandidateView {
    pub kind: Seq<char>,
    pub name: Seq<char>,
    pub driving_text: Seq<char>,
    pub depends_on: Seq<Seq<char>>,
}

impl View for PromptCandidate {
    type V = CandidateView;

    open spec fn view(&self) -> CandidateView {
        CandidateView {
            kind: self.kind@,
            name: self.name@,
            driving_text: self.driving_text@,
            depends_on: texts(self.depends_on@),
        }
    }
}

pub open spec fn candidate_views(list: Seq<PromptCandidate>) -> Seq<CandidateView> {
    list.map_values(|c: PromptCandidate| c@)
}

/// The kinds that a unit of code may have.
pub open spec fn is_candidate_kind(kind: Seq<char>) -> bool {
    kind == "fn"@ || kind == "struct"@ || kind == "enum"@ || kind == "screen"@
}

/// Whether a unit of code may have a kind.
pub fn known_kind(kind: &str) -> (r: bool)
    ensures
        r == is_candidate_kind(kind@),
{
    same_text(kind, "fn") || same_text(kind, "struct") || same_text(kind, "enum") || same_text(
        kind,
        "screen",
    )
}

pub open spec fn begins_name(c: char) -> bool {
    is_lower(c) || is_upper(c) || c == '_'
}

pub open spec fn continues_name(c: char) -> bool {
    begins_name(c) || is_digit(c)
}

/// A name: a letter or `_`, then letters, digits and `_`.
pub open spec fn legal_identifier(name: Seq<char>) -> bool {
    &&& name.len() > 0
    &&& begins_name(name[0])
    &&& forall|i: int| 0 <= i < name.len() ==> continues_name(#[trigger] name[i])
}

/// Whether a text is a name.
pub fn is_legal_identifier(name: &str) -> (r: bool)
    ensures
        r == legal_identifier(name@),
{
    let chars: Vec<char> = chars_of(name);
    if chars.len() == 0 {
        return false;
    }
    let first: char = chars[0];
    if !(lower(first) || upper(first) || first == '_') {
        return false;
    }
    let mut i: usize = 0;
    while i < chars.len()
        invariant
            i <= chars@.len(),
            chars@ == name@,
            forall|j: int| 0 <= j < i ==> continues_name(#[trigger] name@[j]),
        decreases chars@.len() - i,
    {
        let c: char = chars[i];
        if !(lower(c) || upper(c) || c == '_' || digit(c)) {
            assert(!continues_name(name@[i as int]));
            return false;
        }
        i += 1;
    }
    true
}

pub open spec fn illegal_kind(kind: Seq<char>, name: Seq<char>) -> Seq<char> {
    "the model proposed an illegal kind `"@
        + kind
        + "` for `"@
        + name
        + "` -- expected one of [\"fn\", \"struct\", \"enum\", \"screen\"]"@
}

fn say_illegal_kind(kind: &str, name: &str) -> (out: String)
    ensures
        out@ == illegal_kind(kind@, name@),
{
    let mut out: String = "the model proposed an illegal kind `".to_owned();
    out.append(kind);
    out.append("` for `");
    out.append(name);
    out.append("` -- expected one of [\"fn\", \"struct\", \"enum\", \"screen\"]");
    out
}

pub open spec fn illegal_name(name: Seq<char>, kind: Seq<char>) -> Seq<char> {
    "the model proposed `"@
        + name
        + "` as a "@
        + kind
        + " name, which isn't a legal Nirdosha identifier -- names must start with a letter or `_` \
    and contain only letters, digits, and `_`"@
}

fn say_illegal_name(name: &str, kind: &str) -> (out: String)
    ensures
        out@ == illegal_name(name@, kind@),
{
    let mut out: String = "the model proposed `".to_owned();
    out.append(name);
    out.append("` as a ");
    out.append(kind);
    out.append(" name, which isn't a legal Nirdosha identifier -- names must start with a letter or \
        `_` and contain only letters, digits, and `_`");
    out
}

pub open spec fn proposed_twice(kind: Seq<char>, name: Seq<char>) -> Seq<char> {
    "the model proposed `"@
        + kind
        + " "@
        + name
        + "` more than once in the same response -- ask again, or edit the candidate list by hand \
    before confirming"@
}

fn say_proposed_twice(kind: &str, name: &str) -> (out: String)
    ensures
        out@ == proposed_twice(kind@, name@),
{
    let mut out: String = "the model proposed `".to_owned();
    out.append(kind);
    out.append(" ");
    out.append(name);
    out.append("` more than once in the same response -- ask again, or edit the candidate list by \
        hand before confirming");
    out
}

/// An earlier candidate has the kind and the name of the `n`th.
pub open spec fn repeats(list: Seq<CandidateView>, n: int) -> bool {
    exists|j: int| 0 <= j < n && (#[trigger] list[j]).kind == list[n].kind && list[j].name == list[n].name
}

/// What is wrong with the `n`th candidate, if anything is.
pub open spec fn candidate_fault(list: Seq<CandidateView>, n: int) -> Option<Seq<char>> {
    let c = list[n];
    if !is_candidate_kind(c.kind) {
        Some(illegal_kind(c.kind, c.name))
    } else if !legal_identifier(c.name) {
        Some(illegal_name(c.name, c.kind))
    } else if repeats(list, n) {
        Some(proposed_twice(c.kind, c.name))
    } else {
        None
    }
}

/// What is wrong with the first of the candidates that something is wrong
/// with.
pub open spec fn candidates_fault(list: Seq<CandidateView>, from: int) -> Option<Seq<char>>
    decreases list.len() - from,
{
    if from >= list.len() {
        None
    } else if candidate_fault(list, from) is Some {
        candidate_fault(list, from)
    } else {
        candidates_fault(list, from + 1)
    }
}

fn proposed_before(candidates: &Vec<PromptCandidate>, n: usize) -> (r: bool)
    requires
        n < candidates@.len(),
    ensures
        r == repeats(candidate_views(candidates@), n as int),
{
    let ghost list = candidate_views(candidates@);
    let mut j: usize = 0;
    while j < n
        invariant
            j <= n < candidates@.len(),
            list == candidate_views(candidates@),
            forall|k: int|
                0 <= k < j ==> !((#[trigger] list[k]).kind == list[n as int].kind && list[k].name
                    == list[n as int].name),
        decreases n - j,
    {
        assert(list[j as int] == candidates@[j as int]@);
        assert(list[n as int] == candidates@[n as int]@);
        if same_text(candidates[j].kind.as_str(), candidates[n].kind.as_str()) && same_text(
            candidates[j].name.as_str(),
            candidates[n].name.as_str(),
        ) {
            return true;
        }
        j += 1;
    }
    false
}

/// Whether every candidate has a known kind and a legal name, and none is
/// proposed twice; else what is wrong with the first that is not so.
pub fn validate_candidates(candidates: &Vec<PromptCandidate>) -> (out: Result<(), String>)
    ensures
        match out {
            Ok(_) => candidates_fault(candidate_views(candidates@), 0) is None,
            Err(e) => candidates_fault(candidate_views(candidates@), 0) == Some(e@),
        },
{
    let ghost list = candidate_views(candidates@);
    let mut i: usize = 0;
    while i < candidates.len()
        invariant
            i <= candidates@.len(),
            list == candidate_views(candidates@),
            candidates_fault(list, 0) == candidates_fault(list, i as int),
        decreases candidates@.len() - i,
    {
        let c: &PromptCandidate = &candidates[i];
        assert(list[i as int] == c@);
        if !known_kind(c.kind.as_str()) {
            return Err(say_illegal_kind(c.kind.as_str(), c.name.as_str()));
        }
        if !is_legal_identifier(c.name.as_str()) {
            return Err(say_illegal_name(c.name.as_str(), c.kind.as_str()));
        }
        if proposed_before(candidates, i) {
            return Err(say_proposed_twice(c.kind.as_str(), c.name.as_str()));
        }
        i += 1;
    }
    Ok(())
}

/// Candidates that pass are units of code of known kinds with legal names, no
/// two alike.
pub proof fn law_valid_candidates(list: Seq<CandidateView>, i: int)
    requires
        candidates_fault(list, 0) is None,
        0 <= i < list.len(),
    ensures
        is_candidate_kind(list[i].kind),
        legal_identifier(list[i].name),
        forall|j: int|
            0 <= j < list.len() && j != i ==> (#[trigger] list[j]).kind != list[i].kind
                || list[j].name != list[i].name,
{
    lemma_no_fault(list, 0, i);
    assert forall|j: int| 0 <= j < list.len() && j != i implies (#[trigger] list[j]).kind
        != list[i].kind || list[j].name != list[i].name by {
        lemma_no_fault(list, 0, j);
        if j < i {
            assert(!repeats(list, i));
        } else {
            assert(!repeats(list, j));
            assert(list[i].kind != list[j].kind || list[i].name != list[j].name);
        }
    }
}

proof fn lemma_no_fault(list: Seq<CandidateView>, from: int, i: int)
    requires
        0 <= from <= i < list.len(),
        candidates_fault(list, from) is None,
    ensures
        candidate_fault(list, i) is None,
    decreases list.len() - from,
{
    if from < i {
        lemma_no_fault(list, from + 1, i);
    }
}

/// What to make of the candidates that a model's reply held.
pub fn accept_candidates(candidates: Vec<PromptCandidate>) -> (out: Result<
    Vec<PromptCandidate>,
    String,
>)
    ensures
        match out {
            Ok(list) => {
                &&& list@ == candidates@
                &&& candidates@.len() > 0
                &&& candidates_fault(candidate_views(candidates@), 0) is None
            },
            Err(e) => if candidates@.len() == 0 {
                e@ == "the model proposed no candidates for this prompt"@
            } else {
                candidates_fault(candidate_views(candidates@), 0) == Some(e@)
            },
        },
{
    if candidates.len() == 0 {
        return Err("the model proposed no candidates for this prompt".to_owned());
    }
    match validate_candidates(&candidates) {
        Err(e) => Err(e),
        Ok(_) => Ok(candidates),
    }
}

pub open spec fn no_candidates(error: Seq<char>, raw: Seq<char>) -> Seq<char> {
    "the model's response wasn't the expected JSON array of candidates: "@
        + error
        + " (raw response: "@
        + raw
        + ")"@
}

fn say_no_candidates(error: &str, raw: &str) -> (out: String)
    ensures
        out@ == no_candidates(error@, raw@),
{
    let mut out: String = "the model's response wasn't the expected JSON array of candidates: ".to_owned();
    out.append(error);
    out.append(" (raw response: ");
    out.append(raw);
    out.append(")");
    out
}

/// What to say of a reply that holds no list of candidates.
pub fn unreadable_candidates(error: &str, raw: &str) -> (out: String)
    ensures
        out@ == no_candidates(error@, super::chat::log_text(raw@)),
{
    say_no_candidates(error, super::chat::sanitize_for_log(raw).as_str())
}

pub open spec fn no_suggestions(error: Seq<char>, raw: Seq<char>) -> Seq<char> {
    "the model's response wasn't the expected JSON array of suggestions: "@
        + error
        + " (raw response: "@
        + raw
        + ")"@
}

fn say_no_suggestions(error: &str, raw: &str) -> (out: String)
    ensures
        out@ == no_suggestions(error@, raw@),
{
    let mut out: String = "the model's response wasn't the expected JSON array of suggestions: ".to_owned();
    out.append(error);
    out.append(" (raw response: ");
    out.append(raw);
    out.append(")");
    out
}

/// What to say of a reply that holds no list of suggestions.
pub fn unreadable_suggestions(error: &str, raw: &str) -> (out: String)
    ensures
        out@ == no_suggestions(error@, super::chat::log_text(raw@)),
{
    say_no_suggestions(error, super::chat::sanitize_for_log(raw).as_str())
}

/// A gap that a model finds in a project: an attribute that a unit lacks, or a
/// unit that is missing.
pub struct SuggestedItem {
    pub kind: String,
    pub target: String,
    pub unit_kind: Option<String>,
    pub reason: String,
    pub draft: String,
}

#[verifier::ext_equal]
pub struct SuggestionView {
    pub kind: Seq<char>,
    pub target: Seq<char>,
    pub unit_kind: Option<Seq<char>>,
    pub reason: Seq<char>,
    pub draft: Seq<char>,
}

impl View for SuggestedItem {
    type V = SuggestionView;

    open spec fn view(&self) -> SuggestionView {
        SuggestionView {
            kind: self.kind@,
            target: self.target@,
            unit_kind: opt_text(self.unit_kind),
            reason: self.reason@,
            draft: self.draft@,
        }
    }
}

pub open spec fn suggestion_views(list: Seq<SuggestedItem>) -> Seq<SuggestionView> {
    list.map_values(|s: SuggestedItem| s@)
}

pub open spec fn illegal_suggestion(kind: Seq<char>, target: Seq<char>) -> Seq<char> {
    "the model proposed an illegal suggestion kind `"@
        + kind
        + "` for `"@
        + target
        + "` -- expected `attribute` or `new_unit`"@
}

fn say_illegal_suggestion(kind: &str, target: &str) -> (out: String)
    ensures
        out@ == illegal_suggestion(kind@, target@),
{
    let mut out: String = "the model proposed an illegal suggestion kind `".to_owned();
    out.append(kind);
    out.append("` for `");
    out.append(target);
    out.append("` -- expected `attribute` or `new_unit`");
    out
}

pub open spec fn illegal_unit_kind(target: Seq<char>, kind: Seq<char>) -> Seq<char> {
    "the model proposed a `new_unit` suggestion for `"@
        + target
        + "` with illegal or missing unit_kind "@
        + kind
        + " -- expected one of [\"fn\", \"struct\", \"enum\", \"screen\"]"@
}

fn say_illegal_unit_kind(target: &str, kind: &str) -> (out: String)
    ensures
        out@ == illegal_unit_kind(target@, kind@),
{
    let mut out: String = "the model proposed a `new_unit` suggestion for `".to_owned();
    out.append(target);
    out.append("` with illegal or missing unit_kind ");
    out.append(kind);
    out.append(" -- expected one of [\"fn\", \"struct\", \"enum\", \"screen\"]");
    out
}

/// An optional text as `Debug` shows it.
pub open spec fn debug_option(o: Option<Seq<char>>) -> Seq<char> {
    match o {
        Some(s) => "Some("@ + debug_text(s) + ")"@,
        None => "None"@,
    }
}

fn show_option(o: &Option<String>) -> (out: String)
    ensures
        out@ == debug_option(opt_text(*o)),
{
    match o {
        Some(s) => {
            let mut out: String = "Some(".to_owned();
            out.append(debug_of(s.as_str()).as_str());
            out.append(")");
            out
        },
        None => "None".to_owned(),
    }
}

/// What is wrong with a suggestion, if anything is.
pub open spec fn suggestion_fault(s: SuggestionView) -> Option<Seq<char>> {
    if s.kind == "attribute"@ {
        None
    } else if s.kind == "new_unit"@ {
        match s.unit_kind {
            Some(k) => if is_candidate_kind(k) {
                None
            } else {
                Some(illegal_unit_kind(s.target, debug_option(s.unit_kind)))
            },
            None => Some(illegal_unit_kind(s.target, debug_option(s.unit_kind))),
        }
    } else {
        Some(illegal_suggestion(s.kind, s.target))
    }
}

/// What is wrong with the first of the suggestions that something is wrong
/// with.
pub open spec fn suggestions_fault(list: Seq<SuggestionView>, from: int) -> Option<Seq<char>>
    decreases list.len() - from,
{
    if from >= list.len() {
        None
    } else if suggestion_fault(list[from]) is Some {
        suggestion_fault(list[from])
    } else {
        suggestions_fault(list, from + 1)
    }
}

fn check_suggestion(item: &SuggestedItem) -> (out: Option<String>)
    ensures
        suggestion_fault(item@) == opt_text(out),
{
    proof {
        reveal_strlit("attribute");
        reveal_strlit("new_unit");
    }
    if same_text(item.kind.as_str(), "attribute") {
        return None;
    }
    if !same_text(item.kind.as_str(), "new_unit") {
        return Some(say_illegal_suggestion(item.kind.as_str(), item.target.as_str()));
    }
    let known: bool = match &item.unit_kind {
        Some(k) => known_kind(k.as_str()),
        None => false,
    };
    if known {
        None
    } else {
        Some(say_illegal_unit_kind(item.target.as_str(), show_option(&item.unit_kind).as_str()))
    }
}

/// Whether every suggestion is of a known shape; else what is wrong with the
/// first that is not.
pub fn validate_suggested_items(items: &Vec<SuggestedItem>) -> (out: Result<(), String>)
    ensures
        match out {
            Ok(_) => suggestions_fault(suggestion_views(items@), 0) is None,
            Err(e) => suggestions_fault(suggestion_views(items@), 0) == Some(e@),
        },
{
    let ghost list = suggestion_views(items@);
    let mut i: usize = 0;
    while i < items.len()
        invariant
            i <= items@.len(),
            list == suggestion_views(items@),
            suggestions_fault(list, 0) == suggestions_fault(list, i as int),
        decreases items@.len() - i,
    {
        assert(list[i as int] == items@[i as int]@);
        if let Some(e) = check_suggestion(&items[i]) {
            return Err(e);
        }
        i += 1;
    }
    Ok(())
}

/// Whether there is anything in a project to look for gaps in.
pub fn has_context(project_context: &str) -> (r: bool)
    ensures
        r == (trimmed(project_context@).len() > 0),
{
    !crate::text::trim(project_context).as_str().is_empty()
}

/// The kinds that a unit of code may have, and the names.
pub proof fn law_kinds_and_names(kind: Seq<char>, name: Seq<char>)
    ensures
        is_candidate_kind(kind) <==> seq!["fn"@, "struct"@, "enum"@, "screen"@].contains(kind),
        legal_identifier(name) <==> {
            &&& name.len() > 0
            &&& !('0' <= name[0] <= '9')
            &&& forall|i: int|
                0 <= i < name.len() ==> {
                    let c = #[trigger] name[i];
                    'a' <= c <= 'z' || 'A' <= c <= 'Z' || '0' <= c <= '9' || c == '_'
                }
        },
{
    let all = seq!["fn"@, "struct"@, "enum"@, "screen"@];
    assert(all[0] == "fn"@ && all[1] == "struct"@ && all[2] == "enum"@ && all[3] == "screen"@);
    if legal_identifier(name) {
        assert forall|i: int| 0 <= i < name.len() implies {
            let c = #[trigger] name[i];
            'a' <= c <= 'z' || 'A' <= c <= 'Z' || '0' <= c <= '9' || c == '_'
        } by {
            assert(continues_name(name[i]));
        }
    }
    if {
        &&& name.len() > 0
        &&& !('0' <= name[0] <= '9')
        &&& forall|i: int|
            0 <= i < name.len() ==> {
                let c = #[trigger] name[i];
                'a' <= c <= 'z' || 'A' <= c <= 'Z' || '0' <= c <= '9' || c == '_'
            }
    } {
        assert forall|i: int| 0 <= i < name.len() implies continues_name(#[trigger] name[i]) by {
            let c = name[i];
            assert('a' <= c <= 'z' || 'A' <= c <= 'Z' || '0' <= c <= '9' || c == '_');
        }
        assert(continues_name(name[0]));
    }
}

proof fn lemma_candidates_fault(list: Seq<CandidateView>, from: int)
    requires
        from >= 0,
    ensures
        candidates_fault(list, from) is None <==> forall|i: int|
            from <= i < list.len() ==> #[trigger] candidate_fault(list, i) is None,
        candidates_fault(list, from) matches Some(e) ==> exists|i: int|
            {
                &&& from <= i < list.len()
                &&& #[trigger] candidate_fault(list, i) == Some(e)
                &&& forall|j: int| from <= j < i ==> #[trigger] candidate_fault(list, j) is None
            },
    decreases list.len() - from,
{
    if from < list.len() {
        lemma_candidates_fault(list, from + 1);
        assert(candidate_fault(list, from) == candidate_fault(list, from));
    }
}

/// Candidates pass exactly where each has a known kind and a legal name, and no
/// two share both.
pub proof fn law_when_candidates_pass(list: Seq<CandidateView>)
    ensures
        candidates_fault(list, 0) is None <==> {
            &&& forall|i: int|
                0 <= i < list.len() ==> is_candidate_kind((#[trigger] list[i]).kind)
                    && legal_identifier(list[i].name)
            &&& forall|i: int, j: int|
                0 <= i < j < list.len() ==> (#[trigger] list[i]).kind != (#[trigger] list[j]).kind
                    || list[i].name != list[j].name
        },
        candidates_fault(list, 0) matches Some(e) ==> exists|i: int|
            {
                &&& 0 <= i < list.len()
                &&& #[trigger] candidate_fault(list, i) == Some(e)
                &&& forall|j: int| 0 <= j < i ==> #[trigger] candidate_fault(list, j) is None
            },
{
    lemma_candidates_fault(list, 0);
    if candidates_fault(list, 0) is None {
        assert forall|i: int| 0 <= i < list.len() implies is_candidate_kind(
            (#[trigger] list[i]).kind,
        ) && legal_identifier(list[i].name) by {
            assert(candidate_fault(list, i) is None);
        }
        assert forall|i: int, j: int| 0 <= i < j < list.len() implies (#[trigger] list[i]).kind != (
        #[trigger] list[j]).kind || list[i].name != list[j].name by {
            assert(candidate_fault(list, j) is None);
        }
    }
    if {
        &&& forall|i: int|
            0 <= i < list.len() ==> is_candidate_kind((#[trigger] list[i]).kind)
                && legal_identifier(list[i].name)
        &&& forall|i: int, j: int|
            0 <= i < j < list.len() ==> (#[trigger] list[i]).kind != (#[trigger] list[j]).kind
                || list[i].name != list[j].name
    } {
        assert forall|i: int| 0 <= i < list.len() implies #[trigger] candidate_fault(
            list,
            i,
        ) is None by {
            assert(is_candidate_kind(list[i].kind));
        }
    }
}

/// Suggestions pass exactly where each is for an attribute, or for a new unit of
/// a known kind.
pub proof fn law_when_suggestions_pass(list: Seq<SuggestionView>, from: int)
    requires
        from >= 0,
    ensures
        suggestions_fault(list, from) is None <==> forall|i: int|
            from <= i < list.len() ==> (#[trigger] list[i]).kind == "attribute"@ || (list[i].kind
                == "new_unit"@ && list[i].unit_kind is Some && is_candidate_kind(
                list[i].unit_kind->Some_0,
            )),
        suggestions_fault(list, from) matches Some(e) ==> exists|i: int|
            {
                &&& from <= i < list.len()
                &&& suggestion_fault(#[trigger] list[i]) == Some(e)
                &&& forall|j: int| from <= j < i ==> suggestion_fault(#[trigger] list[j]) is None
            },
    decreases list.len() - from,
{
    reveal_strlit("attribute");
    reveal_strlit("new_unit");
    assert("attribute"@.len() == 9);
    assert("new_unit"@.len() == 8);
    if from < list.len() {
        law_when_suggestions_pass(list, from + 1);
        assert(suggestion_fault(list[from]) == suggestion_fault(list[from]));
    }
}

/// What is said of a refused proposal names the unit and what is wrong with it.
pub proof fn law_what_is_said(a: Seq<char>, b: Seq<char>)
    ensures
        illegal_kind(a, b) == "the model proposed an illegal kind `"@ + a + "` for `"@ + b + "` -- expected one of [\"fn\", \"struct\", \"enum\", \"screen\"]"@,
        illegal_name(a, b) == "the model proposed `"@ + a + "` as a "@ + b + " name, which isn't a legal Nirdosha identifier -- names must start with a letter or `_` \
    and contain only letters, digits, and `_`"@,
        proposed_twice(a, b) == "the model proposed `"@ + a + " "@ + b + "` more than once in the same response -- ask again, or edit the candidate list by hand \
    before confirming"@,
        no_candidates(a, b) == "the model's response wasn't the expected JSON array of candidates: "@ + a + " (raw response: "@ + b + ")"@,
        no_suggestions(a, b) == "the model's response wasn't the expected JSON array of suggestions: "@ + a + " (raw response: "@ + b + ")"@,
        illegal_suggestion(a, b) == "the model proposed an illegal suggestion kind `"@ + a + "` for `"@ + b + "` -- expected `attribute` or `new_unit`"@,
        illegal_unit_kind(a, b) == "the model proposed a `new_unit` suggestion for `"@ + a + "` with illegal or missing unit_kind "@ + b + " -- expected one of [\"fn\", \"struct\", \"enum\", \"screen\"]"@,
{
}

} // verus!
