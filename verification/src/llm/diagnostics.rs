//! Diagnostics, as they are written and as they are read back.
use super::extract::{bracketed, extract_json_array};
use crate::json::{list_views, text_member, Fields, Json, JsonView};
use crate::lists::{lemma_flat_next, lemma_kept_next, push_has};
use crate::outside::{json_document, json_parsed, json_to_string, parse_json};
use crate::text::{
    before_char, before_text, cut_text, decimal, decimal_text, lines, lines_of, parse_u64,
    parsed_u64, split_once_text, texts, texts_push, trim, trimmed, up_to_char, up_to_text,
};
use vstd::prelude::*;

verus! {

/// What stands behind the first mark of a position in a line of a diagnostic.
pub open spec fn behind_mark(line: Seq<char>) -> Option<Seq<char>> {
    match cut_text(line, " at "@) {
        Some((_, rest)) => Some(rest),
        None => match cut_text(line, "type error: "@) {
            Some((_, rest)) => Some(rest),
            None => match cut_text(line, "ownership error: "@) {
                Some((_, rest)) => Some(rest),
                None => None,
            },
        },
    }
}

/// The line number that a line of a diagnostic points at.
pub open spec fn pointed_line(line: Seq<char>) -> Option<nat> {
    match behind_mark(line) {
        None => None,
        Some(rest) => match parsed_u64(trimmed(before_char(rest, ':'))) {
            Some(n) => if 1 <= n <= usize::MAX {
                Some(n)
            } else {
                None
            },
            None => None,
        },
    }
}

/// The line numbers that the first `n` lines of a diagnostic point at, each
/// once.
pub open spec fn pointed_lines(all: Seq<Seq<char>>, n: nat) -> Seq<nat>
    decreases n,
{
    if n == 0 {
        Seq::empty()
    } else {
        let before = pointed_lines(all, (n - 1) as nat);
        match pointed_line(all[n - 1]) {
            Some(v) => if before.contains(v) {
                before
            } else {
                before.push(v)
            },
            None => before,
        }
    }
}

pub open spec fn naturals(list: Seq<usize>) -> Seq<nat> {
    list.map_values(|n: usize| n as nat)
}

fn read_line(line: &str) -> (out: Option<usize>)
    ensures
        match out {
            Some(n) => pointed_line(line@) == Some(n as nat),
            None => pointed_line(line@) is None,
        },
{
    let rest: String = match split_once_text(line, " at ") {
        Some((_, rest)) => rest,
        None => match split_once_text(line, "type error: ") {
            Some((_, rest)) => rest,
            None => match split_once_text(line, "ownership error: ") {
                Some((_, rest)) => rest,
                None => {
                    return None;
                },
            },
        },
    };
    match parse_u64(trim(up_to_char(rest.as_str(), ':').as_str()).as_str()) {
        Some(n) => if n >= 1 && n <= usize::MAX as u64 {
            Some(n as usize)
        } else {
            None
        },
        None => None,
    }
}

fn has_number(list: &Vec<usize>, n: usize) -> (r: bool)
    ensures
        r == naturals(list@).contains(n as nat),
{
    let mut i: usize = 0;
    while i < list.len()
        invariant
            i <= list@.len(),
            forall|j: int| 0 <= j < i ==> naturals(list@)[j] != n as nat,
        decreases list@.len() - i,
    {
        if list[i] == n {
            assert(naturals(list@)[i as int] == n as nat);
            return true;
        }
        i += 1;
    }
    false
}

/// The line numbers that a diagnostic points at, each once, in order.
pub fn diagnostic_line_numbers(diagnostic: &str) -> (out: Vec<usize>)
    ensures
        naturals(out@) == pointed_lines(lines(diagnostic@), lines(diagnostic@).len()),
{
    let all: Vec<String> = lines_of(diagnostic);
    let ghost views = lines(diagnostic@);
    let mut out: Vec<usize> = Vec::new();
    let mut i: usize = 0;
    assert(naturals(out@) =~= Seq::<nat>::empty());
    while i < all.len()
        invariant
            i <= all@.len(),
            texts(all@) == views,
            naturals(out@) == pointed_lines(views, i as nat),
        decreases all@.len() - i,
    {
        assert(views[i as int] == all@[i as int]@);
        if let Some(n) = read_line(all[i].as_str()) {
            if !has_number(&out, n) {
                assert(naturals(out@.push(n)) =~= naturals(out@).push(n as nat));
                out.push(n);
            }
        }
        i += 1;
    }
    assert(texts(all@).len() == all@.len());
    out
}

pub open spec fn position_json(n: Option<usize>) -> JsonView {
    match n {
        Some(n) => JsonView::Number(decimal(n as nat)),
        None => JsonView::Null,
    }
}

/// An error for a program to read.
pub open spec fn error_json(
    stage: Seq<char>,
    line: Option<usize>,
    col: Option<usize>,
    message: Seq<char>,
) -> JsonView {
    JsonView::Object(
        seq![
            ("stage"@, JsonView::Text(stage)),
            ("line"@, position_json(line)),
            ("col"@, position_json(col)),
            ("message"@, JsonView::Text(message)),
        ],
    )
}

fn write_position(n: Option<usize>) -> (out: Json)
    ensures
        out@ == position_json(n),
{
    match n {
        Some(n) => Json::Number(decimal_text(n as u64)),
        None => Json::Null,
    }
}

/// An error for a program to read.
pub fn machine_error(stage: &str, line: Option<usize>, col: Option<usize>, message: &str) -> (out:
    String)
    ensures
        out@ == json_document(error_json(stage@, line, col, message@)),
{
    let mut fields: Fields = Fields::new();
    fields.put_text("stage", stage);
    fields.put("line", write_position(line));
    fields.put("col", write_position(col));
    fields.put_text("message", message);
    assert(fields@ =~= error_json(stage@, line, col, message@)->Object_0);
    json_to_string(&fields.object())
}

pub open spec fn source_line(n: Seq<char>, text: Seq<char>) -> Seq<char> {
    "\n  the source line that points at (line "@
        + n
        + ") is: `"@
        + text
        + "`"@
}

fn say_source_line(n: &str, text: &str) -> (out: String)
    ensures
        out@ == source_line(n@, text@),
{
    let mut out: String = "\n  the source line that points at (line ".to_owned();
    out.append(n);
    out.append(") is: `");
    out.append(text);
    out.append("`");
    out
}

/// The source lines that the first `n` of some line numbers stand for, behind a
/// diagnostic. A number beyond the source adds nothing.
pub open spec fn with_lines(
    diagnostic: Seq<char>,
    source: Seq<Seq<char>>,
    numbers: Seq<nat>,
    n: nat,
) -> Seq<char>
    decreases n,
{
    if n == 0 {
        diagnostic
    } else {
        let before = with_lines(diagnostic, source, numbers, (n - 1) as nat);
        let line = numbers[n - 1];
        if line <= source.len() {
            before + source_line(decimal(line), source[line - 1])
        } else {
            before
        }
    }
}

/// At most three.
pub open spec fn up_to_three(n: nat) -> nat {
    if n < 3 {
        n
    } else {
        3
    }
}

/// A diagnostic with the first three source lines that its prose points at.
pub open spec fn attached(source: Seq<char>, diagnostic: Seq<char>) -> Seq<char> {
    let prose = lines(before_text(diagnostic, "\nmachine-readable errors:"@));
    let numbers = pointed_lines(prose, prose.len());
    with_lines(diagnostic, lines(source), numbers, up_to_three(numbers.len()))
}

proof fn lemma_pointed_lines_positive(all: Seq<Seq<char>>, n: nat, i: int)
    requires
        0 <= i < pointed_lines(all, n).len(),
    ensures
        pointed_lines(all, n)[i] >= 1,
    decreases n,
{
    if n > 0 {
        let before = pointed_lines(all, (n - 1) as nat);
        if i < before.len() {
            lemma_pointed_lines_positive(all, (n - 1) as nat, i);
        }
    }
}

/// A diagnostic with the source lines that it points at.
pub fn attach_source_lines(source: &str, diagnostic: &str) -> (out: String)
    ensures
        out@ == attached(source@, diagnostic@),
{
    let all: Vec<String> = lines_of(source);
    let prose: String = up_to_text(diagnostic, "\nmachine-readable errors:");
    let numbers: Vec<usize> = diagnostic_line_numbers(prose.as_str());
    let ghost views = naturals(numbers@);
    let mut out: String = diagnostic.to_owned();
    let most: usize = if numbers.len() < 3 {
        numbers.len()
    } else {
        3
    };
    assert(views.len() == numbers@.len());
    assert(texts(all@).len() == all@.len());
    let mut i: usize = 0;
    while i < most
        invariant
            i <= most <= numbers@.len(),
            views == naturals(numbers@),
            views == pointed_lines(lines(prose@), lines(prose@).len()),
            texts(all@) == lines(source@),
            texts(all@).len() == all@.len(),
            out@ == with_lines(diagnostic@, lines(source@), views, i as nat),
        decreases most - i,
    {
        let n: usize = numbers[i];
        assert(views[i as int] == n as nat);
        proof {
            lemma_pointed_lines_positive(lines(prose@), lines(prose@).len(), i as int);
        }
        if n <= all.len() {
            assert(texts(all@)[n - 1] == all@[n - 1]@);
            out.append(say_source_line(decimal_text(n as u64).as_str(), all[n - 1].as_str()).as_str());
        }
        i += 1;
    }
    out
}

/// The messages among the first `n` entries of a list of errors.
pub open spec fn messages_of(entries: Seq<JsonView>, n: nat) -> Seq<Seq<char>>
    decreases n,
{
    if n == 0 {
        Seq::empty()
    } else {
        let before = messages_of(entries, (n - 1) as nat);
        match text_member(entries[n - 1], "message"@) {
            Some(m) => before.push(m),
            None => before,
        }
    }
}

/// The messages in the machine-readable part of a diagnostic; none where it has
/// no such part, or one that is no list.
pub open spec fn diagnostic_messages(diagnostic: Seq<char>) -> Seq<Seq<char>> {
    match cut_text(diagnostic, "machine-readable errors:"@) {
        None => Seq::empty(),
        Some((_, tail)) => match json_parsed(bracketed(tail, '[', ']')) {
            Ok(JsonView::List(entries)) => messages_of(entries, entries.len()),
            _ => Seq::empty(),
        },
    }
}

/// The messages among a list of errors.
pub fn collect_messages(entries: &Vec<Json>) -> (out: Vec<String>)
    ensures
        texts(out@) == messages_of(list_views(entries@), list_views(entries@).len()),
{
    broadcast use texts_push;

    let ghost views = list_views(entries@);
    proof {
        crate::json::lemma_list_len(entries@);
    }
    let mut out: Vec<String> = Vec::new();
    let mut i: usize = 0;
    assert(texts(out@) =~= Seq::<Seq<char>>::empty());
    while i < entries.len()
        invariant
            i <= entries@.len(),
            views == list_views(entries@),
            texts(out@) == messages_of(views, i as nat),
        decreases entries@.len() - i,
    {
        proof {
            crate::json::lemma_list_item(entries@, i as int);
        }
        if let Some(m) = entries[i].get_text("message") {
            out.push(m.clone());
        }
        i += 1;
    }
    out
}

/// The messages in the machine-readable part of a diagnostic.
pub fn extract_diagnostic_messages(diagnostic: &str) -> (out: Vec<String>)
    ensures
        texts(out@) == diagnostic_messages(diagnostic@),
{
    let none: Vec<String> = Vec::new();
    assert(texts(none@) =~= Seq::<Seq<char>>::empty());
    match split_once_text(diagnostic, "machine-readable errors:") {
        None => none,
        Some((_, tail)) => match parse_json(extract_json_array(tail.as_str()).as_str()) {
            Ok(Json::List(entries)) => collect_messages(&entries),
            _ => none,
        },
    }
}

/// The line that a line of a diagnostic points at is the number behind its first
/// mark of a position, up to a colon; the marks are tried in one order.
pub proof fn law_line_that_is_pointed_at(line: Seq<char>)
    ensures
        cut_text(line, " at "@) matches Some((_, rest)) ==> behind_mark(line) == Some(rest),
        cut_text(line, " at "@) is None ==> {
            &&& cut_text(line, "type error: "@) matches Some((_, rest)) ==> behind_mark(line)
                == Some(rest)
            &&& cut_text(line, "type error: "@) is None ==> {
                &&& cut_text(line, "ownership error: "@) matches Some((_, rest)) ==> behind_mark(
                    line,
                ) == Some(rest)
                &&& cut_text(line, "ownership error: "@) is None ==> behind_mark(line) is None
            }
        },
        pointed_line(line) is Some <==> behind_mark(line) is Some && ({
            let n = parsed_u64(trimmed(before_char(behind_mark(line)->Some_0, ':')));
            n is Some && 1 <= n->Some_0 <= usize::MAX
        }),
        pointed_line(line) matches Some(n) ==> parsed_u64(
            trimmed(before_char(behind_mark(line)->Some_0, ':')),
        ) == Some(n),
{
}

/// The lines that a diagnostic points at are those that one of its lines does,
/// each once, in order of first mention.
pub proof fn law_lines_that_are_pointed_at(all: Seq<Seq<char>>, n: nat)
    requires
        n <= all.len(),
    ensures
        forall|v: nat| #[trigger]
            pointed_lines(all, n).contains(v) <==> exists|i: int|
                0 <= i < n && pointed_line(#[trigger] all[i]) == Some(v),
        pointed_lines(all, n).no_duplicates(),
        n > 0 && pointed_line(all[n - 1]) is None ==> pointed_lines(all, n) == pointed_lines(
            all,
            (n - 1) as nat,
        ),
        n > 0 ==> pointed_lines(all, (n - 1) as nat).is_prefix_of(pointed_lines(all, n)),
    decreases n,
{
    broadcast use push_has;

    if n > 0 {
        law_lines_that_are_pointed_at(all, (n - 1) as nat);
        let before = pointed_lines(all, (n - 1) as nat);
        let after = pointed_lines(all, n);
        assert forall|v: nat| #[trigger] after.contains(v) <==> exists|i: int|
            0 <= i < n && pointed_line(#[trigger] all[i]) == Some(v) by {
            assert(before.contains(v) <==> exists|i: int|
                0 <= i < n - 1 && pointed_line(#[trigger] all[i]) == Some(v));
            assert(pointed_line(all[n - 1]) == pointed_line(all[n - 1]));
        }
    }
}

proof fn lemma_with_lines(
    diagnostic: Seq<char>,
    source: Seq<Seq<char>>,
    numbers: Seq<nat>,
    n: nat,
)
    requires
        n <= numbers.len(),
    ensures
        with_lines(diagnostic, source, numbers, n) == diagnostic + numbers.map_values(
            |line: nat|
                if line <= source.len() {
                    "\n  the source line that points at (line "@ + decimal(line) + ") is: `"@
                        + source[line - 1] + "`"@
                } else {
                    Seq::empty()
                },
        ).take(n as int).flatten(),
    decreases n,
{
    let all = numbers.map_values(
        |line: nat|
            if line <= source.len() {
                "\n  the source line that points at (line "@ + decimal(line) + ") is: `"@
                    + source[line - 1] + "`"@
            } else {
                Seq::empty()
            },
    );
    if n > 0 {
        lemma_with_lines(diagnostic, source, numbers, (n - 1) as nat);
        lemma_flat_next(all, n - 1);
        assert(with_lines(diagnostic, source, numbers, n) =~= diagnostic + all.take(
            n as int,
        ).flatten());
    } else {
        assert(all.take(0) =~= Seq::<Seq<char>>::empty());
        assert(diagnostic + Seq::<char>::empty() =~= diagnostic);
    }
}

/// A diagnostic stays as it is, and behind it stand the first three source lines
/// that its prose points at, as far as the source has them.
pub proof fn law_attached_lines(source: Seq<char>, diagnostic: Seq<char>)
    ensures
        ({
            let prose = lines(before_text(diagnostic, "\nmachine-readable errors:"@));
            let numbers = pointed_lines(prose, prose.len());
            let shown = if numbers.len() < 3 {
                numbers
            } else {
                numbers.take(3)
            };
            attached(source, diagnostic) == diagnostic + shown.map_values(
                |line: nat|
                    if line <= lines(source).len() {
                        "\n  the source line that points at (line "@ + decimal(line) + ") is: `"@
                            + lines(source)[line - 1] + "`"@
                    } else {
                        Seq::empty()
                    },
            ).flatten()
        }),
{
    let prose = lines(before_text(diagnostic, "\nmachine-readable errors:"@));
    let numbers = pointed_lines(prose, prose.len());
    let shown = if numbers.len() < 3 {
        numbers
    } else {
        numbers.take(3)
    };
    let f = |line: nat|
        if line <= lines(source).len() {
            "\n  the source line that points at (line "@ + decimal(line) + ") is: `"@ + lines(
                source,
            )[line - 1] + "`"@
        } else {
            Seq::empty()
        };
    lemma_with_lines(diagnostic, lines(source), numbers, up_to_three(numbers.len()));
    assert(numbers.map_values(f).take(up_to_three(numbers.len()) as int) =~= shown.map_values(f));
}

/// The messages of a diagnostic are those of all entries of its machine-readable
/// part, in order; there are none without such a part.
pub proof fn law_messages_of_a_diagnostic(diagnostic: Seq<char>, entries: Seq<JsonView>, n: nat)
    requires
        n <= entries.len(),
    ensures
        messages_of(entries, n) == entries.take(n as int).filter_map(
            |e: JsonView| text_member(e, "message"@),
        ),
        cut_text(diagnostic, "machine-readable errors:"@) is None ==> diagnostic_messages(
            diagnostic,
        ).len() == 0,
        cut_text(diagnostic, "machine-readable errors:"@) matches Some((_, tail)) ==> {
            &&& json_parsed(bracketed(tail, '[', ']')) == Ok::<JsonView, Seq<char>>(
                JsonView::List(entries),
            ) ==> diagnostic_messages(diagnostic) == messages_of(entries, entries.len())
            &&& json_parsed(bracketed(tail, '[', ']')) is Err ==> diagnostic_messages(
                diagnostic,
            ).len() == 0
        },
    decreases n,
{
    let f = |e: JsonView| text_member(e, "message"@);
    if n > 0 {
        law_messages_of_a_diagnostic(diagnostic, entries, (n - 1) as nat);
        lemma_kept_next(entries, f, n - 1);
    }
}

/// An error for a program to read tells its stage, its position and its message.
pub proof fn law_machine_errors(
    stage: Seq<char>,
    line: Option<usize>,
    col: Option<usize>,
    message: Seq<char>,
)
    ensures
        error_json(stage, line, col, message) == JsonView::Object(
            seq![
                ("stage"@, JsonView::Text(stage)),
                ("line"@, position_json(line)),
                ("col"@, position_json(col)),
                ("message"@, JsonView::Text(message)),
            ],
        ),
        line matches Some(n) ==> position_json(line) == JsonView::Number(decimal(n as nat)),
        position_json(None) == JsonView::Null,
{
}

/// A quoted line is shown with its number.
pub proof fn law_what_is_said(a: Seq<char>, b: Seq<char>)
    ensures
        source_line(a, b) == "\n  the source line that points at (line "@ + a + ") is: `"@ + b + "`"@,
{
}

} // verus!
