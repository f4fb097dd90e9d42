//! What a model was asked for, out of what it wrote around it.
use crate::text::{
    before_text, chars_of, cut, cut_text, find_char, find_position, find_text, law_cutting,
    lemma_find_char, text_of, trim, trimmed,
};
use vstd::prelude::*;

verus! {

/// Where the scan of a bracketed text stands: how many brackets are open, and
/// whether it is inside a string literal, right behind a backslash.
#[verifier::ext_equal]
pub struct Scan {
    pub depth: int,
    pub in_string: bool,
    pub escaped: bool,
}

/// The scan after one more character. Brackets count outside string literals
/// only.
pub open spec fn scanned(at: Scan, c: char, open: char, close: char) -> Scan {
    if at.in_string {
        if at.escaped {
            Scan { escaped: false, ..at }
        } else if c == '\\' {
            Scan { escaped: true, ..at }
        } else if c == '"' {
            Scan { in_string: false, ..at }
        } else {
            at
        }
    } else if c == '"' {
        Scan { in_string: true, ..at }
    } else if c == open {
        Scan { depth: at.depth + 1, ..at }
    } else if c == close {
        Scan { depth: at.depth - 1, ..at }
    } else {
        at
    }
}

/// Where the first bracket is closed again: behind the first closing bracket,
/// outside string literals, after which none is open. The end of the text
/// where that never happens.
pub open spec fn bracket_end(s: Seq<char>, from: nat, at: Scan, open: char, close: char) -> nat
    decreases s.len() - from,
{
    if from >= s.len() {
        s.len()
    } else {
        let c = s[from as int];
        let next = scanned(at, c, open, close);
        if !at.in_string && c != '"' && c != open && c == close && next.depth == 0 {
            from + 1
        } else {
            bracket_end(s, from + 1, next, open, close)
        }
    }
}

/// The scan before the first character.
pub open spec fn unscanned() -> Scan {
    Scan { depth: 0, in_string: false, escaped: false }
}

/// The bracketed part of a text: from its first opening bracket to the one that
/// closes it. All of the text, trimmed, where there is no bracket.
pub open spec fn bracketed(raw: Seq<char>, open: char, close: char) -> Seq<char> {
    let s = trimmed(raw);
    let start = find_char(s, open, 0);
    if start >= s.len() {
        s
    } else {
        s.subrange(start as int, bracket_end(s, start, unscanned(), open, close) as int)
    }
}

/// The bracketed part of a text. A bracket inside a string literal is part of
/// the literal.
pub fn extract_bracketed(raw: &str, open: char, close: char) -> (out: String)
    ensures
        out@ == bracketed(raw@, open, close),
{
    let text: String = trim(raw);
    let chars: Vec<char> = chars_of(text.as_str());
    let ghost s = trimmed(raw@);
    proof {
        lemma_find_char(s, open, 0);
    }
    let mut start: usize = 0;
    while start < chars.len() && chars[start] != open
        invariant
            start <= chars@.len(),
            chars@ == s,
            find_char(s, open, 0) == find_char(s, open, start as nat),
        decreases chars@.len() - start,
    {
        start += 1;
    }
    if start >= chars.len() {
        return text;
    }
    let mut depth: i128 = 0;
    let mut in_string: bool = false;
    let mut escaped: bool = false;
    let mut i: usize = start;
    while i < chars.len()
        invariant
            start <= i <= chars@.len(),
            start < chars@.len(),
            chars@ == s,
            s == trimmed(raw@),
            start == find_char(s, open, 0),
            -(i as int - start as int) <= depth <= i - start,
            bracket_end(s, start as nat, unscanned(), open, close) == bracket_end(
                s,
                i as nat,
                Scan { depth: depth as int, in_string, escaped },
                open,
                close,
            ),
        decreases chars@.len() - i,
    {
        let c: char = chars[i];
        if in_string {
            if escaped {
                escaped = false;
            } else if c == '\\' {
                escaped = true;
            } else if c == '"' {
                in_string = false;
            }
        } else if c == '"' {
            in_string = true;
        } else if c == open {
            depth = depth + 1;
        } else if c == close {
            depth = depth - 1;
            if depth == 0 {
                return text_of(&chars, start, i + 1);
            }
        }
        i += 1;
    }
    text_of(&chars, start, chars.len())
}

/// The first JSON list in a model's reply.
pub fn extract_json_array(raw: &str) -> (out: String)
    ensures
        out@ == bracketed(raw@, '[', ']'),
{
    extract_bracketed(raw, '[', ']')
}

/// The first JSON object in a model's reply.
pub fn extract_json_object(raw: &str) -> (out: String)
    ensures
        out@ == bracketed(raw@, '{', '}'),
{
    extract_bracketed(raw, '{', '}')
}

/// What stands behind the first line feed; all of the text where there is
/// none.
pub open spec fn behind_line(s: Seq<char>) -> Seq<char> {
    let at = find_char(s, '\n', 0);
    if at < s.len() {
        s.skip(at as int + 1)
    } else {
        s
    }
}

/// The source in a model's reply: what the first code fence encloses, without
/// the line that opens it; up to the end where the fence is not closed; all of
/// the reply where there is none.
pub open spec fn source_in(raw: Seq<char>) -> Seq<char> {
    let s = trimmed(raw);
    match find_text(s, "```"@, 0) {
        None => s,
        Some(at) => {
            let body = behind_line(s.skip(at as int + 3));
            match find_text(body, "```"@, 0) {
                None => trimmed(body),
                Some(end) => trimmed(body.take(end as int)),
            }
        },
    }
}

/// The source in a model's reply.
pub fn extract_nir_source(raw: &str) -> (out: String)
    ensures
        out@ == source_in(raw@),
{
    let text: String = trim(raw);
    let chars: Vec<char> = chars_of(text.as_str());
    let fence: Vec<char> = chars_of("```");
    proof {
        reveal_strlit("```");
    }
    let at: usize = match find_position(&chars, &fence, 0) {
        None => {
            return text;
        },
        Some(at) => at,
    };
    let ghost rest = text@.skip(at as int + 3);
    proof {
        lemma_find_char(rest, '\n', 0);
    }
    let n: usize = chars.len();
    assert(at + 3 <= n);
    let mut i: usize = at + 3;
    while i < chars.len() && chars[i] != '\n'
        invariant
            at + 3 <= i <= chars@.len(),
            chars@ == text@,
            rest == text@.skip(at as int + 3),
            find_char(rest, '\n', 0) == find_char(rest, '\n', (i - at - 3) as nat),
        decreases chars@.len() - i,
    {
        assert(rest[i - at - 3] == chars@[i as int]);
        i += 1;
    }
    let begin: usize = if i < chars.len() {
        assert(rest[i - at - 3] == chars@[i as int]);
        i + 1
    } else {
        at + 3
    };
    let body: String = text_of(&chars, begin, chars.len());
    assert(body@ =~= behind_line(rest));
    let inner: Vec<char> = chars_of(body.as_str());
    match find_position(&inner, &fence, 0) {
        None => trim(body.as_str()),
        Some(end) => {
            let code: String = text_of(&inner, 0, end);
            assert(code@ =~= body@.take(end as int));
            trim(code.as_str())
        },
    }
}

proof fn lemma_scan_passes_strings(s: Seq<char>, from: nat, to: nat, at: Scan, open: char, close: char)
    requires
        from <= to <= s.len(),
        at.in_string,
        !at.escaped,
        forall|i: int| from <= i < to ==> #[trigger] s[i] != '"' && s[i] != '\\',
    ensures
        bracket_end(s, from, at, open, close) == bracket_end(s, to, at, open, close),
    decreases to - from,
{
    if from < to {
        lemma_scan_passes_strings(s, from + 1, to, at, open, close);
    }
}

/// A bracket inside a string literal never closes the bracketed part: as long
/// as no quote or backslash comes, the scan passes over whatever stands there.
pub proof fn law_brackets_in_strings_do_not_count(
    s: Seq<char>,
    from: nat,
    to: nat,
    depth: int,
    open: char,
    close: char,
)
    requires
        from <= to <= s.len(),
        forall|i: int| from <= i < to ==> #[trigger] s[i] != '"' && s[i] != '\\',
    ensures
        ({
            let at = Scan { depth, in_string: true, escaped: false };
            bracket_end(s, from, at, open, close) == bracket_end(s, to, at, open, close)
        }),
{
    let at = Scan { depth, in_string: true, escaped: false };
    lemma_scan_passes_strings(s, from, to, at, open, close);
}

/// How a scan goes on: in a string a backslash spares the character behind it and
/// a quote ends the string; outside of one a quote begins it, and brackets are
/// counted.
pub proof fn law_scanning(at: Scan, c: char, open: char, close: char)
    requires
        open != close && open != '"' && close != '"',
    ensures
        at.in_string && at.escaped ==> scanned(at, c, open, close) == (Scan {
            depth: at.depth,
            in_string: true,
            escaped: false,
        }),
        at.in_string && !at.escaped ==> scanned(at, c, open, close) == (Scan {
            depth: at.depth,
            in_string: c != '"',
            escaped: c == '\\',
        }),
        !at.in_string ==> scanned(at, c, open, close) == (Scan {
            depth: if c == open {
                at.depth + 1
            } else if c == close {
                at.depth - 1
            } else {
                at.depth
            },
            in_string: c == '"',
            escaped: at.escaped,
        }),
{
}

/// The bracketed part ends behind the first closing bracket outside strings that
/// leaves none open, at the end of the text where there is none.
pub proof fn law_where_a_bracket_closes(
    s: Seq<char>,
    from: nat,
    at: Scan,
    open: char,
    close: char,
)
    requires
        from <= s.len(),
        open != close && open != '"' && close != '"',
    ensures
        from <= bracket_end(s, from, at, open, close) <= s.len(),
        from == s.len() ==> bracket_end(s, from, at, open, close) == s.len(),
        from < s.len() && s[from as int] == close && !at.in_string && at.depth == 1 ==> bracket_end(
            s,
            from,
            at,
            open,
            close,
        ) == from + 1,
        from < s.len() && !(s[from as int] == close && !at.in_string && at.depth == 1)
            ==> bracket_end(s, from, at, open, close) == bracket_end(
            s,
            from + 1,
            scanned(at, s[from as int], open, close),
            open,
            close,
        ),
    decreases s.len() - from,
{
    if from < s.len() {
        law_where_a_bracket_closes(
            s,
            from + 1,
            scanned(at, s[from as int], open, close),
            open,
            close,
        );
    }
}

/// The bracketed part of a text begins at its first opening bracket; a text
/// without one is taken whole, trimmed.
pub proof fn law_bracketed_part(raw: Seq<char>, open: char, close: char)
    requires
        open != close && open != '"' && close != '"',
    ensures
        !trimmed(raw).contains(open) ==> bracketed(raw, open, close) == trimmed(raw),
        cut(trimmed(raw), open) matches Some((a, b)) ==> {
            let s = trimmed(raw);
            bracketed(raw, open, close) == s.subrange(
                a.len() as int,
                bracket_end(
                    s,
                    a.len(),
                    Scan { depth: 0, in_string: false, escaped: false },
                    open,
                    close,
                ) as int,
            ) && bracketed(raw, open, close).len() > 0 && bracketed(raw, open, close)[0] == open
        },
{
    let s = trimmed(raw);
    law_cutting(s, open);
    lemma_find_char(s, open, 0);
    let start = find_char(s, open, 0);
    if start < s.len() {
        assert(s.take(start as int).len() == start);
        law_where_a_bracket_closes(s, start, unscanned(), open, close);
        law_where_a_bracket_closes(
            s,
            start + 1,
            scanned(unscanned(), s[start as int], open, close),
            open,
            close,
        );
        assert(s.contains(s[start as int]));
    } else {
        assert(!s.contains(open));
    }
}

/// The source in a reply: all of it, trimmed, where it has no fence; else what
/// stands behind the line of the first fence, up to the next fence, trimmed.
pub proof fn law_source_in_a_reply(raw: Seq<char>)
    ensures
        match cut_text(trimmed(raw), "```"@) {
            None => source_in(raw) == trimmed(raw),
            Some((_, fenced)) => match cut(fenced, '\n') {
                Some((_, body)) => source_in(raw) == trimmed(before_text(body, "```"@)),
                None => source_in(raw) == trimmed(before_text(fenced, "```"@)),
            },
        },
{
    reveal_strlit("```");
    assert("```"@.len() == 3);
}

} // verus!
