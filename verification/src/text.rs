//! Plain text: the string operations that the rest of the library is
//! written and specified with. A text is a sequence of characters; every
//! function here says which sequence it gives back.
use crate::lists::lemma_kept_next;
use vstd::prelude::*;

verus! {

/// `String::push`: the character is appended at the end, nothing else changes.
pub assume_specification[ String::push ](s: &mut String, c: char)
    ensures
        final(s)@ == old(s)@.push(c),
;

/// The texts held by a list of strings.
pub open spec fn texts(list: Seq<String>) -> Seq<Seq<char>> {
    list.map_values(|s: String| s@)
}

pub broadcast proof fn texts_push(list: Seq<String>, s: String)
    ensures
        #[trigger] texts(list.push(s)) == texts(list).push(s@),
{
    assert(texts(list.push(s)) =~= texts(list).push(s@));
}

/// A copy of a list of texts.
pub fn copy_texts(list: &Vec<String>) -> (out: Vec<String>)
    ensures
        texts(out@) == texts(list@),
{
    broadcast use texts_push;

    let mut out: Vec<String> = Vec::new();
    let mut i: usize = 0;
    assert(texts(out@) =~= texts(list@).take(0));
    while i < list.len()
        invariant
            i <= list@.len(),
            texts(out@) == texts(list@).take(i as int),
        decreases list@.len() - i,
    {
        out.push(list[i].clone());
        i += 1;
        assert(texts(list@).take(i as int) =~= texts(list@).take(i as int - 1).push(
            list@[i as int - 1]@,
        ));
    }
    assert(texts(list@).take(i as int) =~= texts(list@));
    out
}

/// Whether a text stands in a list.
pub fn has_text(list: &Vec<String>, s: &str) -> (r: bool)
    ensures
        r == texts(list@).contains(s@),
{
    let mut i: usize = 0;
    while i < list.len()
        invariant
            i <= list@.len(),
            forall|j: int| 0 <= j < i ==> texts(list@)[j] != s@,
        decreases list@.len() - i,
    {
        if same_text(list[i].as_str(), s) {
            assert(texts(list@)[i as int] == s@);
            return true;
        }
        i += 1;
    }
    false
}

/// Two lists hold the same texts in the same order.
pub fn same_texts(a: &Vec<String>, b: &Vec<String>) -> (same: bool)
    ensures
        same == (texts(a@) == texts(b@)),
{
    if a.len() != b.len() {
        return false;
    }
    let mut i: usize = 0;
    while i < a.len()
        invariant
            i <= a@.len(),
            a@.len() == b@.len(),
            forall|j: int| 0 <= j < i ==> texts(a@)[j] == texts(b@)[j],
        decreases a@.len() - i,
    {
        if !same_text(a[i].as_str(), b[i].as_str()) {
            assert(texts(a@)[i as int] != texts(b@)[i as int]);
            return false;
        }
        i += 1;
    }
    assert(texts(a@) =~= texts(b@));
    true
}

/// Two texts are the same.
pub fn same_text(a: &str, b: &str) -> (same: bool)
    ensures
        same == (a@ == b@),
{
    a.to_owned() == b.to_owned()
}

/// The characters of a text, in order.
pub fn chars_of(s: &str) -> (out: Vec<char>)
    ensures
        out@ == s@,
{
    let mut out: Vec<char> = Vec::new();
    for c in it: s.chars()
        invariant
            it.seq() == s@,
            out@ == s@.take(it.index() as int),
    {
        out.push(c);
        assert(s@.take(it.index() as int + 1) =~= s@.take(it.index() as int).push(c));
    }
    assert(s@.take(s@.len() as int) =~= s@);
    out
}

/// The text made of `chars[from..to]`.
pub fn text_of(chars: &Vec<char>, from: usize, to: usize) -> (out: String)
    requires
        from <= to <= chars@.len(),
    ensures
        out@ == chars@.subrange(from as int, to as int),
{
    let mut out: String = String::new();
    let mut i: usize = from;
    while i < to
        invariant
            from <= i <= to <= chars@.len(),
            out@ == chars@.subrange(from as int, i as int),
        decreases to - i,
    {
        out.push(chars[i]);
        i += 1;
        assert(chars@.subrange(from as int, i as int) =~= chars@.subrange(
            from as int,
            i as int - 1,
        ).push(chars@[i as int - 1]));
    }
    out
}

/// `a` comes strictly before `b` in dictionary order of the characters' code points.
pub open spec fn text_before(a: Seq<char>, b: Seq<char>) -> bool
    decreases a.len(),
{
    if b.len() == 0 {
        false
    } else if a.len() == 0 {
        true
    } else if a[0] != b[0] {
        (a[0] as u32) < (b[0] as u32)
    } else {
        text_before(a.drop_first(), b.drop_first())
    }
}

/// Whether `a` comes strictly before `b`.
pub fn is_before(a: &str, b: &str) -> (before: bool)
    ensures
        before == text_before(a@, b@),
{
    let x: Vec<char> = chars_of(a);
    let y: Vec<char> = chars_of(b);
    let mut i: usize = 0;
    assert(x@.skip(0) =~= x@);
    assert(y@.skip(0) =~= y@);
    while i < x.len() && i < y.len()
        invariant
            x@ == a@,
            y@ == b@,
            i <= x@.len(),
            i <= y@.len(),
            text_before(x@, y@) == text_before(x@.skip(i as int), y@.skip(i as int)),
        decreases x@.len() - i,
    {
        assert(x@.skip(i as int).drop_first() =~= x@.skip(i as int + 1));
        assert(y@.skip(i as int).drop_first() =~= y@.skip(i as int + 1));
        if x[i] != y[i] {
            return (x[i] as u32) < (y[i] as u32);
        }
        i += 1;
    }
    i < y.len()
}

/// White space as Unicode's `White_Space` property lists it.
pub open spec fn is_white(c: char) -> bool {
    let u = c as u32;
    ||| 0x09 <= u <= 0x0d
    ||| u == 0x20
    ||| u == 0x85
    ||| u == 0xa0
    ||| u == 0x1680
    ||| 0x2000 <= u <= 0x200a
    ||| u == 0x2028
    ||| u == 0x2029
    ||| u == 0x202f
    ||| u == 0x205f
    ||| u == 0x3000
}

pub fn white(c: char) -> (r: bool)
    ensures
        r == is_white(c),
{
    let u: u32 = c as u32;
    (0x09 <= u && u <= 0x0d) || u == 0x20 || u == 0x85 || u == 0xa0 || u == 0x1680 || (0x2000 <= u
        && u <= 0x200a) || u == 0x2028 || u == 0x2029 || u == 0x202f || u == 0x205f || u == 0x3000
}

/// How many white characters a text starts with.
pub open spec fn leading_white(s: Seq<char>) -> nat
    decreases s.len(),
{
    if s.len() > 0 && is_white(s[0]) {
        1 + leading_white(s.drop_first())
    } else {
        0
    }
}

/// How many white characters a text ends with.
pub open spec fn trailing_white(s: Seq<char>) -> nat
    decreases s.len(),
{
    if s.len() > 0 && is_white(s.last()) {
        1 + trailing_white(s.drop_last())
    } else {
        0
    }
}

/// The text without the white space at its two ends.
pub open spec fn trimmed_end(s: Seq<char>) -> Seq<char> {
    s.take(s.len() - trailing_white(s))
}

pub open spec fn trimmed_start(s: Seq<char>) -> Seq<char> {
    s.skip(leading_white(s) as int)
}

pub open spec fn trimmed(s: Seq<char>) -> Seq<char> {
    trimmed_end(trimmed_start(s))
}

proof fn lemma_white_counts(s: Seq<char>)
    ensures
        leading_white(s) <= s.len(),
        trailing_white(s) <= s.len(),
    decreases s.len(),
{
    if s.len() > 0 {
        lemma_white_counts(s.drop_first());
        lemma_white_counts(s.drop_last());
    }
}

pub fn trim_end(s: &str) -> (out: String)
    ensures
        out@ == trimmed_end(s@),
{
    let chars: Vec<char> = chars_of(s);
    let mut n: usize = chars.len();
    assert(s@.take(n as int) =~= s@);
    while n > 0 && white(chars[n - 1])
        invariant
            n <= chars@.len(),
            chars@ == s@,
            n - trailing_white(s@.take(n as int)) == s@.len() - trailing_white(s@),
        decreases n,
    {
        assert(s@.take(n as int).drop_last() =~= s@.take(n as int - 1));
        n -= 1;
    }
    assert(trailing_white(s@.take(n as int)) == 0);
    assert(chars@.subrange(0, n as int) =~= s@.take(n as int));
    text_of(&chars, 0, n)
}

pub fn trim_start(s: &str) -> (out: String)
    ensures
        out@ == trimmed_start(s@),
{
    let chars: Vec<char> = chars_of(s);
    let mut i: usize = 0;
    assert(s@.skip(0) =~= s@);
    while i < chars.len() && white(chars[i])
        invariant
            i <= chars@.len(),
            chars@ == s@,
            i + leading_white(s@.skip(i as int)) == leading_white(s@),
        decreases chars@.len() - i,
    {
        assert(s@.skip(i as int).drop_first() =~= s@.skip(i as int + 1));
        i += 1;
    }
    assert(leading_white(s@.skip(i as int)) == 0);
    assert(chars@.subrange(i as int, chars@.len() as int) =~= s@.skip(i as int));
    text_of(&chars, i, chars.len())
}

pub fn trim(s: &str) -> (out: String)
    ensures
        out@ == trimmed(s@),
{
    trim_end(trim_start(s).as_str())
}

/// `part` stands in `whole` at position `at`.
pub open spec fn occurs_at(whole: Seq<char>, part: Seq<char>, at: int) -> bool {
    &&& 0 <= at
    &&& at + part.len() <= whole.len()
    &&& whole.subrange(at, at + part.len()) == part
}

/// `part` stands somewhere in `whole`.
pub open spec fn contains_text(whole: Seq<char>, part: Seq<char>) -> bool {
    exists|at: int| occurs_at(whole, part, at)
}

pub open spec fn starts_with(whole: Seq<char>, part: Seq<char>) -> bool {
    occurs_at(whole, part, 0)
}

pub open spec fn ends_with(whole: Seq<char>, part: Seq<char>) -> bool {
    occurs_at(whole, part, whole.len() - part.len())
}

/// Whether `part` stands in `whole` at position `at`.
pub fn occurs(whole: &Vec<char>, part: &Vec<char>, at: usize) -> (r: bool)
    ensures
        r == occurs_at(whole@, part@, at as int),
{
    let n: usize = whole.len();
    if at > n || part.len() > n - at {
        return false;
    }
    let mut k: usize = 0;
    while k < part.len()
        invariant
            k <= part@.len(),
            n == whole@.len(),
            at + part@.len() <= n,
            forall|j: int| 0 <= j < k ==> whole@[at + j] == part@[j],
        decreases part@.len() - k,
    {
        if whole[at + k] != part[k] {
            assert(whole@.subrange(at as int, at + part@.len())[k as int] == whole@[at + k]);
            return false;
        }
        k += 1;
    }
    assert(whole@.subrange(at as int, at + part@.len()) =~= part@);
    true
}

/// The first position at or after `from` where `part` stands in `whole`.
pub fn find_from(whole: &Vec<char>, part: &Vec<char>, from: usize) -> (r: Option<usize>)
    ensures
        match r {
            Some(at) => {
                &&& from <= at
                &&& occurs_at(whole@, part@, at as int)
                &&& forall|j: int| from <= j < at ==> !occurs_at(whole@, part@, j)
            },
            None => forall|j: int| from <= j ==> !occurs_at(whole@, part@, j),
        },
{
    if part.len() > whole.len() {
        return None;
    }
    let last: usize = whole.len() - part.len();
    let mut i: usize = from;
    while i <= last
        invariant
            from <= i,
            last == whole@.len() - part@.len(),
            forall|j: int| from <= j < i ==> !occurs_at(whole@, part@, j),
        decreases last + 1 - i,
    {
        if occurs(whole, part, i) {
            return Some(i);
        }
        if i == last {
            return None;
        }
        i += 1;
    }
    None
}

/// Whether `part` stands somewhere in `whole`.
pub fn contains(whole: &str, part: &str) -> (r: bool)
    ensures
        r == contains_text(whole@, part@),
{
    let w: Vec<char> = chars_of(whole);
    let p: Vec<char> = chars_of(part);
    find_from(&w, &p, 0).is_some()
}

pub fn has_prefix(whole: &str, part: &str) -> (r: bool)
    ensures
        r == starts_with(whole@, part@),
{
    occurs(&chars_of(whole), &chars_of(part), 0)
}

pub fn has_suffix(whole: &str, part: &str) -> (r: bool)
    ensures
        r == ends_with(whole@, part@),
{
    let w: Vec<char> = chars_of(whole);
    let p: Vec<char> = chars_of(part);
    if p.len() > w.len() {
        return false;
    }
    occurs(&w, &p, w.len() - p.len())
}

/// What follows the prefix `part`, if the text starts with it.
pub fn strip_prefix(whole: &str, part: &str) -> (r: Option<String>)
    ensures
        match r {
            Some(rest) => starts_with(whole@, part@) && rest@ == whole@.skip(part@.len() as int),
            None => !starts_with(whole@, part@),
        },
{
    let w: Vec<char> = chars_of(whole);
    let p: Vec<char> = chars_of(part);
    if occurs(&w, &p, 0) {
        assert(w@.subrange(p@.len() as int, w@.len() as int) =~= whole@.skip(part@.len() as int));
        Some(text_of(&w, p.len(), w.len()))
    } else {
        None
    }
}

/// The pieces of a text between the occurrences of `sep`, in order; there is
/// always at least one. Adding a separator at the end starts an empty piece,
/// adding another character lengthens the last piece.
pub open spec fn split(s: Seq<char>, sep: char) -> Seq<Seq<char>>
    decreases s.len(),
{
    if s.len() == 0 {
        seq![Seq::<char>::empty()]
    } else {
        let before = split(s.drop_last(), sep);
        if s.last() == sep {
            before.push(Seq::<char>::empty())
        } else {
            before.drop_last().push(before.last().push(s.last()))
        }
    }
}

pub proof fn lemma_split_nonempty(s: Seq<char>, sep: char)
    ensures
        split(s, sep).len() > 0,
    decreases s.len(),
{
    if s.len() > 0 {
        lemma_split_nonempty(s.drop_last(), sep);
    }
}

/// A text without the separator is one piece.
pub proof fn lemma_split_plain(s: Seq<char>, sep: char)
    requires
        !s.contains(sep),
    ensures
        split(s, sep) == seq![s],
    decreases s.len(),
{
    if s.len() == 0 {
        assert(s =~= Seq::<char>::empty());
    } else {
        let front = s.drop_last();
        assert(!front.contains(sep)) by {
            if front.contains(sep) {
                let i = choose|i: int| 0 <= i < front.len() && front[i] == sep;
                assert(s[i] == sep);
            }
        }
        lemma_split_plain(front, sep);
        assert(s.last() != sep) by {
            assert(s[s.len() - 1] == s.last());
        }
        assert(seq![front].last().push(s.last()) =~= s);
        assert(split(s, sep) =~= seq![s]);
    }
}

/// Two texts without the separator, and one separator between them, are two
/// pieces.
pub proof fn lemma_split_two(a: Seq<char>, b: Seq<char>, sep: char)
    requires
        !a.contains(sep),
        !b.contains(sep),
    ensures
        split(a.push(sep) + b, sep) == seq![a, b],
    decreases b.len(),
{
    let s = a.push(sep) + b;
    lemma_split_plain(a, sep);
    if b.len() == 0 {
        assert(s.drop_last() =~= a);
        assert(s.last() == sep);
        assert(b =~= Seq::<char>::empty());
        assert(split(s, sep) =~= seq![a, b]);
    } else {
        let front = b.drop_last();
        assert(!front.contains(sep)) by {
            if front.contains(sep) {
                let i = choose|i: int| 0 <= i < front.len() && front[i] == sep;
                assert(b[i] == sep);
            }
        }
        lemma_split_two(a, front, sep);
        assert(s.drop_last() =~= a.push(sep) + front);
        assert(s.last() == b.last());
        assert(b.last() != sep) by {
            assert(b[b.len() - 1] == b.last());
        }
        assert(seq![a, front].last().push(b.last()) =~= b);
        assert(split(s, sep) =~= seq![a, b]);
    }
}

pub fn split_char(s: &str, sep: char) -> (out: Vec<String>)
    ensures
        texts(out@) == split(s@, sep),
        out@.len() > 0,
{
    let chars: Vec<char> = chars_of(s);
    let mut done: Vec<String> = Vec::new();
    let mut cur: String = String::new();
    let mut i: usize = 0;
    assert(texts(done@).push(cur@) =~= split(s@.take(0), sep));
    while i < chars.len()
        invariant
            i <= chars@.len(),
            chars@ == s@,
            texts(done@).push(cur@) == split(s@.take(i as int), sep),
        decreases chars@.len() - i,
    {
        let c: char = chars[i];
        let ghost before = texts(done@).push(cur@);
        assert(s@.take(i as int + 1).drop_last() =~= s@.take(i as int));
        assert(before.drop_last() =~= texts(done@));
        if c == sep {
            done.push(cur);
            cur = String::new();
            assert(texts(done@).push(cur@) =~= before.push(Seq::<char>::empty()));
        } else {
            cur.push(c);
            assert(texts(done@).push(cur@) =~= before.drop_last().push(before.last().push(c)));
        }
        i += 1;
    }
    assert(s@.take(s@.len() as int) =~= s@);
    let ghost before = texts(done@).push(cur@);
    done.push(cur);
    assert(texts(done@) =~= before);
    done
}

/// A line without the carriage return that ends it.
pub open spec fn without_cr(line: Seq<char>) -> Seq<char> {
    if line.len() > 0 && line.last() == '\r' {
        line.drop_last()
    } else {
        line
    }
}

/// The lines of a text: what stands between its line feeds, each freed of a
/// carriage return before the line feed. What follows the last line feed is a
/// line only if it is not empty.
pub open spec fn lines(s: Seq<char>) -> Seq<Seq<char>> {
    let pieces = split(s, '\n');
    let closed = pieces.drop_last().map_values(|p: Seq<char>| without_cr(p));
    if pieces.last().len() == 0 {
        closed
    } else {
        closed.push(pieces.last())
    }
}

fn drop_cr(line: &str) -> (out: String)
    ensures
        out@ == without_cr(line@),
{
    let chars: Vec<char> = chars_of(line);
    let n: usize = chars.len();
    if n > 0 && chars[n - 1] == '\r' {
        assert(chars@.subrange(0, n as int - 1) =~= line@.drop_last());
        text_of(&chars, 0, n - 1)
    } else {
        line.to_owned()
    }
}

pub fn lines_of(s: &str) -> (out: Vec<String>)
    ensures
        texts(out@) == lines(s@),
{
    let pieces: Vec<String> = split_char(s, '\n');
    let last: usize = pieces.len() - 1;
    let mut out: Vec<String> = Vec::new();
    let mut i: usize = 0;
    while i < last
        invariant
            i <= last,
            last == pieces@.len() - 1,
            texts(out@) == texts(pieces@).take(i as int).map_values(
                |p: Seq<char>| without_cr(p),
            ),
        decreases last - i,
    {
        let ghost before = texts(out@);
        out.push(drop_cr(pieces[i].as_str()));
        assert(texts(out@) =~= before.push(without_cr(texts(pieces@)[i as int])));
        assert(texts(pieces@).take(i as int + 1) =~= texts(pieces@).take(i as int).push(
            texts(pieces@)[i as int],
        ));
        i += 1;
        assert(texts(out@) =~= texts(pieces@).take(i as int).map_values(
            |p: Seq<char>| without_cr(p),
        ));
    }
    assert(texts(pieces@).take(last as int) =~= texts(pieces@).drop_last());
    if !pieces[last].as_str().is_empty() {
        let ghost before = texts(out@);
        out.push(pieces[last].clone());
        assert(texts(out@) =~= before.push(texts(pieces@).last()));
    }
    out
}

/// The texts one after the other, with `sep` between neighbours.
pub open spec fn join(parts: Seq<Seq<char>>, sep: Seq<char>) -> Seq<char>
    decreases parts.len(),
{
    if parts.len() == 0 {
        Seq::empty()
    } else if parts.len() == 1 {
        parts[0]
    } else {
        join(parts.drop_last(), sep) + sep + parts.last()
    }
}

pub fn join_texts(parts: &Vec<String>, sep: &str) -> (out: String)
    ensures
        out@ == join(texts(parts@), sep@),
{
    let mut out: String = String::new();
    let mut i: usize = 0;
    assert(texts(parts@).take(0) =~= Seq::<Seq<char>>::empty());
    while i < parts.len()
        invariant
            i <= parts@.len(),
            out@ == join(texts(parts@).take(i as int), sep@),
        decreases parts@.len() - i,
    {
        let ghost all = texts(parts@);
        assert(all.take(i as int + 1).drop_last() =~= all.take(i as int));
        if i > 0 {
            out.append(sep);
        }
        out.append(parts[i].as_str());
        if i == 0 {
            assert(out@ =~= all[0]);
        }
        i += 1;
    }
    assert(texts(parts@).take(parts@.len() as int) =~= texts(parts@));
    out
}

/// Every occurrence of `from` replaced by `to`, taken from the left without
/// overlap.
pub open spec fn replaced(s: Seq<char>, from: Seq<char>, to: Seq<char>) -> Seq<char>
    decreases s.len(),
{
    if from.len() == 0 || s.len() < from.len() {
        s
    } else if starts_with(s, from) {
        to + replaced(s.skip(from.len() as int), from, to)
    } else {
        seq![s[0]] + replaced(s.drop_first(), from, to)
    }
}

pub fn replace_all(s: &str, from: &str, to: &str) -> (out: String)
    requires
        from@.len() > 0,
    ensures
        out@ == replaced(s@, from@, to@),
{
    let chars: Vec<char> = chars_of(s);
    let pat: Vec<char> = chars_of(from);
    let mut out: String = String::new();
    let mut i: usize = 0;
    assert(s@.skip(0) =~= s@);
    assert(out@ + replaced(s@, from@, to@) =~= replaced(s@, from@, to@));
    while i < chars.len()
        invariant
            i <= chars@.len(),
            chars@ == s@,
            pat@ == from@,
            from@.len() > 0,
            out@ + replaced(s@.skip(i as int), from@, to@) == replaced(s@, from@, to@),
        decreases chars@.len() - i,
    {
        let ghost rest = s@.skip(i as int);
        let ghost before = out@;
        if occurs(&chars, &pat, i) {
            assert(rest.subrange(0, from@.len() as int) =~= s@.subrange(
                i as int,
                i + from@.len(),
            ));
            assert(starts_with(rest, from@));
            assert(rest.skip(from@.len() as int) =~= s@.skip(i + from@.len()));
            out.append(to);
            i += pat.len();
            assert(out@ + replaced(s@.skip(i as int), from@, to@) =~= before + replaced(
                rest,
                from@,
                to@,
            ));
        } else {
            proof {
                if rest.len() >= from@.len() {
                    assert(rest.subrange(0, from@.len() as int) =~= s@.subrange(
                        i as int,
                        i + from@.len(),
                    ));
                    assert(!starts_with(rest, from@));
                } else {
                    lemma_short_replaced(rest.drop_first(), from@, to@);
                    assert(rest =~= seq![rest[0]] + rest.drop_first());
                }
            }
            assert(replaced(rest, from@, to@) == seq![rest[0]] + replaced(
                rest.drop_first(),
                from@,
                to@,
            ));
            assert(rest.drop_first() =~= s@.skip(i as int + 1));
            out.push(chars[i]);
            i += 1;
            assert(out@ + replaced(s@.skip(i as int), from@, to@) =~= before + replaced(
                rest,
                from@,
                to@,
            ));
        }
    }
    assert(s@.skip(i as int).len() == 0);
    assert(out@ + replaced(s@.skip(i as int), from@, to@) =~= out@);
    out
}

proof fn lemma_short_replaced(s: Seq<char>, from: Seq<char>, to: Seq<char>)
    requires
        s.len() < from.len(),
    ensures
        replaced(s, from, to) == s,
{
}

/// The first position at or after `from` where `part` stands in `whole`.
pub open spec fn find_text(whole: Seq<char>, part: Seq<char>, from: nat) -> Option<nat>
    decreases whole.len() + 1 - from,
{
    if from + part.len() > whole.len() {
        None
    } else if occurs_at(whole, part, from as int) {
        Some(from)
    } else {
        find_text(whole, part, from + 1)
    }
}

/// What [`find_text`] finds is the first occurrence, and it finds nothing only
/// where there is none.
pub proof fn lemma_find_text(whole: Seq<char>, part: Seq<char>, from: nat)
    ensures
        match find_text(whole, part, from) {
            Some(at) => {
                &&& from <= at
                &&& occurs_at(whole, part, at as int)
                &&& forall|j: int| from <= j < at ==> !occurs_at(whole, part, j)
            },
            None => forall|j: int| from <= j ==> !occurs_at(whole, part, j),
        },
    decreases whole.len() + 1 - from,
{
    if from + part.len() <= whole.len() && !occurs_at(whole, part, from as int) {
        lemma_find_text(whole, part, from + 1);
    }
}

/// The position of the first occurrence at or after `from`.
pub fn find_position(whole: &Vec<char>, part: &Vec<char>, from: usize) -> (r: Option<usize>)
    ensures
        match r {
            Some(at) => find_text(whole@, part@, from as nat) == Some(at as nat) && occurs_at(
                whole@,
                part@,
                at as int,
            ),
            None => find_text(whole@, part@, from as nat) is None,
        },
{
    proof {
        lemma_find_text(whole@, part@, from as nat);
    }
    find_from(whole, part, from)
}

/// The decimal digits of a number.
pub open spec fn decimal(n: nat) -> Seq<char>
    decreases n,
{
    if n < 10 {
        seq![(48 + n) as char]
    } else {
        decimal(n / 10).push((48 + n % 10) as char)
    }
}

/// A number as it is written, with a minus sign in front where it is negative.
pub open spec fn integer(n: int) -> Seq<char> {
    if n < 0 {
        seq!['-'] + decimal((-n) as nat)
    } else {
        decimal(n as nat)
    }
}

pub fn decimal_text(n: u64) -> (out: String)
    ensures
        out@ == decimal(n as nat),
    decreases n,
{
    if n < 10 {
        let mut out: String = String::new();
        out.push((48u8 + n as u8) as char);
        assert(out@ =~= decimal(n as nat));
        out
    } else {
        let mut out: String = decimal_text(n / 10);
        out.push((48u8 + (n % 10) as u8) as char);
        out
    }
}

pub fn integer_text(n: i64) -> (out: String)
    ensures
        out@ == integer(n as int),
{
    if n < 0 {
        let mut out: String = "-".to_owned();
        proof {
            reveal_strlit("-");
        }
        assert(out@ =~= seq!['-']);
        let m: u64 = if n == i64::MIN {
            0x8000_0000_0000_0000u64
        } else {
            (-n) as u64
        };
        out.append(decimal_text(m).as_str());
        out
    } else {
        decimal_text(n as u64)
    }
}

/// A text between double quotes.
pub open spec fn quoted(s: Seq<char>) -> Seq<char> {
    "\""@ + s + "\""@
}

pub fn quote(s: &str) -> (out: String)
    ensures
        out@ == quoted(s@),
{
    let mut out: String = "\"".to_owned();
    out.append(s);
    out.append("\"");
    out
}

/// The position of the first `c` from `from` on; the length of the text where
/// there is none.
pub open spec fn find_char(s: Seq<char>, c: char, from: nat) -> nat
    decreases s.len() - from,
{
    if from >= s.len() {
        s.len()
    } else if s[from as int] == c {
        from
    } else {
        find_char(s, c, from + 1)
    }
}

pub proof fn lemma_find_char(s: Seq<char>, c: char, from: nat)
    requires
        from <= s.len(),
    ensures
        from <= find_char(s, c, from) <= s.len(),
        find_char(s, c, from) < s.len() ==> s[find_char(s, c, from) as int] == c,
        forall|i: int| from <= i < find_char(s, c, from) ==> s[i] != c,
    decreases s.len() - from,
{
    if from < s.len() && s[from as int] != c {
        lemma_find_char(s, c, from + 1);
    }
}

/// What stands before and after the first `c`.
pub open spec fn cut(s: Seq<char>, c: char) -> Option<(Seq<char>, Seq<char>)> {
    let at = find_char(s, c, 0) as int;
    if at < s.len() {
        Some((s.take(at), s.skip(at + 1)))
    } else {
        None
    }
}

pub fn split_once(s: &str, c: char) -> (out: Option<(String, String)>)
    ensures
        match out {
            Some((a, b)) => cut(s@, c) == Some((a@, b@)),
            None => cut(s@, c) is None,
        },
{
    let chars: Vec<char> = chars_of(s);
    let mut i: usize = 0;
    while i < chars.len()
        invariant
            i <= chars@.len(),
            chars@ == s@,
            find_char(s@, c, 0) == find_char(s@, c, i as nat),
        decreases chars@.len() - i,
    {
        if chars[i] == c {
            let a: String = text_of(&chars, 0, i);
            let b: String = text_of(&chars, i + 1, chars.len());
            assert(a@ =~= s@.take(i as int));
            assert(b@ =~= s@.skip(i as int + 1));
            return Some((a, b));
        }
        i += 1;
    }
    None
}

pub open spec fn is_digit(c: char) -> bool {
    '0' <= c <= '9'
}

pub open spec fn is_lower(c: char) -> bool {
    'a' <= c <= 'z'
}

pub open spec fn is_upper(c: char) -> bool {
    'A' <= c <= 'Z'
}

pub open spec fn is_alphanumeric(c: char) -> bool {
    is_digit(c) || is_lower(c) || is_upper(c)
}

pub fn digit(c: char) -> (r: bool)
    ensures
        r == is_digit(c),
{
    '0' <= c && c <= '9'
}

pub fn lower(c: char) -> (r: bool)
    ensures
        r == is_lower(c),
{
    'a' <= c && c <= 'z'
}

pub fn upper(c: char) -> (r: bool)
    ensures
        r == is_upper(c),
{
    'A' <= c && c <= 'Z'
}

/// A lower-case ASCII letter as its capital; any other character unchanged.
pub open spec fn capital(c: char) -> char {
    if is_lower(c) {
        ((c as u32) - 32) as char
    } else {
        c
    }
}

/// An ASCII capital as its lower-case letter; any other character unchanged.
pub open spec fn small(c: char) -> char {
    if is_upper(c) {
        ((c as u32) + 32) as char
    } else {
        c
    }
}

pub fn to_capital(c: char) -> (r: char)
    ensures
        r == capital(c),
{
    if lower(c) {
        let u: u8 = c as u8;
        (u - 32) as char
    } else {
        c
    }
}

pub fn to_small(c: char) -> (r: char)
    ensures
        r == small(c),
{
    if upper(c) {
        let u: u8 = c as u8;
        (u + 32) as char
    } else {
        c
    }
}

/// Every character is a decimal digit, and there is at least one.
pub open spec fn all_digits(s: Seq<char>) -> bool {
    s.len() > 0 && forall|i: int| 0 <= i < s.len() ==> is_digit(#[trigger] s[i])
}

pub fn is_all_digits(s: &str) -> (r: bool)
    ensures
        r == all_digits(s@),
{
    let chars: Vec<char> = chars_of(s);
    let mut i: usize = 0;
    while i < chars.len()
        invariant
            i <= chars@.len(),
            chars@ == s@,
            forall|j: int| 0 <= j < i ==> is_digit(#[trigger] s@[j]),
        decreases chars@.len() - i,
    {
        if !digit(chars[i]) {
            assert(!is_digit(s@[i as int]));
            return false;
        }
        i += 1;
    }
    chars.len() > 0
}

/// The number that a row of digits stands for.
pub open spec fn digits_value(s: Seq<char>) -> nat
    decreases s.len(),
{
    if s.len() == 0 {
        0
    } else {
        digits_value(s.drop_last()) * 10 + ((s.last() as u32) - 48) as nat
    }
}

/// The digits of a number without the plus sign that may stand before them.
pub open spec fn unsigned(s: Seq<char>) -> Seq<char> {
    if s.len() > 0 && s[0] == '+' {
        s.drop_first()
    } else {
        s
    }
}

/// The number written as a text, where it is one below 2^64.
pub open spec fn parsed_u64(s: Seq<char>) -> Option<nat> {
    let digits = unsigned(s);
    if all_digits(digits) && digits_value(digits) <= u64::MAX {
        Some(digits_value(digits))
    } else {
        None
    }
}

/// The decimal digits of a number are digits, and they stand for it.
pub proof fn lemma_decimal(n: nat)
    ensures
        all_digits(decimal(n)),
        digits_value(decimal(n)) == n,
    decreases n,
{
    let s = decimal(n);
    if n < 10 {
        assert(s.drop_last() =~= Seq::<char>::empty());
        assert(is_digit(s[0]));
        assert(digits_value(s.drop_last()) == 0);
    } else {
        lemma_decimal(n / 10);
        assert(s.drop_last() =~= decimal(n / 10));
        assert(is_digit(s.last()));
        assert forall|i: int| 0 <= i < s.len() implies is_digit(#[trigger] s[i]) by {
            if i < s.len() - 1 {
                assert(s[i] == decimal(n / 10)[i]);
            }
        }
    }
}

proof fn lemma_digits_value_grows(s: Seq<char>, n: int)
    requires
        0 <= n <= s.len(),
        forall|i: int| 0 <= i < s.len() ==> is_digit(#[trigger] s[i]),
    ensures
        digits_value(s.take(n)) <= digits_value(s),
    decreases s.len(),
{
    if n == s.len() {
        assert(s.take(n) =~= s);
    } else {
        lemma_digits_value_grows(s.drop_last(), n);
        assert(s.drop_last().take(n) =~= s.take(n));
    }
}

/// Reads a number below 2^64.
pub fn parse_u64(s: &str) -> (out: Option<u64>)
    ensures
        match out {
            Some(n) => parsed_u64(s@) == Some(n as nat),
            None => parsed_u64(s@) is None,
        },
{
    let chars: Vec<char> = chars_of(s);
    let start: usize = if chars.len() > 0 && chars[0] == '+' {
        1
    } else {
        0
    };
    let ghost digits = unsigned(s@);
    assert(digits =~= s@.skip(start as int));
    if chars.len() == start {
        return None;
    }
    let mut value: u64 = 0;
    let mut i: usize = start;
    assert(digits.take(0).len() == 0);
    while i < chars.len()
        invariant
            start <= i <= chars@.len(),
            chars@ == s@,
            chars@.len() > start,
            digits == unsigned(s@),
            digits == s@.skip(start as int),
            forall|j: int| 0 <= j < i - start ==> is_digit(#[trigger] digits[j]),
            value == digits_value(digits.take(i - start)),
        decreases chars@.len() - i,
    {
        let c: char = chars[i];
        assert(digits[i - start] == c);
        if !digit(c) {
            return None;
        }
        let d: u64 = (c as u32 - 48) as u64;
        assert(digits.take(i - start + 1).drop_last() =~= digits.take(i - start));
        if value > (u64::MAX - d) / 10 {
            proof {
                if all_digits(digits) {
                    lemma_digits_value_grows(digits, i - start + 1);
                }
            }
            return None;
        }
        value = value * 10 + d;
        i += 1;
    }
    assert(digits.take(i - start) =~= digits);
    Some(value)
}

/// The texts of a list without repetitions: each stands where it first stood.
pub open spec fn distinct(list: Seq<Seq<char>>) -> Seq<Seq<char>>
    decreases list.len(),
{
    if list.len() == 0 {
        Seq::empty()
    } else {
        let before = distinct(list.drop_last());
        if before.contains(list.last()) {
            before
        } else {
            before.push(list.last())
        }
    }
}

pub fn distinct_texts(list: &Vec<String>) -> (out: Vec<String>)
    ensures
        texts(out@) == distinct(texts(list@)),
{
    broadcast use texts_push;

    let ghost all = texts(list@);
    let mut out: Vec<String> = Vec::new();
    let mut i: usize = 0;
    assert(texts(out@) =~= distinct(all.take(0)));
    while i < list.len()
        invariant
            i <= list@.len(),
            all == texts(list@),
            texts(out@) == distinct(all.take(i as int)),
        decreases list@.len() - i,
    {
        assert(all.take(i as int + 1).drop_last() =~= all.take(i as int));
        assert(all[i as int] == list@[i as int]@);
        if !has_text(&out, list[i].as_str()) {
            out.push(list[i].clone());
        }
        i += 1;
    }
    assert(all.take(i as int) =~= all);
    out
}

/// A list without repetitions holds what the list holds, each once.
pub proof fn law_distinct(list: Seq<Seq<char>>)
    ensures
        forall|s: Seq<char>| #[trigger] distinct(list).contains(s) <==> list.contains(s),
        forall|i: int, j: int|
            0 <= i < j < distinct(list).len() ==> #[trigger] distinct(list)[i]
                != #[trigger] distinct(list)[j],
    decreases list.len(),
{
    if list.len() > 0 {
        let before = distinct(list.drop_last());
        law_distinct(list.drop_last());
        assert forall|s: Seq<char>| #[trigger] distinct(list).contains(s) <==> list.contains(s) by {
            if list.contains(s) {
                let i = choose|i: int| 0 <= i < list.len() && list[i] == s;
                if i < list.len() - 1 {
                    assert(list.drop_last()[i] == s);
                    assert(before.contains(s));
                    let k = choose|k: int| 0 <= k < before.len() && before[k] == s;
                    assert(distinct(list)[k] == s);
                } else if !before.contains(s) {
                    assert(distinct(list)[before.len() as int] == s);
                }
            }
            if distinct(list).contains(s) {
                let k = choose|k: int| 0 <= k < distinct(list).len() && distinct(list)[k] == s;
                if k < before.len() {
                    assert(before[k] == s);
                    assert(before.contains(s));
                    assert(list.drop_last().contains(s));
                    let i = choose|i: int|
                        0 <= i < list.drop_last().len() && list.drop_last()[i] == s;
                    assert(list[i] == s);
                } else {
                    assert(list[list.len() - 1] == s);
                }
            }
        }
        assert forall|i: int, j: int| 0 <= i < j < distinct(list).len() implies #[trigger] distinct(
            list,
        )[i] != #[trigger] distinct(list)[j] by {
            if j < before.len() {
                assert(before[i] != before[j]);
            } else {
                assert(before[i] != list.last());
            }
        }
    }
}

/// The pieces of a comma-separated list, trimmed, without the empty ones.
pub open spec fn listed(pieces: Seq<Seq<char>>) -> Seq<Seq<char>>
    decreases pieces.len(),
{
    if pieces.len() == 0 {
        Seq::empty()
    } else {
        let before = listed(pieces.drop_last());
        let item = trimmed(pieces.last());
        if item.len() > 0 {
            before.push(item)
        } else {
            before
        }
    }
}

/// The items of a comma-separated list.
pub fn split_list(raw: &str) -> (out: Vec<String>)
    ensures
        texts(out@) == listed(split(raw@, ',')),
{
    broadcast use texts_push;

    let pieces: Vec<String> = split_char(raw, ',');
    let ghost all = texts(pieces@);
    let mut out: Vec<String> = Vec::new();
    let mut i: usize = 0;
    assert(texts(out@) =~= listed(all.take(0)));
    while i < pieces.len()
        invariant
            i <= pieces@.len(),
            all == texts(pieces@),
            texts(out@) == listed(all.take(i as int)),
        decreases pieces@.len() - i,
    {
        assert(all.take(i as int + 1).drop_last() =~= all.take(i as int));
        assert(all[i as int] == pieces@[i as int]@);
        let item: String = trim(pieces[i].as_str());
        if !item.as_str().is_empty() {
            out.push(item);
        }
        i += 1;
    }
    assert(all.take(i as int) =~= all);
    out
}

/// What stands before and behind the first occurrence of a separator.
pub open spec fn cut_text(s: Seq<char>, sep: Seq<char>) -> Option<(Seq<char>, Seq<char>)> {
    match find_text(s, sep, 0) {
        Some(at) => Some((s.take(at as int), s.skip((at + sep.len()) as int))),
        None => None,
    }
}

pub fn split_once_text(s: &str, sep: &str) -> (out: Option<(String, String)>)
    ensures
        match out {
            Some((a, b)) => cut_text(s@, sep@) == Some((a@, b@)),
            None => cut_text(s@, sep@) is None,
        },
{
    let chars: Vec<char> = chars_of(s);
    let pat: Vec<char> = chars_of(sep);
    match find_position(&chars, &pat, 0) {
        None => None,
        Some(at) => {
            let n: usize = chars.len();
            let before: String = text_of(&chars, 0, at);
            let behind: String = text_of(&chars, at + pat.len(), n);
            assert(before@ =~= s@.take(at as int));
            assert(behind@ =~= s@.skip((at + pat@.len()) as int));
            Some((before, behind))
        },
    }
}

/// What stands before the first occurrence of a character; all of the text
/// where there is none.
pub open spec fn before_char(s: Seq<char>, c: char) -> Seq<char> {
    s.take(find_char(s, c, 0) as int)
}

pub fn up_to_char(s: &str, c: char) -> (out: String)
    ensures
        out@ == before_char(s@, c),
{
    let chars: Vec<char> = chars_of(s);
    let mut i: usize = 0;
    while i < chars.len() && chars[i] != c
        invariant
            i <= chars@.len(),
            chars@ == s@,
            find_char(s@, c, 0) == find_char(s@, c, i as nat),
        decreases chars@.len() - i,
    {
        i += 1;
    }
    let out: String = text_of(&chars, 0, i);
    assert(out@ =~= before_char(s@, c));
    out
}

/// What stands before the first occurrence of a text; all of it where there
/// is none.
pub open spec fn before_text(s: Seq<char>, sep: Seq<char>) -> Seq<char> {
    match cut_text(s, sep) {
        Some((before, _)) => before,
        None => s,
    }
}

pub fn up_to_text(s: &str, sep: &str) -> (out: String)
    ensures
        out@ == before_text(s@, sep@),
{
    match split_once_text(s, sep) {
        Some((before, _)) => before,
        None => s.to_owned(),
    }
}

/// Dictionary order: at the first place where two texts differ, the one with the
/// lower code point comes first, or the one that has ended.
pub proof fn law_dictionary_order(a: Seq<char>, b: Seq<char>)
    ensures
        text_before(a, b) <==> exists|k: int|
            {
                &&& 0 <= k <= a.len()
                &&& k < b.len()
                &&& #[trigger] a.take(k) == b.take(k)
                &&& k == a.len() || (a[k] as u32) < (b[k] as u32)
            },
    decreases a.len(),
{
    if b.len() == 0 {
    } else if a.len() == 0 {
        assert(a.take(0) =~= b.take(0));
    } else if a[0] != b[0] {
        assert(a.take(0) =~= b.take(0));
        if exists|k: int|
            {
                &&& 0 <= k <= a.len()
                &&& k < b.len()
                &&& #[trigger] a.take(k) == b.take(k)
                &&& k == a.len() || (a[k] as u32) < (b[k] as u32)
            } {
            let k = choose|k: int|
                {
                    &&& 0 <= k <= a.len()
                    &&& k < b.len()
                    &&& #[trigger] a.take(k) == b.take(k)
                    &&& k == a.len() || (a[k] as u32) < (b[k] as u32)
                };
            if k > 0 {
                assert(a.take(k)[0] == a[0]);
                assert(b.take(k)[0] == b[0]);
            }
        }
    } else {
        let x = a.drop_first();
        let y = b.drop_first();
        law_dictionary_order(x, y);
        if text_before(x, y) {
            let k = choose|k: int|
                {
                    &&& 0 <= k <= x.len()
                    &&& k < y.len()
                    &&& #[trigger] x.take(k) == y.take(k)
                    &&& k == x.len() || (x[k] as u32) < (y[k] as u32)
                };
            assert(a.take(k + 1) =~= seq![a[0]] + x.take(k));
            assert(b.take(k + 1) =~= seq![b[0]] + y.take(k));
        }
        if exists|k: int|
            {
                &&& 0 <= k <= a.len()
                &&& k < b.len()
                &&& #[trigger] a.take(k) == b.take(k)
                &&& k == a.len() || (a[k] as u32) < (b[k] as u32)
            } {
            let k = choose|k: int|
                {
                    &&& 0 <= k <= a.len()
                    &&& k < b.len()
                    &&& #[trigger] a.take(k) == b.take(k)
                    &&& k == a.len() || (a[k] as u32) < (b[k] as u32)
                };
            assert(k > 0);
            assert(x.take(k - 1) =~= a.take(k).drop_first());
            assert(y.take(k - 1) =~= b.take(k).drop_first());
        }
    }
}

/// The white characters, one by one.
pub proof fn law_white_characters(c: char)
    ensures
        is_white(c) <==> seq![
            0x09u32,
            0x0au32,
            0x0bu32,
            0x0cu32,
            0x0du32,
            0x20u32,
            0x85u32,
            0xa0u32,
            0x1680u32,
            0x2000u32,
            0x2001u32,
            0x2002u32,
            0x2003u32,
            0x2004u32,
            0x2005u32,
            0x2006u32,
            0x2007u32,
            0x2008u32,
            0x2009u32,
            0x200au32,
            0x2028u32,
            0x2029u32,
            0x202fu32,
            0x205fu32,
            0x3000u32,
        ].contains(c as u32),
{
    let all = seq![
        0x09u32,
        0x0au32,
        0x0bu32,
        0x0cu32,
        0x0du32,
        0x20u32,
        0x85u32,
        0xa0u32,
        0x1680u32,
        0x2000u32,
        0x2001u32,
        0x2002u32,
        0x2003u32,
        0x2004u32,
        0x2005u32,
        0x2006u32,
        0x2007u32,
        0x2008u32,
        0x2009u32,
        0x200au32,
        0x2028u32,
        0x2029u32,
        0x202fu32,
        0x205fu32,
        0x3000u32,
    ];
    assert(all[0] == 0x09 && all[1] == 0x0a && all[2] == 0x0b && all[3] == 0x0c && all[4] == 0x0d);
    assert(all[5] == 0x20 && all[6] == 0x85 && all[7] == 0xa0 && all[8] == 0x1680);
    assert(all[9] == 0x2000 && all[10] == 0x2001 && all[11] == 0x2002 && all[12] == 0x2003);
    assert(all[13] == 0x2004 && all[14] == 0x2005 && all[15] == 0x2006 && all[16] == 0x2007);
    assert(all[17] == 0x2008 && all[18] == 0x2009 && all[19] == 0x200a && all[20] == 0x2028);
    assert(all[21] == 0x2029 && all[22] == 0x202f && all[23] == 0x205f && all[24] == 0x3000);
}

proof fn lemma_leading_white(s: Seq<char>)
    ensures
        leading_white(s) <= s.len(),
        forall|i: int| 0 <= i < leading_white(s) ==> is_white(#[trigger] s[i]),
        leading_white(s) < s.len() ==> !is_white(s[leading_white(s) as int]),
    decreases s.len(),
{
    if s.len() > 0 && is_white(s[0]) {
        let rest = s.drop_first();
        lemma_leading_white(rest);
        assert forall|i: int| 0 <= i < leading_white(s) implies is_white(#[trigger] s[i]) by {
            if i > 0 {
                assert(rest[i - 1] == s[i]);
            }
        }
    }
}

proof fn lemma_trailing_white(s: Seq<char>)
    ensures
        trailing_white(s) <= s.len(),
        forall|i: int| s.len() - trailing_white(s) <= i < s.len() ==> is_white(#[trigger] s[i]),
        trailing_white(s) < s.len() ==> !is_white(s[s.len() - trailing_white(s) - 1]),
    decreases s.len(),
{
    if s.len() > 0 && is_white(s.last()) {
        let rest = s.drop_last();
        lemma_trailing_white(rest);
        assert forall|i: int| s.len() - trailing_white(s) <= i < s.len() implies is_white(
            #[trigger] s[i],
        ) by {
            if i < s.len() - 1 {
                assert(rest[i] == s[i]);
            }
        }
    }
}

/// Trimming takes all the white space at the ends of a text, and nothing else.
pub proof fn law_trimming(s: Seq<char>)
    ensures
        exists|a: int, b: int|
            {
                &&& 0 <= a <= b <= s.len()
                &&& trimmed(s) == #[trigger] s.subrange(a, b)
                &&& forall|i: int| 0 <= i < a ==> is_white(#[trigger] s[i])
                &&& forall|i: int| b <= i < s.len() ==> is_white(#[trigger] s[i])
                &&& a < b ==> !is_white(s[a]) && !is_white(s[b - 1])
            },
        exists|b: int|
            {
                &&& 0 <= b <= s.len()
                &&& trimmed_end(s) == #[trigger] s.take(b)
                &&& forall|i: int| b <= i < s.len() ==> is_white(#[trigger] s[i])
                &&& b > 0 ==> !is_white(s[b - 1])
            },
        exists|a: int|
            {
                &&& 0 <= a <= s.len()
                &&& trimmed_start(s) == #[trigger] s.skip(a)
                &&& forall|i: int| 0 <= i < a ==> is_white(#[trigger] s[i])
                &&& a < s.len() ==> !is_white(s[a])
            },
{
    lemma_leading_white(s);
    lemma_trailing_white(s);
    let a = leading_white(s) as int;
    let rest = trimmed_start(s);
    lemma_trailing_white(rest);
    let b = s.len() - trailing_white(rest);
    assert(trimmed(s) =~= s.subrange(a, b));
    assert forall|i: int| b <= i < s.len() implies is_white(#[trigger] s[i]) by {
        assert(rest[i - a] == s[i]);
    }
    if a < b {
        assert(rest[b - a - 1] == s[b - 1]);
    }
    assert(trimmed_end(s) == s.take(s.len() - trailing_white(s)));
    assert(trimmed_start(s) == s.skip(a));
}

/// The pieces of a text are free of the separator, and put together again with
/// it they are the text.
pub proof fn law_splitting(s: Seq<char>, sep: char)
    ensures
        split(s, sep).len() > 0,
        join(split(s, sep), seq![sep]) == s,
        forall|i: int| 0 <= i < split(s, sep).len() ==> !(#[trigger] split(s, sep)[i]).contains(sep),
    decreases s.len(),
{
    let pieces = split(s, sep);
    if s.len() == 0 {
        assert(join(pieces, seq![sep]) =~= s);
    } else {
        let front = s.drop_last();
        let before = split(front, sep);
        law_splitting(front, sep);
        assert(front.push(s.last()) =~= s);
        if s.last() == sep {
            assert(pieces.drop_last() =~= before);
            assert(join(pieces, seq![sep]) =~= front + seq![sep] + Seq::<char>::empty());
            assert(join(pieces, seq![sep]) =~= s);
        } else {
            let longer = before.last().push(s.last());
            assert(pieces.drop_last() =~= before.drop_last());
            assert(pieces.last() == longer);
            if before.len() == 1 {
                assert(join(pieces, seq![sep]) =~= s);
            } else {
                let head = join(before.drop_last(), seq![sep]);
                assert(head + seq![sep] + longer =~= (head + seq![sep] + before.last()).push(
                    s.last(),
                ));
            }
            assert(!longer.contains(sep)) by {
                if longer.contains(sep) {
                    let k = choose|k: int| 0 <= k < longer.len() && longer[k] == sep;
                    if k < before.last().len() {
                        assert(before.last()[k] == sep);
                        assert(before[before.len() - 1].contains(sep));
                    }
                }
            }
            assert forall|i: int| 0 <= i < pieces.len() implies !(#[trigger] pieces[i]).contains(
                sep,
            ) by {
                if i < pieces.len() - 1 {
                    assert(pieces[i] == before[i]);
                }
            }
        }
    }
}

/// What stands before the first separator is the first piece; the rest is split
/// as it would be alone.
pub proof fn law_splitting_on(a: Seq<char>, b: Seq<char>, sep: char)
    requires
        !a.contains(sep),
    ensures
        split(a, sep) == seq![a],
        split(a.push(sep) + b, sep) == seq![a] + split(b, sep),
    decreases b.len(),
{
    let s = a.push(sep) + b;
    lemma_split_plain(a, sep);
    if b.len() == 0 {
        assert(s.drop_last() =~= a);
        assert(split(s, sep) =~= seq![a] + split(b, sep));
    } else {
        let front = b.drop_last();
        law_splitting_on(a, front, sep);
        lemma_split_nonempty(front, sep);
        assert(s.drop_last() =~= a.push(sep) + front);
        assert(split(s, sep) =~= seq![a] + split(b, sep));
    }
}

/// The lines of a text: a line ends at a line feed, and a carriage return before
/// it goes with it; behind the last line feed there is a line only if something
/// stands there, and it stays as it is.
pub proof fn law_lines(a: Seq<char>, b: Seq<char>)
    requires
        !a.contains('\n'),
    ensures
        lines(a) == if a.len() == 0 {
            Seq::empty()
        } else {
            seq![a]
        },
        lines(a.push('\n') + b) == seq![
            if a.len() > 0 && a.last() == '\r' {
                a.drop_last()
            } else {
                a
            },
        ] + lines(b),
{
    law_splitting_on(a, b, '\n');
    lemma_split_nonempty(b, '\n');
    let pieces = split(b, '\n');
    let all = split(a.push('\n') + b, '\n');
    assert(seq![a].drop_last() =~= Seq::<Seq<char>>::empty());
    assert(lines(a) =~= if a.len() == 0 {
        Seq::empty()
    } else {
        seq![a]
    });
    assert(all.drop_last() =~= seq![a] + pieces.drop_last());
    assert(all.last() == pieces.last());
    assert(lines(a.push('\n') + b) =~= seq![without_cr(a)] + lines(b));
}

/// Texts are put together one after the other, with the separator between them
/// and nowhere else.
pub proof fn law_joining(a: Seq<Seq<char>>, b: Seq<Seq<char>>, sep: Seq<char>)
    ensures
        join(Seq::empty(), sep) == Seq::<char>::empty(),
        forall|s: Seq<char>| #[trigger] join(seq![s], sep) == s,
        a.len() > 0 && b.len() > 0 ==> join(a + b, sep) == join(a, sep) + sep + join(b, sep),
    decreases b.len(),
{
    if a.len() > 0 && b.len() > 0 {
        let front = b.drop_last();
        law_joining(a, front, sep);
        assert((a + b).drop_last() =~= a + front);
        assert((a + b).last() == b.last());
        if front.len() == 0 {
            assert(a + front =~= a);
        } else {
            assert(join(a, sep) + sep + join(front, sep) + sep + b.last() =~= join(a, sep) + sep + (
            join(front, sep) + sep + b.last()));
        }
    }
}

/// A text in which nothing is to be replaced stays; elsewhere what stands before
/// the first occurrence stays, the occurrence is replaced, and the rest is
/// treated as it would be alone.
pub proof fn law_replacing(a: Seq<char>, b: Seq<char>, from: Seq<char>, to: Seq<char>)
    requires
        from.len() > 0,
    ensures
        !contains_text(a, from) ==> replaced(a, from, to) == a,
        (forall|at: int| #[trigger] occurs_at(a + from + b, from, at) ==> at >= a.len())
            ==> replaced(a + from + b, from, to) == a + to + replaced(b, from, to),
    decreases a.len(),
{
    let s = a + from + b;
    if a.len() == 0 {
        assert(s.skip(from.len() as int) =~= b);
        assert(s.subrange(0, from.len() as int) =~= from);
        assert(to + replaced(b, from, to) =~= a + to + replaced(b, from, to));
        assert(replaced(a, from, to) == a);
    } else {
        let rest = a.drop_first();
        law_replacing(rest, b, from, to);
        let tail = rest + from + b;
        assert(s.drop_first() =~= tail);
        if forall|at: int| #[trigger] occurs_at(s, from, at) ==> at >= a.len() {
            assert(!occurs_at(s, from, 0));
            assert forall|at: int| #[trigger] occurs_at(tail, from, at) implies at >= rest.len() by {
                assert(s.subrange(at + 1, at + 1 + from.len()) =~= tail.subrange(
                    at,
                    at + from.len(),
                ));
                assert(occurs_at(s, from, at + 1));
            }
            assert(seq![s[0]] + (rest + to + replaced(b, from, to)) =~= a + to + replaced(
                b,
                from,
                to,
            ));
        }
        if !contains_text(a, from) {
            assert(!occurs_at(a, from, 0));
            assert(!contains_text(rest, from)) by {
                if contains_text(rest, from) {
                    let at = choose|at: int| occurs_at(rest, from, at);
                    assert(a.subrange(at + 1, at + 1 + from.len()) =~= rest.subrange(
                        at,
                        at + from.len(),
                    ));
                    assert(occurs_at(a, from, at + 1));
                }
            }
            assert(seq![a[0]] + rest =~= a);
        }
    }
}

/// A number is read back as it was written, with or without a plus sign and
/// zeros in front of it.
pub proof fn law_numbers_are_read_back(n: nat)
    requires
        n <= u64::MAX,
    ensures
        parsed_u64(decimal(n)) == Some(n),
        parsed_u64(seq!['+'] + decimal(n)) == Some(n),
        parsed_u64(seq!['0'] + decimal(n)) == Some(n),
        n > 0 ==> decimal(n)[0] != '0',
{
    lemma_decimal(n);
    let d = decimal(n);
    assert(is_digit(d[0]));
    assert((seq!['+'] + d).drop_first() =~= d);
    let z = seq!['0'] + d;
    assert forall|i: int| 0 <= i < z.len() implies is_digit(#[trigger] z[i]) by {
        if i > 0 {
            assert(z[i] == d[i - 1]);
        }
    }
    lemma_leading_zero(d);
    lemma_first_digit(n);
}

proof fn lemma_leading_zero(d: Seq<char>)
    ensures
        digits_value(seq!['0'] + d) == digits_value(d),
    decreases d.len(),
{
    let z = seq!['0'] + d;
    if d.len() == 0 {
        assert(z.drop_last() =~= Seq::<char>::empty());
        assert(digits_value(z.drop_last()) == 0);
    } else {
        lemma_leading_zero(d.drop_last());
        assert(z.drop_last() =~= seq!['0'] + d.drop_last());
    }
}

proof fn lemma_first_digit(n: nat)
    ensures
        decimal(n).len() > 0,
        n > 0 ==> decimal(n)[0] != '0',
    decreases n,
{
    if n >= 10 {
        lemma_first_digit(n / 10);
    }
}

/// What is no row of digits, but for a plus sign in front, is no number, nor is
/// one of 2^64 and more; all else is.
pub proof fn law_what_is_a_number(s: Seq<char>, d: Seq<char>)
    requires
        s == d || s == seq!['+'] + d,
        d.len() == 0 || d[0] != '+',
    ensures
        parsed_u64(s) is Some <==> {
            &&& d.len() > 0
            &&& forall|i: int| 0 <= i < d.len() ==> '0' <= #[trigger] d[i] <= '9'
            &&& digits_value(d) < 0x1_0000_0000_0000_0000
        },
{
    assert((seq!['+'] + d).drop_first() =~= d);
    assert(unsigned(s) == d);
    if all_digits(d) {
        assert forall|i: int| 0 <= i < d.len() implies '0' <= #[trigger] d[i] <= '9' by {
            assert(is_digit(d[i]));
        }
    }
    if forall|i: int| 0 <= i < d.len() ==> '0' <= #[trigger] d[i] <= '9' {
        assert forall|i: int| 0 <= i < d.len() implies is_digit(#[trigger] d[i]) by {
            assert('0' <= d[i] <= '9');
        }
    }
}

/// A negative number is written as its opposite with a minus sign in front.
pub proof fn law_signed_numbers(n: nat)
    ensures
        integer(n as int) == decimal(n),
        n > 0 ==> integer(-n) == seq!['-'] + decimal(n),
{
}

/// A text is cut at the first occurrence of a character: what stands before it
/// is free of it, and with it both parts are the text.
pub proof fn law_cutting(s: Seq<char>, c: char)
    ensures
        match cut(s, c) {
            Some((a, b)) => {
                &&& s == a.push(c) + b
                &&& !a.contains(c)
                &&& before_char(s, c) == a
            },
            None => !s.contains(c) && before_char(s, c) == s,
        },
{
    lemma_find_char(s, c, 0);
    let at = find_char(s, c, 0) as int;
    if at < s.len() {
        assert(s.take(at).push(c) + s.skip(at + 1) =~= s);
        assert(!s.take(at).contains(c));
    } else {
        assert(s.take(at) =~= s);
    }
}

/// A text is cut at the first occurrence of another: none stands further in
/// front, and with it both parts are the text.
pub proof fn law_cutting_at_a_text(s: Seq<char>, sep: Seq<char>)
    ensures
        match cut_text(s, sep) {
            Some((a, b)) => {
                &&& s == a + sep + b
                &&& forall|at: int| #[trigger] occurs_at(s, sep, at) ==> at >= a.len()
                &&& before_text(s, sep) == a
            },
            None => !contains_text(s, sep) && before_text(s, sep) == s,
        },
{
    lemma_find_text(s, sep, 0);
    match find_text(s, sep, 0) {
        Some(at) => {
            assert(s.subrange(at as int, (at + sep.len()) as int) == sep);
            assert(s.take(at as int) + sep + s.skip((at + sep.len()) as int) =~= s);
        },
        None => {},
    }
}

/// The items of a list are its pieces, trimmed, without those of which nothing is
/// left, in order.
pub proof fn law_listing(pieces: Seq<Seq<char>>)
    ensures
        listed(pieces) == pieces.filter_map(
            |p: Seq<char>|
                if trimmed(p).len() > 0 {
                    Some(trimmed(p))
                } else {
                    None
                },
        ),
    decreases pieces.len(),
{
    let f = |p: Seq<char>|
        if trimmed(p).len() > 0 {
            Some(trimmed(p))
        } else {
            None
        };
    if pieces.len() > 0 {
        let n = pieces.len() - 1;
        law_listing(pieces.drop_last());
        lemma_kept_next(pieces, f, n);
        assert(pieces.take(n) =~= pieces.drop_last());
        assert(pieces.take(n + 1) =~= pieces);
    }
}

/// Letters change case one by one, from `a` to `A` up to `z` to `Z`, and nothing
/// else does.
pub proof fn law_letter_case(c: char)
    ensures
        'a' <= c <= 'z' ==> (capital(c) as u32) - ('A' as u32) == (c as u32) - ('a' as u32) && small(
            capital(c),
        ) == c,
        !('a' <= c <= 'z') ==> capital(c) == c,
        'A' <= c <= 'Z' ==> (small(c) as u32) - ('a' as u32) == (c as u32) - ('A' as u32) && capital(
            small(c),
        ) == c,
        !('A' <= c <= 'Z') ==> small(c) == c,
{
}

/// One text more at the end of a list is there once more only if it was not
/// there before.
pub proof fn law_distinct_step(list: Seq<Seq<char>>, s: Seq<char>)
    ensures
        distinct(list.push(s)) == if list.contains(s) {
            distinct(list)
        } else {
            distinct(list).push(s)
        },
        distinct(Seq::empty()) == Seq::<Seq<char>>::empty(),
{
    law_distinct(list);
    assert(list.push(s).drop_last() =~= list);
}

/// What a text begins with, ends with and holds.
pub proof fn law_parts(whole: Seq<char>, part: Seq<char>)
    ensures
        starts_with(whole, part) <==> exists|rest: Seq<char>| whole == #[trigger] (part + rest),
        ends_with(whole, part) <==> exists|rest: Seq<char>| whole == #[trigger] (rest + part),
        contains_text(whole, part) <==> exists|a: Seq<char>, b: Seq<char>|
            whole == #[trigger] (a + part + b),
{
    if starts_with(whole, part) {
        assert(whole =~= part + whole.skip(part.len() as int));
    }
    if exists|rest: Seq<char>| whole == #[trigger] (part + rest) {
        assert(whole.subrange(0, part.len() as int) =~= part);
    }
    if ends_with(whole, part) {
        let n = whole.len() - part.len();
        assert(whole =~= whole.take(n) + whole.subrange(n, n + part.len()));
    }
    if exists|rest: Seq<char>| whole == #[trigger] (rest + part) {
        let n = whole.len() - part.len();
        assert(whole.subrange(n, n + part.len()) =~= part);
    }
    if contains_text(whole, part) {
        let at = choose|at: int| occurs_at(whole, part, at);
        assert(whole =~= whole.take(at) + whole.subrange(at, at + part.len()) + whole.skip(
            at + part.len(),
        ));
    }
    if exists|a: Seq<char>, b: Seq<char>| whole == #[trigger] (a + part + b) {
        let (a, b) = choose|a: Seq<char>, b: Seq<char>| whole == #[trigger] (a + part + b);
        let at = a.len() as int;
        assert(whole.subrange(at, at + part.len()) =~= part);
        assert(occurs_at(whole, part, at));
    }
}

/// A quoted text stands between two quotation marks.
pub proof fn law_quoting(s: Seq<char>)
    ensures
        quoted(s) == seq!['"'] + s + seq!['"'],
{
    reveal_strlit("\"");
    assert("\""@ =~= seq!['"']);
}

/// Digits, small letters and capital letters are those of ASCII, and none is two
/// of them.
pub proof fn law_kinds_of_characters(c: char)
    ensures
        is_digit(c) <==> 48 <= c as int <= 57,
        is_lower(c) <==> 97 <= c as int <= 122,
        is_upper(c) <==> 65 <= c as int <= 90,
{
}

} // verus!
