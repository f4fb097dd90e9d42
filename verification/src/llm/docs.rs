//! What a language reference says about a diagnostic.
use crate::lists::lemma_kept_next;
use crate::outside::{is_letter_or_number, letter_or_number, lower_case, to_lowercase};
use crate::text::{
    chars_of, distinct, distinct_texts, has_text, join, join_texts, texts, texts_push,
};
use vstd::prelude::*;
use vstd::string::StringSliceAdditionalSpecFns;
use vstd::utf8::{encode_utf8, is_char_boundary};

verus! {

/// How many bytes of a section are quoted.
pub const MAX_SECTION_BYTES: usize = 4000;

/// A character that words are made of.
pub open spec fn is_word_char(c: char) -> bool {
    letter_or_number(c) || c == '_'
}

/// What stands between the characters of a text that no word is made of.
pub open spec fn words(s: Seq<char>) -> Seq<Seq<char>>
    decreases s.len(),
{
    if s.len() == 0 {
        seq![Seq::<char>::empty()]
    } else {
        let before = words(s.drop_last());
        if is_word_char(s.last()) {
            before.update(before.len() - 1, before.last().push(s.last()))
        } else {
            before.push(Seq::<char>::empty())
        }
    }
}

fn split_words(s: &str) -> (out: Vec<String>)
    ensures
        texts(out@) == words(s@),
{
    broadcast use texts_push;

    let chars: Vec<char> = chars_of(s);
    let mut done: Vec<String> = Vec::new();
    let mut cur: String = String::new();
    let mut i: usize = 0;
    assert(s@.take(0) =~= Seq::<char>::empty());
    assert(texts(done@).push(cur@) =~= words(s@.take(0)));
    while i < chars.len()
        invariant
            i <= chars@.len(),
            chars@ == s@,
            texts(done@).push(cur@) == words(s@.take(i as int)),
        decreases chars@.len() - i,
    {
        let c: char = chars[i];
        let ghost before = texts(done@).push(cur@);
        assert(s@.take(i as int + 1).drop_last() =~= s@.take(i as int));
        assert(s@.take(i as int + 1).last() == c);
        if is_letter_or_number(c) || c == '_' {
            cur.push(c);
            assert(texts(done@).push(cur@) =~= before.update(
                before.len() - 1,
                before.last().push(c),
            ));
        } else {
            done.push(cur);
            cur = String::new();
            assert(texts(done@).push(cur@) =~= before.push(Seq::<char>::empty()));
        }
        i += 1;
    }
    assert(s@.take(chars@.len() as int) =~= s@);
    done.push(cur);
    done
}

/// The words of more than two bytes among the first `n`, in lower case.
pub open spec fn long_words(list: Seq<Seq<char>>, n: nat) -> Seq<Seq<char>>
    decreases n,
{
    if n == 0 {
        Seq::empty()
    } else {
        let before = long_words(list, (n - 1) as nat);
        if encode_utf8(list[n - 1]).len() as usize > 2 {
            before.push(lower_case(list[n - 1]))
        } else {
            before
        }
    }
}

/// The words that a text is found by, each once.
pub open spec fn tokens(s: Seq<char>) -> Seq<Seq<char>> {
    distinct(long_words(words(s), words(s).len()))
}

/// The words that a text is found by.
pub fn doc_tokens(s: &str) -> (out: Vec<String>)
    ensures
        texts(out@) == tokens(s@),
{
    broadcast use texts_push;

    let list: Vec<String> = split_words(s);
    let ghost views = words(s@);
    let mut out: Vec<String> = Vec::new();
    let mut i: usize = 0;
    assert(texts(out@) =~= Seq::<Seq<char>>::empty());
    while i < list.len()
        invariant
            i <= list@.len(),
            texts(list@) == views,
            texts(out@) == long_words(views, i as nat),
        decreases list@.len() - i,
    {
        assert(views[i as int] == list@[i as int]@);
        if list[i].as_str().len() > 2 {
            out.push(to_lowercase(list[i].as_str()));
        }
        i += 1;
    }
    assert(texts(list@).len() == list@.len());
    distinct_texts(&out)
}

/// A heading begins with the last character of a text: a `#` at the start of a
/// line that is not the first.
pub open spec fn begins_section(s: Seq<char>) -> bool {
    s.len() >= 2 && s.last() == '#' && s[s.len() - 2] == '\n'
}

/// A document cut before each of its headings.
pub open spec fn pieces(s: Seq<char>) -> Seq<Seq<char>>
    decreases s.len(),
{
    if s.len() == 0 {
        seq![Seq::<char>::empty()]
    } else {
        let before = pieces(s.drop_last());
        if begins_section(s) {
            before.push(seq![s.last()])
        } else {
            before.update(before.len() - 1, before.last().push(s.last()))
        }
    }
}

fn cut_pieces(s: &str) -> (out: Vec<String>)
    ensures
        texts(out@) == pieces(s@),
{
    broadcast use texts_push;

    let chars: Vec<char> = chars_of(s);
    let mut done: Vec<String> = Vec::new();
    let mut cur: String = String::new();
    let mut i: usize = 0;
    assert(s@.take(0) =~= Seq::<char>::empty());
    assert(texts(done@).push(cur@) =~= pieces(s@.take(0)));
    while i < chars.len()
        invariant
            i <= chars@.len(),
            chars@ == s@,
            texts(done@).push(cur@) == pieces(s@.take(i as int)),
        decreases chars@.len() - i,
    {
        let c: char = chars[i];
        let ghost before = texts(done@).push(cur@);
        assert(s@.take(i as int + 1).drop_last() =~= s@.take(i as int));
        assert(s@.take(i as int + 1).last() == c);
        if i > 0 && c == '#' && chars[i - 1] == '\n' {
            done.push(cur);
            cur = String::new();
            cur.push(c);
            assert(cur@ =~= seq![c]);
            assert(texts(done@).push(cur@) =~= before.push(seq![c]));
        } else {
            cur.push(c);
            assert(texts(done@).push(cur@) =~= before.update(
                before.len() - 1,
                before.last().push(c),
            ));
        }
        i += 1;
    }
    assert(s@.take(chars@.len() as int) =~= s@);
    done.push(cur);
    done
}

/// The pieces among the first `n` that have a word to be found by.
pub open spec fn sections(list: Seq<Seq<char>>, n: nat) -> Seq<Seq<char>>
    decreases n,
{
    if n == 0 {
        Seq::empty()
    } else {
        let before = sections(list, (n - 1) as nat);
        if tokens(list[n - 1]).len() > 0 {
            before.push(list[n - 1])
        } else {
            before
        }
    }
}

/// The sections of a document.
pub open spec fn doc_sections(doc: Seq<char>) -> Seq<Seq<char>> {
    sections(pieces(doc), pieces(doc).len())
}

/// The sections of a document, each from its heading to the next. One without
/// a word to be found by is left out.
pub fn language_doc_sections(doc: &str) -> (out: Vec<String>)
    ensures
        texts(out@) == doc_sections(doc@),
{
    broadcast use texts_push;

    let list: Vec<String> = cut_pieces(doc);
    let ghost views = pieces(doc@);
    let mut out: Vec<String> = Vec::new();
    let mut i: usize = 0;
    assert(texts(out@) =~= Seq::<Seq<char>>::empty());
    while i < list.len()
        invariant
            i <= list@.len(),
            texts(list@) == views,
            texts(out@) == sections(views, i as nat),
        decreases list@.len() - i,
    {
        assert(views[i as int] == list@[i as int]@);
        let found: Vec<String> = doc_tokens(list[i].as_str());
        assert(texts(found@).len() == found@.len());
        if found.len() > 0 {
            out.push(list[i].clone());
        }
        i += 1;
    }
    assert(texts(list@).len() == list@.len());
    out
}

/// How many of the first `n` words are wanted.
pub open spec fn common(list: Seq<Seq<char>>, wanted: Seq<Seq<char>>, n: nat) -> nat
    decreases n,
{
    if n == 0 {
        0
    } else {
        common(list, wanted, (n - 1) as nat) + if wanted.contains(list[n - 1]) {
            1nat
        } else {
            0
        }
    }
}

/// How well a section fits: how many of the wanted words it has.
pub open spec fn score(section: Seq<char>, wanted: Seq<Seq<char>>) -> nat {
    common(tokens(section), wanted, tokens(section).len())
}

fn score_of(section: &str, wanted: &Vec<String>) -> (out: usize)
    ensures
        out == score(section@, texts(wanted@)),
{
    let list: Vec<String> = doc_tokens(section);
    let ghost views = tokens(section@);
    let mut count: usize = 0;
    let mut i: usize = 0;
    while i < list.len()
        invariant
            i <= list@.len(),
            count <= i,
            texts(list@) == views,
            count == common(views, texts(wanted@), i as nat),
        decreases list@.len() - i,
    {
        assert(views[i as int] == list@[i as int]@);
        if has_text(wanted, list[i].as_str()) {
            count += 1;
        }
        i += 1;
    }
    assert(texts(list@).len() == list@.len());
    count
}

/// The best fitting of the first `n` sections, other than `skip`: the earliest
/// of those with the highest score, if that is above nothing.
pub open spec fn best(
    list: Seq<Seq<char>>,
    wanted: Seq<Seq<char>>,
    skip: Option<nat>,
    n: nat,
) -> Option<nat>
    decreases n,
{
    if n == 0 {
        None
    } else {
        let before = best(list, wanted, skip, (n - 1) as nat);
        let here = (n - 1) as nat;
        if skip == Some(here) || score(list[n - 1], wanted) == 0 {
            before
        } else {
            match before {
                Some(b) => if score(list[n - 1], wanted) > score(list[b as int], wanted) {
                    Some(here)
                } else {
                    before
                },
                None => Some(here),
            }
        }
    }
}

fn find_best(list: &Vec<String>, wanted: &Vec<String>, skip: Option<usize>) -> (out: Option<usize>)
    ensures
        match out {
            Some(b) => b < list@.len() && best(
                texts(list@),
                texts(wanted@),
                match skip {
                    Some(s) => Some(s as nat),
                    None => None,
                },
                list@.len(),
            ) == Some(b as nat),
            None => best(
                texts(list@),
                texts(wanted@),
                match skip {
                    Some(s) => Some(s as nat),
                    None => None,
                },
                list@.len(),
            ) is None,
        },
{
    let ghost views = texts(list@);
    let ghost gone: Option<nat> = match skip {
        Some(s) => Some(s as nat),
        None => None,
    };
    let mut found: Option<usize> = None;
    let mut top: usize = 0;
    let mut i: usize = 0;
    while i < list.len()
        invariant
            i <= list@.len(),
            views == texts(list@),
            gone == (match skip {
                Some(s) => Some(s as nat),
                None => None,
            }),
            match found {
                Some(b) => {
                    &&& b < i
                    &&& best(views, texts(wanted@), gone, i as nat) == Some(b as nat)
                    &&& top == score(views[b as int], texts(wanted@))
                },
                None => best(views, texts(wanted@), gone, i as nat) is None,
            },
        decreases list@.len() - i,
    {
        assert(views[i as int] == list@[i as int]@);
        let skipped: bool = match skip {
            Some(s) => s == i,
            None => false,
        };
        if !skipped {
            let fits: usize = score_of(list[i].as_str(), wanted);
            let better: bool = match found {
                Some(_) => fits > top,
                None => true,
            };
            if fits > 0 && better {
                found = Some(i);
                top = fits;
            }
        }
        i += 1;
    }
    found
}

/// A section can be cut where it is too long.
pub open spec fn section_fits(section: Seq<char>) -> bool {
    encode_utf8(section).len() as usize > 4000 ==> is_char_boundary(encode_utf8(section), 4000)
}

/// Every section of a document can be cut where it is too long: no character
/// of more than one byte stands across the limit.
pub open spec fn quotable(doc: Seq<char>) -> bool {
    forall|i: int| 0 <= i < doc_sections(doc).len() ==> section_fits(#[trigger] doc_sections(doc)[i])
}

/// Whether every section of a document can be cut where it is too long.
pub fn is_quotable(doc: &str) -> (r: bool)
    ensures
        r == quotable(doc@),
{
    let list: Vec<String> = language_doc_sections(doc);
    let mut i: usize = 0;
    assert(texts(list@).len() == list@.len());
    while i < list.len()
        invariant
            i <= list@.len(),
            texts(list@) == doc_sections(doc@),
            texts(list@).len() == list@.len(),
            forall|j: int| 0 <= j < i ==> section_fits(#[trigger] doc_sections(doc@)[j]),
        decreases list@.len() - i,
    {
        assert(doc_sections(doc@)[i as int] == list@[i as int]@);
        let section: &str = list[i].as_str();
        if section.len() > MAX_SECTION_BYTES && !section.is_char_boundary(MAX_SECTION_BYTES) {
            assert(!section_fits(doc_sections(doc@)[i as int]));
            return false;
        }
        i += 1;
    }
    true
}

/// What is quoted of a section: its first four thousand bytes.
pub open spec fn quoted_part(section: Seq<char>) -> Seq<char> {
    if encode_utf8(section).len() as usize > 4000 {
        vstd::utf8::decode_utf8(encode_utf8(section).subrange(0, 4000))
    } else {
        section
    }
}

fn quote_section(section: &str) -> (out: String)
    requires
        section_fits(section@),
    ensures
        out@ == quoted_part(section@),
{
    broadcast use vstd::utf8::encode_utf8_decode_utf8;

    if section.len() > MAX_SECTION_BYTES {
        let (head, _) = section.split_at(MAX_SECTION_BYTES);
        assert(encode_utf8(head@) =~= encode_utf8(section@).subrange(0, 4000));
        head.to_owned()
    } else {
        section.to_owned()
    }
}

/// The two sections of a document that fit a text best, the better one first.
pub open spec fn excerpts(doc: Seq<char>, pattern: Seq<char>) -> Seq<Seq<char>> {
    let list = doc_sections(doc);
    let wanted = tokens(pattern);
    match best(list, wanted, None, list.len()) {
        None => Seq::empty(),
        Some(first) => match best(list, wanted, Some(first), list.len()) {
            None => seq![quoted_part(list[first as int])],
            Some(second) => seq![quoted_part(list[first as int]), quoted_part(list[second as int])],
        },
    }
}

/// What a document says about a text: the two sections that share the most
/// words with it.
pub fn relevant_doc_excerpt(doc: &str, pattern: &str) -> (out: String)
    requires
        quotable(doc@),
    ensures
        out@ == join(excerpts(doc@, pattern@), "\n---\n"@),
{
    broadcast use texts_push;

    let wanted: Vec<String> = doc_tokens(pattern);
    let list: Vec<String> = language_doc_sections(doc);
    let mut found: Vec<String> = Vec::new();
    assert(texts(found@) =~= Seq::<Seq<char>>::empty());
    assert(texts(list@).len() == list@.len());
    if let Some(first) = find_best(&list, &wanted, None) {
        assert(doc_sections(doc@)[first as int] == list@[first as int]@);
        found.push(quote_section(list[first].as_str()));
        assert(texts(found@) =~= seq![quoted_part(list@[first as int]@)]);
        if let Some(second) = find_best(&list, &wanted, Some(first)) {
            assert(doc_sections(doc@)[second as int] == list@[second as int]@);
            found.push(quote_section(list[second].as_str()));
        }
        assert(texts(found@) =~= excerpts(doc@, pattern@));
    }
    join_texts(&found, "\n---\n")
}

/// What a document says about a text, or nothing where one of its sections
/// cannot be cut.
pub fn doc_excerpt(doc: &str, pattern: &str) -> (out: Option<String>)
    ensures
        match out {
            Some(text) => quotable(doc@) && text@ == join(excerpts(doc@, pattern@), "\n---\n"@),
            None => !quotable(doc@),
        },
{
    if is_quotable(doc) {
        Some(relevant_doc_excerpt(doc, pattern))
    } else {
        None
    }
}

/// What stands before the first character that no word is made of is the first
/// word; the rest is cut as it would be alone.
pub proof fn law_words(a: Seq<char>, gap: char, b: Seq<char>)
    requires
        forall|i: int| 0 <= i < a.len() ==> is_word_char(#[trigger] a[i]),
        !is_word_char(gap),
    ensures
        words(a) == seq![a],
        words(a.push(gap) + b) == seq![a] + words(b),
    decreases b.len(),
{
    lemma_one_word(a);
    let s = a.push(gap) + b;
    if b.len() == 0 {
        assert(s.drop_last() =~= a);
        assert(words(s) =~= seq![a] + words(b));
    } else {
        let front = b.drop_last();
        law_words(a, gap, front);
        lemma_some_word(front);
        assert(s.drop_last() =~= a.push(gap) + front);
        assert(s.last() == b.last());
        let before = words(front);
        let all = seq![a] + before;
        if is_word_char(b.last()) {
            assert(all.last() == before.last());
            assert(all.update(all.len() - 1, all.last().push(b.last())) =~= seq![a] + before.update(
                before.len() - 1,
                before.last().push(b.last()),
            ));
        } else {
            assert(all.push(Seq::<char>::empty()) =~= seq![a] + before.push(Seq::<char>::empty()));
        }
    }
}

proof fn lemma_some_word(s: Seq<char>)
    ensures
        words(s).len() > 0,
    decreases s.len(),
{
    if s.len() > 0 {
        lemma_some_word(s.drop_last());
    }
}

proof fn lemma_one_word(a: Seq<char>)
    requires
        forall|i: int| 0 <= i < a.len() ==> is_word_char(#[trigger] a[i]),
    ensures
        words(a) == seq![a],
    decreases a.len(),
{
    if a.len() > 0 {
        let front = a.drop_last();
        assert forall|i: int| 0 <= i < front.len() implies is_word_char(#[trigger] front[i]) by {
            assert(is_word_char(a[i]));
        }
        lemma_one_word(front);
        assert(is_word_char(a[a.len() - 1]));
        assert(words(a) =~= seq![front.push(a.last())]);
        assert(front.push(a.last()) =~= a);
    } else {
        assert(a =~= Seq::<char>::empty());
    }
}

/// The words that a text is found by are those of more than two bytes, in lower
/// case, each once.
pub proof fn law_long_words(list: Seq<Seq<char>>, n: nat)
    requires
        n <= list.len(),
    ensures
        long_words(list, n) == list.take(n as int).filter_map(
            |w: Seq<char>|
                if encode_utf8(w).len() as usize > 2 {
                    Some(lower_case(w))
                } else {
                    None
                },
        ),
    decreases n,
{
    let f = |w: Seq<char>|
        if encode_utf8(w).len() as usize > 2 {
            Some(lower_case(w))
        } else {
            None
        };
    if n > 0 {
        law_long_words(list, (n - 1) as nat);
        lemma_kept_next(list, f, n - 1);
    }
}

/// A document cut before its headings is still the document: nothing is lost.
/// Each piece but the first begins with a heading, and none has one within.
pub proof fn law_pieces_of_a_document(s: Seq<char>)
    ensures
        pieces(s).len() > 0,
        pieces(s).flatten() == s,
        forall|i: int|
            1 <= i < pieces(s).len() ==> (#[trigger] pieces(s)[i]).len() > 0 && pieces(s)[i][0]
                == '#',
        s.len() > 0 ==> pieces(s).last().len() > 0 && pieces(s).last().last() == s.last(),
        forall|i: int, j: int|
            0 <= i < pieces(s).len() && 0 <= j < pieces(s)[i].len() - 1 ==> !(
            #[trigger] pieces(s)[i][j] == '\n' && pieces(s)[i][j + 1] == '#'),
    decreases s.len(),
{
    let now = pieces(s);
    if s.len() == 0 {
        let front = Seq::<Seq<char>>::empty();
        front.lemma_flatten_push(Seq::<char>::empty());
        assert(now =~= front.push(Seq::<char>::empty()));
        assert(now.flatten() =~= s);
    } else {
        let front = s.drop_last();
        let before = pieces(front);
        law_pieces_of_a_document(front);
        assert(front.push(s.last()) =~= s);
        if begins_section(s) {
            before.lemma_flatten_push(seq![s.last()]);
            assert(now.flatten() =~= s);
            assert forall|i: int, j: int|
                0 <= i < now.len() && 0 <= j < now[i].len() - 1 implies !(#[trigger] now[i][j]
                == '\n' && now[i][j + 1] == '#') by {
                if i < before.len() {
                    assert(now[i][j] == before[i][j]);
                }
            }
        } else {
            let head = before.drop_last();
            let longer = before.last().push(s.last());
            assert(before =~= head.push(before.last()));
            head.lemma_flatten_push(before.last());
            head.lemma_flatten_push(longer);
            assert(now =~= head.push(longer));
            assert(now.flatten() =~= s);
            assert forall|i: int|
                1 <= i < now.len() implies (#[trigger] now[i]).len() > 0 && now[i][0] == '#' by {
                assert(before[i].len() > 0 && before[i][0] == '#');
            }
            assert forall|i: int, j: int|
                0 <= i < now.len() && 0 <= j < now[i].len() - 1 implies !(#[trigger] now[i][j]
                == '\n' && now[i][j + 1] == '#') by {
                if i < now.len() - 1 {
                    assert(now[i][j] == before[i][j]);
                } else if j < before.last().len() - 1 {
                    assert(now[i][j] == before[before.len() - 1][j]);
                } else if front.len() > 0 {
                    assert(now[i][j] == before.last().last());
                    assert(now[i][j] == s[s.len() - 2]);
                }
            }
        }
    }
}

/// The sections of a document are its pieces that have a word to be found by, in
/// order.
pub proof fn law_sections_of_a_document(list: Seq<Seq<char>>, n: nat)
    requires
        n <= list.len(),
    ensures
        sections(list, n) == list.take(n as int).filter_map(
            |p: Seq<char>|
                if tokens(p).len() > 0 {
                    Some(p)
                } else {
                    None
                },
        ),
    decreases n,
{
    let f = |p: Seq<char>|
        if tokens(p).len() > 0 {
            Some(p)
        } else {
            None
        };
    if n > 0 {
        law_sections_of_a_document(list, (n - 1) as nat);
        lemma_kept_next(list, f, n - 1);
    }
}

/// How well a section fits is the number of its words that are wanted.
pub proof fn law_score_of_a_section(list: Seq<Seq<char>>, wanted: Seq<Seq<char>>, n: nat)
    requires
        n <= list.len(),
    ensures
        common(list, wanted, n) == list.take(n as int).filter_map(
            |w: Seq<char>|
                if wanted.contains(w) {
                    Some(w)
                } else {
                    None
                },
        ).len(),
    decreases n,
{
    let f = |w: Seq<char>|
        if wanted.contains(w) {
            Some(w)
        } else {
            None
        };
    if n > 0 {
        law_score_of_a_section(list, wanted, (n - 1) as nat);
        lemma_kept_next(list, f, n - 1);
    }
}

/// The best fitting section is the first of those that fit best: no other fits
/// better, and none before it as well; there is none only where none fits at all.
pub proof fn law_best_section(
    list: Seq<Seq<char>>,
    wanted: Seq<Seq<char>>,
    skip: Option<nat>,
    n: nat,
)
    requires
        n <= list.len(),
    ensures
        match best(list, wanted, skip, n) {
            Some(b) => {
                &&& b < n
                &&& skip != Some(b)
                &&& score(list[b as int], wanted) > 0
                &&& forall|i: int|
                    0 <= i < n && skip != Some(i as nat) ==> score(#[trigger] list[i], wanted)
                        <= score(list[b as int], wanted)
                &&& forall|i: int|
                    0 <= i < b && skip != Some(i as nat) ==> score(#[trigger] list[i], wanted)
                        < score(list[b as int], wanted)
            },
            None => forall|i: int|
                0 <= i < n && skip != Some(i as nat) ==> score(#[trigger] list[i], wanted) == 0,
        },
    decreases n,
{
    if n > 0 {
        law_best_section(list, wanted, skip, (n - 1) as nat);
        assert(score(list[n - 1], wanted) == score(list[n - 1], wanted));
    }
}

/// What is quoted are the two best fitting sections, the better one first; a long
/// one is cut after four thousand bytes.
pub proof fn law_what_is_quoted(doc: Seq<char>, pattern: Seq<char>, section: Seq<char>)
    ensures
        ({
            let list = sections(pieces(doc), pieces(doc).len());
            let first = best(list, tokens(pattern), None, list.len());
            let second = best(list, tokens(pattern), first, list.len());
            &&& first is None ==> excerpts(doc, pattern).len() == 0
            &&& first is Some && second is None ==> excerpts(doc, pattern) == seq![
                quoted_part(list[first->Some_0 as int]),
            ]
            &&& first is Some && second is Some ==> excerpts(doc, pattern) == seq![
                quoted_part(list[first->Some_0 as int]),
                quoted_part(list[second->Some_0 as int]),
            ]
        }),
        encode_utf8(section).len() as usize <= 4000 ==> quoted_part(section) == section,
        encode_utf8(section).len() as usize > 4000 ==> quoted_part(section)
            == vstd::utf8::decode_utf8(encode_utf8(section).subrange(0, 4000)),
        tokens(section) == distinct(long_words(words(section), words(section).len())),
        score(section, tokens(pattern)) == common(
            tokens(section),
            tokens(pattern),
            tokens(section).len(),
        ),
{
}

/// The sections of a document are its pieces that have a word to be found by. A
/// document can be quoted where each of them, if it has more than four thousand
/// bytes, can be cut there.
pub proof fn law_what_can_be_quoted(doc: Seq<char>)
    ensures
        doc_sections(doc) == sections(pieces(doc), pieces(doc).len()),
        quotable(doc) <==> forall|i: int|
            0 <= i < doc_sections(doc).len() ==> (encode_utf8(
                #[trigger] doc_sections(doc)[i],
            ).len() as usize > 4000 ==> is_char_boundary(encode_utf8(doc_sections(doc)[i]), 4000)),
{
    if quotable(doc) {
        assert forall|i: int| 0 <= i < doc_sections(doc).len() implies (encode_utf8(
            #[trigger] doc_sections(doc)[i],
        ).len() as usize > 4000 ==> is_char_boundary(encode_utf8(doc_sections(doc)[i]), 4000)) by {
            assert(section_fits(doc_sections(doc)[i]));
        }
    }
}

} // verus!
