//! Form parameters: `key=value&...`, percent-encoded.
use crate::composer::decl::opt_text;
use crate::outside::{from_utf8, from_utf8_lossy, lossy_text};
use crate::text::{cut, same_text, split, split_char, split_once, texts};
use vstd::prelude::*;
use vstd::string::*;
use vstd::utf8::{decode_utf8, encode_utf8, valid_utf8};

verus! {

/// The value of a hexadecimal digit.
pub open spec fn hex_value(b: u8) -> Option<int> {
    if 48 <= b <= 57 {
        Some(b - 48)
    } else if 97 <= b <= 102 {
        Some(b - 87)
    } else if 65 <= b <= 70 {
        Some(b - 55)
    } else {
        None
    }
}

/// The number that two characters write in base 16. A plus sign may stand
/// before a single digit.
pub open spec fn escape_value(a: u8, b: u8) -> Option<int> {
    match hex_value(b) {
        Some(low) => match hex_value(a) {
            Some(high) => Some(high * 16 + low),
            None => if a == 43 {
                Some(low)
            } else {
                None
            },
        },
        None => None,
    }
}

/// The bytes that an encoded value stands for: a plus sign is a space, a
/// percent sign and two hexadecimal digits are one byte, anything else is
/// itself.
pub open spec fn decoded(b: Seq<u8>) -> Seq<u8>
    decreases b.len(),
{
    if b.len() == 0 {
        Seq::empty()
    } else if b[0] == 43 {
        seq![32u8] + decoded(b.skip(1))
    } else if b[0] == 37 && b.len() > 2 && escape_value(b[1], b[2]) is Some {
        seq![escape_value(b[1], b[2])->Some_0 as u8] + decoded(b.skip(3))
    } else {
        seq![b[0]] + decoded(b.skip(1))
    }
}

/// No percent sign stands two bytes before the middle of a character.
pub open spec fn decodable(b: Seq<u8>) -> bool {
    forall|i: int|
        0 <= i && i + 3 < b.len() && #[trigger] b[i] == 37 ==> !(0x80 <= b[i + 3] < 0xc0)
}

fn digit_value(b: u8) -> (r: Option<u8>)
    ensures
        match r {
            Some(v) => v < 16 && hex_value(b) == Some(v as int),
            None => hex_value(b) is None,
        },
{
    if 48 <= b && b <= 57 {
        Some(b - 48)
    } else if 97 <= b && b <= 102 {
        Some(b - 87)
    } else if 65 <= b && b <= 70 {
        Some(b - 55)
    } else {
        None
    }
}

fn read_escape(a: u8, b: u8) -> (r: Option<u8>)
    ensures
        match r {
            Some(v) => escape_value(a, b) == Some(v as int),
            None => escape_value(a, b) is None,
        },
{
    match digit_value(b) {
        Some(low) => match digit_value(a) {
            Some(high) => Some(high * 16 + low),
            None => if a == 43 {
                Some(low)
            } else {
                None
            },
        },
        None => None,
    }
}

/// Whether a value can be decoded.
pub fn is_decodable(s: &str) -> (r: bool)
    ensures
        r == decodable(s.spec_bytes()),
{
    let bytes: &[u8] = s.as_bytes();
    let n: usize = bytes.len();
    let mut i: usize = 0;
    while i < n && 3 < n - i
        invariant
            i <= n,
            n == bytes@.len(),
            bytes@ == s.spec_bytes(),
            forall|j: int|
                0 <= j < i && j + 3 < n && #[trigger] bytes@[j] == 37 ==> !(0x80 <= bytes@[j + 3]
                    < 0xc0),
        decreases n - i,
    {
        if bytes[i] == 37 && 0x80 <= bytes[i + 3] && bytes[i + 3] < 0xc0 {
            assert(s.spec_bytes()[i as int] == 37);
            return false;
        }
        i += 1;
    }
    true
}

/// Decodes a percent-encoded value.
pub fn percent_decode(s: &str) -> (out: String)
    requires
        decodable(s.spec_bytes()),
    ensures
        out@ == lossy_text(decoded(s.spec_bytes())),
        valid_utf8(decoded(s.spec_bytes())) ==> out@ == decode_utf8(decoded(s.spec_bytes())),
{
    let bytes: &[u8] = s.as_bytes();
    let ghost all = s.spec_bytes();
    let n: usize = bytes.len();
    let mut out: Vec<u8> = Vec::new();
    let mut i: usize = 0;
    assert(all.skip(0) =~= all);
    assert(out@ + decoded(all) =~= decoded(all));
    while i < n
        invariant
            i <= n,
            n == bytes@.len(),
            bytes@ == all,
            out@ + decoded(all.skip(i as int)) == decoded(all),
        decreases n - i,
    {
        let ghost rest = all.skip(i as int);
        let ghost before = out@;
        let b: u8 = bytes[i];
        assert(rest[0] == b);
        let escape: Option<u8> = if b == 37 && 2 < n - i {
            assert(rest[1] == bytes@[i + 1] && rest[2] == bytes@[i + 2]);
            read_escape(bytes[i + 1], bytes[i + 2])
        } else {
            None
        };
        if b == 43 {
            out.push(32);
            i += 1;
            assert(rest.skip(1) =~= all.skip(i as int));
        } else {
            match escape {
                Some(v) => {
                    out.push(v);
                    i += 3;
                    assert(rest.skip(3) =~= all.skip(i as int));
                },
                None => {
                    out.push(b);
                    i += 1;
                    assert(rest.skip(1) =~= all.skip(i as int));
                },
            }
        }
        assert(out@ + decoded(all.skip(i as int)) =~= before + decoded(rest));
    }
    assert(out@ + decoded(all.skip(i as int)) =~= out@);
    from_utf8_lossy(out.as_slice())
}

/// The encoded value of the first of the pairs, from `from` on, with the given
/// key.
pub open spec fn raw_value(pairs: Seq<Seq<char>>, key: Seq<char>, from: nat) -> Option<Seq<char>>
    decreases pairs.len() - from,
{
    if from >= pairs.len() {
        None
    } else {
        match cut(pairs[from as int], '=') {
            Some((k, v)) => if k == key {
                Some(v)
            } else {
                raw_value(pairs, key, from + 1)
            },
            None => raw_value(pairs, key, from + 1),
        }
    }
}

/// The encoded value of a parameter.
pub open spec fn raw_param(form: Seq<char>, key: Seq<char>) -> Option<Seq<char>> {
    raw_value(split(form, '&'), key, 0)
}

/// The parameter, if it is given, can be decoded.
pub open spec fn readable(form: Seq<char>, key: Seq<char>) -> bool {
    raw_param(form, key) matches Some(v) ==> decodable(encode_utf8(v))
}

/// The value of a parameter.
pub open spec fn param(form: Seq<char>, key: Seq<char>) -> Option<Seq<char>> {
    match raw_param(form, key) {
        Some(v) => Some(lossy_text(decoded(encode_utf8(v)))),
        None => None,
    }
}

fn find_raw(form: &str, key: &str) -> (out: Option<String>)
    ensures
        opt_text(out) == raw_param(form@, key@),
{
    let pairs: Vec<String> = split_char(form, '&');
    let ghost all = texts(pairs@);
    let mut i: usize = 0;
    while i < pairs.len()
        invariant
            i <= pairs@.len(),
            all == texts(pairs@),
            all == split(form@, '&'),
            raw_value(all, key@, 0) == raw_value(all, key@, i as nat),
        decreases pairs@.len() - i,
    {
        assert(all[i as int] == pairs@[i as int]@);
        match split_once(pairs[i].as_str(), '=') {
            Some((k, v)) => {
                if same_text(k.as_str(), key) {
                    return Some(v);
                }
            },
            None => {},
        }
        i += 1;
    }
    None
}

/// Whether the parameter, if it is given, can be decoded.
pub fn is_readable(form: &str, key: &str) -> (r: bool)
    ensures
        r == readable(form@, key@),
{
    match find_raw(form, key) {
        Some(v) => is_decodable(v.as_str()),
        None => true,
    }
}

/// The decoded value of the first parameter with the given key.
pub fn query_param(query: &str, key: &str) -> (out: Option<String>)
    requires
        readable(query@, key@),
    ensures
        opt_text(out) == param(query@, key@),
        raw_param(query@, key@) matches Some(v) ==> valid_utf8(decoded(encode_utf8(v)))
            ==> opt_text(out) == Some(decode_utf8(decoded(encode_utf8(v)))),
{
    match find_raw(query, key) {
        Some(v) => Some(percent_decode(v.as_str())),
        None => None,
    }
}

/// The parameter of a request body, which must be UTF-8 to have any.
pub open spec fn form_param(body: Seq<u8>, key: Seq<char>) -> Option<Seq<char>> {
    if valid_utf8(body) {
        param(decode_utf8(body), key)
    } else {
        None
    }
}

/// The parameter of a request body, if it is given, can be decoded.
pub open spec fn form_readable(body: Seq<u8>, key: Seq<char>) -> bool {
    valid_utf8(body) ==> readable(decode_utf8(body), key)
}

/// Whether the parameter of a body, if it is given, can be decoded.
pub fn is_form_readable(body: &[u8], key: &str) -> (r: bool)
    ensures
        r == form_readable(body@, key@),
{
    match from_utf8(body) {
        Ok(form) => is_readable(form.as_str(), key),
        Err(_) => true,
    }
}

/// The decoded value of a parameter of a request body.
pub fn body_param(body: &[u8], key: &str) -> (out: Option<String>)
    requires
        form_readable(body@, key@),
    ensures
        opt_text(out) == form_param(body@, key@),
        valid_utf8(body@) ==> (raw_param(decode_utf8(body@), key@) matches Some(v) ==> valid_utf8(
            decoded(encode_utf8(v)),
        ) ==> opt_text(out) == Some(decode_utf8(decoded(encode_utf8(v))))),
{
    match from_utf8(body) {
        Ok(form) => query_param(form.as_str(), key),
        Err(_) => None,
    }
}

proof fn lemma_decoded_plain(b: Seq<u8>)
    requires
        forall|i: int| 0 <= i < b.len() ==> #[trigger] b[i] != 43 && b[i] != 37,
    ensures
        decoded(b) == b,
    decreases b.len(),
{
    if b.len() > 0 {
        lemma_decoded_plain(b.skip(1));
        assert(b =~= seq![b[0]] + b.skip(1));
    }
}

/// A value without plus and percent signs decodes to itself.
pub proof fn law_plain_values_decode_to_themselves(s: &str)
    requires
        forall|i: int|
            0 <= i < s.spec_bytes().len() ==> #[trigger] s.spec_bytes()[i] != 43
                && s.spec_bytes()[i] != 37,
    ensures
        decoded(s.spec_bytes()) == s.spec_bytes(),
        valid_utf8(decoded(s.spec_bytes())),
        decode_utf8(decoded(s.spec_bytes())) == s@,
{
    lemma_decoded_plain(s.spec_bytes());
    vstd::utf8::encode_utf8_valid_utf8(s@);
    vstd::utf8::encode_utf8_decode_utf8(s@);
}

/// The byte stands for itself in a form.
pub open spec fn is_plain(b: u8) -> bool {
    48 <= b <= 57 || 65 <= b <= 90 || 97 <= b <= 122 || b == 42 || b == 45 || b == 46 || b == 95
}

/// The upper-case hexadecimal digit of a number below 16.
pub open spec fn form_digit(n: int) -> u8 {
    if n < 10 {
        (48 + n) as u8
    } else {
        (55 + n) as u8
    }
}

/// A byte as a form sends it: a letter, a digit or one of `*-._` as it is, a
/// space as a plus sign, any other as a percent sign and two hexadecimal digits.
pub open spec fn encoded_byte(b: u8) -> Seq<u8> {
    if is_plain(b) {
        seq![b]
    } else if b == 32 {
        seq![43u8]
    } else {
        seq![37u8, form_digit(b as int / 16), form_digit(b as int % 16)]
    }
}

/// Bytes as a form sends them.
pub open spec fn form_encoded(bytes: Seq<u8>) -> Seq<u8>
    decreases bytes.len(),
{
    if bytes.len() == 0 {
        Seq::empty()
    } else {
        encoded_byte(bytes[0]) + form_encoded(bytes.skip(1))
    }
}

proof fn lemma_form_encoded(bytes: Seq<u8>)
    ensures
        decoded(form_encoded(bytes)) == bytes,
        forall|i: int| 0 <= i < form_encoded(bytes).len() ==> #[trigger] form_encoded(bytes)[i] < 128,
    decreases bytes.len(),
{
    if bytes.len() > 0 {
        let b = bytes[0];
        let head = encoded_byte(b);
        let rest = form_encoded(bytes.skip(1));
        let all = form_encoded(bytes);
        lemma_form_encoded(bytes.skip(1));
        assert(all == head + rest);
        assert forall|i: int| 0 <= i < all.len() implies #[trigger] all[i] < 128 by {
            if i >= head.len() {
                assert(all[i] == rest[i - head.len()]);
            }
        }
        assert(all[0] == head[0]);
        if is_plain(b) || b == 32 {
            assert(all.skip(1) =~= rest);
        } else {
            let high = b as int / 16;
            let low = b as int % 16;
            assert(all[1] == form_digit(high) && all[2] == form_digit(low));
            assert(hex_value(form_digit(high)) == Some(high));
            assert(hex_value(form_digit(low)) == Some(low));
            assert(escape_value(all[1], all[2]) == Some(b as int));
            assert(all.skip(3) =~= rest);
        }
        assert(bytes =~= seq![b] + bytes.skip(1));
    } else {
        assert(bytes =~= Seq::<u8>::empty());
    }
}

/// Decoding undoes the encoding of a form: what was sent for a text can be
/// decoded, and decodes to the text.
pub proof fn law_decoding_undoes_encoding(text: Seq<char>)
    ensures
        decodable(form_encoded(encode_utf8(text))),
        valid_utf8(decoded(form_encoded(encode_utf8(text)))),
        decode_utf8(decoded(form_encoded(encode_utf8(text)))) == text,
{
    lemma_form_encoded(encode_utf8(text));
    vstd::utf8::encode_utf8_valid_utf8(text);
    vstd::utf8::encode_utf8_decode_utf8(text);
}

/// The value of a hexadecimal digit, of either case.
pub proof fn law_hexadecimal_digits(n: int)
    requires
        0 <= n < 16,
    ensures
        n < 10 ==> hex_value(('0' as u8 + n) as u8) == Some(n),
        n >= 10 ==> hex_value(('a' as u8 + n - 10) as u8) == Some(n) && hex_value(
            ('A' as u8 + n - 10) as u8,
        ) == Some(n),
{
}

/// How bytes are decoded one by one: a plus sign is a space; a percent sign with
/// two hexadecimal digits is the byte that they write; anything else, a percent
/// sign without them too, stands for itself.
pub proof fn law_decoding(b: Seq<u8>)
    requires
        b.len() > 0,
    ensures
        b[0] == 43 ==> decoded(b) == seq![32u8] + decoded(b.skip(1)),
        b[0] == 37 && b.len() > 2 && hex_value(b[1]) is Some && hex_value(b[2]) is Some ==> decoded(
            b,
        ) == seq![(hex_value(b[1])->Some_0 * 16 + hex_value(b[2])->Some_0) as u8] + decoded(
            b.skip(3),
        ),
        b[0] == 37 && (b.len() <= 2 || hex_value(b[2]) is None || (hex_value(b[1]) is None && b[1]
            != 43)) ==> decoded(b) == seq![37u8] + decoded(b.skip(1)),
        b[0] != 37 && b[0] != 43 ==> decoded(b) == seq![b[0]] + decoded(b.skip(1)),
{
}

/// The value of a parameter is what stands behind the first equals sign of the
/// first pair with its key.
pub proof fn law_value_of_a_parameter(pairs: Seq<Seq<char>>, key: Seq<char>, from: nat)
    ensures
        match raw_value(pairs, key, from) {
            Some(v) => exists|i: int|
                {
                    &&& from <= i < pairs.len()
                    &&& cut(#[trigger] pairs[i], '=') == Some((key, v))
                    &&& forall|j: int|
                        from <= j < i ==> (cut(#[trigger] pairs[j], '=') matches Some((k, _)) ==> k
                            != key)
                },
            None => forall|j: int|
                from <= j < pairs.len() ==> (cut(#[trigger] pairs[j], '=') matches Some((k, _))
                    ==> k != key),
        },
    decreases pairs.len() - from,
{
    if from < pairs.len() {
        law_value_of_a_parameter(pairs, key, from + 1);
        assert(cut(pairs[from as int], '=') == cut(pairs[from as int], '='));
    }
}

/// A parameter of a form is the first pair between ampersands with its key,
/// decoded; a body that is no text has none.
pub proof fn law_parameters(form: Seq<char>, body: Seq<u8>, key: Seq<char>)
    ensures
        raw_param(form, key) == raw_value(split(form, '&'), key, 0),
        raw_param(form, key) matches Some(v) ==> param(form, key) == Some(
            lossy_text(decoded(encode_utf8(v))),
        ),
        raw_param(form, key) is None ==> param(form, key) is None,
        valid_utf8(body) ==> form_param(body, key) == param(decode_utf8(body), key),
        !valid_utf8(body) ==> form_param(body, key) is None,
{
}

/// A request body can be read unless it is a text whose parameter holds an
/// escape that is none.
pub proof fn law_what_can_be_read(form: Seq<char>, body: Seq<u8>, key: Seq<char>)
    ensures
        readable(form, key) <==> (raw_param(form, key) is None || decodable(
            encode_utf8(raw_param(form, key)->Some_0),
        )),
        form_readable(body, key) <==> (!valid_utf8(body) || readable(decode_utf8(body), key)),
{
}

} // verus!
