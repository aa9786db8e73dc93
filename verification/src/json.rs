//! The small part of JSON that the wire formats of this crate need, on bytes.

use vstd::prelude::*;
use vstd::string::StringSliceAdditionalSpecFns;
use vstd::string::StringExecFns;

verus! {

/// The bytes that may stand between two tokens: space, line feed, tab and
/// carriage return.
pub open spec fn is_whitespace(byte: u8) -> bool {
    byte == 0x20 || byte == 0x0a || byte == 0x09 || byte == 0x0d
}

/// The first index at or after `from` that holds no whitespace; it is
/// `text.len()` where only whitespace is left.
pub open spec fn skip_whitespace(text: Seq<u8>, from: int) -> int
    decreases text.len() - from,
{
    if 0 <= from < text.len() && is_whitespace(text[from]) {
        skip_whitespace(text, from + 1)
    } else {
        from
    }
}

/// `token` stands in `text` at index `at`.
pub open spec fn has_token(text: Seq<u8>, at: int, token: Seq<u8>) -> bool {
    0 <= at && at + token.len() <= text.len() && text.subrange(at, at + token.len()) == token
}

/// The index behind `token`, where `token` is what follows the whitespace
/// at `from`.
pub open spec fn after_token(text: Seq<u8>, from: int, token: Seq<u8>) -> Option<int> {
    let at = skip_whitespace(text, from);
    if has_token(text, at, token) {
        Some(at + token.len())
    } else {
        None
    }
}

/// The index behind the last of `tokens`, where they follow each other from
/// `from` on with nothing but whitespace before each.
pub open spec fn after_tokens(text: Seq<u8>, from: int, tokens: Seq<Seq<u8>>) -> Option<int>
    decreases tokens.len(),
{
    if tokens.len() == 0 {
        Some(from)
    } else {
        match after_token(text, from, tokens[0]) {
            Some(next) => after_tokens(text, next, tokens.drop_first()),
            None => None,
        }
    }
}

/// From `from` on, `text` holds only whitespace.
pub open spec fn only_whitespace_from(text: Seq<u8>, from: int) -> bool {
    skip_whitespace(text, from) == text.len()
}

/// Stepping over whitespace ends inside the text or at its end, on a byte
/// that is no whitespace.
pub proof fn lemma_skip_whitespace_bounds(text: Seq<u8>, from: int)
    requires
        0 <= from <= text.len(),
    ensures
        from <= skip_whitespace(text, from) <= text.len(),
        skip_whitespace(text, from) < text.len() ==> !is_whitespace(
            text[skip_whitespace(text, from)],
        ),
    decreases text.len() - from,
{
    if from < text.len() && is_whitespace(text[from]) {
        lemma_skip_whitespace_bounds(text, from + 1);
    }
}

/// Steps over whitespace.
pub fn skip_spaces(text: &[u8], from: usize) -> (at: usize)
    requires
        from <= text@.len(),
    ensures
        at == skip_whitespace(text@, from as int),
        from <= at <= text@.len(),
{
    let mut at: usize = from;
    proof {
        lemma_skip_whitespace_bounds(text@, from as int);
    }
    while at < text.len() && (text[at] == 0x20 || text[at] == 0x0a || text[at] == 0x09 || text[at]
        == 0x0d)
        invariant
            from <= at <= text@.len(),
            skip_whitespace(text@, at as int) == skip_whitespace(text@, from as int),
        decreases text@.len() - at,
    {
        at = at + 1;
    }
    at
}

/// Reads `token` behind the whitespace at `from`.
pub fn read_token(text: &[u8], from: usize, token: &[u8]) -> (next: Option<usize>)
    requires
        from <= text@.len(),
    ensures
        next matches Some(index) ==> after_token(text@, from as int, token@) == Some(index as int)
            && index <= text@.len(),
        next is None ==> after_token(text@, from as int, token@) is None,
{
    let at: usize = skip_spaces(text, from);
    if token.len() > text.len() - at {
        return None;
    }
    let mut matched: usize = 0;
    while matched < token.len()
        invariant
            at == skip_whitespace(text@, from as int),
            at + token@.len() <= text@.len() <= usize::MAX,
            matched <= token@.len(),
            text@.subrange(at as int, at + matched) == token@.subrange(0, matched as int),
        decreases token@.len() - matched,
    {
        if text[at + matched] != token[matched] {
            proof {
                let whole = text@.subrange(at as int, at + token@.len());
                assert(whole[matched as int] == text@[at + matched]);
            }
            return None;
        }
        proof {
            let before = text@.subrange(at as int, at + matched);
            let after = text@.subrange(at as int, at + matched + 1);
            assert(after == before.push(text@[at + matched]));
            assert(token@.subrange(0, matched + 1) == token@.subrange(0, matched as int).push(
                token@[matched as int],
            ));
        }
        matched = matched + 1;
    }
    proof {
        assert(token@.subrange(0, matched as int) == token@);
    }
    Some(at + token.len())
}

/// Two runs of bytes are the same.
pub fn same_bytes(left: &[u8], right: &[u8]) -> (same: bool)
    ensures
        same == (left@ == right@),
{
    if left.len() != right.len() {
        return false;
    }
    let mut at: usize = 0;
    while at < left.len()
        invariant
            at <= left@.len(),
            left@.len() == right@.len(),
            left@.subrange(0, at as int) == right@.subrange(0, at as int),
        decreases left@.len() - at,
    {
        if left[at] != right[at] {
            return false;
        }
        proof {
            assert(left@.subrange(0, at + 1) == left@.subrange(0, at as int).push(left@[at as int]));
            assert(right@.subrange(0, at + 1) == right@.subrange(0, at as int).push(
                right@[at as int],
            ));
        }
        at = at + 1;
    }
    proof {
        assert(left@.subrange(0, at as int) == left@);
        assert(right@.subrange(0, at as int) == right@);
    }
    true
}

/// Two texts are the same.
pub fn same_text(left: &str, right: &str) -> (same: bool)
    ensures
        same == (left@ == right@),
{
    proof {
        vstd::utf8::encode_utf8_decode_utf8(left@);
        vstd::utf8::encode_utf8_decode_utf8(right@);
    }
    same_bytes(left.as_bytes(), right.as_bytes())
}

/// `String::from_utf8`: the text that the bytes encode, where they are
/// valid UTF-8, and nothing where they are not.
#[verifier::external_body]
pub(crate) fn text_of(bytes: Vec<u8>) -> (text: Option<String>)
    ensures
        match text {
            Some(decoded) => vstd::utf8::valid_utf8(bytes@) && decoded@ == vstd::utf8::decode_utf8(
                bytes@,
            ),
            None => !vstd::utf8::valid_utf8(bytes@),
        },
{
    match String::from_utf8(bytes) {
        Ok(decoded) => Some(decoded),
        Err(_) => None,
    }
}

/// What stands for one byte of a string inside a JSON string literal: a
/// two-byte escape for the quote, the backslash and the five control
/// bytes that have one, `\u00XX` with upper-case digits for the other bytes
/// under 0x20, and the byte itself otherwise.
pub open spec fn escaped_byte(byte: u8) -> Seq<u8> {
    if byte == 0x22 {
        seq![0x5cu8, 0x22u8]
    } else if byte == 0x5c {
        seq![0x5cu8, 0x5cu8]
    } else if byte == 0x08 {
        seq![0x5cu8, 0x62u8]
    } else if byte == 0x09 {
        seq![0x5cu8, 0x74u8]
    } else if byte == 0x0a {
        seq![0x5cu8, 0x6eu8]
    } else if byte == 0x0c {
        seq![0x5cu8, 0x66u8]
    } else if byte == 0x0d {
        seq![0x5cu8, 0x72u8]
    } else if byte < 0x20 {
        seq![0x5cu8, 0x75u8, 0x30u8, 0x30u8, hex_digit(byte / 16), hex_digit(byte % 16)]
    } else {
        seq![byte]
    }
}

/// The upper-case hexadecimal digit of a value under 16.
pub open spec fn hex_digit(value: u8) -> u8
    recommends
        value < 16,
{
    if value < 10 {
        (0x30 + value) as u8
    } else {
        (0x41 + (value - 10)) as u8
    }
}

/// The bytes of a string with each of them escaped.
pub open spec fn escaped(bytes: Seq<u8>) -> Seq<u8>
    decreases bytes.len(),
{
    if bytes.len() == 0 {
        seq![]
    } else {
        escaped(bytes.drop_last()) + escaped_byte(bytes.last())
    }
}

/// A string as a JSON string literal: its UTF-8 bytes, escaped, between
/// two quotes.
pub open spec fn json_string(text: Seq<char>) -> Seq<u8> {
    seq![0x22u8] + escaped(vstd::utf8::encode_utf8(text)) + seq![0x22u8]
}

/// The upper-case hexadecimal digit of a value under 16.
fn hex_digit_of(value: u8) -> (digit: u8)
    requires
        value < 16,
    ensures
        digit == hex_digit(value),
{
    if value < 10 {
        0x30 + value
    } else {
        0x41 + (value - 10)
    }
}

/// Appends the escape of one byte.
fn push_escaped_byte(out: &mut Vec<u8>, byte: u8)
    ensures
        final(out)@ == old(out)@ + escaped_byte(byte),
{
    if byte == 0x22 || byte == 0x5c {
        out.push(0x5c);
        out.push(byte);
    } else if byte == 0x08 {
        out.push(0x5c);
        out.push(0x62);
    } else if byte == 0x09 {
        out.push(0x5c);
        out.push(0x74);
    } else if byte == 0x0a {
        out.push(0x5c);
        out.push(0x6e);
    } else if byte == 0x0c {
        out.push(0x5c);
        out.push(0x66);
    } else if byte == 0x0d {
        out.push(0x5c);
        out.push(0x72);
    } else if byte < 0x20 {
        out.push(0x5c);
        out.push(0x75);
        out.push(0x30);
        out.push(0x30);
        out.push(hex_digit_of(byte / 16));
        out.push(hex_digit_of(byte % 16));
    } else {
        out.push(byte);
    }
    assert(out@ =~= old(out)@ + escaped_byte(byte));
}

/// Appends `text` as a JSON string literal.
pub fn push_json_string(out: &mut Vec<u8>, text: &str)
    ensures
        final(out)@ == old(out)@ + json_string(text@),
{
    let bytes = text.as_bytes();
    out.push(0x22);
    let mut done: usize = 0;
    while done < bytes.len()
        invariant
            done <= bytes@.len(),
            out@ == old(out)@ + seq![0x22u8] + escaped(bytes@.subrange(0, done as int)),
        decreases bytes@.len() - done,
    {
        push_escaped_byte(out, bytes[done]);
        proof {
            let before = bytes@.subrange(0, done as int);
            let after = bytes@.subrange(0, done + 1);
            assert(after.drop_last() == before);
            assert(after.last() == bytes@[done as int]);
            assert(out@ =~= old(out)@ + seq![0x22u8] + escaped(after));
        }
        done = done + 1;
    }
    out.push(0x22);
    proof {
        assert(bytes@.subrange(0, done as int) == bytes@);
        assert(out@ =~= old(out)@ + json_string(text@));
    }
}

/// Appends the bytes of a text.
pub fn push_text(out: &mut Vec<u8>, text: &str)
    ensures
        final(out)@ == old(out)@ + text.spec_bytes(),
{
    out.extend_from_slice(text.as_bytes());
}

/// The decimal digits of a number, without leading zeros.
pub open spec fn decimal(value: nat) -> Seq<char>
    decreases value,
{
    if value < 10 {
        seq![digit(value)]
    } else {
        decimal(value / 10).push(digit(value % 10))
    }
}

/// The character of a decimal digit.
pub open spec fn digit(value: nat) -> char
    recommends
        value < 10,
{
    if value == 0 {
        '0'
    } else if value == 1 {
        '1'
    } else if value == 2 {
        '2'
    } else if value == 3 {
        '3'
    } else if value == 4 {
        '4'
    } else if value == 5 {
        '5'
    } else if value == 6 {
        '6'
    } else if value == 7 {
        '7'
    } else if value == 8 {
        '8'
    } else {
        '9'
    }
}

/// The text of one decimal digit.
fn digit_text(value: u32) -> (text: &'static str)
    requires
        value < 10,
    ensures
        text@ == seq![digit(value as nat)],
{
    proof {
        reveal_strlit("0");
        reveal_strlit("1");
        reveal_strlit("2");
        reveal_strlit("3");
        reveal_strlit("4");
        reveal_strlit("5");
        reveal_strlit("6");
        reveal_strlit("7");
        reveal_strlit("8");
        reveal_strlit("9");
    }
    let text = if value == 0 {
        "0"
    } else if value == 1 {
        "1"
    } else if value == 2 {
        "2"
    } else if value == 3 {
        "3"
    } else if value == 4 {
        "4"
    } else if value == 5 {
        "5"
    } else if value == 6 {
        "6"
    } else if value == 7 {
        "7"
    } else if value == 8 {
        "8"
    } else {
        "9"
    };
    assert(text@ =~= seq![digit(value as nat)]);
    text
}

/// A number in decimal digits.
pub fn decimal_string(value: u32) -> (text: String)
    ensures
        text@ == decimal(value as nat),
    decreases value,
{
    if value < 10 {
        digit_text(value).to_owned()
    } else {
        let mut text = decimal_string(value / 10);
        text.append(digit_text(value % 10));
        assert(text@ =~= decimal(value as nat));
        text
    }
}


/// The value of a hexadecimal digit, in either case.
pub open spec fn hex_value(character: u8) -> Option<int> {
    if 0x30 <= character <= 0x39 {
        Some(character - 0x30)
    } else if 0x41 <= character <= 0x46 {
        Some(character - 0x41 + 10)
    } else if 0x61 <= character <= 0x66 {
        Some(character - 0x61 + 10)
    } else {
        None
    }
}

/// The number that the four hexadecimal digits from `at` on write.
pub open spec fn hex4(text: Seq<u8>, at: int) -> Option<int> {
    if 0 <= at && at + 4 <= text.len() {
        match (
            hex_value(text[at]),
            hex_value(text[at + 1]),
            hex_value(text[at + 2]),
            hex_value(text[at + 3]),
        ) {
            (Some(a), Some(b), Some(c), Some(d)) => Some(((a * 16 + b) * 16 + c) * 16 + d),
            _ => None,
        }
    } else {
        None
    }
}

/// The bytes that the escape at `at` stands for, where `at` holds a
/// backslash: the byte itself behind a quote, a backslash or a slash, the
/// control byte of `b`, `f`, `n`, `r` and `t`, and behind `u` the UTF-8
/// encoding of the code point that four hexadecimal digits write. A code
/// point in the surrogate range is refused.
pub open spec fn unescaped_at(text: Seq<u8>, at: int) -> Option<Seq<u8>> {
    if at < 0 || at + 1 >= text.len() {
        None
    } else {
        let character = text[at + 1];
        if character == 0x22 || character == 0x5c || character == 0x2f {
            Some(seq![character])
        } else if character == 0x62 {
            Some(seq![0x08u8])
        } else if character == 0x66 {
            Some(seq![0x0cu8])
        } else if character == 0x6e {
            Some(seq![0x0au8])
        } else if character == 0x72 {
            Some(seq![0x0du8])
        } else if character == 0x74 {
            Some(seq![0x09u8])
        } else if character == 0x75 {
            match hex4(text, at + 2) {
                Some(point) => if 0xd800 <= point <= 0xdfff {
                    None
                } else {
                    Some(vstd::utf8::encode_scalar(point as u32))
                },
                None => None,
            }
        } else {
            None
        }
    }
}

/// The number of bytes that the escape at `at` takes.
pub open spec fn escape_width(text: Seq<u8>, at: int) -> int {
    if 0 <= at && at + 1 < text.len() && text[at + 1] == 0x75 {
        6
    } else {
        2
    }
}

/// What was read with `bytes` put before it.
pub open spec fn prepend(bytes: Seq<u8>, rest: Option<(Seq<u8>, int)>) -> Option<(Seq<u8>, int)> {
    match rest {
        Some((more, end)) => Some((bytes + more, end)),
        None => None,
    }
}

/// The bytes of a string literal whose opening quote stands before `at`,
/// with the escapes resolved, and the index behind its closing quote.
pub open spec fn string_body(text: Seq<u8>, at: int) -> Option<(Seq<u8>, int)>
    decreases text.len() - at,
{
    if at < 0 || at >= text.len() {
        None
    } else if text[at] == 0x22 {
        Some((seq![], at + 1))
    } else if text[at] == 0x5c {
        match unescaped_at(text, at) {
            Some(bytes) => prepend(bytes, string_body(text, at + escape_width(text, at))),
            None => None,
        }
    } else {
        prepend(seq![text[at]], string_body(text, at + 1))
    }
}

/// The bytes of the string literal that starts at `at`, and the index
/// behind it.
pub open spec fn string_literal(text: Seq<u8>, at: int) -> Option<(Seq<u8>, int)> {
    if 0 <= at < text.len() && text[at] == 0x22 {
        string_body(text, at + 1)
    } else {
        None
    }
}

/// The value of a hexadecimal digit, where the byte is one.
fn hex_value_of(character: u8) -> (value: Option<u32>)
    ensures
        match value {
            Some(v) => hex_value(character) == Some(v as int) && v < 16,
            None => hex_value(character) is None,
        },
{
    if 0x30 <= character && character <= 0x39 {
        Some((character - 0x30) as u32)
    } else if 0x41 <= character && character <= 0x46 {
        Some((character - 0x41 + 10) as u32)
    } else if 0x61 <= character && character <= 0x66 {
        Some((character - 0x61 + 10) as u32)
    } else {
        None
    }
}

/// Reads four hexadecimal digits.
fn read_hex4(text: &[u8], at: usize) -> (value: Option<u32>)
    requires
        at <= text@.len(),
    ensures
        match value {
            Some(v) => hex4(text@, at as int) == Some(v as int) && v <= 0xffff,
            None => hex4(text@, at as int) is None,
        },
{
    if text.len() - at < 4 {
        return None;
    }
    let a: u32 = match hex_value_of(text[at]) {
        Some(v) => v,
        None => { return None; },
    };
    let b: u32 = match hex_value_of(text[at + 1]) {
        Some(v) => v,
        None => { return None; },
    };
    let c: u32 = match hex_value_of(text[at + 2]) {
        Some(v) => v,
        None => { return None; },
    };
    let d: u32 = match hex_value_of(text[at + 3]) {
        Some(v) => v,
        None => { return None; },
    };
    Some(((a * 16 + b) * 16 + c) * 16 + d)
}

/// Appends the UTF-8 encoding of a code point of at most 16 bits that is
/// no surrogate.
fn push_scalar(out: &mut Vec<u8>, point: u32)
    requires
        point <= 0xffff,
        !(0xd800 <= point <= 0xdfff),
    ensures
        final(out)@ == old(out)@ + vstd::utf8::encode_scalar(point),
{
    if point <= 0x7f {
        assert(point & 0x7f == point) by (bit_vector)
            requires
                point <= 0x7f,
        ;
        out.push(point as u8);
    } else if point <= 0x7ff {
        assert((point >> 6) & 0x1f <= 0x1f && point & 0x3f <= 0x3f) by (bit_vector);
        out.push(0xc0 | ((point >> 6) & 0x1f) as u8);
        out.push(0x80 | (point & 0x3f) as u8);
    } else {
        assert((point >> 12) & 0x0f <= 0x0f && (point >> 6) & 0x3f <= 0x3f && point & 0x3f
            <= 0x3f) by (bit_vector);
        out.push(0xe0 | ((point >> 12) & 0x0f) as u8);
        out.push(0x80 | ((point >> 6) & 0x3f) as u8);
        out.push(0x80 | (point & 0x3f) as u8);
    }
    assert(out@ =~= old(out)@ + vstd::utf8::encode_scalar(point));
}

/// Appends what the escape at `at` stands for, and says whether there is
/// one.
fn push_unescaped(out: &mut Vec<u8>, text: &[u8], at: usize) -> (known: bool)
    requires
        at < text@.len(),
    ensures
        match unescaped_at(text@, at as int) {
            Some(bytes) => known && final(out)@ == old(out)@ + bytes && at + escape_width(
                text@,
                at as int,
            ) <= text@.len(),
            None => !known,
        },
{
    if text.len() - at < 2 {
        return false;
    }
    let character: u8 = text[at + 1];
    if character == 0x22 || character == 0x5c || character == 0x2f {
        out.push(character);
    } else if character == 0x62 {
        out.push(0x08);
    } else if character == 0x66 {
        out.push(0x0c);
    } else if character == 0x6e {
        out.push(0x0a);
    } else if character == 0x72 {
        out.push(0x0d);
    } else if character == 0x74 {
        out.push(0x09);
    } else if character == 0x75 {
        let point: u32 = match read_hex4(text, at + 2) {
            Some(v) => v,
            None => { return false; },
        };
        if 0xd800 <= point && point <= 0xdfff {
            return false;
        }
        push_scalar(out, point);
        return true;
    } else {
        return false;
    }
    assert(out@ =~= old(out)@ + unescaped_at(text@, at as int)->0);
    true
}

/// Reads the string literal that starts at `at`.
pub fn read_string(text: &[u8], at: usize) -> (read: Option<(Vec<u8>, usize)>)
    requires
        at <= text@.len(),
    ensures
        match read {
            Some((bytes, end)) => string_literal(text@, at as int) == Some((bytes@, end as int))
                && end <= text@.len(),
            None => string_literal(text@, at as int) is None,
        },
{
    if at >= text.len() || text[at] != 0x22 {
        return None;
    }
    let mut out: Vec<u8> = Vec::new();
    let mut next: usize = at + 1;
    proof {
        lemma_prepend_nothing(string_body(text@, next as int));
    }
    loop
        invariant
            at < next <= text@.len(),
            text@[at as int] == 0x22,
            string_body(text@, at + 1) == prepend(out@, string_body(text@, next as int)),
        decreases text@.len() - next,
    {
        if next >= text.len() {
            return None;
        }
        let character: u8 = text[next];
        let ghost before = out@;
        if character == 0x22 {
            proof {
                assert(before + Seq::<u8>::empty() =~= before);
            }
            return Some((out, next + 1));
        } else if character == 0x5c {
            if !push_unescaped(&mut out, text, next) {
                return None;
            }
            let width: usize = if text[next + 1] == 0x75 {
                6
            } else {
                2
            };
            proof {
                lemma_prepend_twice(
                    before,
                    unescaped_at(text@, next as int)->0,
                    string_body(text@, next + width),
                );
            }
            next = next + width;
        } else {
            out.push(character);
            proof {
                lemma_prepend_twice(before, seq![character], string_body(text@, next + 1));
                assert(before + seq![character] =~= out@);
            }
            next = next + 1;
        }
    }
}

/// Putting nothing before what was read changes nothing.
pub proof fn lemma_prepend_nothing(rest: Option<(Seq<u8>, int)>)
    ensures
        prepend(Seq::empty(), rest) == rest,
{
    if let Some((more, end)) = rest {
        assert(Seq::<u8>::empty() + more =~= more);
    }
}

/// Putting two runs of bytes before what was read, one after the other, is
/// putting their concatenation before it.
pub proof fn lemma_prepend_twice(first: Seq<u8>, second: Seq<u8>, rest: Option<(Seq<u8>, int)>)
    ensures
        prepend(first, prepend(second, rest)) == prepend(first + second, rest),
{
    if let Some((more, end)) = rest {
        assert(first + (second + more) =~= (first + second) + more);
    }
}


/// Escaping goes through a concatenation.
pub proof fn lemma_escaped_concat(first: Seq<u8>, second: Seq<u8>)
    ensures
        escaped(first + second) == escaped(first) + escaped(second),
    decreases second.len(),
{
    if second.len() == 0 {
        assert(first + second == first);
        assert(escaped(first) + escaped(second) == escaped(first));
    } else {
        assert((first + second).drop_last() == first + second.drop_last());
        lemma_escaped_concat(first, second.drop_last());
        assert(escaped(first) + (escaped(second.drop_last()) + escaped_byte(second.last()))
            == (escaped(first) + escaped(second.drop_last())) + escaped_byte(second.last()));
    }
}

/// The escape of a byte is read back as that byte.
pub proof fn lemma_escaped_byte_read(text: Seq<u8>, at: int, byte: u8)
    requires
        0 <= at,
        at + escaped_byte(byte).len() <= text.len(),
        text.subrange(at, at + escaped_byte(byte).len()) == escaped_byte(byte),
    ensures
        text[at] != 0x22,
        text[at] == 0x5c ==> unescaped_at(text, at) == Some(seq![byte]) && escape_width(text, at)
            == escaped_byte(byte).len(),
        text[at] != 0x5c ==> text[at] == byte && escaped_byte(byte).len() == 1,
{
    let written = escaped_byte(byte);
    let part = text.subrange(at, at + written.len());
    assert(forall|i: int| 0 <= i < written.len() ==> text[at + i] == part[i]);
    assert(text[at] == part[0]);
    if written.len() >= 2 {
        assert(text[at + 1] == part[1]);
    }
    if byte < 0x20 && byte != 0x08 && byte != 0x09 && byte != 0x0a && byte != 0x0c && byte
        != 0x0d {
        assert(text[at + 2] == part[2]);
        assert(text[at + 3] == part[3]);
        assert(text[at + 4] == part[4]);
        assert(text[at + 5] == part[5]);
        assert(hex_value(hex_digit(byte / 16)) == Some((byte / 16) as int));
        assert(hex_value(hex_digit(byte % 16)) == Some((byte % 16) as int));
        assert(hex4(text, at + 2) == Some(byte as int));
        let point = byte as u32;
        assert(point & 0x7f == point) by (bit_vector)
            requires
                point < 0x20,
        ;
        assert(vstd::utf8::encode_scalar(point) =~= seq![byte]);
    }
}

/// A string that was written as a literal is read back as it was: where
/// the escaped bytes stand at `at` with a quote behind them, reading from
/// `at` gives the bytes and the index behind the quote.
pub proof fn lemma_string_body_of_escaped(text: Seq<u8>, at: int, bytes: Seq<u8>)
    requires
        0 <= at,
        at + escaped(bytes).len() < text.len(),
        text.subrange(at, at + escaped(bytes).len()) == escaped(bytes),
        text[at + escaped(bytes).len()] == 0x22,
    ensures
        string_body(text, at) == Some((bytes, at + escaped(bytes).len() + 1)),
    decreases bytes.len(),
{
    if bytes.len() == 0 {
    } else {
        let first = bytes[0];
        let rest = bytes.drop_first();
        assert(seq![first] + rest == bytes);
        lemma_escaped_concat(seq![first], rest);
        assert(seq![first].drop_last() == Seq::<u8>::empty());
        assert(escaped(seq![first]) == escaped_byte(first)) by {
            assert(escaped(Seq::<u8>::empty()) + escaped_byte(first) == escaped_byte(first));
        }
        let width = escaped_byte(first).len() as int;
        let written = escaped(bytes);
        assert(written == escaped_byte(first) + escaped(rest));
        assert(text.subrange(at, at + width) == escaped_byte(first)) by {
            assert(text.subrange(at, at + width) == text.subrange(at, at + written.len()).subrange(
                0,
                width,
            ));
            assert(written.subrange(0, width) == escaped_byte(first));
        }
        assert(text.subrange(at + width, at + width + escaped(rest).len()) == escaped(rest)) by {
            assert(text.subrange(at + width, at + width + escaped(rest).len()) == text.subrange(
                at,
                at + written.len(),
            ).subrange(width, written.len() as int));
            assert(written.subrange(width, written.len() as int) == escaped(rest));
        }
        lemma_escaped_byte_read(text, at, first);
        lemma_string_body_of_escaped(text, at + width, rest);
    }
}

/// Bytes of which none is escaped are written as they are.
pub proof fn lemma_escaped_plain(bytes: Seq<u8>)
    requires
        forall|i: int|
            0 <= i < bytes.len() ==> (#[trigger] bytes[i]) >= 0x20 && bytes[i] != 0x22 && bytes[i]
                != 0x5c,
    ensures
        escaped(bytes) == bytes,
    decreases bytes.len(),
{
    if bytes.len() > 0 {
        lemma_escaped_plain(bytes.drop_last());
        assert(bytes.drop_last() + seq![bytes.last()] == bytes);
    }
}

} // verus!
