//! Base64 with the standard alphabet and padding.

use vstd::prelude::*;

verus! {

/// The character of the base64 alphabet that stands for a value under 64.
pub open spec fn base64_digit(value: int) -> u8
    recommends
        0 <= value < 64,
{
    if value < 26 {
        (0x41 + value) as u8
    } else if value < 52 {
        (0x61 + (value - 26)) as u8
    } else if value < 62 {
        (0x30 + (value - 52)) as u8
    } else if value == 62 {
        0x2b
    } else {
        0x2f
    }
}

/// Bytes in base64 with padding: four characters for every three bytes,
/// the last group filled up with `=`.
pub open spec fn base64(bytes: Seq<u8>) -> Seq<u8>
    decreases bytes.len(),
{
    if bytes.len() == 0 {
        seq![]
    } else if bytes.len() == 1 {
        seq![base64_digit((bytes[0] / 4) as int), base64_digit((bytes[0] % 4) * 16), 0x3du8, 0x3du8]
    } else if bytes.len() == 2 {
        seq![
            base64_digit((bytes[0] / 4) as int),
            base64_digit((bytes[0] % 4) * 16 + bytes[1] / 16),
            base64_digit((bytes[1] % 16) * 4),
            0x3du8,
        ]
    } else {
        seq![
            base64_digit((bytes[0] / 4) as int),
            base64_digit((bytes[0] % 4) * 16 + bytes[1] / 16),
            base64_digit((bytes[1] % 16) * 4 + bytes[2] / 64),
            base64_digit((bytes[2] % 64) as int),
        ] + base64(bytes.skip(3))
    }
}

/// The character for a value under 64.
fn base64_digit_of(value: u8) -> (character: u8)
    requires
        value < 64,
    ensures
        character == base64_digit(value as int),
{
    if value < 26 {
        0x41 + value
    } else if value < 52 {
        0x61 + (value - 26)
    } else if value < 62 {
        0x30 + (value - 52)
    } else if value == 62 {
        0x2b
    } else {
        0x2f
    }
}

/// Appends `bytes` in base64.
pub fn push_base64(out: &mut Vec<u8>, bytes: &[u8])
    ensures
        final(out)@ == old(out)@ + base64(bytes@),
{
    let mut done: usize = 0;
    proof {
        assert(bytes@.skip(0) == bytes@);
    }
    while bytes.len() - done >= 3
        invariant
            done <= bytes@.len(),
            out@ + base64(bytes@.skip(done as int)) == old(out)@ + base64(bytes@),
        decreases bytes@.len() - done,
    {
        let first: u8 = bytes[done];
        let second: u8 = bytes[done + 1];
        let third: u8 = bytes[done + 2];
        let ghost rest = bytes@.skip(done as int);
        let ghost before = out@;
        out.push(base64_digit_of(first / 4));
        out.push(base64_digit_of((first % 4) * 16 + second / 16));
        out.push(base64_digit_of((second % 16) * 4 + third / 64));
        out.push(base64_digit_of(third % 64));
        proof {
            assert(rest.skip(3) == bytes@.skip(done + 3));
            assert(out@ + base64(bytes@.skip(done + 3)) =~= before + base64(rest));
        }
        done = done + 3;
    }
    let ghost rest = bytes@.skip(done as int);
    let ghost before = out@;
    if bytes.len() - done == 1 {
        let first: u8 = bytes[done];
        out.push(base64_digit_of(first / 4));
        out.push(base64_digit_of((first % 4) * 16));
        out.push(0x3d);
        out.push(0x3d);
    } else if bytes.len() - done == 2 {
        let first: u8 = bytes[done];
        let second: u8 = bytes[done + 1];
        out.push(base64_digit_of(first / 4));
        out.push(base64_digit_of((first % 4) * 16 + second / 16));
        out.push(base64_digit_of((second % 16) * 4));
        out.push(0x3d);
    }
    proof {
        assert(out@ =~= before + base64(rest));
    }
}


/// The value that a character of the base64 alphabet stands for.
pub open spec fn base64_value(character: u8) -> Option<int> {
    if 0x41 <= character <= 0x5a {
        Some(character - 0x41)
    } else if 0x61 <= character <= 0x7a {
        Some(character - 0x61 + 26)
    } else if 0x30 <= character <= 0x39 {
        Some(character - 0x30 + 52)
    } else if character == 0x2b {
        Some(62)
    } else if character == 0x2f {
        Some(63)
    } else {
        None
    }
}

/// The bytes that a base64 text stands for. The text is read in groups of
/// four characters; only the last group may end in one or two `=`, and the
/// bits that it does not use must be zero.
pub open spec fn unbase64(text: Seq<u8>) -> Option<Seq<u8>>
    decreases text.len(),
{
    if text.len() == 0 {
        Some(seq![])
    } else if text.len() < 4 {
        None
    } else if text.len() == 4 && text[2] == 0x3d && text[3] == 0x3d {
        match (base64_value(text[0]), base64_value(text[1])) {
            (Some(a), Some(b)) => if b % 16 == 0 {
                Some(seq![(a * 4 + b / 16) as u8])
            } else {
                None
            },
            _ => None,
        }
    } else if text.len() == 4 && text[3] == 0x3d {
        match (base64_value(text[0]), base64_value(text[1]), base64_value(text[2])) {
            (Some(a), Some(b), Some(c)) => if c % 4 == 0 {
                Some(seq![(a * 4 + b / 16) as u8, ((b % 16) * 16 + c / 4) as u8])
            } else {
                None
            },
            _ => None,
        }
    } else {
        match (
            base64_value(text[0]),
            base64_value(text[1]),
            base64_value(text[2]),
            base64_value(text[3]),
            unbase64(text.skip(4)),
        ) {
            (Some(a), Some(b), Some(c), Some(d), Some(rest)) => Some(
                seq![
                    (a * 4 + b / 16) as u8,
                    ((b % 16) * 16 + c / 4) as u8,
                    ((c % 4) * 64 + d) as u8,
                ] + rest,
            ),
            _ => None,
        }
    }
}

/// The value of a character, where it belongs to the alphabet.
fn base64_value_of(character: u8) -> (value: Option<u8>)
    ensures
        match value {
            Some(v) => base64_value(character) == Some(v as int) && v < 64,
            None => base64_value(character) is None,
        },
{
    if 0x41 <= character && character <= 0x5a {
        Some(character - 0x41)
    } else if 0x61 <= character && character <= 0x7a {
        Some(character - 0x61 + 26)
    } else if 0x30 <= character && character <= 0x39 {
        Some(character - 0x30 + 52)
    } else if character == 0x2b {
        Some(62)
    } else if character == 0x2f {
        Some(63)
    } else {
        None
    }
}

/// Reads a base64 text.
pub fn read_base64(text: &[u8]) -> (bytes: Option<Vec<u8>>)
    ensures
        match bytes {
            Some(read) => unbase64(text@) == Some(read@),
            None => unbase64(text@) is None,
        },
{
    let mut out: Vec<u8> = Vec::new();
    let mut done: usize = 0;
    proof {
        assert(text@.skip(0) == text@);
    }
    while done < text.len()
        invariant
            done <= text@.len(),
            unbase64(text@) == match unbase64(text@.skip(done as int)) {
                Some(rest) => Some(out@ + rest),
                None => None,
            },
        decreases text@.len() - done,
    {
        let ghost left = text@.skip(done as int);
        if text.len() - done < 4 {
            return None;
        }
        let last: bool = text.len() - done == 4;
        let a: u8 = match base64_value_of(text[done]) {
            Some(v) => v,
            None => { return None; },
        };
        let b: u8 = match base64_value_of(text[done + 1]) {
            Some(v) => v,
            None => { return None; },
        };
        if last && text[done + 2] == 0x3d && text[done + 3] == 0x3d {
            if b % 16 != 0 {
                return None;
            }
            let ghost before = out@;
            out.push(a * 4 + b / 16);
            proof {
                assert(out@ =~= before + seq![(a * 4 + b / 16) as u8]);
            }
            return Some(out);
        }
        let c: u8 = match base64_value_of(text[done + 2]) {
            Some(v) => v,
            None => { return None; },
        };
        if last && text[done + 3] == 0x3d {
            if c % 4 != 0 {
                return None;
            }
            let ghost before = out@;
            out.push(a * 4 + b / 16);
            out.push((b % 16) * 16 + c / 4);
            proof {
                assert(out@ =~= before + seq![
                    (a * 4 + b / 16) as u8,
                    ((b % 16) * 16 + c / 4) as u8,
                ]);
            }
            return Some(out);
        }
        let d: u8 = match base64_value_of(text[done + 3]) {
            Some(v) => v,
            None => { return None; },
        };
        let ghost before = out@;
        out.push(a * 4 + b / 16);
        out.push((b % 16) * 16 + c / 4);
        out.push((c % 4) * 64 + d);
        proof {
            assert(left.skip(4) == text@.skip(done + 4));
            let group = seq![
                (a * 4 + b / 16) as u8,
                ((b % 16) * 16 + c / 4) as u8,
                ((c % 4) * 64 + d) as u8,
            ];
            assert(out@ =~= before + group);
            assert forall|rest: Seq<u8>| before + (group + rest) == out@ + rest by {
                assert(before + (group + rest) =~= out@ + rest);
            }
        }
        done = done + 4;
    }
    proof {
        assert(out@ + Seq::<u8>::empty() =~= out@);
    }
    Some(out)
}


/// A character of the alphabet stands for the value it was chosen for, and
/// is neither the padding nor a character that a JSON string escapes.
pub proof fn lemma_base64_digit(value: int)
    requires
        0 <= value < 64,
    ensures
        base64_value(base64_digit(value)) == Some(value),
        base64_digit(value) != 0x3d,
        base64_digit(value) >= 0x20,
        base64_digit(value) != 0x22,
        base64_digit(value) != 0x5c,
{
}

/// Reading what was written gives the bytes back.
pub proof fn lemma_base64_round_trip(bytes: Seq<u8>)
    ensures
        unbase64(base64(bytes)) == Some(bytes),
    decreases bytes.len(),
{
    let text = base64(bytes);
    if bytes.len() == 0 {
    } else if bytes.len() == 1 {
        lemma_base64_digit((bytes[0] / 4) as int);
        lemma_base64_digit((bytes[0] % 4) * 16);
        assert(seq![bytes[0]] == bytes);
    } else if bytes.len() == 2 {
        lemma_base64_digit((bytes[0] / 4) as int);
        lemma_base64_digit((bytes[0] % 4) * 16 + bytes[1] / 16);
        lemma_base64_digit((bytes[1] % 16) * 4);
        assert(seq![bytes[0], bytes[1]] == bytes);
    } else {
        let rest = bytes.skip(3);
        lemma_base64_digit((bytes[0] / 4) as int);
        lemma_base64_digit((bytes[0] % 4) * 16 + bytes[1] / 16);
        lemma_base64_digit((bytes[1] % 16) * 4 + bytes[2] / 64);
        lemma_base64_digit((bytes[2] % 64) as int);
        lemma_base64_round_trip(rest);
        assert(text.skip(4) == base64(rest));
        assert(seq![bytes[0], bytes[1], bytes[2]] + rest == bytes);
    }
}

/// Base64 text holds no byte that a JSON string escapes.
pub proof fn lemma_base64_is_plain(bytes: Seq<u8>)
    ensures
        forall|i: int|
            0 <= i < base64(bytes).len() ==> {
                let character = #[trigger] base64(bytes)[i];
                character >= 0x20 && character != 0x22 && character != 0x5c
            },
    decreases bytes.len(),
{
    if bytes.len() == 0 {
    } else if bytes.len() == 1 {
        lemma_base64_digit((bytes[0] / 4) as int);
        lemma_base64_digit((bytes[0] % 4) * 16);
    } else if bytes.len() == 2 {
        lemma_base64_digit((bytes[0] / 4) as int);
        lemma_base64_digit((bytes[0] % 4) * 16 + bytes[1] / 16);
        lemma_base64_digit((bytes[1] % 16) * 4);
    } else {
        let rest = bytes.skip(3);
        lemma_base64_digit((bytes[0] / 4) as int);
        lemma_base64_digit((bytes[0] % 4) * 16 + bytes[1] / 16);
        lemma_base64_digit((bytes[1] % 16) * 4 + bytes[2] / 64);
        lemma_base64_digit((bytes[2] % 64) as int);
        lemma_base64_is_plain(rest);
        assert forall|i: int| 0 <= i < base64(bytes).len() implies {
            let character = #[trigger] base64(bytes)[i];
            character >= 0x20 && character != 0x22 && character != 0x5c
        } by {
            if i >= 4 {
                assert(base64(bytes)[i] == base64(rest)[i - 4]);
            }
        }
    }
}

} // verus!
