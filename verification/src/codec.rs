//! Hexadecimal text: digit values, offset parsing, pattern decoding, and
//! fixed-width formatting of addresses.

use vstd::prelude::*;

verus! {

/// Numeric value of a hexadecimal digit character, or `None` if the
/// character is not a hex digit. Upper and lower case are both accepted.
pub open spec fn hex_digit_value(c: char) -> Option<u8> {
    let v = c as u32;
    if 0x30 <= v <= 0x39 {
        Some((v - 0x30) as u8)
    } else if 0x41 <= v <= 0x46 {
        Some((v - 0x41 + 10) as u8)
    } else if 0x61 <= v <= 0x66 {
        Some((v - 0x61 + 10) as u8)
    } else {
        None
    }
}

/// Whether `c` is a hexadecimal digit (either case).
pub open spec fn is_hex_digit(c: char) -> bool {
    hex_digit_value(c) is Some
}

/// Whether every character of `s` is a hexadecimal digit.
pub open spec fn all_hex_digits(s: Seq<char>) -> bool {
    forall|i: int| 0 <= i < s.len() ==> is_hex_digit(#[trigger] s[i])
}

/// The number denoted by a sequence of hex digits, most significant first.
pub open spec fn hex_value(s: Seq<char>) -> nat
    decreases s.len(),
{
    if s.len() == 0 {
        0
    } else {
        hex_value(s.drop_last()) * 16 + hex_digit_value(s.last()).unwrap() as nat
    }
}

/// Executable twin of [`hex_digit_value`].
pub fn hex_digit_val(c: char) -> (r: Option<u8>)
    ensures
        r == hex_digit_value(c),
{
    let v = c as u32;
    if 0x30 <= v && v <= 0x39 {
        Some((v - 0x30) as u8)
    } else if 0x41 <= v && v <= 0x46 {
        Some((v - 0x41 + 10) as u8)
    } else if 0x61 <= v && v <= 0x66 {
        Some((v - 0x61 + 10) as u8)
    } else {
        None
    }
}

/// Appending one digit multiplies the prefix value by sixteen.
proof fn lemma_hex_value_step(s: Seq<char>, i: int)
    requires
        0 <= i < s.len(),
    ensures
        hex_value(s.take(i + 1)) == hex_value(s.take(i)) * 16 + hex_digit_value(
            s[i],
        ).unwrap() as nat,
{
    assert(s.take(i + 1).drop_last() =~= s.take(i));
    assert(s.take(i + 1).last() == s[i]);
}

/// The value of a prefix never exceeds the value of the whole sequence.
proof fn lemma_hex_value_prefix(s: Seq<char>, i: int)
    requires
        0 <= i <= s.len(),
    ensures
        hex_value(s.take(i)) <= hex_value(s),
    decreases s.len() - i,
{
    if i < s.len() {
        lemma_hex_value_step(s, i);
        lemma_hex_value_prefix(s, i + 1);
    } else {
        assert(s.take(i) =~= s);
    }
}

/// What [`parse_offset`] returns: the parsed value when the text is a
/// non-empty string of hex digits denoting an offset below `limit`, and
/// `None` otherwise.
pub open spec fn parse_offset_spec(s: Seq<char>, limit: nat) -> Option<usize> {
    if s.len() > 0 && all_hex_digits(s) && hex_value(s) < limit {
        Some(hex_value(s) as usize)
    } else {
        None
    }
}

/// Base-16 parse of an offset, rejecting empty input, non-hex characters,
/// and offsets at or beyond `limit` (the document length).
pub fn parse_offset(text: &Vec<char>, limit: usize) -> (r: Option<usize>)
    ensures
        r == parse_offset_spec(text@, limit as nat),
{
    let ghost s = text@;
    let mut acc: usize = 0;
    let mut over = false;
    let mut i: usize = 0;
    while i < text.len()
        invariant
            0 <= i <= s.len(),
            s == text@,
            forall|j: int| 0 <= j < i ==> is_hex_digit(#[trigger] s[j]),
            !over ==> acc as nat == hex_value(s.take(i as int)),
            !over && i > 0 ==> (acc as nat) < limit as nat,
            over ==> hex_value(s.take(i as int)) >= limit as nat,
        decreases s.len() - i,
    {
        let c = text[i];
        let Some(d) = hex_digit_val(c) else {
            assert(!is_hex_digit(s[i as int]));
            return None;
        };
        proof {
            lemma_hex_value_step(s, i as int);
        }
        if !over {
            let mut grown = false;
            if let Some(m) = acc.checked_mul(16) {
                if let Some(next) = m.checked_add(d as usize) {
                    if next < limit {
                        acc = next;
                        grown = true;
                    }
                }
            }
            if !grown {
                over = true;
                assert(hex_value(s.take(i + 1)) >= limit as nat);
            }
        } else {
            assert(hex_value(s.take(i as int)) * 16 + hex_digit_value(s[i as int]).unwrap() as nat
                >= limit as nat);
        }
        i += 1;
    }
    proof {
        assert(s.take(s.len() as int) =~= s);
    }
    if text.len() == 0 {
        None
    } else if over {
        proof {
            lemma_hex_value_prefix(s, s.len() as int);
        }
        None
    } else {
        Some(acc)
    }
}

/// Why a hex pattern failed to decode.
#[derive(Clone, Copy, Debug, PartialEq, Eq, Structural)]
pub enum DecodeError {
    /// The text has an odd number of characters, so its digits do not pair up.
    OddLength,
    /// A character of the text is not a hexadecimal digit.
    InvalidDigit,
}

/// The byte denoted by a pair of hex digit characters.
pub open spec fn hex_pair_value(hi: char, lo: char) -> u8 {
    (hex_digit_value(hi).unwrap() * 16 + hex_digit_value(lo).unwrap()) as u8
}

/// The byte sequence denoted by an even-length string of hex digits.
pub open spec fn decode_hex_spec(s: Seq<char>) -> Seq<u8> {
    Seq::new((s.len() / 2) as nat, |i: int| hex_pair_value(s[2 * i], s[2 * i + 1]))
}

/// Decode pairs of hex digits into bytes. Odd-length input fails with
/// [`DecodeError::OddLength`]; even-length input with a character that is
/// not a hex digit fails with [`DecodeError::InvalidDigit`].
pub fn decode_hex(text: &Vec<char>) -> (r: Result<Vec<u8>, DecodeError>)
    ensures
        r is Ok <==> text@.len() % 2 == 0 && all_hex_digits(text@),
        r is Ok ==> r.unwrap()@ == decode_hex_spec(text@),
        r == Err::<Vec<u8>, DecodeError>(DecodeError::OddLength) <==> text@.len() % 2 != 0,
        r == Err::<Vec<u8>, DecodeError>(DecodeError::InvalidDigit) <==> text@.len() % 2 == 0
            && !all_hex_digits(text@),
{
    let ghost s = text@;
    if text.len() % 2 != 0 {
        return Err(DecodeError::OddLength);
    }
    let mut out: Vec<u8> = Vec::new();
    let mut i: usize = 0;
    while i + 1 < text.len()
        invariant
            s == text@,
            s.len() % 2 == 0,
            i % 2 == 0,
            0 <= i <= s.len(),
            forall|j: int| 0 <= j < i ==> is_hex_digit(#[trigger] s[j]),
            out@ =~= decode_hex_spec(s).take(i as int / 2),
        decreases s.len() - i,
    {
        let hi = match hex_digit_val(text[i]) {
            Some(d) => d,
            None => {
                return Err(DecodeError::InvalidDigit);
            },
        };
        let lo = match hex_digit_val(text[i + 1]) {
            Some(d) => d,
            None => {
                return Err(DecodeError::InvalidDigit);
            },
        };
        out.push(hi * 16 + lo);
        proof {
            assert(out@ =~= decode_hex_spec(s).take(i as int / 2 + 1));
        }
        i += 2;
    }
    proof {
        assert(i == s.len());
        assert(out@ =~= decode_hex_spec(s));
    }
    Ok(out)
}

/// The character that denotes a hex digit value, in lower case.
pub open spec fn hex_char_of(d: u8) -> char {
    if d == 0 {
        '0'
    } else if d == 1 {
        '1'
    } else if d == 2 {
        '2'
    } else if d == 3 {
        '3'
    } else if d == 4 {
        '4'
    } else if d == 5 {
        '5'
    } else if d == 6 {
        '6'
    } else if d == 7 {
        '7'
    } else if d == 8 {
        '8'
    } else if d == 9 {
        '9'
    } else if d == 10 {
        'a'
    } else if d == 11 {
        'b'
    } else if d == 12 {
        'c'
    } else if d == 13 {
        'd'
    } else if d == 14 {
        'e'
    } else {
        'f'
    }
}

/// Executable twin of [`hex_char_of`].
pub fn hex_char(d: u8) -> (c: char)
    ensures
        c == hex_char_of(d),
{
    match d {
        0 => '0',
        1 => '1',
        2 => '2',
        3 => '3',
        4 => '4',
        5 => '5',
        6 => '6',
        7 => '7',
        8 => '8',
        9 => '9',
        10 => 'a',
        11 => 'b',
        12 => 'c',
        13 => 'd',
        14 => 'e',
        _ => 'f',
    }
}

/// The shortest lower-case hex representation of `n` ("0" for zero).
pub open spec fn hex_digits(n: nat) -> Seq<char>
    decreases n,
{
    if n < 16 {
        seq![hex_char_of(n as u8)]
    } else {
        hex_digits(n / 16).push(hex_char_of((n % 16) as u8))
    }
}

/// [`hex_digits`] of `n`, left-padded with '0' to at least `w` characters.
pub open spec fn hex_padded(n: nat, w: nat) -> Seq<char> {
    if hex_digits(n).len() >= w {
        hex_digits(n)
    } else {
        Seq::new((w - hex_digits(n).len()) as nat, |i: int| '0') + hex_digits(n)
    }
}

/// Append the shortest hex representation of `n`.
fn push_hex_digits(out: &mut Vec<char>, n: usize)
    ensures
        final(out)@ == old(out)@ + hex_digits(n as nat),
    decreases n,
{
    if n >= 16 {
        push_hex_digits(out, n / 16);
    }
    out.push(hex_char((n % 16) as u8));
    proof {
        if n < 16 {
            assert(n % 16 == n as int);
            assert(out@ =~= old(out)@ + hex_digits(n as nat));
        } else {
            assert(out@ =~= old(out)@ + hex_digits(n as nat));
        }
    }
}

/// The hex text of `n`, left-padded with '0' to at least `min_width`
/// characters, as the address column shows it.
pub fn format_hex(n: usize, min_width: usize) -> (r: Vec<char>)
    ensures
        r@ == hex_padded(n as nat, min_width as nat),
{
    let mut tail: Vec<char> = Vec::new();
    push_hex_digits(&mut tail, n);
    let digits = tail.len();
    let mut out: Vec<char> = Vec::new();
    let mut j: usize = 0;
    let pad = if digits < min_width {
        min_width - digits
    } else {
        0
    };
    while j < pad
        invariant
            0 <= j <= pad,
            out@ =~= Seq::new(j as nat, |i: int| '0'),
        decreases pad - j,
    {
        out.push('0');
        proof {
            assert(out@ =~= Seq::new((j + 1) as nat, |i: int| '0'));
        }
        j += 1;
    }
    out.append(&mut tail);
    proof {
        assert(out@ =~= hex_padded(n as nat, min_width as nat));
    }
    out
}

/// Every character that [`hex_char_of`] yields for a digit parses back to it.
proof fn lemma_hex_char_of_value(d: u8)
    requires
        d < 16,
    ensures
        hex_digit_value(hex_char_of(d)) == Some(d),
{
}

/// The hex representation of `n` is non-empty, made of hex digits, and
/// denotes `n` itself.
pub proof fn lemma_hex_digits_value(n: nat)
    ensures
        hex_digits(n).len() >= 1,
        all_hex_digits(hex_digits(n)),
        hex_value(hex_digits(n)) == n,
    decreases n,
{
    if n < 16 {
        lemma_hex_char_of_value(n as u8);
        let s = hex_digits(n);
        assert(s == seq![hex_char_of(n as u8)]);
        assert(s.drop_last() =~= Seq::<char>::empty());
        assert(hex_value(Seq::<char>::empty()) == 0);
        assert(s.last() == hex_char_of(n as u8));
        assert(hex_value(s) == 0 * 16 + hex_digit_value(hex_char_of(n as u8)).unwrap() as nat);
    } else {
        lemma_hex_digits_value(n / 16);
        lemma_hex_char_of_value((n % 16) as u8);
        let s = hex_digits(n);
        assert(s.drop_last() =~= hex_digits(n / 16));
        assert(s.last() == hex_char_of((n % 16) as u8));
        assert(hex_value(s) == (n / 16) * 16 + (n % 16));
        assert forall|i: int| 0 <= i < s.len() implies is_hex_digit(#[trigger] s[i]) by {
            if i < s.len() - 1 {
                assert(s[i] == hex_digits(n / 16)[i]);
            }
        }
    }
}

/// Round trip of offsets through their hex representation: parsing the hex
/// text of `offset` against a document of length `limit` yields `offset`
/// exactly when `offset` lies inside the document, and fails otherwise.
pub proof fn lemma_parse_offset_roundtrip(offset: usize, limit: nat)
    ensures
        parse_offset_spec(hex_digits(offset as nat), limit) == if (offset as nat) < limit {
            Some(offset)
        } else {
            None::<usize>
        },
{
    lemma_hex_digits_value(offset as nat);
}

} // verus!
