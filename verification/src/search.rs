//! Substring search over raw bytes: byte-pattern search and text search
//! through the UTF-8 encoding of the needle. Searches always start from the
//! beginning of the buffer and report the first occurrence.

use vstd::prelude::*;
use vstd::utf8::{encode_scalar, encode_utf8, char_is_scalar};

verus! {

/// Whether `needle` occurs in `haystack` starting at position `i`.
pub open spec fn matches_at(haystack: Seq<u8>, needle: Seq<u8>, i: int) -> bool {
    &&& 0 <= i
    &&& i + needle.len() <= haystack.len()
    &&& haystack.subrange(i, i + needle.len()) == needle
}

/// What a first-occurrence search returns: the least match position, or
/// `None` when the needle occurs nowhere.
pub open spec fn is_first_match(haystack: Seq<u8>, needle: Seq<u8>, r: Option<usize>) -> bool {
    match r {
        Some(i) => matches_at(haystack, needle, i as int) && (forall|j: int|
            0 <= j < i ==> !matches_at(haystack, needle, j)),
        None => forall|j: int| !matches_at(haystack, needle, j),
    }
}

/// The least match position at or after `i`, or `None` when the needle
/// occurs nowhere at or after `i`.
pub open spec fn first_match_from(haystack: Seq<u8>, needle: Seq<u8>, i: nat) -> Option<usize>
    decreases haystack.len() + 1 - i,
{
    if i + needle.len() > haystack.len() {
        None
    } else if matches_at(haystack, needle, i as int) {
        Some(i as usize)
    } else {
        first_match_from(haystack, needle, (i + 1) as nat)
    }
}

/// The least match position, or `None` when the needle occurs nowhere.
pub open spec fn first_match(haystack: Seq<u8>, needle: Seq<u8>) -> Option<usize> {
    first_match_from(haystack, needle, 0)
}

/// No match at or after `i` means the scan from `i` comes up empty.
proof fn lemma_first_match_from_none(haystack: Seq<u8>, needle: Seq<u8>, i: nat)
    requires
        forall|j: int| i <= j ==> !matches_at(haystack, needle, j),
    ensures
        first_match_from(haystack, needle, i) == None::<usize>,
    decreases haystack.len() + 1 - i,
{
    if i + needle.len() > haystack.len() {
    } else {
        assert(!matches_at(haystack, needle, i as int));
        lemma_first_match_from_none(haystack, needle, (i + 1) as nat);
    }
}

/// A match at `k` with no match between `i` and `k` makes `k` the first
/// match of the scan from `i`.
proof fn lemma_first_match_from_some(haystack: Seq<u8>, needle: Seq<u8>, i: nat, k: usize)
    requires
        i <= k,
        matches_at(haystack, needle, k as int),
        forall|j: int| i <= j < k ==> !matches_at(haystack, needle, j),
    ensures
        first_match_from(haystack, needle, i) == Some(k),
    decreases k - i,
{
    assert(k + needle.len() <= haystack.len());
    if i == k {
    } else {
        assert(!matches_at(haystack, needle, i as int));
        lemma_first_match_from_some(haystack, needle, (i + 1) as nat, k);
    }
}

/// A found position lies inside the haystack: the match fits, and an empty
/// needle is only ever found at position zero.
pub proof fn lemma_first_match_bounds(haystack: Seq<u8>, needle: Seq<u8>)
    requires
        haystack.len() <= usize::MAX,
    ensures
        match first_match(haystack, needle) {
            Some(i) => i + needle.len() <= haystack.len() && (needle.len() == 0 ==> i == 0),
            None => true,
        },
{
    lemma_first_match_from_bounds(haystack, needle, 0);
    if needle.len() == 0 {
        assert(haystack.subrange(0, 0) =~= needle);
        assert(matches_at(haystack, needle, 0));
    }
}

/// Positions found by the scan from `j` lie at or after `j` and fit the
/// haystack.
proof fn lemma_first_match_from_bounds(haystack: Seq<u8>, needle: Seq<u8>, j: nat)
    requires
        haystack.len() <= usize::MAX,
    ensures
        match first_match_from(haystack, needle, j) {
            Some(i) => j <= i && i + needle.len() <= haystack.len(),
            None => true,
        },
    decreases haystack.len() + 1 - j,
{
    if j + needle.len() > haystack.len() {
    } else if matches_at(haystack, needle, j as int) {
    } else {
        lemma_first_match_from_bounds(haystack, needle, (j + 1) as nat);
    }
}

/// Whether `needle` matches `haystack` at `i`, compared byte by byte.
fn check_match_at(haystack: &[u8], needle: &[u8], i: usize) -> (b: bool)
    requires
        i + needle@.len() <= haystack@.len(),
    ensures
        b == matches_at(haystack@, needle@, i as int),
{
    let m = needle.len();
    let n = haystack.len();
    let mut j: usize = 0;
    while j < m
        invariant
            m == needle@.len(),
            n == haystack@.len(),
            i + m <= haystack@.len(),
            0 <= j <= m,
            forall|k: int| 0 <= k < j ==> haystack@[i + k] == needle@[k],
        decreases m - j,
    {
        if haystack[i + j] != needle[j] {
            proof {
                assert(haystack@.subrange(i as int, i + needle@.len())[j as int] == haystack@[i
                    + j]);
            }
            return false;
        }
        j += 1;
    }
    proof {
        assert(haystack@.subrange(i as int, i + needle@.len()) =~= needle@);
    }
    true
}

/// First occurrence of `needle` in `haystack`, scanning from the start.
/// An empty needle matches at position zero.
pub fn find_bytes(haystack: &[u8], needle: &[u8]) -> (r: Option<usize>)
    ensures
        is_first_match(haystack@, needle@, r),
        r == first_match(haystack@, needle@),
{
    let n = haystack.len();
    let m = needle.len();
    if m > n {
        proof {
            lemma_first_match_from_none(haystack@, needle@, 0);
        }
        return None;
    }
    if m == 0 {
        proof {
            assert(haystack@.subrange(0, 0) =~= needle@);
            lemma_first_match_from_some(haystack@, needle@, 0, 0);
        }
        return Some(0);
    }
    let mut i: usize = 0;
    while i <= n - m
        invariant
            n == haystack@.len(),
            m == needle@.len(),
            0 < m <= n,
            0 <= i <= n - m + 1,
            forall|j: int| 0 <= j < i ==> !matches_at(haystack@, needle@, j),
        decreases n - i,
    {
        if check_match_at(haystack, needle, i) {
            proof {
                lemma_first_match_from_some(haystack@, needle@, 0, i);
            }
            return Some(i);
        }
        i += 1;
    }
    proof {
        lemma_first_match_from_none(haystack@, needle@, 0);
    }
    None
}

/// Appending a character appends its UTF-8 encoding.
proof fn lemma_encode_utf8_push(s: Seq<char>, c: char)
    ensures
        encode_utf8(s.push(c)) == encode_utf8(s) + encode_scalar(c as u32),
    decreases s.len(),
{
    let t = s.push(c);
    if s.len() == 0 {
        assert(t[0] == c);
        assert(t.drop_first() =~= Seq::<char>::empty());
        assert(encode_utf8(t) == encode_scalar(c as u32) + encode_utf8(Seq::<char>::empty()));
        assert(encode_utf8(s) + encode_scalar(c as u32) =~= encode_scalar(c as u32)
            + encode_utf8(Seq::<char>::empty()));
    } else {
        assert(t[0] == s[0]);
        assert(t.drop_first() =~= s.drop_first().push(c));
        lemma_encode_utf8_push(s.drop_first(), c);
        assert(encode_utf8(t) == encode_scalar(s[0] as u32) + (encode_utf8(s.drop_first())
            + encode_scalar(c as u32)));
        assert(encode_scalar(s[0] as u32) + (encode_utf8(s.drop_first()) + encode_scalar(c as u32))
            =~= (encode_scalar(s[0] as u32) + encode_utf8(s.drop_first())) + encode_scalar(
            c as u32,
        ));
        assert(encode_utf8(s) == encode_scalar(s[0] as u32) + encode_utf8(s.drop_first()));
    }
}

/// Append the UTF-8 encoding of one character to `out`.
fn push_utf8(out: &mut Vec<u8>, c: char)
    ensures
        final(out)@ == old(out)@ + encode_scalar(c as u32),
{
    proof {
        char_is_scalar(c);
    }
    let v = c as u32;
    if v <= 0x7F {
        out.push((v & 0x7F) as u8);
    } else if v <= 0x7FF {
        out.push(0xC0u8 | (((v >> 6) & 0x1F) as u8));
        out.push(0x80u8 | ((v & 0x3F) as u8));
    } else if v <= 0xFFFF {
        out.push(0xE0u8 | (((v >> 12) & 0x0F) as u8));
        out.push(0x80u8 | (((v >> 6) & 0x3F) as u8));
        out.push(0x80u8 | ((v & 0x3F) as u8));
    } else {
        out.push(0xF0u8 | (((v >> 18) & 0x7) as u8));
        out.push(0x80u8 | (((v >> 12) & 0x3F) as u8));
        out.push(0x80u8 | (((v >> 6) & 0x3F) as u8));
        out.push(0x80u8 | ((v & 0x3F) as u8));
    }
    proof {
        assert(out@ =~= old(out)@ + encode_scalar(c as u32));
    }
}

/// The UTF-8 encoding of a character sequence.
pub fn encode_chars(text: &Vec<char>) -> (r: Vec<u8>)
    ensures
        r@ == encode_utf8(text@),
{
    let mut out: Vec<u8> = Vec::new();
    let mut i: usize = 0;
    while i < text.len()
        invariant
            0 <= i <= text@.len(),
            out@ == encode_utf8(text@.take(i as int)),
        decreases text@.len() - i,
    {
        proof {
            assert(text@.take(i as int).push(text@[i as int]) =~= text@.take(i + 1));
            lemma_encode_utf8_push(text@.take(i as int), text@[i as int]);
        }
        push_utf8(&mut out, text[i]);
        i += 1;
    }
    proof {
        assert(text@.take(text@.len() as int) =~= text@);
    }
    out
}

/// First occurrence of the UTF-8 encoding of `needle` in `haystack`. The
/// needle's own encoding must match contiguous bytes; the surrounding bytes
/// of the haystack need not be valid UTF-8 themselves.
pub fn find_text(haystack: &[u8], needle: &Vec<char>) -> (r: Option<usize>)
    ensures
        is_first_match(haystack@, encode_utf8(needle@), r),
        r == first_match(haystack@, encode_utf8(needle@)),
{
    let needle_bytes = encode_chars(needle);
    find_bytes(haystack, needle_bytes.as_slice())
}

} // verus!
