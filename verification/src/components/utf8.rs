use vstd::prelude::*;

use crate::event::{spec_is_ascii, spec_is_ascii_text};

verus! {

/// The number of bytes that `c` takes in UTF-8 (what `char::len_utf8` gives).
pub open spec fn spec_len_utf8(c: char) -> nat {
    if (c as int) < 0x80 {
        1
    } else if (c as int) < 0x800 {
        2
    } else if (c as int) < 0x10000 {
        3
    } else {
        4
    }
}

/// The number of bytes of `s` in UTF-8.
pub open spec fn spec_utf8_len(s: Seq<char>) -> nat
    decreases s.len(),
{
    if s.len() == 0 {
        0
    } else {
        spec_utf8_len(s.drop_last()) + spec_len_utf8(s.last())
    }
}

/// Byte position `b` of `s` is where its `k`-th character starts (or, for
/// `k == s.len()`, the end of `s`).
pub open spec fn spec_boundary_at(s: Seq<char>, b: int, k: int) -> bool {
    0 <= k <= s.len() && spec_utf8_len(s.take(k)) == b
}

/// Byte position `b` of `s` falls between two characters, or at either end.
pub open spec fn spec_is_boundary(s: Seq<char>, b: int) -> bool {
    exists|k: int| #[trigger] spec_boundary_at(s, b, k)
}

/// The character index of the byte position `b`, when it is a boundary.
pub open spec fn spec_char_index(s: Seq<char>, b: int) -> int {
    choose|k: int| #[trigger] spec_boundary_at(s, b, k)
}

/// One more character adds its bytes.
pub proof fn lemma_utf8_take_step(s: Seq<char>, k: int)
    requires
        0 <= k < s.len(),
    ensures
        spec_utf8_len(s.take(k + 1)) == spec_utf8_len(s.take(k)) + spec_len_utf8(s[k]),
{
    assert(s.take(k + 1).drop_last() =~= s.take(k));
}

/// A longer prefix has more bytes.
pub proof fn lemma_utf8_take_mono(s: Seq<char>, k1: int, k2: int)
    requires
        0 <= k1 < k2 <= s.len(),
    ensures
        spec_utf8_len(s.take(k1)) < spec_utf8_len(s.take(k2)),
    decreases k2 - k1,
{
    lemma_utf8_take_step(s, k2 - 1);
    if k1 < k2 - 1 {
        lemma_utf8_take_mono(s, k1, k2 - 1);
    }
}

/// A boundary starts exactly one character.
pub proof fn lemma_boundary_unique(s: Seq<char>, b: int, k1: int, k2: int)
    requires
        spec_boundary_at(s, b, k1),
        spec_boundary_at(s, b, k2),
    ensures
        k1 == k2,
{
    if k1 < k2 {
        lemma_utf8_take_mono(s, k1, k2);
    } else if k2 < k1 {
        lemma_utf8_take_mono(s, k2, k1);
    }
}

/// The character index of a boundary is the one that starts there.
pub proof fn lemma_char_index(s: Seq<char>, b: int, k: int)
    requires
        spec_boundary_at(s, b, k),
    ensures
        spec_is_boundary(s, b),
        spec_char_index(s, b) == k,
{
    assert(spec_boundary_at(s, b, k));
    let j = spec_char_index(s, b);
    lemma_boundary_unique(s, b, j, k);
}

/// The whole of `s` is its longest prefix.
pub proof fn lemma_utf8_full(s: Seq<char>)
    ensures
        spec_utf8_len(s.take(s.len() as int)) == spec_utf8_len(s),
        spec_boundary_at(s, spec_utf8_len(s) as int, s.len() as int),
{
    assert(s.take(s.len() as int) =~= s);
}

/// Boundaries in order start characters in order.
pub proof fn lemma_boundary_order(s: Seq<char>, b1: int, k1: int, b2: int, k2: int)
    requires
        spec_boundary_at(s, b1, k1),
        spec_boundary_at(s, b2, k2),
        b1 <= b2,
    ensures
        k1 <= k2,
{
    if k2 < k1 {
        lemma_utf8_take_mono(s, k2, k1);
    }
}

/// Every character of `s` takes at least one and at most four bytes.
pub proof fn lemma_utf8_bounds(s: Seq<char>)
    ensures
        s.len() <= spec_utf8_len(s) <= 4 * s.len(),
    decreases s.len(),
{
    if s.len() > 0 {
        lemma_utf8_bounds(s.drop_last());
    }
}

/// The bytes of two texts put together are the bytes of each.
pub proof fn lemma_utf8_concat(a: Seq<char>, b: Seq<char>)
    ensures
        spec_utf8_len(a + b) == spec_utf8_len(a) + spec_utf8_len(b),
    decreases b.len(),
{
    if b.len() > 0 {
        assert((a + b).drop_last() =~= a + b.drop_last());
        lemma_utf8_concat(a, b.drop_last());
    } else {
        assert(a + b =~= a);
    }
}

/// In ASCII text every byte is a character.
pub proof fn lemma_ascii_utf8(s: Seq<char>, k: int)
    requires
        spec_is_ascii_text(s),
        0 <= k <= s.len(),
    ensures
        spec_utf8_len(s.take(k)) == k,
        spec_boundary_at(s, k, k),
        spec_is_boundary(s, k),
        spec_char_index(s, k) == k,
    decreases k,
{
    if k > 0 {
        lemma_ascii_utf8(s, k - 1);
        lemma_utf8_take_step(s, k - 1);
        assert(spec_is_ascii(s[k - 1]));
    }
    lemma_char_index(s, k, k);
}

/// The byte count of ASCII text is its length.
pub proof fn lemma_ascii_len(s: Seq<char>)
    requires
        spec_is_ascii_text(s),
    ensures
        spec_utf8_len(s) == s.len(),
{
    lemma_ascii_utf8(s, s.len() as int);
    lemma_utf8_full(s);
}

/// The number of bytes that `c` takes in UTF-8.
pub fn len_utf8(c: char) -> (n: usize)
    ensures
        n == spec_len_utf8(c),
{
    let u = c as u32;
    if u < 0x80 {
        1
    } else if u < 0x800 {
        2
    } else if u < 0x10000 {
        3
    } else {
        4
    }
}

/// The number of bytes of `s` in UTF-8.
pub fn utf8_len(s: &Vec<char>) -> (n: u128)
    ensures
        n == spec_utf8_len(s@),
{
    let mut n: u128 = 0;
    let mut i: usize = 0;
    while i < s.len()
        invariant
            i <= s@.len(),
            n == spec_utf8_len(s@.take(i as int)),
        decreases s@.len() - i,
    {
        proof {
            lemma_utf8_take_step(s@, i as int);
            lemma_utf8_bounds(s@.take(i as int));
        }
        n = n + len_utf8(s[i]) as u128;
        i = i + 1;
    }
    proof {
        lemma_utf8_full(s@);
    }
    n
}

/// The index of the character that starts at byte position `b`, if one does
/// (the length of `s` for its end).
pub fn char_index(s: &Vec<char>, b: usize) -> (r: Option<usize>)
    requires
        b <= 0x10000,
    ensures
        match r {
            Some(k) => spec_boundary_at(s@, b as int, k as int) && spec_char_index(s@, b as int) == k,
            None => !spec_is_boundary(s@, b as int),
        },
{
    let mut acc: usize = 0;
    let mut i: usize = 0;
    while i < s.len() && acc < b
        invariant
            i <= s@.len(),
            b <= 0x10000,
            acc == spec_utf8_len(s@.take(i as int)),
            i > 0 ==> spec_utf8_len(s@.take(i - 1)) < b,
        decreases s@.len() - i,
    {
        proof {
            lemma_utf8_take_step(s@, i as int);
        }
        acc = acc + len_utf8(s[i]);
        i = i + 1;
    }
    if acc == b {
        proof {
            lemma_char_index(s@, b as int, i as int);
        }
        Some(i)
    } else {
        proof {
            if spec_is_boundary(s@, b as int) {
                let k = spec_char_index(s@, b as int);
                if k < i {
                    if k < i - 1 {
                        lemma_utf8_take_mono(s@, k, i - 1);
                    }
                } else if k > i {
                    lemma_utf8_take_mono(s@, i as int, k);
                    assert(i == s@.len());
                }
            }
        }
        None
    }
}

} // verus!
