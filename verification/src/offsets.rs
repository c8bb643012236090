//! Byte offsets into a text.
//!
//! A cursor is a byte offset into the UTF-8 form of a text. The contracts here
//! speak of characters and of how many bytes they take.

use vstd::prelude::*;


verus! {

/// How many bytes a character takes.
pub open spec fn width(c: char) -> nat {
    if c as u32 <= 0x7f {
        1
    } else if c as u32 <= 0x7ff {
        2
    } else if c as u32 <= 0xffff {
        3
    } else {
        4
    }
}

/// How many bytes a text takes.
pub open spec fn byte_len(s: Seq<char>) -> nat
    decreases s.len(),
{
    if s.len() == 0 {
        0
    } else {
        byte_len(s.drop_last()) + width(s.last())
    }
}

/// The byte offset of the character at `k`.
pub open spec fn offset(s: Seq<char>, k: int) -> nat {
    byte_len(s.take(k))
}

/// Whether `pos` is the offset of a character of `s`, or the end of `s`.
#[verifier::opaque]
pub open spec fn at_char(s: Seq<char>, pos: int) -> bool {
    exists|k: int| 0 <= k <= s.len() && #[trigger] offset(s, k) == pos
}

/// How many characters of `s` end at or before `pos`.
pub open spec fn chars_before(s: Seq<char>, pos: int) -> int
    decreases s.len(),
{
    if s.len() == 0 || byte_len(s) <= pos {
        s.len() as int
    } else {
        chars_before(s.drop_last(), pos)
    }
}

pub proof fn lemma_offset_step(s: Seq<char>, k: int)
    requires
        0 <= k < s.len(),
    ensures
        offset(s, k + 1) == offset(s, k) + width(s[k]),
{
    assert(s.take(k + 1).drop_last() =~= s.take(k));
}

pub proof fn lemma_offset_ends(s: Seq<char>)
    ensures
        offset(s, 0) == 0,
        offset(s, s.len() as int) == byte_len(s),
{
    assert(s.take(s.len() as int) =~= s);
}

/// Offsets grow with the characters.
pub proof fn lemma_offset_monotone(s: Seq<char>, i: int, j: int)
    requires
        0 <= i <= j <= s.len(),
    ensures
        offset(s, j) - offset(s, i) >= j - i,
    decreases j - i,
{
    if i < j {
        lemma_offset_monotone(s, i, j - 1);
        lemma_offset_step(s, j - 1);
    }
}

/// The bytes of two texts one behind the other.
pub proof fn lemma_byte_len_concat(a: Seq<char>, b: Seq<char>)
    ensures
        byte_len(a + b) == byte_len(a) + byte_len(b),
    decreases b.len(),
{
    if b.len() == 0 {
        assert(a + b =~= a);
    } else {
        assert((a + b).drop_last() =~= a + b.drop_last());
        lemma_byte_len_concat(a, b.drop_last());
    }
}

/// The bytes of a text are those of its UTF-8 form.
pub proof fn lemma_byte_len_utf8(s: Seq<char>)
    ensures
        vstd::utf8::encode_utf8(s).len() == byte_len(s),
    decreases s.len(),
{
    if s.len() > 0 {
        lemma_byte_len_utf8(s.drop_first());
        let first = seq![s[0]];
        assert(first + s.drop_first() =~= s);
        lemma_byte_len_concat(first, s.drop_first());
        assert(first.drop_last() =~= Seq::<char>::empty());
        assert(byte_len(Seq::<char>::empty()) == 0);
        assert(byte_len(first) == width(s[0]));
        vstd::utf8::char_is_scalar(s[0]);
        assert(vstd::utf8::encode_scalar(s[0] as u32).len() == width(s[0]));
    }
}

/// The number of characters before an offset, and how it lies between them.
pub proof fn lemma_chars_before(s: Seq<char>, pos: int)
    requires
        0 <= pos,
    ensures
        0 <= chars_before(s, pos) <= s.len(),
        offset(s, chars_before(s, pos)) <= pos,
        chars_before(s, pos) < s.len() ==> pos < offset(s, chars_before(s, pos) + 1),
    decreases s.len(),
{
    lemma_offset_ends(s);
    if s.len() > 0 && byte_len(s) > pos {
        let t = s.drop_last();
        lemma_chars_before(t, pos);
        let k = chars_before(t, pos);
        assert(s.take(k) =~= t.take(k));
        if k < t.len() {
            assert(s.take(k + 1) =~= t.take(k + 1));
        } else {
            assert(s.take(k + 1) =~= s);
        }
    }
}

/// The number of characters before the offset of a character is its index.
pub proof fn lemma_chars_before_offset(s: Seq<char>, k: int)
    requires
        0 <= k <= s.len(),
    ensures
        chars_before(s, offset(s, k) as int) == k,
        at_char(s, offset(s, k) as int),
{
    reveal(at_char);
    let c = chars_before(s, offset(s, k) as int);
    lemma_chars_before(s, offset(s, k) as int);
    if c < k {
        lemma_offset_monotone(s, c + 1, k);
    } else if c > k {
        lemma_offset_monotone(s, k, c);
    }
}

/// An offset of a character is the offset of the characters before it.
pub proof fn lemma_at_char(s: Seq<char>, pos: int)
    requires
        at_char(s, pos),
    ensures
        0 <= chars_before(s, pos) <= s.len(),
        offset(s, chars_before(s, pos)) == pos,
        0 <= pos <= byte_len(s),
{
    reveal(at_char);
    let k = choose|k: int| 0 <= k <= s.len() && #[trigger] offset(s, k) == pos;
    lemma_chars_before_offset(s, k);
    lemma_offset_monotone(s, k, s.len() as int);
    lemma_offset_ends(s);
}

/// How many bytes a character takes.
pub fn char_width(c: char) -> (r: usize)
    ensures
        r == width(c),
{
    let n: u32 = c as u32;
    if n <= 0x7f {
        1
    } else if n <= 0x7ff {
        2
    } else if n <= 0xffff {
        3
    } else {
        4
    }
}

/// How many bytes a text takes.
pub fn byte_length(s: &str) -> (r: usize)
    ensures
        r == byte_len(s@),
{
    proof {
        lemma_byte_len_utf8(s@);
    }
    s.as_bytes().len()
}

/// How many characters end at or before `pos`.
pub fn count_before(chars: &Vec<char>, pos: usize) -> (r: usize)
    ensures
        r == chars_before(chars@, pos as int),
{
    let mut k: usize = 0;
    let mut at: usize = 0;
    proof {
        lemma_offset_ends(chars@);
        lemma_chars_before(chars@, pos as int);
    }
    while k < chars.len()
        invariant
            k <= chars.len(),
            at == offset(chars@, k as int),
            at <= pos,
            chars_before(chars@, pos as int) >= k,
            0 <= chars_before(chars@, pos as int) <= chars.len(),
            offset(chars@, chars_before(chars@, pos as int)) <= pos,
            chars_before(chars@, pos as int) < chars.len() ==> pos < offset(
                chars@,
                chars_before(chars@, pos as int) + 1,
            ),
        decreases chars.len() - k,
    {
        let w: usize = char_width(chars[k]);
        proof {
            lemma_offset_step(chars@, k as int);
        }
        if w > pos - at {
            proof {
                let c = chars_before(chars@, pos as int);
                if c > k {
                    lemma_offset_monotone(chars@, k + 1, c);
                }
            }
            return k;
        }
        proof {
            let c = chars_before(chars@, pos as int);
            if c == k {
                assert(false);
            }
        }
        at = at + w;
        k += 1;
    }
    k
}

/// The byte offset of the character at `k`.
pub fn offset_of(chars: &Vec<char>, k: usize) -> (r: usize)
    requires
        k <= chars.len(),
        byte_len(chars@) <= usize::MAX,
    ensures
        r == offset(chars@, k as int),
{
    let mut i: usize = 0;
    let mut at: usize = 0;
    proof {
        lemma_offset_ends(chars@);
    }
    while i < k
        invariant
            i <= k <= chars.len(),
            at == offset(chars@, i as int),
            byte_len(chars@) <= usize::MAX,
        decreases k - i,
    {
        proof {
            lemma_offset_step(chars@, i as int);
            lemma_offset_monotone(chars@, i + 1, chars@.len() as int);
            lemma_offset_ends(chars@);
        }
        at = at + char_width(chars[i]);
        i += 1;
    }
    at
}

/// Whether `pos` is the offset of a character of `s`, or the end of `s`.
pub fn is_at_char(s: &str, pos: usize) -> (b: bool)
    ensures
        b == at_char(s@, pos as int),
{
    let n: usize = byte_length(s);
    if pos > n {
        proof {
            if at_char(s@, pos as int) {
                lemma_at_char(s@, pos as int);
            }
        }
        return false;
    }
    let chars = crate::text::to_chars(s);
    let k: usize = count_before(&chars, pos);
    proof {
        lemma_chars_before(s@, pos as int);
        if at_char(s@, pos as int) {
            lemma_at_char(s@, pos as int);
        }
        if offset(s@, k as int) == pos {
            reveal(at_char);
        }
    }
    offset_of(&chars, k) == pos
}

} // verus!
