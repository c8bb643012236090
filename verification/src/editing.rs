//! Editing a text at a cursor.
//!
//! The cursor is a byte offset; see `offsets` for how offsets and characters
//! belong together.

use vstd::prelude::*;

use crate::offsets;
use crate::text;

verus! {

/// The index of the first character of the line that the character at `k` is
/// in.
pub open spec fn line_start(s: Seq<char>, k: int) -> int
    decreases k,
{
    if k <= 0 {
        0
    } else if s[k - 1] == '\n' {
        k
    } else {
        line_start(s, k - 1)
    }
}

/// The index of the line break at or behind `k`, or the end of the text.
pub open spec fn line_end(s: Seq<char>, k: int) -> int
    decreases s.len() - k,
{
    if k >= s.len() {
        s.len() as int
    } else if s[k] == '\n' {
        k
    } else {
        line_end(s, k + 1)
    }
}

/// What `line_start` is: behind a line break or at the start of the text, with
/// no line break from there to `k`.
pub proof fn lemma_line_start(s: Seq<char>, k: int)
    requires
        0 <= k <= s.len(),
    ensures
        0 <= line_start(s, k) <= k,
        line_start(s, k) > 0 ==> s[line_start(s, k) - 1] == '\n',
        forall|i: int| line_start(s, k) <= i < k ==> s[i] != '\n',
    decreases k,
{
    if k > 0 && s[k - 1] != '\n' {
        lemma_line_start(s, k - 1);
    }
}

/// What `line_end` is: at a line break or at the end of the text, with no line
/// break from `k` to there.
pub proof fn lemma_line_end(s: Seq<char>, k: int)
    requires
        0 <= k <= s.len(),
    ensures
        k <= line_end(s, k) <= s.len(),
        line_end(s, k) < s.len() ==> s[line_end(s, k)] == '\n',
        forall|i: int| k <= i < line_end(s, k) ==> s[i] != '\n',
    decreases s.len() - k,
{
    if k < s.len() && s[k] != '\n' {
        lemma_line_end(s, k + 1);
    }
}

/// The offset where the line of `pos` starts.
#[verifier::opaque]
pub open spec fn line_start_at(s: Seq<char>, pos: int) -> nat {
    offsets::offset(s, line_start(s, offsets::chars_before(s, pos)))
}

/// The offset where the line of `pos` ends.
#[verifier::opaque]
pub open spec fn line_end_at(s: Seq<char>, pos: int) -> nat {
    offsets::offset(s, line_end(s, offsets::chars_before(s, pos)))
}

/// The offset of the start of the line that `pos` is in.
pub fn find_line_start(buf: &str, pos: usize) -> (r: usize)
    requires
        pos <= offsets::byte_len(buf@),
    ensures
        r == line_start_at(buf@, pos as int),
        r <= pos,
        offsets::at_char(buf@, r as int),
{
    proof {
        reveal(line_start_at);
    }
    let chars = text::to_chars(buf);
    let _: usize = offsets::byte_length(buf);
    let mut k: usize = offsets::count_before(&chars, pos);
    let ghost start = k as int;
    proof {
        offsets::lemma_chars_before(buf@, pos as int);
        lemma_line_start(buf@, start);
        offsets::lemma_offset_monotone(buf@, line_start(buf@, start), start);
        offsets::lemma_chars_before_offset(buf@, line_start(buf@, start));
    }
    while k > 0 && chars[k - 1] != '\n'
        invariant
            k <= start <= chars.len(),
            chars@ == buf@,
            line_start(buf@, start) == line_start(buf@, k as int),
        decreases k,
    {
        k -= 1;
    }
    offsets::offset_of(&chars, k)
}

/// The offset of the end of the line that `pos` is in.
pub fn find_line_end(buf: &str, pos: usize) -> (r: usize)
    ensures
        r == line_end_at(buf@, pos as int),
        pos <= offsets::byte_len(buf@) ==> pos <= r || !offsets::at_char(buf@, pos as int),
        r <= offsets::byte_len(buf@),
        offsets::at_char(buf@, r as int),
{
    proof {
        reveal(line_end_at);
    }
    let chars = text::to_chars(buf);
    let _: usize = offsets::byte_length(buf);
    let mut k: usize = offsets::count_before(&chars, pos);
    let ghost start = k as int;
    proof {
        offsets::lemma_chars_before(buf@, pos as int);
        lemma_line_end(buf@, start);
        offsets::lemma_offset_monotone(buf@, start, line_end(buf@, start));
        offsets::lemma_offset_monotone(buf@, line_end(buf@, start), buf@.len() as int);
        offsets::lemma_offset_ends(buf@);
        offsets::lemma_chars_before_offset(buf@, line_end(buf@, start));
        if offsets::at_char(buf@, pos as int) {
            offsets::lemma_at_char(buf@, pos as int);
        }
    }
    while k < chars.len() && chars[k] != '\n'
        invariant
            start <= k <= chars.len(),
            chars@ == buf@,
            line_end(buf@, start) == line_end(buf@, k as int),
        decreases chars.len() - k,
    {
        k += 1;
    }
    offsets::offset_of(&chars, k)
}

/// The number of characters from `from` to `to`.
pub fn utf8_count_chars(buf: &str, from: usize, to: usize) -> (r: usize)
    requires
        from <= to,
        offsets::at_char(buf@, from as int),
        offsets::at_char(buf@, to as int),
    ensures
        r == offsets::chars_before(buf@, to as int) - offsets::chars_before(buf@, from as int),
{
    let chars = text::to_chars(buf);
    let a: usize = offsets::count_before(&chars, from);
    let b: usize = offsets::count_before(&chars, to);
    proof {
        offsets::lemma_at_char(buf@, from as int);
        offsets::lemma_at_char(buf@, to as int);
        if b < a {
            offsets::lemma_offset_monotone(buf@, b as int, a as int);
        }
    }
    b - a
}

/// The offset `n` characters behind `from`, or `limit` where that is not
/// behind it.
#[verifier::opaque]
pub open spec fn advanced(s: Seq<char>, from: int, n: int, limit: int) -> int {
    let k = offsets::chars_before(s, from) + n;
    let end = if k <= s.len() {
        k
    } else {
        s.len() as int
    };
    if offsets::offset(s, end) < limit {
        offsets::offset(s, end) as int
    } else {
        limit
    }
}

/// The offset `n` characters behind `from`, but not behind `limit`.
pub fn utf8_advance_n(buf: &str, from: usize, n: usize, limit: usize) -> (r: usize)
    requires
        offsets::at_char(buf@, from as int),
        limit <= offsets::byte_len(buf@),
    ensures
        r == advanced(buf@, from as int, n as int, limit as int),
        offsets::at_char(buf@, limit as int) ==> offsets::at_char(buf@, r as int),
{
    proof {
        reveal(advanced);
        reveal(offsets::at_char);
    }
    let chars = text::to_chars(buf);
    let _: usize = offsets::byte_length(buf);
    let start: usize = offsets::count_before(&chars, from);
    proof {
        offsets::lemma_at_char(buf@, from as int);
    }
    let end: usize = if n <= chars.len() - start {
        start + n
    } else {
        chars.len()
    };
    let at: usize = offsets::offset_of(&chars, end);
    if at < limit {
        at
    } else {
        limit
    }
}

/// The offset of the character before `pos`; 0 where there is none.
#[verifier::opaque]
pub open spec fn prev_offset(s: Seq<char>, pos: int) -> nat {
    let k = offsets::chars_before(s, pos);
    offsets::offset(
        s,
        if k > 0 {
            k - 1
        } else {
            0
        },
    )
}

/// The offset behind the character at `pos`; the end where there is none.
#[verifier::opaque]
pub open spec fn next_offset(s: Seq<char>, pos: int) -> nat {
    let k = offsets::chars_before(s, pos);
    offsets::offset(
        s,
        if k < s.len() {
            k + 1
        } else {
            s.len() as int
        },
    )
}

/// The offset of the character before `pos`.
pub fn previous_char(buf: &str, pos: usize) -> (r: usize)
    requires
        offsets::at_char(buf@, pos as int),
    ensures
        r == prev_offset(buf@, pos as int),
        r <= pos,
        offsets::at_char(buf@, r as int),
{
    proof {
        reveal(prev_offset);
    }
    let chars = text::to_chars(buf);
    let _: usize = offsets::byte_length(buf);
    let k: usize = offsets::count_before(&chars, pos);
    proof {
        offsets::lemma_at_char(buf@, pos as int);
    }
    let p: usize = if k > 0 {
        k - 1
    } else {
        0
    };
    proof {
        offsets::lemma_offset_monotone(buf@, p as int, k as int);
        offsets::lemma_chars_before_offset(buf@, p as int);
    }
    offsets::offset_of(&chars, p)
}

/// The offset behind the character at `pos`.
pub fn next_char(buf: &str, pos: usize) -> (r: usize)
    requires
        offsets::at_char(buf@, pos as int),
    ensures
        r == next_offset(buf@, pos as int),
        pos <= r,
        offsets::at_char(buf@, r as int),
{
    proof {
        reveal(next_offset);
    }
    let chars = text::to_chars(buf);
    let _: usize = offsets::byte_length(buf);
    let k: usize = offsets::count_before(&chars, pos);
    proof {
        offsets::lemma_at_char(buf@, pos as int);
    }
    let p: usize = if k < chars.len() {
        k + 1
    } else {
        chars.len()
    };
    proof {
        offsets::lemma_offset_monotone(buf@, k as int, p as int);
        offsets::lemma_chars_before_offset(buf@, p as int);
    }
    offsets::offset_of(&chars, p)
}

/// `s` with what stands from `start` to `end` replaced by `t`.
#[verifier::opaque]
pub open spec fn spliced(s: Seq<char>, start: int, end: int, t: Seq<char>) -> Seq<char> {
    s.take(offsets::chars_before(s, start)) + t + s.skip(offsets::chars_before(s, end))
}

/// What stands from `start` to `end`.
#[verifier::opaque]
pub open spec fn between_offsets(s: Seq<char>, start: int, end: int) -> Seq<char> {
    s.subrange(offsets::chars_before(s, start), offsets::chars_before(s, end))
}

/// `buf` with what stands from `start` to `end` replaced by `t`.
pub fn splice(buf: &str, start: usize, end: usize, t: &str) -> (r: String)
    requires
        start <= end,
        offsets::at_char(buf@, start as int),
        offsets::at_char(buf@, end as int),
    ensures
        r@ == spliced(buf@, start as int, end as int, t@),
        offsets::at_char(r@, start as int),
        offsets::at_char(r@, start + offsets::byte_len(t@)),
        offsets::byte_len(r@) == offsets::byte_len(buf@) - (end - start) + offsets::byte_len(t@),
{
    proof {
        reveal(spliced);
        reveal(offsets::at_char);
    }
    let chars = text::to_chars(buf);
    let a: usize = offsets::count_before(&chars, start);
    let b: usize = offsets::count_before(&chars, end);
    proof {
        offsets::lemma_at_char(buf@, start as int);
        offsets::lemma_at_char(buf@, end as int);
    }
    let head = text::substring(buf, 0, a);
    let tail = text::substring(buf, b, chars.len());
    let r = text::concat3(head.as_str(), t, tail.as_str());
    proof {
        let s = buf@;
        assert(head@ =~= s.take(a as int));
        assert(tail@ =~= s.skip(b as int));
        assert(r@.take(a as int) =~= s.take(a as int));
        assert(r@.take(a + t@.len()) =~= s.take(a as int) + t@);
        offsets::lemma_byte_len_concat(s.take(a as int), t@);
        assert(offsets::offset(r@, a as int) == start);
        assert(offsets::offset(r@, a + t@.len()) == start + offsets::byte_len(t@));
        offsets::lemma_byte_len_concat(s.take(a as int) + t@, s.skip(b as int));
        offsets::lemma_byte_len_concat(s.take(b as int), s.skip(b as int));
        assert(s.take(b as int) + s.skip(b as int) =~= s);
    }
    r
}

/// What stands in `buf` from `start` to `end`.
pub fn slice(buf: &str, start: usize, end: usize) -> (r: String)
    requires
        start <= end,
        offsets::at_char(buf@, start as int),
        offsets::at_char(buf@, end as int),
    ensures
        r@ == between_offsets(buf@, start as int, end as int),
{
    proof {
        reveal(between_offsets);
    }
    let chars = text::to_chars(buf);
    let a: usize = offsets::count_before(&chars, start);
    let b: usize = offsets::count_before(&chars, end);
    proof {
        offsets::lemma_at_char(buf@, start as int);
        offsets::lemma_at_char(buf@, end as int);
        if b < a {
            offsets::lemma_offset_monotone(buf@, b as int, a as int);
        }
    }
    text::substring(buf, a, b)
}

/// The offset above `pos`: the same column on the line before.
pub open spec fn above(s: Seq<char>, pos: int) -> Option<int> {
    let start = line_start_at(s, pos) as int;
    if start == 0 {
        None
    } else {
        let column = offsets::chars_before(s, pos) - offsets::chars_before(s, start);
        Some(advanced(s, line_start_at(s, start - 1) as int, column, start - 1))
    }
}

/// The offset below `pos`: the same column on the next line.
pub open spec fn below(s: Seq<char>, pos: int) -> Option<int> {
    let end = line_end_at(s, pos) as int;
    if end >= offsets::byte_len(s) {
        None
    } else {
        let column = offsets::chars_before(s, pos) - offsets::chars_before(
            s,
            line_start_at(s, pos) as int,
        );
        Some(advanced(s, end + 1, column, line_end_at(s, end + 1) as int))
    }
}

proof fn lemma_before_line(s: Seq<char>, pos: int)
    requires
        0 <= pos <= offsets::byte_len(s),
        line_start_at(s, pos) > 0,
    ensures
        offsets::at_char(s, line_start_at(s, pos) - 1),
{
    reveal(line_start_at);
    let k = offsets::chars_before(s, pos);
    offsets::lemma_chars_before(s, pos);
    lemma_line_start(s, k);
    let l = line_start(s, k);
    offsets::lemma_offset_ends(s);
    assert(l > 0);
    offsets::lemma_offset_step(s, l - 1);
    offsets::lemma_chars_before_offset(s, l - 1);
}

proof fn lemma_behind_line(s: Seq<char>, pos: int)
    requires
        0 <= pos,
        line_end_at(s, pos) < offsets::byte_len(s),
    ensures
        offsets::at_char(s, (line_end_at(s, pos) + 1) as int),
{
    reveal(line_end_at);
    let k = offsets::chars_before(s, pos);
    offsets::lemma_chars_before(s, pos);
    lemma_line_end(s, k);
    let l = line_end(s, k);
    offsets::lemma_offset_ends(s);
    assert(l < s.len());
    offsets::lemma_offset_step(s, l);
    offsets::lemma_chars_before_offset(s, l + 1);
}

/// The offset at the same column on the line before.
pub fn line_above(buf: &str, pos: usize) -> (r: Option<usize>)
    requires
        offsets::at_char(buf@, pos as int),
    ensures
        r is Some <==> above(buf@, pos as int) is Some,
        r matches Some(p) ==> above(buf@, pos as int) == Some(p as int) && offsets::at_char(
            buf@,
            p as int,
        ),
{
    proof {
        offsets::lemma_at_char(buf@, pos as int);
    }
    let start: usize = find_line_start(buf, pos);
    if start == 0 {
        return None;
    }
    proof {
        lemma_before_line(buf@, pos as int);
        offsets::lemma_at_char(buf@, start - 1);
    }
    let column: usize = utf8_count_chars(buf, start, pos);
    let before: usize = find_line_start(buf, start - 1);
    Some(utf8_advance_n(buf, before, column, start - 1))
}

/// The offset at the same column on the next line.
pub fn line_below(buf: &str, pos: usize) -> (r: Option<usize>)
    requires
        offsets::at_char(buf@, pos as int),
    ensures
        r is Some <==> below(buf@, pos as int) is Some,
        r matches Some(p) ==> below(buf@, pos as int) == Some(p as int) && offsets::at_char(
            buf@,
            p as int,
        ),
{
    proof {
        offsets::lemma_at_char(buf@, pos as int);
    }
    let end: usize = find_line_end(buf, pos);
    if end >= offsets::byte_length(buf) {
        return None;
    }
    proof {
        lemma_behind_line(buf@, pos as int);
    }
    let start: usize = find_line_start(buf, pos);
    let column: usize = utf8_count_chars(buf, start, pos);
    let next_end: usize = find_line_end(buf, end + 1);
    Some(utf8_advance_n(buf, end + 1, column, next_end))
}

/// Stepping back over a character and on again leads back to where it started.
pub proof fn law_back_and_on(s: Seq<char>, pos: int)
    requires
        offsets::at_char(s, pos),
        pos > 0,
    ensures
        next_offset(s, prev_offset(s, pos) as int) == pos,
        prev_offset(s, pos) < pos,
{
    reveal(prev_offset);
    reveal(next_offset);
    offsets::lemma_at_char(s, pos);
    offsets::lemma_offset_ends(s);
    let k = offsets::chars_before(s, pos);
    assert(k > 0);
    offsets::lemma_chars_before_offset(s, k - 1);
    offsets::lemma_offset_monotone(s, k - 1, k);
}

/// Stepping on over a character and back again leads back to where it started.
pub proof fn law_on_and_back(s: Seq<char>, pos: int)
    requires
        offsets::at_char(s, pos),
        pos < offsets::byte_len(s),
    ensures
        prev_offset(s, next_offset(s, pos) as int) == pos,
        next_offset(s, pos) > pos,
{
    reveal(prev_offset);
    reveal(next_offset);
    offsets::lemma_at_char(s, pos);
    offsets::lemma_offset_ends(s);
    let k = offsets::chars_before(s, pos);
    assert(k < s.len());
    offsets::lemma_chars_before_offset(s, k + 1);
    offsets::lemma_offset_monotone(s, k, k + 1);
}

/// Taking out what was put in at an offset gives the text back.
pub proof fn law_splice_undone(s: Seq<char>, pos: int, t: Seq<char>)
    requires
        offsets::at_char(s, pos),
    ensures
        spliced(
            spliced(s, pos, pos, t),
            pos,
            pos + offsets::byte_len(t),
            Seq::empty(),
        ) == s,
        between_offsets(spliced(s, pos, pos, t), pos, pos + offsets::byte_len(t)) == t,
{
    reveal(spliced);
    reveal(between_offsets);
    offsets::lemma_at_char(s, pos);
    let k = offsets::chars_before(s, pos);
    let n = spliced(s, pos, pos, t);
    assert(n.take(k) =~= s.take(k));
    assert(n.take(k + t.len()) =~= s.take(k) + t);
    offsets::lemma_byte_len_concat(s.take(k), t);
    offsets::lemma_chars_before_offset(n, k);
    offsets::lemma_chars_before_offset(n, k + t.len());
    assert(n.skip(k + t.len()) =~= s.skip(k));
    assert(n.take(k) + Seq::<char>::empty() + n.skip(k + t.len()) =~= s);
    assert(n.subrange(k, k + t.len()) =~= t);
}

} // verus!
