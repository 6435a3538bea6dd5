//! Selecting the tail of a job log.
use vstd::prelude::*;
use vstd::utf8::*;
use vstd::string::StringSliceAdditionalSpecFns;

verus! {

broadcast use vstd::utf8::encode_utf8_valid_utf8, vstd::utf8::encode_utf8_decode_utf8;

/// The byte of a line feed.
pub open spec fn lf() -> u8 {
    10u8
}

/// The byte of a carriage return.
pub open spec fn cr() -> u8 {
    13u8
}

/// `line` without one carriage return at its end, if it ends with one.
pub open spec fn strip_cr(line: Seq<u8>) -> Seq<u8> {
    if line.len() > 0 && line.last() == cr() {
        line.drop_last()
    } else {
        line
    }
}

/// The lines of the text `b` that begin at or after the line that starts at
/// `start`, where `b[start..i]` is known to hold no line feed.  A line ends at a
/// line feed, which is not part of it, nor is one carriage return right before
/// that line feed; the last line needs no line feed, and when the text ends
/// with a line feed no empty line follows it.
pub open spec fn lines_from(b: Seq<u8>, start: int, i: int) -> Seq<Seq<u8>>
    decreases b.len() - i,
{
    if i >= b.len() {
        if start < b.len() {
            seq![b.subrange(start, b.len() as int)]
        } else {
            seq![]
        }
    } else if b[i] == lf() {
        seq![strip_cr(b.subrange(start, i))] + lines_from(b, i + 1, i + 1)
    } else {
        lines_from(b, start, i + 1)
    }
}

/// The lines of the UTF-8 text `b`, as `str::lines` yields them.
pub open spec fn text_lines(b: Seq<u8>) -> Seq<Seq<u8>> {
    lines_from(b, 0, 0)
}

/// The number of lines that `tail_lines` keeps out of `total` when asked for `n`.
pub open spec fn kept(total: nat, n: nat) -> nat {
    if n < total { n } else { total }
}

proof fn lemma_lines_from_no_line_feed(b: Seq<u8>, start: int, i: int)
    requires
        0 <= start <= i <= b.len(),
        forall|j: int| start <= j < i ==> b[j] != lf(),
    ensures
        forall|k: int, j: int|
            0 <= k < lines_from(b, start, i).len() && 0 <= j < lines_from(b, start, i)[k].len()
                ==> #[trigger] lines_from(b, start, i)[k][j] != lf(),
    decreases b.len() - i,
{
    let ls = lines_from(b, start, i);
    if i >= b.len() {
        if start < b.len() {
            assert forall|k: int, j: int| 0 <= k < ls.len() && 0 <= j < ls[k].len() implies #[trigger] ls[k][j] != lf() by {
                assert(ls[k][j] == b[start + j]);
            }
        }
    } else if b[i] == lf() {
        lemma_lines_from_no_line_feed(b, i + 1, i + 1);
        let first = strip_cr(b.subrange(start, i));
        let rest = lines_from(b, i + 1, i + 1);
        assert forall|k: int, j: int| 0 <= k < ls.len() && 0 <= j < ls[k].len() implies #[trigger] ls[k][j] != lf() by {
            if k == 0 {
                assert(ls[0] == first);
                assert(first[j] == b[start + j]);
            } else {
                assert(ls[k] == rest[k - 1]);
            }
        }
    } else {
        lemma_lines_from_no_line_feed(b, start, i + 1);
        assert(ls == lines_from(b, start, i + 1));
    }
}

/// Law: no line holds a line feed, so each line of the tail prints as one
/// line of output.
pub proof fn lemma_lines_hold_no_line_feed(b: Seq<u8>)
    ensures
        forall|k: int, j: int|
            0 <= k < text_lines(b).len() && 0 <= j < text_lines(b)[k].len()
                ==> #[trigger] text_lines(b)[k][j] != lf(),
{
    lemma_lines_from_no_line_feed(b, 0, 0);
}

proof fn lemma_lines_skip_plain(b: Seq<u8>, start: int, i: int, j: int)
    requires
        0 <= start <= i <= j <= b.len(),
        forall|k: int| i <= k < j ==> b[k] != 10u8,
    ensures
        lines_from(b, start, i) == lines_from(b, start, j),
    decreases j - i,
{
    if i < j {
        lemma_lines_skip_plain(b, start, i + 1, j);
    }
}

proof fn lemma_lines_shift(p: Seq<u8>, c: Seq<u8>, start: int, i: int)
    requires
        0 <= start <= i <= c.len(),
    ensures
        lines_from(p + c, p.len() + start, p.len() + i) == lines_from(c, start, i),
    decreases c.len() - i,
{
    let b = p + c;
    if i < c.len() {
        assert(b[p.len() + i] == c[i]);
        if c[i] == lf() {
            lemma_lines_shift(p, c, i + 1, i + 1);
            assert(b.subrange(p.len() + start, p.len() + i) =~= c.subrange(start, i));
        } else {
            lemma_lines_shift(p, c, start, i + 1);
        }
    } else if start < c.len() {
        assert(b.subrange(p.len() + start, b.len() as int) =~= c.subrange(start, c.len() as int));
    }
}

/// Law: a text without line feeds is one line (none when empty); and a text
/// `a`, a line feed, then `c` has the line `a` (without a carriage return
/// that ends it) followed by the lines of `c`.
pub proof fn lemma_lines_split(a: Seq<u8>, c: Seq<u8>)
    requires
        forall|k: int| 0 <= k < a.len() ==> a[k] != 10u8,
    ensures
        text_lines(a) == if a.len() == 0 {
            Seq::<Seq<u8>>::empty()
        } else {
            seq![a]
        },
        text_lines(a + seq![10u8] + c) == seq![
            if a.len() > 0 && a.last() == 13u8 {
                a.drop_last()
            } else {
                a
            },
        ] + text_lines(c),
{
    lemma_lines_skip_plain(a, 0, 0, a.len() as int);
    assert(a.subrange(0, a.len() as int) =~= a);
    let p = a + seq![10u8];
    let b = p + c;
    assert(a + seq![10u8] + c == b);
    assert forall|k: int| 0 <= k < a.len() implies b[k] != 10u8 by {
        assert(b[k] == a[k]);
    }
    lemma_lines_skip_plain(b, 0, 0, a.len() as int);
    assert(b[a.len() as int] == lf());
    assert(b.subrange(0, a.len() as int) =~= a);
    lemma_lines_shift(p, c, 0, 0);
}

/// A byte right after an ASCII byte of valid UTF-8 starts a character (or is the end).
proof fn lemma_boundary_after_ascii(b: Seq<u8>, i: int)
    requires
        valid_utf8(b),
        0 <= i < b.len(),
        b[i] < 0x80,
    ensures
        is_char_boundary(b, i + 1),
    decreases b.len(),
{
    let n1 = length_of_first_scalar(b);
    if i < n1 {
        if i > 0 {
            assert(is_continuation_byte(b[i]));
        }
        assert(n1 == 1);
        reveal_with_fuel(is_char_boundary, 2);
    } else {
        let rest = pop_first_scalar(b);
        assert(rest[i - n1] == b[i]);
        lemma_boundary_after_ascii(rest, i - n1);
        reveal_with_fuel(is_char_boundary, 2);
    }
}

/// A byte of valid UTF-8 that is not a continuation byte starts a character.
proof fn lemma_boundary_at_non_continuation(b: Seq<u8>, i: int)
    requires
        valid_utf8(b),
        0 <= i <= b.len(),
        i < b.len() ==> !is_continuation_byte(b[i]),
    ensures
        is_char_boundary(b, i),
{
    if i == b.len() {
        is_char_boundary_start_end_of_seq(b);
    } else {
        is_char_boundary_iff_not_is_continuation_byte(b, i);
    }
}

/// A character boundary of `b` before the boundary `e` is one of `b[..e]` too.
proof fn lemma_boundary_in_prefix(b: Seq<u8>, s: int, e: int)
    requires
        valid_utf8(b),
        0 <= s <= e <= b.len(),
        is_char_boundary(b, s),
        is_char_boundary(b, e),
    ensures
        valid_utf8(b.subrange(0, e)),
        is_char_boundary(b.subrange(0, e), s),
{
    valid_utf8_split(b, e);
    let p = b.subrange(0, e);
    if s == e {
        is_char_boundary_start_end_of_seq(p);
    } else {
        is_char_boundary_iff_not_is_continuation_byte(b, s);
        is_char_boundary_iff_not_is_continuation_byte(p, s);
    }
}

/// The text of `log` between the character boundaries `s` and `e`.
fn slice_between<'a>(log: &'a str, s: usize, e: usize) -> (r: &'a str)
    requires
        s <= e <= log.spec_bytes().len(),
        is_char_boundary(log.spec_bytes(), s as int),
        is_char_boundary(log.spec_bytes(), e as int),
    ensures
        r.spec_bytes() == log.spec_bytes().subrange(s as int, e as int),
{
    proof {
        lemma_boundary_in_prefix(log.spec_bytes(), s as int, e as int);
    }
    let (left, _) = log.split_at(e);
    let (_, mid) = left.split_at(s);
    assert(mid.spec_bytes() =~= log.spec_bytes().subrange(s as int, e as int));
    mid
}

/// The last `n` lines of `log` (all of them when it has fewer), in order,
/// each without its line ending.
pub fn tail_lines<'a>(log: &'a str, n: usize) -> (r: Vec<&'a str>)
    ensures
        r@.len() == kept(text_lines(log.spec_bytes()).len(), n as nat),
        forall|k: int|
            #![trigger r@[k]]
            0 <= k < r@.len() ==> {
                let all = text_lines(log.spec_bytes());
                &&& r@[k].spec_bytes() == all[all.len() - r@.len() + k]
                &&& r@[k]@ == decode_utf8(all[all.len() - r@.len() + k])
            },
{
    let bytes = log.as_bytes();
    let len = bytes.len();
    let ghost b = log.spec_bytes();
    let mut bounds: Vec<(usize, usize)> = Vec::new();
    let mut start: usize = 0;
    let mut i: usize = 0;
    proof {
        is_char_boundary_start_end_of_seq(b);
    }
    while i < len
        invariant
            bytes@ == b,
            len == b.len(),
            valid_utf8(b),
            0 <= start <= i <= len,
            is_char_boundary(b, start as int),
            forall|k: int|
                #![trigger bounds@[k]]
                0 <= k < bounds@.len() ==> {
                    &&& bounds@[k].0 <= bounds@[k].1 <= len
                    &&& is_char_boundary(b, bounds@[k].0 as int)
                    &&& is_char_boundary(b, bounds@[k].1 as int)
                },
            text_lines(b) == Seq::new(
                bounds@.len(),
                |k: int| b.subrange(bounds@[k].0 as int, bounds@[k].1 as int),
            ) + lines_from(b, start as int, i as int),
        decreases len - i,
    {
        let ghost before = Seq::new(
            bounds@.len(),
            |k: int| b.subrange(bounds@[k].0 as int, bounds@[k].1 as int),
        );
        if bytes[i] == 10u8 {
            let end: usize = if i > start && bytes[i - 1] == 13u8 {
                i - 1
            } else {
                i
            };
            proof {
                lemma_boundary_at_non_continuation(b, end as int);
                lemma_boundary_after_ascii(b, i as int);
                assert(b.subrange(start as int, end as int) =~= strip_cr(
                    b.subrange(start as int, i as int),
                ));
            }
            bounds.push((start, end));
            start = i + 1;
            assert(Seq::new(
                bounds@.len(),
                |k: int| b.subrange(bounds@[k].0 as int, bounds@[k].1 as int),
            ) =~= before.push(b.subrange(bounds@.last().0 as int, bounds@.last().1 as int)));
        }
        i = i + 1;
    }
    let ghost before = Seq::new(
        bounds@.len(),
        |k: int| b.subrange(bounds@[k].0 as int, bounds@[k].1 as int),
    );
    if start < len {
        bounds.push((start, len));
        assert(Seq::new(
            bounds@.len(),
            |k: int| b.subrange(bounds@[k].0 as int, bounds@[k].1 as int),
        ) =~= before.push(b.subrange(start as int, len as int)));
    } else {
        assert(before + lines_from(b, start as int, i as int) =~= before);
    }
    let total = bounds.len();
    let first: usize = if n < total { total - n } else { 0 };
    let mut r: Vec<&'a str> = Vec::new();
    let mut k: usize = first;
    while k < total
        invariant
            first <= k <= total,
            total == bounds@.len(),
            b == log.spec_bytes(),
            valid_utf8(b),
            first == total - kept(total as nat, n as nat),
            r@.len() == k - first,
            text_lines(b) == Seq::new(
                bounds@.len(),
                |j: int| b.subrange(bounds@[j].0 as int, bounds@[j].1 as int),
            ),
            forall|j: int|
                #![trigger bounds@[j]]
                0 <= j < bounds@.len() ==> {
                    &&& bounds@[j].0 <= bounds@[j].1 <= b.len()
                    &&& is_char_boundary(b, bounds@[j].0 as int)
                    &&& is_char_boundary(b, bounds@[j].1 as int)
                },
            forall|j: int|
                #![trigger r@[j]]
                0 <= j < r@.len() ==> r@[j].spec_bytes() == text_lines(b)[first + j],
        decreases total - k,
    {
        let (s, e) = bounds[k];
        let piece = slice_between(log, s, e);
        r.push(piece);
        k = k + 1;
    }
    proof {
        assert forall|j: int| #![trigger r@[j]] 0 <= j < r@.len() implies r@[j]@ == decode_utf8(
            text_lines(b)[first + j],
        ) by {
            assert(decode_utf8(encode_utf8(r@[j]@)) == r@[j]@);
        }
    }
    r
}

} // verus!
