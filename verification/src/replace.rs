//! String replacement helpers that avoid allocating when nothing changes.
//!
//! Each operation is specified over the UTF-8 bytes of its arguments:
//! [`replace_bytes`] is the left-to-right, non-overlapping replacement of one
//! byte pattern by another, and the removal and in-place helpers are a filter
//! and a map over the bytes. The functions that return
//! [`Cow`](std::borrow::Cow) borrow exactly when no occurrence exists.

use std::borrow::Cow;

use vstd::prelude::*;
use vstd::seq_lib::*;
use vstd::string::*;
use vstd::utf8::*;

use crate::util::lemma_ascii_map_valid_utf8;
use crate::util::lemma_filter_take_step;
use crate::util::string_from_utf8;

verus! {

broadcast use
    vstd::utf8::valid_utf8_concat,
    vstd::utf8::valid_utf8_split,
    vstd::utf8::is_char_boundary_iff_not_is_continuation_byte;

/// Whether the pattern occurs in `s` at position `i`.
pub open spec fn match_at(s: Seq<u8>, pat: Seq<u8>, i: int) -> bool {
    &&& 0 <= i
    &&& i + pat.len() <= s.len()
    &&& s.subrange(i, i + pat.len()) == pat
}

/// Whether the pattern occurs anywhere in `s`.
pub open spec fn contains_bytes(s: Seq<u8>, pat: Seq<u8>) -> bool {
    exists|i: int| match_at(s, pat, i)
}

/// The result of replacing every occurrence of `from` in `s` by `to`, left to
/// right and without overlap.
pub open spec fn replace_bytes(s: Seq<u8>, from: Seq<u8>, to: Seq<u8>) -> Seq<u8>
    recommends
        from.len() > 0,
    decreases s.len(),
    when from.len() > 0
{
    if s.len() == 0 {
        s
    } else if match_at(s, from, 0) {
        to + replace_bytes(s.skip(from.len() as int), from, to)
    } else {
        seq![s[0]] + replace_bytes(s.skip(1), from, to)
    }
}

/// Occurrences in a suffix are occurrences in the whole, shifted.
proof fn lemma_match_at_skip(s: Seq<u8>, pat: Seq<u8>, k: int, j: int)
    requires
        0 <= k <= s.len(),
        0 <= j,
    ensures
        match_at(s.skip(k), pat, j) <==> match_at(s, pat, j + k),
{
    if j + k + pat.len() <= s.len() {
        assert(s.skip(k).subrange(j, j + pat.len()) =~= s.subrange(j + k, j + k + pat.len()));
    }
}

/// Replacement of a pattern that never occurs changes nothing.
proof fn lemma_replace_bytes_no_match(s: Seq<u8>, from: Seq<u8>, to: Seq<u8>)
    requires
        from.len() > 0,
        forall|i: int| !match_at(s, from, i),
    ensures
        replace_bytes(s, from, to) == s,
    decreases s.len(),
{
    if s.len() == 0 {
    } else {
        assert forall|i: int| !match_at(s.skip(1), from, i) by {
            if 0 <= i {
                lemma_match_at_skip(s, from, 1, i);
            }
        }
        lemma_replace_bytes_no_match(s.skip(1), from, to);
        assert(seq![s[0]] + s.skip(1) =~= s);
    }
}

/// Replacement up to the first occurrence: everything before it is copied,
/// the occurrence becomes `to`, and replacement continues after it.
proof fn lemma_replace_bytes_first_match(s: Seq<u8>, from: Seq<u8>, to: Seq<u8>, i: int)
    requires
        from.len() > 0,
        match_at(s, from, i),
        forall|j: int| 0 <= j < i ==> !match_at(s, from, j),
    ensures
        replace_bytes(s, from, to) == s.take(i) + to + replace_bytes(
            s.skip(i + from.len()),
            from,
            to,
        ),
    decreases i,
{
    if i == 0 {
        assert(s.take(0) + to =~= to);
        assert(s.take(0) + to + replace_bytes(s.skip(from.len() as int), from, to) =~= to
            + replace_bytes(s.skip(from.len() as int), from, to));
    } else {
        lemma_match_at_skip(s, from, 1, i - 1);
        assert forall|j: int| 0 <= j < i - 1 implies !match_at(s.skip(1), from, j) by {
            lemma_match_at_skip(s, from, 1, j);
        }
        lemma_replace_bytes_first_match(s.skip(1), from, to, i - 1);
        assert(s.skip(1).take(i - 1) =~= s.subrange(1, i));
        assert(s.skip(1).skip(i - 1 + from.len()) =~= s.skip(i + from.len()));
        assert(seq![s[0]] + (s.subrange(1, i) + to + replace_bytes(
            s.skip(i + from.len()),
            from,
            to,
        )) =~= s.take(i) + to + replace_bytes(s.skip(i + from.len()), from, to));
    }
}

/// Stripping a valid UTF-8 prefix from a valid UTF-8 sequence leaves a valid
/// UTF-8 suffix: the prefix consists of whole scalars of the whole.
proof fn lemma_valid_prefix_valid_suffix(t: Seq<u8>, p: Seq<u8>)
    requires
        valid_utf8(t),
        valid_utf8(p),
        p.len() <= t.len(),
        t.subrange(0, p.len() as int) == p,
    ensures
        valid_utf8(t.skip(p.len() as int)),
    decreases p.len(),
{
    if p.len() == 0 {
        assert(t.skip(0) =~= t);
    } else {
        let w = length_of_first_scalar(p);
        assert(t[0] == p[0]);
        assert(forall|k: int| 0 <= k < p.len() ==> t[k] == p[k]);
        assert(length_of_first_scalar(t) == w);
        assert(valid_first_scalar(p));
        assert(1 <= w <= p.len());
        let t2 = pop_first_scalar(t);
        let p2 = pop_first_scalar(p);
        assert(t2.subrange(0, p2.len() as int) =~= p2);
        lemma_valid_prefix_valid_suffix(t2, p2);
        assert(t2.skip(p2.len() as int) =~= t.skip(p.len() as int));
    }
}

/// Compares the pattern against `s` at position `i`.
fn match_bytes_at(s: &[u8], pat: &[u8], i: usize) -> (r: bool)
    requires
        i + pat@.len() <= s@.len(),
    ensures
        r == match_at(s@, pat@, i as int),
{
    let n = s.len();
    let mut k: usize = 0;
    while k < pat.len()
        invariant
            i + pat@.len() <= s@.len(),
            s@.len() == n,
            k <= pat@.len(),
            forall|j: int| 0 <= j < k ==> s@[i + j] == pat@[j],
        decreases pat@.len() - k,
    {
        if s[i + k] != pat[k] {
            proof {
                assert(s@.subrange(i as int, i + pat@.len())[k as int] != pat@[k as int]);
            }
            return false;
        }
        k = k + 1;
    }
    proof {
        assert(s@.subrange(i as int, i + pat@.len()) =~= pat@);
    }
    true
}

/// Finds the first occurrence of the pattern at or after `start`.
fn find_match(s: &[u8], pat: &[u8], start: usize) -> (r: Option<usize>)
    requires
        pat@.len() > 0,
        start <= s@.len(),
    ensures
        match r {
            Some(i) => start <= i && match_at(s@, pat@, i as int) && forall|j: int|
                start <= j < i ==> !match_at(s@, pat@, j),
            None => forall|j: int| j >= start ==> !match_at(s@, pat@, j),
        },
{
    if pat.len() > s.len() {
        return None;
    }
    let limit = s.len() - pat.len();
    if start > limit {
        return None;
    }
    let n = s.len();
    let mut i: usize = start;
    while i <= limit
        invariant
            pat@.len() > 0,
            s@.len() == n,
            limit == s@.len() - pat@.len(),
            start <= i,
            i <= limit + 1,
            forall|j: int| start <= j < i ==> !match_at(s@, pat@, j),
        decreases limit + 1 - i,
    {
        if match_bytes_at(s, pat, i) {
            return Some(i);
        }
        i = i + 1;
    }
    None
}

/// Appends `s[from..to]` to the vector.
fn push_range(out: &mut Vec<u8>, s: &[u8], from: usize, to: usize)
    requires
        from <= to <= s@.len(),
    ensures
        final(out)@ == old(out)@ + s@.subrange(from as int, to as int),
{
    let mut k: usize = from;
    while k < to
        invariant
            from <= k <= to <= s@.len(),
            out@ == old(out)@ + s@.subrange(from as int, k as int),
        decreases to - k,
    {
        out.push(s[k]);
        proof {
            assert(old(out)@ + s@.subrange(from as int, k + 1) =~= (old(out)@ + s@.subrange(
                from as int,
                k as int,
            )).push(s@[k as int]));
        }
        k = k + 1;
    }
}

/// Replaces every occurrence of `from` in `s` by `to`, left to right and
/// without overlap; `None` when `from` is empty or never occurs, so that the
/// caller can keep the original without allocating.
pub fn replace_str_if_contains(s: &str, from: &str, to: &str) -> (r: Option<String>)
    ensures
        match r {
            Some(out) => from@.len() > 0 && contains_bytes(s.spec_bytes(), from.spec_bytes())
                && encode_utf8(out@) == replace_bytes(
                s.spec_bytes(),
                from.spec_bytes(),
                to.spec_bytes(),
            ),
            None => from@.len() == 0 || !contains_bytes(s.spec_bytes(), from.spec_bytes()),
        },
{
    let sb = s.as_bytes();
    let fb = from.as_bytes();
    let tb = to.as_bytes();
    let sb_len = sb.len();
    if fb.len() == 0 {
        proof {
            assert(from@ =~= Seq::<char>::empty());
        }
        return None;
    }
    let first = match find_match(sb, fb, 0) {
        Some(i) => i,
        None => {
            proof {
                assert forall|j: int| !match_at(sb@, fb@, j) by {
                    if j >= 0 {
                        assert(!match_at(sb@, fb@, j));
                    }
                }
            }
            return None;
        },
    };

    let ghost sseq = sb@;
    let ghost fseq = fb@;
    let ghost tseq = tb@;
    let mut out: Vec<u8> = Vec::new();
    let mut pos: usize = 0;
    let mut next: Option<usize> = Some(first);
    proof {
        encode_utf8_valid_utf8(s@);
        encode_utf8_valid_utf8(from@);
        encode_utf8_valid_utf8(to@);
        assert(sseq.skip(0) =~= sseq);
        assert(sseq.len() == sb_len as int);
    }
    while next.is_some()
        invariant
            valid_utf8(sseq),
            valid_utf8(fseq),
            valid_utf8(tseq),
            fseq.len() > 0,
            sseq == sb@,
            fseq == fb@,
            tseq == tb@,
            pos <= sseq.len(),
            sseq.len() <= usize::MAX,
            valid_utf8(out@),
            valid_utf8(sseq.skip(pos as int)),
            out@ + replace_bytes(sseq.skip(pos as int), fseq, tseq) == replace_bytes(
                sseq,
                fseq,
                tseq,
            ),
            match next {
                Some(i) => pos <= i && match_at(sseq, fseq, i as int) && forall|j: int|
                    pos <= j < i ==> !match_at(sseq, fseq, j),
                None => forall|j: int| j >= pos ==> !match_at(sseq, fseq, j),
            },
        decreases sseq.len() - pos,
    {
        let i = next.unwrap();
        let ghost oldpos = pos as int;
        let ghost oldout = out@;
        let ghost suffix = sseq.skip(pos as int);
        proof {
            // The suffix's first occurrence sits at `i - pos`.
            lemma_match_at_skip(sseq, fseq, pos as int, i - pos);
            assert forall|j: int| 0 <= j < i - pos implies !match_at(suffix, fseq, j) by {
                lemma_match_at_skip(sseq, fseq, pos as int, j);
            }
            lemma_replace_bytes_first_match(suffix, fseq, tseq, i - pos);
            // The copied piece and the advanced suffix are valid UTF-8.
            assert(valid_first_scalar(fseq));
            if i - pos < suffix.len() {
                assert(suffix[i - pos] == fseq[0]);
                assert(!is_continuation_byte(suffix[i - pos]));
                assert(is_char_boundary(suffix, i - pos));
            } else {
                assert(fseq.len() == 0);
            }
            assert(valid_utf8(suffix.subrange(0, i - pos)));
            assert(valid_utf8(suffix.skip(i - pos)));
            assert(suffix.skip(i - pos).subrange(0, fseq.len() as int) =~= sseq.subrange(
                i as int,
                i + fseq.len(),
            ));
            lemma_valid_prefix_valid_suffix(suffix.skip(i - pos), fseq);
            assert(suffix.skip(i - pos).skip(fseq.len() as int) =~= sseq.skip(
                i + fseq.len(),
            ));
            assert(suffix.skip(i - pos + fseq.len()) =~= sseq.skip(i + fseq.len()));
            assert(suffix.subrange(0, i - pos) =~= sseq.subrange(pos as int, i as int));
            assert(suffix.take(i - pos) == sseq.subrange(pos as int, i as int));
        }
        push_range(&mut out, sb, pos, i);
        proof {
            assert(out@ == oldout + sseq.subrange(oldpos, i as int));
            assert(valid_utf8(sseq.subrange(oldpos, i as int)));
            assert(valid_utf8(out@));
        }
        push_range(&mut out, tb, 0, tb.len());
        proof {
            assert(tseq.subrange(0, tseq.len() as int) =~= tseq);
            assert(valid_utf8(out@));
        }
        pos = i + fb.len();
        next = find_match(sb, fb, pos);
        proof {
            assert(valid_utf8(sseq.skip(pos as int)));
            assert(out@ + replace_bytes(sseq.skip(pos as int), fseq, tseq) =~= replace_bytes(
                sseq,
                fseq,
                tseq,
            ));
        }
    }
    proof {
        let suffix = sseq.skip(pos as int);
        assert forall|j: int| !match_at(suffix, fseq, j) by {
            if j >= 0 {
                lemma_match_at_skip(sseq, fseq, pos as int, j);
            }
        }
        lemma_replace_bytes_no_match(suffix, fseq, tseq);
    }
    push_range(&mut out, sb, pos, sb.len());
    proof {
        assert(sseq.subrange(pos as int, sseq.len() as int) =~= sseq.skip(pos as int));
        assert(match_at(sseq, fseq, first as int));
    }
    match string_from_utf8(out) {
        Some(result) => Some(result),
        None => vstd::pervasive::unreached(),
    }
}

/// A single ASCII byte is a valid UTF-8 encoding.
proof fn lemma_ascii_byte_valid(b: u8)
    requires
        b < 0x80,
    ensures
        valid_utf8(seq![b]),
{
    let s = seq![b];
    assert(is_leading_byte_width_1(s[0]));
    assert(b & 0x7f < 0x80) by (bit_vector);
    assert(valid_first_scalar(s));
    assert(length_of_first_scalar(s) == 1);
    assert(pop_first_scalar(s) =~= Seq::<u8>::empty());
    assert(valid_utf8(Seq::<u8>::empty()));
}

/// Filtering keeps a sequence whole when the predicate holds everywhere.
proof fn lemma_filter_all(s: Seq<u8>, pred: spec_fn(u8) -> bool)
    requires
        forall|i: int| 0 <= i < s.len() ==> pred(#[trigger] s[i]),
    ensures
        s.filter(pred) == s,
    decreases s.len(),
{
    reveal_with_fuel(Seq::filter, 2);
    if s.len() == 0 {
        assert(s.filter(pred) =~= s);
    } else {
        lemma_filter_all(s.drop_last(), pred);
        assert(pred(s.last()));
        assert(s.filter(pred) =~= s);
    }
}

/// Removing one ASCII byte everywhere keeps an encoding valid UTF-8: an
/// ASCII byte is a whole scalar, and the bytes of wider scalars are all at or
/// above 0x80 and so are never removed.
proof fn lemma_remove_ascii_valid(s: Seq<u8>, ch: u8)
    requires
        valid_utf8(s),
        ch < 0x80,
    ensures
        valid_utf8(s.filter(|b: u8| b != ch)),
    decreases s.len(),
{
    let pred = |b: u8| b != ch;
    if s.len() == 0 {
        reveal_with_fuel(Seq::filter, 1);
        assert(s.filter(pred) =~= s);
    } else {
        let w = length_of_first_scalar(s);
        let first = take_first_scalar(s);
        let rest = pop_first_scalar(s);
        assert(first + rest =~= s);
        Seq::<u8>::filter_distributes_over_add(first, rest, pred);
        lemma_remove_ascii_valid(rest, ch);
        assert(1 <= w <= s.len());
        assert(first.len() == w);
        assert(forall|k: int| 0 <= k < w ==> #[trigger] first[k] == s[k]);
        assert(valid_first_scalar(first));
        assert(length_of_first_scalar(first) == w);
        assert(pop_first_scalar(first) =~= Seq::<u8>::empty());
        assert(valid_utf8(Seq::<u8>::empty()));
        assert(valid_utf8(first));
        if w == 1 {
            assert(first =~= seq![s[0]]);
            reveal_with_fuel(Seq::filter, 2);
            if s[0] == ch {
                assert(first.drop_last() =~= Seq::<u8>::empty());
                assert(first.filter(pred) =~= Seq::<u8>::empty());
                assert(Seq::<u8>::empty() + rest.filter(pred) =~= rest.filter(pred));
            } else {
                lemma_filter_all(first, pred);
            }
        } else {
            assert(forall|k: int| 1 <= k < w ==> is_continuation_byte(#[trigger] s[k]));
            assert forall|k: int| 0 <= k < first.len() implies pred(#[trigger] first[k]) by {
                assert(first[k] == s[k]);
                if k == 0 {
                    assert(!is_leading_byte_width_1(s[0]));
                } else {
                    assert(is_continuation_byte(s[k]));
                }
            }
            lemma_filter_all(first, pred);
        }
        assert(valid_utf8(first.filter(pred)));
        assert(valid_utf8(first.filter(pred) + rest.filter(pred)));
    }
}

/// Whether the byte occurs in the slice.
fn slice_contains_byte(s: &[u8], ch: u8) -> (r: bool)
    ensures
        r == s@.contains(ch),
{
    let mut i: usize = 0;
    while i < s.len()
        invariant
            i <= s@.len(),
            forall|j: int| 0 <= j < i ==> s@[j] != ch,
        decreases s@.len() - i,
    {
        if s[i] == ch {
            return true;
        }
        i = i + 1;
    }
    false
}

/// Removes every occurrence of the ASCII byte `ch` from the string; `None`
/// when it never occurs, so that the caller can keep the original without
/// allocating.
pub fn remove_ascii_from_str(s: &str, ch: u8) -> (r: Option<String>)
    requires
        ch < 0x80,
    ensures
        match r {
            Some(out) => s.spec_bytes().contains(ch) && encode_utf8(out@)
                == s.spec_bytes().filter(|b: u8| b != ch),
            None => !s.spec_bytes().contains(ch),
        },
{
    let sb = s.as_bytes();
    if !slice_contains_byte(sb, ch) {
        return None;
    }
    let ghost pred = |b: u8| b != ch;
    let mut out: Vec<u8> = Vec::new();
    let mut i: usize = 0;
    proof {
        reveal_with_fuel(Seq::filter, 1);
        assert(sb@.take(0) =~= Seq::<u8>::empty());
        assert(out@ =~= sb@.take(0).filter(pred));
    }
    while i < sb.len()
        invariant
            ch < 0x80,
            i <= sb@.len(),
            out@ == sb@.take(i as int).filter(pred),
            pred == (|b: u8| b != ch),
        decreases sb@.len() - i,
    {
        proof {
            lemma_filter_take_step(sb@, pred, i as int);
        }
        let b = sb[i];
        if b != ch {
            out.push(b);
        }
        i = i + 1;
    }
    proof {
        assert(sb@.take(sb@.len() as int) =~= sb@);
        encode_utf8_valid_utf8(s@);
        lemma_remove_ascii_valid(sb@, ch);
    }
    match string_from_utf8(out) {
        Some(result) => Some(result),
        None => vstd::pervasive::unreached(),
    }
}

/// Removes every occurrence of the ASCII byte `ch`, borrowing the input when
/// it never occurs.
pub fn remove_all_ascii<'a>(s: &'a str, ch: u8) -> (r: Cow<'a, str>)
    requires
        ch < 0x80,
    ensures
        encode_utf8(r@) == s.spec_bytes().filter(|b: u8| b != ch),
        s.spec_bytes().contains(ch) ==> (r matches Cow::Owned(_)),
        !s.spec_bytes().contains(ch) ==> r@ == s@ && (r matches Cow::Borrowed(_)),
{
    match remove_ascii_from_str(s, ch) {
        Some(out) => Cow::Owned(out),
        None => {
            proof {
                lemma_filter_all(s.spec_bytes(), |b: u8| b != ch);
            }
            Cow::Borrowed(s)
        },
    }
}

/// Removes every occurrence of the ASCII byte `ch` from the string in place.
pub fn remove_all_ascii_in_place(s: &mut String, ch: u8)
    requires
        ch < 0x80,
    ensures
        encode_utf8(final(s)@) == encode_utf8(old(s)@).filter(|b: u8| b != ch),
{
    match remove_ascii_from_str(s.as_str(), ch) {
        Some(out) => {
            *s = out;
        },
        None => {
            proof {
                lemma_filter_all(encode_utf8(s@), |b: u8| b != ch);
            }
        },
    }
}

/// Replaces every occurrence of the ASCII byte `from` by the ASCII byte `to`
/// in place. Both are ASCII, so the length never changes.
pub fn replace_all_ascii_in_place(s: &mut String, from: u8, to: u8)
    requires
        from < 0x80,
        to < 0x80,
    ensures
        encode_utf8(final(s)@) == encode_utf8(old(s)@).map_values(
            |b: u8| if b == from {
                to
            } else {
                b
            },
        ),
{
    let ghost m = |b: u8| if b == from {
        to
    } else {
        b
    };
    let sb = s.as_str().as_bytes();
    let mut out: Vec<u8> = Vec::new();
    let mut i: usize = 0;
    while i < sb.len()
        invariant
            i <= sb@.len(),
            out@ =~= sb@.take(i as int).map_values(m),
            m == (|b: u8| if b == from {
                to
            } else {
                b
            }),
        decreases sb@.len() - i,
    {
        let b = sb[i];
        if b == from {
            out.push(to);
        } else {
            out.push(b);
        }
        i = i + 1;
        proof {
            assert(out@ =~= sb@.take(i as int).map_values(m));
        }
    }
    proof {
        assert(sb@.take(sb@.len() as int) =~= sb@);
        encode_utf8_valid_utf8(s@);
        lemma_ascii_map_valid_utf8(sb@, m);
    }
    match string_from_utf8(out) {
        Some(result) => {
            *s = result;
        },
        None => {
            vstd::pervasive::unreached()
        },
    }
}

/// Replaces every occurrence of `from` by `to`, borrowing the input when
/// `from` is empty or never occurs.
pub fn replace_all_str<'a>(s: &'a str, from: &str, to: &str) -> (r: Cow<'a, str>)
    ensures
        from@.len() > 0 ==> encode_utf8(r@) == replace_bytes(
            s.spec_bytes(),
            from.spec_bytes(),
            to.spec_bytes(),
        ),
        from@.len() > 0 && contains_bytes(s.spec_bytes(), from.spec_bytes()) ==> (
        r matches Cow::Owned(_)),
        from@.len() == 0 || !contains_bytes(s.spec_bytes(), from.spec_bytes()) ==> r@ == s@
            && (r matches Cow::Borrowed(_)),
{
    match replace_str_if_contains(s, from, to) {
        Some(out) => Cow::Owned(out),
        None => {
            proof {
                if from@.len() > 0 {
                    assert forall|i: int| !match_at(s.spec_bytes(), from.spec_bytes(), i) by {
                        if match_at(s.spec_bytes(), from.spec_bytes(), i) {
                            assert(contains_bytes(s.spec_bytes(), from.spec_bytes()));
                        }
                    }
                    lemma_replace_bytes_no_match(
                        s.spec_bytes(),
                        from.spec_bytes(),
                        to.spec_bytes(),
                    );
                }
            }
            Cow::Borrowed(s)
        },
    }
}

} // verus!
