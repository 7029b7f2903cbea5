//! Byte-level helpers shared by the atom and string modules.

use vstd::prelude::*;
use vstd::seq_lib::*;
use vstd::string::*;
use vstd::utf8::*;

verus! {

/// Compares two byte slices for equality.
pub fn bytes_eq(a: &[u8], b: &[u8]) -> (r: bool)
    ensures
        r == (a@ == b@),
{
    if a.len() != b.len() {
        return false;
    }
    let mut i: usize = 0;
    while i < a.len()
        invariant
            a@.len() == b@.len(),
            i <= a@.len(),
            forall|j: int| 0 <= j < i ==> a@[j] == b@[j],
        decreases a@.len() - i,
    {
        if a[i] != b[i] {
            return false;
        }
        i = i + 1;
    }
    proof {
        assert(a@ =~= b@);
    }
    true
}

/// Compares two strings for equality, byte by byte.
pub fn str_eq(a: &str, b: &str) -> (r: bool)
    ensures
        r == (a@ == b@),
{
    let r = bytes_eq(a.as_bytes(), b.as_bytes());
    proof {
        if r {
            lemma_encode_utf8_injective(a@, b@);
        }
    }
    r
}

/// Two character sequences with equal UTF-8 encodings are equal.
pub proof fn lemma_encode_utf8_injective(a: Seq<char>, b: Seq<char>)
    requires
        encode_utf8(a) == encode_utf8(b),
    ensures
        a == b,
{
    encode_utf8_decode_utf8(a);
    encode_utf8_decode_utf8(b);
}

/// Encoding distributes over concatenation of character sequences.
pub proof fn lemma_encode_utf8_concat(a: Seq<char>, b: Seq<char>)
    ensures
        encode_utf8(a + b) == encode_utf8(a) + encode_utf8(b),
    decreases a.len(),
{
    if a.len() == 0 {
        assert(a + b =~= b);
        assert(encode_utf8(a) + encode_utf8(b) =~= encode_utf8(b));
    } else {
        assert((a + b).drop_first() =~= a.drop_first() + b);
        assert((a + b)[0] == a[0]);
        lemma_encode_utf8_concat(a.drop_first(), b);
        assert(encode_utf8(a + b) =~= encode_utf8(a) + encode_utf8(b));
    }
}

/// A sequence of ASCII bytes is a valid UTF-8 encoding.
pub proof fn lemma_ascii_bytes_valid(s: Seq<u8>)
    requires
        forall|i: int| 0 <= i < s.len() ==> #[trigger] s[i] < 0x80,
    ensures
        valid_utf8(s),
    decreases s.len(),
{
    if s.len() != 0 {
        assert(is_leading_byte_width_1(s[0]));
        let b0 = s[0];
        assert(b0 & 0x7f < 0x80) by (bit_vector);
        assert(valid_first_scalar(s));
        assert(length_of_first_scalar(s) == 1);
        assert(pop_first_scalar(s) =~= s.skip(1));
        lemma_ascii_bytes_valid(s.skip(1));
    }
}

/// The decimal digits of `n`, as ASCII bytes, most significant first.
pub open spec fn dec_rep(n: nat) -> Seq<u8>
    decreases n,
{
    if n < 10 {
        seq![(0x30 + n) as u8]
    } else {
        dec_rep(n / 10).push((0x30 + n % 10) as u8)
    }
}

/// Every byte of a decimal representation is an ASCII digit.
pub proof fn lemma_dec_rep_ascii(n: nat)
    ensures
        forall|i: int| 0 <= i < dec_rep(n).len() ==> 0x30 <= #[trigger] dec_rep(n)[i] <= 0x39,
    decreases n,
{
    if n >= 10 {
        lemma_dec_rep_ascii(n / 10);
        assert forall|i: int| 0 <= i < dec_rep(n).len() implies 0x30 <= #[trigger] dec_rep(n)[i]
            <= 0x39 by {
            if i < dec_rep(n).len() - 1 {
                assert(dec_rep(n)[i] == dec_rep(n / 10)[i]);
            }
        }
    }
}

/// The decimal digits of `n` as bytes, most significant first.
pub fn dec_bytes(n: u64) -> (r: Vec<u8>)
    ensures
        r@ == dec_rep(n as nat),
    decreases n,
{
    if n < 10 {
        let mut v: Vec<u8> = Vec::new();
        v.push(0x30 + (n as u8));
        proof {
            assert(v@ =~= dec_rep(n as nat));
        }
        v
    } else {
        let mut v = dec_bytes(n / 10);
        v.push(0x30 + ((n % 10) as u8));
        v
    }
}

/// The decimal representation of `n` as a string.
pub fn dec_string(n: u64) -> (r: String)
    ensures
        encode_utf8(r@) == dec_rep(n as nat),
{
    let bytes = dec_bytes(n);
    proof {
        lemma_dec_rep_ascii(n as nat);
        lemma_ascii_bytes_valid(bytes@);
    }
    match string_from_utf8(bytes) {
        Some(s) => s,
        None => vstd::pervasive::unreached(),
    }
}

/// One step of filtering along a growing prefix.
pub proof fn lemma_filter_take_step<T>(s: Seq<T>, pred: spec_fn(T) -> bool, i: int)
    requires
        0 <= i < s.len(),
    ensures
        s.take(i + 1).filter(pred) == if pred(s[i]) {
            s.take(i).filter(pred).push(s[i])
        } else {
            s.take(i).filter(pred)
        },
{
    reveal_with_fuel(Seq::filter, 2);
    assert(s.take(i + 1).drop_last() =~= s.take(i));
    assert(s.take(i + 1).last() == s[i]);
    assert(s.take(i + 1).len() > 0);
}

/// A byte map that leaves every non-ASCII byte alone and keeps ASCII bytes
/// ASCII.
pub open spec fn ascii_preserving_map(m: spec_fn(u8) -> u8) -> bool {
    &&& forall|b: u8| b >= 0x80 ==> #[trigger] m(b) == b
    &&& forall|b: u8| b < 0x80 ==> #[trigger] m(b) < 0x80
}

/// The uppercasing map on ASCII bytes.
pub open spec fn ascii_upper_byte(b: u8) -> u8 {
    if 0x61 <= b <= 0x7a {
        (b - 0x20) as u8
    } else {
        b
    }
}

/// The lowercasing map on ASCII bytes.
pub open spec fn ascii_lower_byte(b: u8) -> u8 {
    if 0x41 <= b <= 0x5a {
        (b + 0x20) as u8
    } else {
        b
    }
}

/// A valid UTF-8 encoding mapped bytewise by an ASCII-preserving map is still
/// valid UTF-8: every byte of a multi-byte scalar is at or above 0x80 and
/// passes through unchanged, and an ASCII byte stays a one-byte scalar.
pub proof fn lemma_ascii_map_valid_utf8(s: Seq<u8>, m: spec_fn(u8) -> u8)
    requires
        valid_utf8(s),
        ascii_preserving_map(m),
    ensures
        valid_utf8(s.map_values(m)),
    decreases s.len(),
{
    let t = s.map_values(m);
    if s.len() == 0 {
        assert(t.len() == 0);
    } else {
        assert(valid_first_scalar(s));
        let w = length_of_first_scalar(s);
        if is_leading_byte_width_1(s[0]) {
            assert(t[0] == m(s[0]));
            assert(is_leading_byte_width_1(t[0]));
            let b0 = t[0];
            assert(b0 & 0x7f < 0x80) by (bit_vector);
            assert(valid_first_scalar(t));
            assert(length_of_first_scalar(t) == 1);
        } else {
            assert(forall|i: int| 1 <= i < w ==> is_continuation_byte(#[trigger] s[i]));
            assert(forall|i: int| 0 <= i < w ==> #[trigger] t[i] == s[i]);
            assert(valid_leading_and_continuation_bytes_first_codepoint(t));
            assert(decode_first_codepoint(t) == decode_first_codepoint(s));
            assert(length_of_first_codepoint(t) == w);
            assert(valid_first_scalar(t));
        }
        assert(pop_first_scalar(t) =~= pop_first_scalar(s).map_values(m));
        lemma_ascii_map_valid_utf8(pop_first_scalar(s), m);
        assert(valid_utf8(t));
    }
}

/// Relies on std::str::from_utf8: the returned string views exactly the given
/// bytes, and every valid UTF-8 encoding is accepted.
#[verifier::external_body]
pub fn str_from_utf8(bytes: &[u8]) -> (r: Option<&str>)
    ensures
        r matches Some(s) ==> s.spec_bytes() == bytes@,
        valid_utf8(bytes@) ==> r is Some,
{
    std::str::from_utf8(bytes).ok()
}

/// Relies on std::string::String::from_utf8: the returned string views exactly
/// the given bytes, and every valid UTF-8 encoding is accepted.
#[verifier::external_body]
pub fn string_from_utf8(bytes: Vec<u8>) -> (r: Option<String>)
    ensures
        r matches Some(s) ==> encode_utf8(s@) == bytes@,
        valid_utf8(bytes@) ==> r is Some,
{
    String::from_utf8(bytes).ok()
}

} // verus!
