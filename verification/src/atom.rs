//! The immutable string handle issued by a store.
//!
//! An [`Atom`] is one of three mutually exclusive representations: a short
//! string packed directly into the handle, a reference to statically
//! allocated text, or a shared heap [`Entry`] issued by an
//! [`AtomStore`](crate::dynamic::AtomStore). Equality of atoms is equality of
//! their text, whatever the representations; the representation only decides
//! how fast the answer is found.

use std::sync::Arc;

use vstd::prelude::*;
use vstd::string::*;
use vstd::utf8::*;

use crate::dynamic::clone_entry;
use crate::dynamic::entry_ref_count;
use crate::dynamic::entry_wf;
use crate::dynamic::resolve_alias;
use crate::dynamic::same_entry;
use crate::dynamic::Entry;
use crate::hash::fnv64;
use crate::hash::hash_bytes;
use crate::util::ascii_lower_byte;
use crate::util::ascii_upper_byte;
use crate::util::bytes_eq;
use crate::util::lemma_encode_utf8_injective;
use crate::util::lemma_ascii_map_valid_utf8;
use crate::util::str_from_utf8;
use crate::util::string_from_utf8;

verus! {

/// Strings of fewer than this many UTF-8 bytes are packed into the atom
/// itself instead of being interned in a store.
pub const MAX_INLINE_LEN: usize = 7;

/// Tag of atoms backed by a shared heap entry.
pub const DYNAMIC_TAG: u8 = 0;

/// Tag of atoms holding their bytes inline.
pub const INLINE_TAG: u8 = 1;

/// Tag of atoms referencing statically allocated text.
pub const STATIC_TAG: u8 = 2;

enum AtomRepr {
    Inline { len: u8, buf: [u8; MAX_INLINE_LEN] },
    Static { text: &'static str },
    Dynamic { entry: Arc<Entry> },
}

/// An immutable string handle: inline bytes, static text, or a shared entry.
///
/// Cloning a dynamic atom takes one more reference to its entry and dropping
/// releases it; inline and static atoms are plain copies. Two atoms compare
/// equal exactly when their text is equal, whatever their representations.
/// The text is read through [`Atom::as_str`] and the content hash through
/// [`Atom::get_hash`]; two equal atoms always hash equally, since the hash is
/// a function of the text.
pub struct Atom {
    repr: AtomRepr,
}

impl View for Atom {
    type V = Seq<char>;

    closed spec fn view(&self) -> Seq<char> {
        match self.repr {
            AtomRepr::Inline { len, buf } => decode_utf8(buf@.take(len as int)),
            AtomRepr::Static { text } => text@,
            AtomRepr::Dynamic { entry } => (*entry).string@,
        }
    }
}

impl Atom {
    #[verifier::type_invariant]
    spec fn inv(self) -> bool {
        match self.repr {
            AtomRepr::Inline { len, buf } => {
                &&& (len as int) < MAX_INLINE_LEN as int
                &&& valid_utf8(buf@.take(len as int))
                &&& forall|i: int| len as int <= i < buf@.len() ==> buf@[i] == 0
            },
            AtomRepr::Static { .. } => true,
            AtomRepr::Dynamic { entry } => entry_wf(*entry),
        }
    }

    /// The representation tag of this atom.
    pub closed spec fn spec_tag(self) -> u8 {
        match self.repr {
            AtomRepr::Inline { .. } => INLINE_TAG,
            AtomRepr::Static { .. } => STATIC_TAG,
            AtomRepr::Dynamic { .. } => DYNAMIC_TAG,
        }
    }

    /// Whether this atom is backed by a shared heap entry.
    pub open spec fn spec_is_dynamic(self) -> bool {
        self.spec_tag() == DYNAMIC_TAG
    }

    /// The heap entry behind a dynamic atom.
    pub closed spec fn spec_entry(self) -> Entry {
        match self.repr {
            AtomRepr::Dynamic { entry } => *entry,
            _ => vstd::pervasive::arbitrary(),
        }
    }

    /// Returns the representation tag.
    pub fn tag(&self) -> (t: u8)
        ensures
            t == self.spec_tag(),
    {
        match &self.repr {
            AtomRepr::Inline { .. } => INLINE_TAG,
            AtomRepr::Static { .. } => STATIC_TAG,
            AtomRepr::Dynamic { .. } => DYNAMIC_TAG,
        }
    }

    /// Returns true when this atom is backed by a shared heap entry.
    pub fn is_dynamic(&self) -> (r: bool)
        ensures
            r == self.spec_is_dynamic(),
    {
        self.tag() == DYNAMIC_TAG
    }

    /// Packs text of fewer than [`MAX_INLINE_LEN`] bytes into an atom.
    pub(crate) fn inline_from(text: &str) -> (r: Atom)
        requires
            text.spec_bytes().len() < MAX_INLINE_LEN as int,
        ensures
            r@ == text@,
            r.spec_tag() == INLINE_TAG,
    {
        let bytes = text.as_bytes();
        let n = bytes.len();
        let mut buf = [0u8; MAX_INLINE_LEN];
        let mut i: usize = 0;
        while i < n
            invariant
                n == bytes@.len() < MAX_INLINE_LEN as int,
                i <= n,
                buf@.len() == MAX_INLINE_LEN as int,
                forall|k: int| 0 <= k < i ==> buf@[k] == bytes@[k],
                forall|k: int| i <= k < buf@.len() ==> buf@[k] == 0,
            decreases n - i,
        {
            buf[i] = bytes[i];
            i = i + 1;
        }
        proof {
            assert(buf@.take(n as int) =~= bytes@);
            encode_utf8_valid_utf8(text@);
            encode_utf8_decode_utf8(text@);
        }
        Atom { repr: AtomRepr::Inline { len: n as u8, buf } }
    }

    /// Wraps a well-formed heap entry.
    pub(crate) fn from_entry(entry: Arc<Entry>) -> (r: Atom)
        requires
            entry_wf(*entry),
        ensures
            r@ == (*entry).string@,
            r.spec_tag() == DYNAMIC_TAG,
            r.spec_entry() == *entry,
    {
        Atom { repr: AtomRepr::Dynamic { entry } }
    }

    /// Wraps statically allocated text, without counting references.
    pub fn from_static(text: &'static str) -> (r: Atom)
        ensures
            r@ == text@,
            r.spec_tag() == STATIC_TAG,
    {
        Atom { repr: AtomRepr::Static { text } }
    }

    /// The text of this atom.
    pub fn as_str(&self) -> (r: &str)
        ensures
            r@ == self@,
    {
        proof {
            use_type_invariant(self);
        }
        match &self.repr {
            AtomRepr::Inline { len, buf } => {
                let sl: &[u8] = buf.as_slice();
                let prefix = vstd::slice::slice_subrange(sl, 0, *len as usize);
                match str_from_utf8(prefix) {
                    Some(s) => {
                        proof {
                            encode_utf8_decode_utf8(s@);
                        }
                        s
                    },
                    None => vstd::pervasive::unreached(),
                }
            },
            AtomRepr::Static { text } => text,
            AtomRepr::Dynamic { entry } => (**entry).string.as_str(),
        }
    }

    /// The content hash of this atom: [`fnv64`] of its UTF-8 bytes.
    ///
    /// Dynamic atoms return the hash precomputed on their entry; the other
    /// representations hash their text, which for inline atoms is a bounded
    /// number of bytes.
    pub fn get_hash(&self) -> (h: u64)
        ensures
            h == fnv64(encode_utf8(self@)),
    {
        proof {
            use_type_invariant(self);
        }
        match &self.repr {
            AtomRepr::Inline { len, buf } => {
                let sl: &[u8] = buf.as_slice();
                let prefix = vstd::slice::slice_subrange(sl, 0, *len as usize);
                proof {
                    decode_utf8_encode_utf8(buf@.take(*len as int));
                }
                hash_bytes(prefix)
            },
            AtomRepr::Static { text } => hash_bytes(text.as_bytes()),
            AtomRepr::Dynamic { entry } => (**entry).hash,
        }
    }

    /// How many handles share the entry behind this dynamic atom, this one
    /// included.
    pub fn ref_count(&self) -> (n: usize)
        requires
            self.spec_is_dynamic(),
        ensures
            n >= 1,
    {
        match &self.repr {
            AtomRepr::Dynamic { entry } => entry_ref_count(entry),
            _ => vstd::pervasive::unreached(),
        }
    }

    /// Builds an atom owning the given text, inline when it is short enough,
    /// otherwise backed by a fresh entry that no store owns.
    pub(crate) fn from_owned_text(s: String) -> (r: Atom)
        ensures
            r@ == s@,
    {
        let bytes_len = s.as_str().as_bytes().len();
        if bytes_len < MAX_INLINE_LEN {
            Atom::inline_from(s.as_str())
        } else {
            let hash = hash_bytes(s.as_str().as_bytes());
            let entry = std::sync::Arc::new(
                Entry { string: s, hash, store_id: None, alias: crate::dynamic::AliasCell::empty() },
            );
            Atom::from_entry(entry)
        }
    }

    /// Applies an ASCII byte map to this atom's text and wraps the result in
    /// a fresh atom. The map must leave non-ASCII bytes alone.
    fn map_ascii_bytes(&self, upper: bool) -> (r: Atom)
        ensures
            upper ==> encode_utf8(r@) == encode_utf8(self@).map_values(
                |b: u8| ascii_upper_byte(b),
            ),
            !upper ==> encode_utf8(r@) == encode_utf8(self@).map_values(
                |b: u8| ascii_lower_byte(b),
            ),
    {
        let ghost m: spec_fn(u8) -> u8 = if upper {
            |b: u8| ascii_upper_byte(b)
        } else {
            |b: u8| ascii_lower_byte(b)
        };
        let bytes = self.as_str().as_bytes();
        let mut out: Vec<u8> = Vec::new();
        let mut i: usize = 0;
        while i < bytes.len()
            invariant
                i <= bytes@.len(),
                out@ =~= bytes@.take(i as int).map_values(m),
                m == (if upper {
                    |b: u8| ascii_upper_byte(b)
                } else {
                    |b: u8| ascii_lower_byte(b)
                }),
            decreases bytes@.len() - i,
        {
            let b = bytes[i];
            if upper {
                if 0x61 <= b && b <= 0x7a {
                    out.push(b - 0x20);
                } else {
                    out.push(b);
                }
            } else {
                if 0x41 <= b && b <= 0x5a {
                    out.push(b + 0x20);
                } else {
                    out.push(b);
                }
            }
            i = i + 1;
            proof {
                assert(out@ =~= bytes@.take(i as int).map_values(m));
            }
        }
        proof {
            assert(bytes@.take(bytes@.len() as int) =~= bytes@);
            encode_utf8_valid_utf8(self@);
            lemma_ascii_map_valid_utf8(bytes@, m);
        }
        match string_from_utf8(out) {
            Some(s) => {
                let r = Atom::from_owned_text(s);
                proof {
                    assert(encode_utf8(r@) == encode_utf8(self@).map_values(m));
                }
                r
            },
            None => vstd::pervasive::unreached(),
        }
    }

    /// The text with every ASCII letter uppercased, as a fresh atom. Bytes
    /// outside the ASCII range are untouched.
    pub fn to_ascii_uppercase(&self) -> (r: Atom)
        ensures
            encode_utf8(r@) == encode_utf8(self@).map_values(|b: u8| ascii_upper_byte(b)),
    {
        self.map_ascii_bytes(true)
    }

    /// The text with every ASCII letter lowercased, as a fresh atom. Bytes
    /// outside the ASCII range are untouched.
    pub fn to_ascii_lowercase(&self) -> (r: Atom)
        ensures
            encode_utf8(r@) == encode_utf8(self@).map_values(|b: u8| ascii_lower_byte(b)),
    {
        self.map_ascii_bytes(false)
    }

    /// Whether the two atoms are bit-for-bit the same handle: the same inline
    /// word, the same static text, or handles to one heap entry. Equal words
    /// always carry equal text; for inline and static atoms the word is the
    /// text, so there equality of words is equality of text, while two
    /// distinct dynamic handles may still carry equal text.
    pub fn same_word(&self, other: &Atom) -> (r: bool)
        ensures
            r ==> self@ == other@,
            self.spec_tag() == INLINE_TAG && other.spec_tag() == INLINE_TAG ==> r == (self@
                == other@),
            self.spec_tag() == STATIC_TAG && other.spec_tag() == STATIC_TAG ==> r == (self@
                == other@),
    {
        proof {
            use_type_invariant(self);
            use_type_invariant(other);
        }
        match (&self.repr, &other.repr) {
            (
                AtomRepr::Inline { len: l1, buf: b1 },
                AtomRepr::Inline { len: l2, buf: b2 },
            ) => {
                let r = *l1 == *l2 && bytes_eq(b1.as_slice(), b2.as_slice());
                proof {
                    if r {
                        assert(b1@.take(*l1 as int) =~= b2@.take(*l2 as int));
                    }
                    if self@ == other@ {
                        // Equal text packs into one and the same word: the
                        // prefixes are the encodings and the rest is zero.
                        decode_utf8_encode_utf8(b1@.take(*l1 as int));
                        decode_utf8_encode_utf8(b2@.take(*l2 as int));
                        assert(b1@.take(*l1 as int) == b2@.take(*l2 as int));
                        assert(*l1 == *l2);
                        assert forall|k: int| 0 <= k < b1@.len() implies b1@[k] == b2@[k] by {
                            if k < *l1 as int {
                                assert(b1@.take(*l1 as int)[k] == b1@[k]);
                                assert(b2@.take(*l2 as int)[k] == b2@[k]);
                            }
                        }
                        assert(b1@ =~= b2@);
                    }
                }
                r
            },
            (AtomRepr::Static { text: t1 }, AtomRepr::Static { text: t2 }) => {
                let r = bytes_eq(t1.as_bytes(), t2.as_bytes());
                proof {
                    if r {
                        lemma_encode_utf8_injective(t1@, t2@);
                    }
                }
                r
            },
            (AtomRepr::Dynamic { entry: e1 }, AtomRepr::Dynamic { entry: e2 }) => {
                same_entry(e1, e2)
            },
            _ => false,
        }
    }

    /// An inline atom's text encodes to fewer bytes than the threshold and a
    /// dynamic atom's to at least that many; static atoms can be any length.
    proof fn lemma_tag_byte_len(a: &Atom)
        requires
            a.inv(),
        ensures
            a.spec_tag() == INLINE_TAG ==> encode_utf8(a@).len() < MAX_INLINE_LEN as int,
            a.spec_tag() == DYNAMIC_TAG ==> encode_utf8(a@).len() >= MAX_INLINE_LEN as int,
    {
        match a.repr {
            AtomRepr::Inline { len, buf } => {
                decode_utf8_encode_utf8(buf@.take(len as int));
            },
            AtomRepr::Static { .. } => {},
            AtomRepr::Dynamic { .. } => {},
        }
    }

    /// The cheap part of equality. `Some(b)` is a definite answer reached
    /// without comparing the full text of the two atoms, and the stages that
    /// can decide are obliged to: word-equal inline or static atoms answer
    /// `true`, an inline paired with a dynamic atom answers `false` (their
    /// lengths cannot match), and mismatched hashes answer `false`. `None`
    /// leaves the decision to a full content comparison; for two distinct
    /// dynamic handles the answer depends on allocation identity and the
    /// merge redirects, so it stays open here.
    pub fn simple_eq(&self, other: &Atom) -> (r: Option<bool>)
        ensures
            r matches Some(b) ==> b == (self@ == other@),
            fnv64(encode_utf8(self@)) != fnv64(encode_utf8(other@)) ==> r == Some(false),
            (self.spec_tag() == INLINE_TAG && other.spec_tag() == DYNAMIC_TAG) || (
            self.spec_tag() == DYNAMIC_TAG && other.spec_tag() == INLINE_TAG) ==> r == Some(
                false,
            ),
            self.spec_tag() == other.spec_tag() && self.spec_tag() != DYNAMIC_TAG && self@
                == other@ ==> r == Some(true),
    {
        proof {
            use_type_invariant(self);
            use_type_invariant(other);
            Atom::lemma_tag_byte_len(self);
            Atom::lemma_tag_byte_len(other);
        }
        if self.same_word(other) {
            return Some(true);
        }
        // An inline atom holds fewer bytes than any interned entry, so the
        // texts cannot match.
        match (&self.repr, &other.repr) {
            (AtomRepr::Inline { .. }, AtomRepr::Dynamic { .. }) => {
                return Some(false);
            },
            (AtomRepr::Dynamic { .. }, AtomRepr::Inline { .. }) => {
                return Some(false);
            },
            _ => {},
        }
        // The hash is a function of the text: a mismatch separates the texts.
        if self.get_hash() != other.get_hash() {
            return Some(false);
        }
        // Equal hashes decide nothing; chase merge redirects toward the
        // canonical entries and compare those by identity.
        match (&self.repr, &other.repr) {
            (AtomRepr::Dynamic { entry: e1 }, AtomRepr::Dynamic { entry: e2 }) => {
                let r1 = resolve_alias(e1);
                let r2 = resolve_alias(e2);
                if same_entry(&r1, &r2) {
                    Some(true)
                } else {
                    None
                }
            },
            _ => None,
        }
    }
}

impl Clone for Atom {
    /// Copies the handle; a dynamic atom takes one more reference to its
    /// entry.
    fn clone(&self) -> (r: Atom)
        ensures
            r == *self,
    {
        proof {
            use_type_invariant(self);
        }
        match &self.repr {
            AtomRepr::Inline { len, buf } => Atom {
                repr: AtomRepr::Inline { len: *len, buf: *buf },
            },
            AtomRepr::Static { text } => Atom { repr: AtomRepr::Static { text } },
            AtomRepr::Dynamic { entry } => Atom {
                repr: AtomRepr::Dynamic { entry: clone_entry(entry) },
            },
        }
    }
}

impl Default for Atom {
    /// The empty atom, packed inline.
    fn default() -> (r: Atom)
        ensures
            r@ == Seq::<char>::empty(),
    {
        proof {
            reveal_strlit("");
        }
        let r = Atom::inline_from("");
        proof {
            assert(r@ =~= Seq::<char>::empty());
        }
        r
    }
}

impl PartialEq for Atom {
    /// Atoms are equal exactly when their text is equal.
    fn eq(&self, other: &Atom) -> (r: bool) {
        match self.simple_eq(other) {
            Some(b) => b,
            None => {
                let r = bytes_eq(self.as_str().as_bytes(), other.as_str().as_bytes());
                proof {
                    if r {
                        lemma_encode_utf8_injective(self@, other@);
                    }
                }
                r
            },
        }
    }
}

impl vstd::std_specs::cmp::PartialEqSpecImpl for Atom {
    open spec fn obeys_eq_spec() -> bool {
        true
    }

    open spec fn eq_spec(&self, other: &Atom) -> bool {
        self@ == other@
    }
}

impl Eq for Atom {}

} // verus!
