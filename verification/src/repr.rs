//! A compact tagged string representation.
//!
//! [`Repr`] keeps a string one of three ways: packed inline when it is short,
//! in an owned heap buffer when it is long, and as a bare reference when it is
//! statically allocated. The kind is observable through [`Repr::kind`]; the
//! text and its length read the same whatever the kind.

use vstd::prelude::*;
use vstd::string::*;
use vstd::utf8::*;

use crate::repr::heap::HeapStr;
use crate::repr::inline::InlineBuffer;
use crate::repr::static_ref::StaticStr;

pub mod heap;
pub mod inline;
pub mod static_ref;

verus! {

/// Upper bound (exclusive) on the byte length of inline-stored strings.
pub const MAX_SIZE: usize = 16;

/// Kind of strings packed inline.
pub const KIND_INLINED: u8 = 0;

/// Kind of strings owned on the heap.
pub const KIND_HEAP: u8 = 2;

/// Kind of strings referencing statically allocated text.
pub const KIND_STATIC: u8 = 3;

enum ReprKind {
    Inlined(InlineBuffer),
    Heap(HeapStr),
    Static(StaticStr),
}

/// A string held inline, on the heap, or as static text.
pub struct Repr {
    kind: ReprKind,
}

impl View for Repr {
    type V = Seq<char>;

    closed spec fn view(&self) -> Seq<char> {
        match self.kind {
            ReprKind::Inlined(b) => b@,
            ReprKind::Heap(h) => h@,
            ReprKind::Static(s) => s@,
        }
    }
}

impl Repr {
    /// The kind of this representation.
    pub closed spec fn spec_kind(self) -> u8 {
        match self.kind {
            ReprKind::Inlined(..) => KIND_INLINED,
            ReprKind::Heap(..) => KIND_HEAP,
            ReprKind::Static(..) => KIND_STATIC,
        }
    }

    /// Returns the kind of this representation.
    pub fn kind(&self) -> (k: u8)
        ensures
            k == self.spec_kind(),
    {
        match &self.kind {
            ReprKind::Inlined(..) => KIND_INLINED,
            ReprKind::Heap(..) => KIND_HEAP,
            ReprKind::Static(..) => KIND_STATIC,
        }
    }

    /// Wraps statically allocated text; never allocates.
    pub fn new_static(text: &'static str) -> (r: Repr)
        ensures
            r@ == text@,
            r.spec_kind() == KIND_STATIC,
    {
        Repr { kind: ReprKind::Static(StaticStr::new(text)) }
    }

    /// Stores the text: empty text becomes a static reference, short text is
    /// packed inline, and anything else is copied to the heap.
    pub fn new_dynamic(text: &str) -> (r: Repr)
        ensures
            r@ == text@,
            encode_utf8(text@).len() == 0 ==> r.spec_kind() == KIND_STATIC,
            0 < encode_utf8(text@).len() < MAX_SIZE as int ==> r.spec_kind() == KIND_INLINED,
            encode_utf8(text@).len() >= MAX_SIZE as int ==> r.spec_kind() == KIND_HEAP,
    {
        let n = text.as_bytes().len();
        if n == 0 {
            let r = Repr::new_static("");
            proof {
                reveal_strlit("");
                encode_utf8_decode_utf8(text@);
                assert(encode_utf8(text@) =~= Seq::<u8>::empty());
                assert(decode_utf8(Seq::<u8>::empty()) =~= Seq::<char>::empty());
                assert(text@ =~= Seq::<char>::empty());
                assert(r@ =~= Seq::<char>::empty());
            }
            r
        } else if n < MAX_SIZE {
            Repr { kind: ReprKind::Inlined(InlineBuffer::new(text)) }
        } else {
            Repr { kind: ReprKind::Heap(HeapStr::new(text)) }
        }
    }

    /// The byte length of the stored text.
    pub fn len(&self) -> (n: usize)
        ensures
            n == encode_utf8(self@).len(),
    {
        match &self.kind {
            ReprKind::Inlined(b) => b.len(),
            ReprKind::Heap(h) => h.len(),
            ReprKind::Static(s) => s.len(),
        }
    }

    /// The stored text.
    pub fn as_str(&self) -> (r: &str)
        ensures
            r@ == self@,
    {
        match &self.kind {
            ReprKind::Inlined(b) => b.as_str(),
            ReprKind::Heap(h) => h.as_str(),
            ReprKind::Static(s) => s.as_str(),
        }
    }
}

} // verus!
