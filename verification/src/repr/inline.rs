//! Short strings stored directly in the representation.

use vstd::prelude::*;
use vstd::string::*;
use vstd::utf8::*;

use crate::repr::MAX_SIZE;
use crate::util::str_from_utf8;

verus! {

/// A string of fewer than [`MAX_SIZE`] bytes, stored in a fixed buffer
/// alongside its length.
pub struct InlineBuffer {
    buf: [u8; 15],
    len: u8,
}

impl View for InlineBuffer {
    type V = Seq<char>;

    closed spec fn view(&self) -> Seq<char> {
        decode_utf8(self.buf@.take(self.len as int))
    }
}

impl InlineBuffer {
    #[verifier::type_invariant]
    spec fn inv(self) -> bool {
        &&& (self.len as int) < MAX_SIZE as int
        &&& valid_utf8(self.buf@.take(self.len as int))
    }

    /// Packs the text into a fresh buffer.
    pub fn new(text: &str) -> (r: InlineBuffer)
        requires
            text.spec_bytes().len() < MAX_SIZE as int,
        ensures
            r@ == text@,
    {
        let bytes = text.as_bytes();
        let n = bytes.len();
        let mut buf = [0u8; 15];
        let mut i: usize = 0;
        while i < n
            invariant
                n == bytes@.len() < MAX_SIZE as int,
                i <= n,
                buf@.len() == 15,
                forall|k: int| 0 <= k < i ==> buf@[k] == bytes@[k],
            decreases n - i,
        {
            buf[i] = bytes[i];
            i = i + 1;
        }
        proof {
            assert(buf@.take(n as int) =~= bytes@);
            encode_utf8_valid_utf8(text@);
            encode_utf8_decode_utf8(text@);
        }
        InlineBuffer { buf, len: n as u8 }
    }

    /// The byte length of the stored text.
    pub fn len(&self) -> (n: usize)
        ensures
            n == encode_utf8(self@).len(),
    {
        proof {
            use_type_invariant(self);
            decode_utf8_encode_utf8(self.buf@.take(self.len as int));
        }
        self.len as usize
    }

    /// The stored text.
    pub fn as_str(&self) -> (r: &str)
        ensures
            r@ == self@,
    {
        proof {
            use_type_invariant(self);
        }
        let sl: &[u8] = self.buf.as_slice();
        let prefix = vstd::slice::slice_subrange(sl, 0, self.len as usize);
        match str_from_utf8(prefix) {
            Some(s) => {
                proof {
                    encode_utf8_decode_utf8(s@);
                }
                s
            },
            None => vstd::pervasive::unreached(),
        }
    }
}

} // verus!
