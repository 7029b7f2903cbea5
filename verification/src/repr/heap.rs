//! Long strings stored in an owned heap buffer.

use vstd::prelude::*;
use vstd::string::*;

verus! {

/// A string owned on the heap by the representation.
pub struct HeapStr {
    text: String,
}

impl View for HeapStr {
    type V = Seq<char>;

    closed spec fn view(&self) -> Seq<char> {
        self.text@
    }
}

impl HeapStr {
    /// Copies the text into a fresh heap buffer.
    pub fn new(text: &str) -> (r: HeapStr)
        ensures
            r@ == text@,
    {
        HeapStr { text: text.to_owned() }
    }

    /// The byte length of the stored text.
    pub fn len(&self) -> (n: usize)
        ensures
            n == vstd::utf8::encode_utf8(self@).len(),
    {
        self.text.as_str().as_bytes().len()
    }

    /// The stored text.
    pub fn as_str(&self) -> (r: &str)
        ensures
            r@ == self@,
    {
        self.text.as_str()
    }

    /// Releases the owned buffer, leaving the empty string behind.
    pub fn dealloc(&mut self)
        ensures
            final(self)@ == Seq::<char>::empty(),
    {
        self.text = String::new();
    }
}

} // verus!
