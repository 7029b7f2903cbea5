//! Strings referencing statically allocated text.

use vstd::prelude::*;
use vstd::string::*;

verus! {

/// A reference to statically allocated text, always valid and never counted.
pub struct StaticStr {
    text: &'static str,
}

impl View for StaticStr {
    type V = Seq<char>;

    closed spec fn view(&self) -> Seq<char> {
        self.text@
    }
}

impl StaticStr {
    /// Wraps the static text.
    pub fn new(text: &'static str) -> (r: StaticStr)
        ensures
            r@ == text@,
    {
        StaticStr { text }
    }

    /// The byte length of the text.
    pub fn len(&self) -> (n: usize)
        ensures
            n == vstd::utf8::encode_utf8(self@).len(),
    {
        self.text.as_bytes().len()
    }

    /// The text.
    pub fn as_str(&self) -> (r: &str)
        ensures
            r@ == self@,
    {
        self.text
    }
}

} // verus!
