//! Short-lived text and byte stores with a fixed inline budget `N`.
//!
//! The stores keep their content in one place and record whether it
//! exceeded the inline budget — the answer [`TempString::is_on_heap`]
//! and [`TempBuffer::is_on_heap`] give.  The content itself is always
//! handed back exactly as it came in.

use vstd::prelude::*;
use vstd::slice::slice_to_vec;
use vstd::string::StringSliceAdditionalSpecFns;
use vstd::utf8::encode_utf8;

verus! {

/// A byte store with an inline budget of `N` bytes.
pub struct TempBuffer<const N: usize> {
    data: Vec<u8>,
    spilled: bool,
}

impl<const N: usize> TempBuffer<N> {
    /// The stored bytes.
    pub closed spec fn view(&self) -> Seq<u8> {
        self.data@
    }

    /// The spill mark is honest: set exactly when the content exceeds
    /// the inline budget.
    pub closed spec fn wf(&self) -> bool {
        self.spilled == (self.data@.len() > N)
    }

    /// Stores a copy of `content`.
    pub fn new(content: &[u8]) -> (r: TempBuffer<N>)
        ensures
            r.wf(),
            r.view() == content@,
    {
        let data = slice_to_vec(content);
        let spilled: bool = data.len() > N;
        TempBuffer { data, spilled }
    }

    /// The stored bytes, as a slice.
    pub fn as_slice(&self) -> (r: &[u8])
        ensures
            r@ == self.view(),
    {
        self.data.as_slice()
    }

    /// Whether the content exceeded the inline budget.
    pub fn is_on_heap(&self) -> (r: bool)
        requires
            self.wf(),
        ensures
            r == (self.view().len() > N),
    {
        self.spilled
    }
}

/// A text store with an inline budget of `N` bytes.
pub struct TempString<const N: usize> {
    text: String,
    spilled: bool,
}

impl<const N: usize> TempString<N> {
    /// The stored characters.
    pub closed spec fn view(&self) -> Seq<char> {
        self.text@
    }

    /// The spill mark is honest: set exactly when the encoded content
    /// exceeds the inline budget.
    pub closed spec fn wf(&self) -> bool {
        self.spilled == (encode_utf8(self.text@).len() > N)
    }

    /// Stores a copy of `text`.
    pub fn new(text: &str) -> (r: TempString<N>)
        ensures
            r.wf(),
            r.view() == text@,
    {
        let encoded: &[u8] = text.as_bytes();
        proof {
            vstd::slice::axiom_spec_len(encoded);
            assert(encoded@ == encode_utf8(text@));
        }
        let spilled: bool = encoded.len() > N;
        TempString { text: text.to_owned(), spilled }
    }

    /// The stored text.
    pub fn as_str(&self) -> (r: &str)
        ensures
            r@ == self.view(),
    {
        self.text.as_str()
    }

    /// Whether the encoded content exceeded the inline budget.
    pub fn is_on_heap(&self) -> (r: bool)
        requires
            self.wf(),
        ensures
            r == (encode_utf8(self.view()).len() > N),
    {
        self.spilled
    }
}

} // verus!
