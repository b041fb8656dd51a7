//! Names as the foreign compiler reads them: byte strings that end at the
//! first zero byte.

use vstd::prelude::*;
use vstd::slice::slice_subrange;
use vstd::string::StrSliceExecFns;
use vstd::string::StringSliceAdditionalSpecFns;

verus! {

/// The byte that ends a name.
pub const NUL: u8 = 0;

/// `bytes` holds a zero byte somewhere.
pub open spec fn contains_nul(bytes: Seq<u8>) -> bool {
    exists|i: int| 0 <= i < bytes.len() && bytes[i] == NUL
}

/// Whether the UTF-8 bytes of `text` hold a zero byte. Such a text cannot be
/// a name: the foreign compiler would read it only up to that byte.
pub fn has_nul(text: &str) -> (found: bool)
    ensures
        found == contains_nul(text.spec_bytes()),
{
    let bytes = text.as_bytes();
    let mut i: usize = 0;
    while i < bytes.len()
        invariant
            bytes@ == text.spec_bytes(),
            i <= bytes@.len(),
            forall|j: int| 0 <= j < i ==> bytes@[j] != NUL,
        decreases bytes@.len() - i,
    {
        if bytes[i] == NUL {
            assert(text.spec_bytes()[i as int] == NUL);
            return true;
        }
        i += 1;
    }
    false
}

/// A name with its terminating zero byte, ready to be pointed at by the
/// foreign compiler. Its view is the name without the terminator, which
/// holds no zero byte.
#[derive(Debug, PartialEq)]
pub struct CName {
    bytes: Vec<u8>,
}

impl View for CName {
    type V = Seq<u8>;

    closed spec fn view(&self) -> Seq<u8> {
        self.bytes@.drop_last()
    }
}

impl Clone for CName {
    fn clone(&self) -> (copy: Self)
        ensures
            copy@ == self@,
    {
        proof {
            use_type_invariant(self);
        }
        let bytes = slice_subrange(self.bytes.as_slice(), 0, self.bytes.len() - 1);
        let mut copy = vstd::slice::slice_to_vec(bytes);
        copy.push(NUL);
        assert(copy@.drop_last() =~= self.bytes@.drop_last());
        CName { bytes: copy }
    }
}

impl CName {
    #[verifier::type_invariant]
    spec fn is_terminated(self) -> bool {
        &&& self.bytes@.len() > 0
        &&& self.bytes@.last() == NUL
        &&& !contains_nul(self.bytes@.drop_last())
    }

    /// The name `text`, unless it holds a zero byte.
    pub fn new(text: &str) -> (name: Option<CName>)
        ensures
            name.is_some() <==> !contains_nul(text.spec_bytes()),
            name matches Some(n) ==> n@ == text.spec_bytes(),
    {
        if has_nul(text) {
            return None;
        }
        let mut bytes = text.as_bytes_vec();
        bytes.push(NUL);
        assert(bytes@.drop_last() =~= text.spec_bytes());
        Some(CName { bytes })
    }

    /// The bytes of the name, without the terminator.
    pub fn as_bytes(&self) -> (bytes: &[u8])
        ensures
            bytes@ == self@,
            !contains_nul(bytes@),
    {
        proof {
            use_type_invariant(self);
        }
        slice_subrange(self.bytes.as_slice(), 0, self.bytes.len() - 1)
    }

    /// The bytes of the name followed by the terminating zero byte: what a
    /// pointer handed to the foreign compiler points at.
    pub fn as_bytes_with_nul(&self) -> (bytes: &[u8])
        ensures
            bytes@ == self@.push(NUL),
            !contains_nul(self@),
    {
        proof {
            use_type_invariant(self);
            assert(self.bytes@ =~= self.bytes@.drop_last().push(NUL));
        }
        self.bytes.as_slice()
    }
}

} // verus!
