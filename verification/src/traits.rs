//! The two capabilities every wire value offers: its bytes in either byte
//! order, and the number of those bytes.

use vstd::prelude::*;

verus! {

/// A value with a wire representation.
///
/// `wire` is the model: the bytes of the value in network order. The
/// little-endian form is the same bytes read backwards, for a single field
/// and for a composite alike, so for a composite of several multi-byte
/// fields only the big-endian form is a field-by-field encoding.
pub trait EndianWrite {
    type Output: View<V = Seq<u8>>;

    /// The bytes of `self` in network order.
    spec fn wire(&self) -> Seq<u8>;

    fn to_le_bytes(&self) -> (out: Self::Output)
        ensures
            out@ == self.wire().reverse(),
    ;

    fn to_be_bytes(&self) -> (out: Self::Output)
        ensures
            out@ == self.wire(),
    ;
}

/// The serialized length of a wire value, known without serializing it.
pub trait Length: EndianWrite {
    fn len(&self) -> (n: usize)
        ensures
            n == self.wire().len(),
    ;
}

} // verus!
