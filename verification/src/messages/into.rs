//! What all message bodies have in common: an encoding in either byte order.

use crate::error::EncodeError;
use vstd::prelude::*;

verus! {

/// A message body that can be written out.
pub trait ToBytes {
    /// Whether every string and list of the value fits behind its length
    /// prefix.
    spec fn encodable(&self) -> bool;

    /// The bytes of the value, with its multi-byte fields in the chosen byte
    /// order.
    spec fn wire(&self, big: bool) -> Seq<u8>;

    /// Encodes the value, or reports `FieldTooLong` and writes nothing where
    /// a field does not fit behind its length prefix.
    fn to_bytes(&self, is_big_endian: bool) -> (r: Result<Vec<u8>, EncodeError>)
        ensures
            r is Ok <==> self.encodable(),
            r matches Ok(v) ==> v@ == self.wire(is_big_endian),
            r matches Err(e) ==> e == EncodeError::FieldTooLong,
    ;
}

} // verus!
