//! The 8-byte header that locates a dynamic payload.

use crate::encoding::spec_u32_le;
use crate::encoding::u32_le;
use vstd::prelude::*;
use vstd::slice::slice_subrange;

verus! {

broadcast use vstd::slice::group_slice_axioms;

/// Locator of one dynamic payload inside a blob: four little-endian
/// bytes of absolute `offset` followed by four of `length`. A header
/// whose `offset` is zero marks a null field; `length` counts elements,
/// not bytes, except for text and raw bytes where the two coincide.
#[derive(PartialEq, Eq, Structural, Copy, Clone, Debug)]
pub struct DataPosition {
    pub offset: u32,
    pub length: u32,
}

impl DataPosition {
    /// A header is null exactly when its `offset` is zero.
    pub open spec fn spec_is_null(&self) -> bool {
        self.offset == 0
    }

    /// Executable form of [`Self::spec_is_null`].
    #[verifier::when_used_as_spec(spec_is_null)]
    pub fn is_null(&self) -> (r: bool)
        ensures
            r == self.spec_is_null(),
    {
        self.offset == 0
    }
}

/// The header encoded at absolute offset `at` of the blob.
pub open spec fn spec_position_at(b: Seq<u8>, at: int) -> DataPosition
    recommends
        0 <= at,
        at + 8 <= b.len(),
{
    DataPosition {
        offset: spec_u32_le(b.subrange(at, at + 4)),
        length: spec_u32_le(b.subrange(at + 4, at + 8)),
    }
}

/// Reads the header stored at absolute offset `at` of the blob.
pub fn read_position(object: &[u8], at: usize) -> (r: DataPosition)
    requires
        at + 8 <= object.len(),
    ensures
        r == spec_position_at(object@, at as int),
{
    let offset_bytes = slice_subrange(object, at, at + 4);
    let length_bytes = slice_subrange(object, at + 4, at + 8);
    DataPosition { offset: u32_le(offset_bytes), length: u32_le(length_bytes) }
}

} // verus!
