//! The closed catalogue of storable field types.

use vstd::prelude::*;

verus! {

/// The declared type of one field of a record.
///
/// The first five variants are static: their values occupy a fixed
/// number of bytes inside the static region of a blob. The remaining
/// variants are dynamic: the static region holds only an 8-byte
/// `(offset, length)` header for them, and the payload lives in the
/// dynamic region.
#[derive(PartialEq, Eq, Structural, Copy, Clone, Debug)]
pub enum DataType {
    Bool,
    Int,
    Float,
    Long,
    Double,
    String,
    Bytes,
    IntList,
    LongList,
    FloatList,
    DoubleList,
    BoolList,
    StringList,
    BytesList,
}

impl DataType {
    /// True for the nine variable-size types, whose field in the static
    /// region is an 8-byte header rather than the value itself.
    pub open spec fn spec_is_dynamic(self) -> bool {
        match self {
            DataType::Bool => false,
            DataType::Int => false,
            DataType::Float => false,
            DataType::Long => false,
            DataType::Double => false,
            _ => true,
        }
    }

    /// Executable form of [`Self::spec_is_dynamic`].
    #[verifier::when_used_as_spec(spec_is_dynamic)]
    pub fn is_dynamic(self) -> (r: bool)
        ensures
            r == self.spec_is_dynamic(),
    {
        match self {
            DataType::Bool => false,
            DataType::Int => false,
            DataType::Float => false,
            DataType::Long => false,
            DataType::Double => false,
            _ => true,
        }
    }

    /// Number of bytes a static value of this type occupies in the
    /// static region; dynamic types occupy the 8 bytes of their header.
    pub open spec fn static_size(self) -> int {
        match self {
            DataType::Bool => 1,
            DataType::Int => 4,
            DataType::Float => 4,
            DataType::Long => 8,
            DataType::Double => 8,
            _ => 8,
        }
    }

    /// Size in bytes of one element of a dynamic payload: one byte for
    /// text, raw bytes and packed booleans, the scalar width for the
    /// primitive lists, and 8 bytes (one inner header) for the nested
    /// list types.
    pub open spec fn elem_size(self) -> int {
        match self {
            DataType::String => 1,
            DataType::Bytes => 1,
            DataType::BoolList => 1,
            DataType::IntList => 4,
            DataType::FloatList => 4,
            DataType::LongList => 8,
            DataType::DoubleList => 8,
            DataType::StringList => 8,
            DataType::BytesList => 8,
            _ => 1,
        }
    }

    /// Alignment in bytes required of a dynamic payload's start
    /// offset: the element's own alignment, which for the nested list
    /// types is that of a header's 4-byte fields, not the 8 bytes of
    /// the whole header.
    pub open spec fn elem_align(self) -> int {
        match self {
            DataType::String => 1,
            DataType::Bytes => 1,
            DataType::BoolList => 1,
            DataType::IntList => 4,
            DataType::FloatList => 4,
            DataType::LongList => 8,
            DataType::DoubleList => 8,
            DataType::StringList => 4,
            DataType::BytesList => 4,
            _ => 1,
        }
    }
}

} // verus!
