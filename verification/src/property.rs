//! The property descriptor and the typed accessors that read one field
//! out of a blob.
//!
//! A `Property` names a field by its declared type and its absolute
//! offset inside the static region. Static properties hold their value
//! at that offset directly; dynamic properties hold an 8-byte header
//! there that locates the payload in the dynamic region. The accessors
//! are pure over `(Property, &[u8])`: the blob is never mutated and two
//! reads of the same field return equal results, which each contract
//! pins down by equating the result with a specification function of
//! the property and the blob's byte sequence.

use crate::data_type::DataType;
use crate::encoding::is_nan_bits_32;
use crate::encoding::is_nan_bits_64;
use crate::encoding::spec_i32_le;
use crate::encoding::spec_i64_le;
use crate::encoding::spec_u32_le;
use crate::encoding::spec_u64_le;
use crate::encoding::i32_le;
use crate::encoding::i64_le;
use crate::encoding::u32_le;
use crate::encoding::u64_le;
use crate::position::DataPosition;
use crate::position::read_position;
use crate::position::spec_position_at;
use vstd::pervasive::unreached;
use vstd::prelude::*;
use vstd::slice::slice_index_get;
use vstd::slice::slice_subrange;
use vstd::utf8::decode_utf8;
use vstd::utf8::valid_utf8;

verus! {

broadcast use vstd::slice::group_slice_axioms;

/// Sentinel stored in an Int field to encode null.
pub const NULL_INT: i32 = i32::MIN;

/// Sentinel stored in a Long field to encode null.
pub const NULL_LONG: i64 = i64::MIN;

/// Byte stored in a Bool field for `false`.
pub const FALSE_BOOL: u8 = 0;

/// Byte stored in a Bool field for `true`.
pub const TRUE_BOOL: u8 = 1;

/// Canonical byte stored in a Bool field for null; any byte other than
/// 0 and 1 is read as null.
pub const NULL_BOOL: u8 = 2;

/// Descriptor of one field within the blobs of a schema: the declared
/// type and the absolute offset of the field's slot in the static
/// region. Descriptors are schema-level constants, immutable once
/// constructed.
#[derive(PartialEq, Eq, Structural, Copy, Clone, Debug)]
pub struct Property {
    pub data_type: DataType,
    pub offset: usize,
}

impl Property {
    /// Builds the descriptor for one field.
    pub fn new(data_type: DataType, offset: usize) -> (r: Property)
        ensures
            r.data_type == data_type,
            r.offset == offset,
    {
        Property { data_type, offset }
    }

    /// The header of this dynamic property, as encoded at its offset.
    pub open spec fn spec_position(self, b: Seq<u8>) -> DataPosition
        recommends
            self.data_type.spec_is_dynamic(),
            self.spec_in_bounds(b),
    {
        spec_position_at(b, self.offset as int)
    }

    /// The payload bytes of this dynamic property: `length` elements of
    /// `elem_size` bytes each, starting at the header's offset.
    pub open spec fn spec_payload(self, b: Seq<u8>) -> Seq<u8>
        recommends
            self.data_type.spec_is_dynamic(),
            self.spec_valid(b),
    {
        let h = self.spec_position(b);
        b.subrange(h.offset as int, h.offset + h.length * self.data_type.elem_size())
    }

    /// The blob is long enough for this property's slot in the static
    /// region: the value itself for a static type, the 8-byte header
    /// (at a 4-byte-aligned offset) for a dynamic one. Reading the slot
    /// of a shorter or misaligned blob would be an undefined read.
    pub open spec fn spec_in_bounds(self, b: Seq<u8>) -> bool {
        &&& b.len() <= usize::MAX
        &&& if self.data_type.spec_is_dynamic() {
            self.offset % 4 == 0 && self.offset + 8 <= b.len()
        } else {
            self.offset + self.data_type.static_size() <= b.len()
        }
    }

    /// A non-null payload of this dynamic property lies inside the
    /// blob and starts at an offset aligned to its element size, so
    /// that elements may be reinterpreted in place.
    pub open spec fn spec_payload_ok(self, b: Seq<u8>) -> bool
        recommends
            self.data_type.spec_is_dynamic(),
            self.spec_in_bounds(b),
    {
        let h = self.spec_position(b);
        !h.spec_is_null() ==> {
            &&& h.offset as int % self.data_type.elem_align() == 0
            &&& h.offset + h.length * self.data_type.elem_size() <= b.len()
        }
    }

    /// For the nested list types, every non-null inner header locates a
    /// byte payload that lies inside the blob.
    pub open spec fn spec_inner_ok(self, b: Seq<u8>) -> bool
        recommends
            self.data_type.spec_is_dynamic(),
            self.spec_in_bounds(b),
            self.spec_payload_ok(b),
    {
        let h = self.spec_position(b);
        !h.spec_is_null() ==> forall|i: int|
            0 <= i < h.length ==> {
                let inner = #[trigger] spec_position_at(b, h.offset + 8 * i);
                !inner.spec_is_null() ==> inner.offset + inner.length <= b.len()
            }
    }

    /// Structural well-formedness of the blob for this property:
    /// everything the typed accessors rely on. A blob produced by a
    /// conforming writer satisfies this for every property of its
    /// schema; a violation means corruption.
    pub open spec fn spec_valid(self, b: Seq<u8>) -> bool {
        &&& self.spec_in_bounds(b)
        &&& self.data_type.spec_is_dynamic() ==> self.spec_payload_ok(b)
        &&& (self.data_type is StringList || self.data_type is BytesList)
            ==> self.spec_inner_ok(b)
    }

    /// The elements of an Int list payload, each decoded from four
    /// little-endian bytes.
    pub open spec fn spec_int_list(self, b: Seq<u8>) -> Seq<i32>
        recommends
            self.data_type == DataType::IntList,
            self.spec_valid(b),
    {
        let h = self.spec_position(b);
        Seq::new(
            h.length as nat,
            |j: int| spec_i32_le(b.subrange(h.offset + 4 * j, h.offset + 4 * j + 4)),
        )
    }

    /// The elements of a Long list payload, each decoded from eight
    /// little-endian bytes.
    pub open spec fn spec_long_list(self, b: Seq<u8>) -> Seq<i64>
        recommends
            self.data_type == DataType::LongList,
            self.spec_valid(b),
    {
        let h = self.spec_position(b);
        Seq::new(
            h.length as nat,
            |j: int| spec_i64_le(b.subrange(h.offset + 8 * j, h.offset + 8 * j + 8)),
        )
    }

    /// The elements of a Float list payload as raw little-endian IEEE
    /// 754 single-precision bit patterns.
    pub open spec fn spec_float_list_bits(self, b: Seq<u8>) -> Seq<u32>
        recommends
            self.data_type == DataType::FloatList,
            self.spec_valid(b),
    {
        let h = self.spec_position(b);
        Seq::new(
            h.length as nat,
            |j: int| spec_u32_le(b.subrange(h.offset + 4 * j, h.offset + 4 * j + 4)),
        )
    }

    /// The elements of a Double list payload as raw little-endian IEEE
    /// 754 double-precision bit patterns.
    pub open spec fn spec_double_list_bits(self, b: Seq<u8>) -> Seq<u64>
        recommends
            self.data_type == DataType::DoubleList,
            self.spec_valid(b),
    {
        let h = self.spec_position(b);
        Seq::new(
            h.length as nat,
            |j: int| spec_u64_le(b.subrange(h.offset + 8 * j, h.offset + 8 * j + 8)),
        )
    }

    /// The inner header of element `i` of a nested list property: the
    /// payload of such a property is `length` contiguous 8-byte
    /// headers, each locating one byte payload of its own.
    pub open spec fn spec_inner_position(self, b: Seq<u8>, i: int) -> DataPosition
        recommends
            self.data_type is StringList || self.data_type is BytesList,
            self.spec_valid(b),
            0 <= i < self.spec_position(b).length,
    {
        spec_position_at(b, self.spec_position(b).offset + 8 * i)
    }


    /// The byte payload of element `i` of a nested list property, as
    /// located by its inner header.
    pub open spec fn spec_inner_payload(self, b: Seq<u8>, i: int) -> Seq<u8>
        recommends
            self.data_type is StringList || self.data_type is BytesList,
            self.spec_valid(b),
            0 <= i < self.spec_position(b).length,
    {
        let inner = self.spec_inner_position(b, i);
        b.subrange(inner.offset as int, inner.offset + inner.length)
    }

    /// Nullness of this property in the blob, by declared type: the
    /// integer sentinels, the IEEE NaN patterns, the Bool tri-state,
    /// and the zero header offset for every dynamic type.
    pub open spec fn spec_is_null(self, b: Seq<u8>) -> bool
        recommends
            self.spec_in_bounds(b),
    {
        match self.data_type {
            DataType::Int => spec_i32_le(
                b.subrange(self.offset as int, self.offset + 4),
            ) == NULL_INT,
            DataType::Long => spec_i64_le(
                b.subrange(self.offset as int, self.offset + 8),
            ) == NULL_LONG,
            DataType::Float => is_nan_bits_32(
                spec_u32_le(b.subrange(self.offset as int, self.offset + 4)),
            ),
            DataType::Double => is_nan_bits_64(
                spec_u64_le(b.subrange(self.offset as int, self.offset + 8)),
            ),
            DataType::Bool => !(b[self.offset as int] == FALSE_BOOL || b[self.offset as int]
                == TRUE_BOOL),
            _ => self.spec_position(b).spec_is_null(),
        }
    }

    /// The tri-state reading of a Bool slot: 0 is `false`, 1 is `true`,
    /// every other byte is null.
    pub open spec fn spec_get_bool(self, b: Seq<u8>) -> Option<bool>
        recommends
            self.spec_in_bounds(b),
    {
        if b[self.offset as int] == FALSE_BOOL {
            Some(false)
        } else if b[self.offset as int] == TRUE_BOOL {
            Some(true)
        } else {
            None
        }
    }

    /// For a dynamic property, nullness is visible in the raw header
    /// bytes: the property is null exactly when the first four bytes
    /// at its offset (the header's little-endian `offset` field) are
    /// all zero.
    pub proof fn lemma_dynamic_null_iff_zero_bytes(self, b: Seq<u8>)
        requires
            self.data_type.spec_is_dynamic(),
            self.spec_in_bounds(b),
        ensures
            self.spec_is_null(b) <==> {
                &&& b[self.offset as int] == 0
                &&& b[self.offset + 1] == 0
                &&& b[self.offset + 2] == 0
                &&& b[self.offset + 3] == 0
            },
    {
        let s = b.subrange(self.offset as int, self.offset + 4);
        crate::encoding::lemma_u32_zero_iff_bytes_zero(s);
        assert(s[0] == b[self.offset as int]);
        assert(s[1] == b[self.offset + 1]);
        assert(s[2] == b[self.offset + 2]);
        assert(s[3] == b[self.offset + 3]);
    }

    /// The uniform null predicate: the single source of truth for
    /// whether this property is absent in the blob.
    pub fn is_null(&self, object: &[u8]) -> (r: bool)
        requires
            self.spec_in_bounds(object@),
        ensures
            r == self.spec_is_null(object@),
    {
        match self.data_type {
            DataType::Int => self.get_int(object) == NULL_INT,
            DataType::Long => self.get_long(object) == NULL_LONG,
            DataType::Float => {
                let bits = self.get_float_bits(object);
                (bits >> 23) & 0xff == 0xff && bits & 0x007f_ffff != 0
            },
            DataType::Double => {
                let bits = self.get_double_bits(object);
                (bits >> 52) & 0x7ff == 0x7ff && bits & 0x000f_ffff_ffff_ffff != 0
            },
            DataType::Bool => self.get_bool(object).is_none(),
            _ => {
                let h = read_position(object, self.offset);
                h.is_null()
            },
        }
    }

    /// Reads an Int slot as its raw little-endian value; the null
    /// sentinel is not translated here.
    pub fn get_int(&self, object: &[u8]) -> (r: i32)
        requires
            self.data_type == DataType::Int,
            self.spec_in_bounds(object@),
        ensures
            r == spec_i32_le(object@.subrange(self.offset as int, self.offset + 4)),
    {
        let bytes = slice_subrange(object, self.offset, self.offset + 4);
        i32_le(bytes)
    }

    /// Reads a Long slot as its raw little-endian value; the null
    /// sentinel is not translated here.
    pub fn get_long(&self, object: &[u8]) -> (r: i64)
        requires
            self.data_type == DataType::Long,
            self.spec_in_bounds(object@),
        ensures
            r == spec_i64_le(object@.subrange(self.offset as int, self.offset + 8)),
    {
        let bytes = slice_subrange(object, self.offset, self.offset + 8);
        i64_le(bytes)
    }

    /// Reads a Float slot as the raw bit pattern of its little-endian
    /// IEEE 754 single-precision value. The caller turns the bits into
    /// a floating-point number; nullness (any NaN) is already decidable
    /// on the bits through [`is_nan_bits_32`].
    pub fn get_float_bits(&self, object: &[u8]) -> (r: u32)
        requires
            self.data_type == DataType::Float,
            self.spec_in_bounds(object@),
        ensures
            r == spec_u32_le(object@.subrange(self.offset as int, self.offset + 4)),
    {
        let bytes = slice_subrange(object, self.offset, self.offset + 4);
        u32_le(bytes)
    }

    /// Reads a Double slot as the raw bit pattern of its little-endian
    /// IEEE 754 double-precision value.
    pub fn get_double_bits(&self, object: &[u8]) -> (r: u64)
        requires
            self.data_type == DataType::Double,
            self.spec_in_bounds(object@),
        ensures
            r == spec_u64_le(object@.subrange(self.offset as int, self.offset + 8)),
    {
        let bytes = slice_subrange(object, self.offset, self.offset + 8);
        u64_le(bytes)
    }

    /// Reads a Bool slot with its tri-state decoding.
    pub fn get_bool(&self, object: &[u8]) -> (r: Option<bool>)
        requires
            self.data_type == DataType::Bool,
            self.spec_in_bounds(object@),
        ensures
            r == self.spec_get_bool(object@),
    {
        match *slice_index_get(object, self.offset) {
            0 => Some(false),
            1 => Some(true),
            _ => None,
        }
    }

    /// Reads the element count of this dynamic property from its
    /// header, without resolving the payload: `None` exactly when the
    /// header is null.
    pub fn get_length(&self, object: &[u8]) -> (r: Option<usize>)
        requires
            self.data_type.spec_is_dynamic(),
            self.spec_in_bounds(object@),
        ensures
            r is Some <==> !self.spec_position(object@).spec_is_null(),
            r matches Some(l) ==> l == self.spec_position(object@).length,
    {
        let h = read_position(object, self.offset);
        if !h.is_null() {
            Some(h.length as usize)
        } else {
            None
        }
    }

    /// Reads a Bytes payload as a borrowed slice of the blob, `None`
    /// exactly when the header is null. An empty payload with a
    /// non-null header is a present, zero-length value.
    pub fn get_bytes<'a>(&self, object: &'a [u8]) -> (r: Option<&'a [u8]>)
        requires
            self.data_type == DataType::Bytes,
            self.spec_valid(object@),
        ensures
            r is Some <==> !self.spec_position(object@).spec_is_null(),
            r matches Some(s) ==> s@ == self.spec_payload(object@),
    {
        self.byte_payload(object)
    }

    /// Reads a Bytes list payload: one borrowed byte slice per
    /// element, where a null inner header gives a `None` element,
    /// distinct from an empty (`Some`, zero-length) one. The whole
    /// result is `None` exactly when the outer header is null.
    pub fn get_bytes_list<'a>(&self, object: &'a [u8]) -> (r: Option<Vec<Option<&'a [u8]>>>)
        requires
            self.data_type == DataType::BytesList,
            self.spec_valid(object@),
        ensures
            r is Some <==> !self.spec_position(object@).spec_is_null(),
            r matches Some(v) ==> {
                &&& v@.len() == self.spec_position(object@).length
                &&& forall|i: int|
                    0 <= i < v@.len() ==> (#[trigger] v@[i] is Some <==> !self.spec_inner_position(
                        object@,
                        i,
                    ).spec_is_null())
                &&& forall|i: int|
                    0 <= i < v@.len() ==> (#[trigger] v@[i] matches Some(s) ==> s@
                        == object@.subrange(
                        self.spec_inner_position(object@, i).offset as int,
                        self.spec_inner_position(object@, i).offset + self.spec_inner_position(
                            object@,
                            i,
                        ).length,
                    ))
            },
    {
        let h = read_position(object, self.offset);
        if h.is_null() {
            return None;
        }
        let start = h.offset as usize;
        let len = h.length as usize;
        let mut v: Vec<Option<&'a [u8]>> = Vec::new();
        let mut i: usize = 0;
        while i < len
            invariant
                i <= len,
                v@.len() == i,
                self.data_type == DataType::BytesList,
                self.spec_valid(object@),
                h == self.spec_position(object@),
                !h.spec_is_null(),
                start == h.offset,
                len == h.length,
                forall|j: int|
                    0 <= j < i ==> (#[trigger] v@[j] is Some <==> !self.spec_inner_position(
                        object@,
                        j,
                    ).spec_is_null()),
                forall|j: int|
                    0 <= j < i ==> (#[trigger] v@[j] matches Some(s) ==> s@ == object@.subrange(
                        self.spec_inner_position(object@, j).offset as int,
                        self.spec_inner_position(object@, j).offset + self.spec_inner_position(
                            object@,
                            j,
                        ).length,
                    )),
            decreases len - i,
        {
            let inner = read_position(object, start + i * 8);
            proof {
                assert(inner == self.spec_inner_position(object@, i as int));
            }
            if inner.is_null() {
                v.push(None);
            } else {
                let inner_start = inner.offset as usize;
                let payload = slice_subrange(
                    object,
                    inner_start,
                    inner_start + inner.length as usize,
                );
                v.push(Some(payload));
            }
            i = i + 1;
        }
        Some(v)
    }

    /// The exact bytes backing a static property's value, 1, 4 or 8 of
    /// them by declared type: the canonical form used to build index
    /// keys and byte-identical comparators.
    pub fn get_static_raw<'a>(&self, object: &'a [u8]) -> (r: &'a [u8])
        requires
            !self.data_type.spec_is_dynamic(),
            self.spec_in_bounds(object@),
        ensures
            r@ == object@.subrange(
                self.offset as int,
                self.offset + self.data_type.static_size(),
            ),
    {
        let size: usize = match self.data_type {
            DataType::Bool => 1,
            DataType::Int => 4,
            DataType::Float => 4,
            _ => 8,
        };
        slice_subrange(object, self.offset, self.offset + size)
    }

    /// The raw view of a dynamic property: the 8 header bytes as they
    /// appear in the blob, `None` when the header is null.
    pub fn get_dynamic_raw<'a>(&self, object: &'a [u8]) -> (r: Option<&'a [u8]>)
        requires
            self.data_type.spec_is_dynamic(),
            self.spec_in_bounds(object@),
        ensures
            r is Some <==> !self.spec_position(object@).spec_is_null(),
            r matches Some(s) ==> s@ == object@.subrange(self.offset as int, self.offset + 8),
    {
        let h = read_position(object, self.offset);
        if h.is_null() {
            None
        } else {
            Some(slice_subrange(object, self.offset, self.offset + 8))
        }
    }

    /// Decides structural well-formedness of the blob for this
    /// property. The typed accessors require what this function
    /// checks; a `false` answer means a corrupt or hand-crafted blob
    /// (out-of-range offsets or lengths, or a payload misaligned for
    /// its element size), detected rather than read out of bounds.
    pub fn validate(&self, object: &[u8]) -> (r: bool)
        ensures
            r == self.spec_valid(object@),
    {
        let n = object.len();
        if !self.data_type.is_dynamic() {
            let size: usize = match self.data_type {
                DataType::Bool => 1,
                DataType::Int => 4,
                DataType::Float => 4,
                _ => 8,
            };
            return self.offset <= n && size <= n - self.offset;
        }
        if self.offset % 4 != 0 {
            return false;
        }
        if !(self.offset <= n && 8 <= n - self.offset) {
            return false;
        }
        let h = read_position(object, self.offset);
        proof {
            assert(h == self.spec_position(object@));
        }
        if h.is_null() {
            return true;
        }
        let es: u64 = match self.data_type {
            DataType::String => 1,
            DataType::Bytes => 1,
            DataType::BoolList => 1,
            DataType::IntList => 4,
            DataType::FloatList => 4,
            _ => 8,
        };
        let align: u64 = match self.data_type {
            DataType::String => 1,
            DataType::Bytes => 1,
            DataType::BoolList => 1,
            DataType::IntList => 4,
            DataType::FloatList => 4,
            DataType::StringList => 4,
            DataType::BytesList => 4,
            _ => 8,
        };
        if (h.offset as u64) % align != 0 {
            return false;
        }
        proof {
            assert((h.length as u64) * es <= 0xffff_ffff * 8) by (nonlinear_arith)
                requires
                    h.length as u64 <= 0xffff_ffff,
                    es <= 8,
            ;
        }
        let end: u64 = h.offset as u64 + (h.length as u64) * es;
        if end > n as u64 {
            return false;
        }
        match self.data_type {
            DataType::StringList | DataType::BytesList => {
                let start = h.offset as usize;
                let len = h.length as usize;
                let mut i: usize = 0;
                while i < len
                    invariant
                        i <= len,
                        self.data_type is StringList || self.data_type is BytesList,
                        self.spec_in_bounds(object@),
                        self.spec_payload_ok(object@),
                        h == self.spec_position(object@),
                        !h.spec_is_null(),
                        start == h.offset,
                        len == h.length,
                        n == object@.len(),
                        forall|j: int|
                            0 <= j < i ==> {
                                let inner = #[trigger] spec_position_at(
                                    object@,
                                    h.offset + 8 * j,
                                );
                                !inner.spec_is_null() ==> inner.offset + inner.length
                                    <= object@.len()
                            },
                    decreases len - i,
                {
                    let inner = read_position(object, start + i * 8);
                    proof {
                        assert(inner == spec_position_at(object@, h.offset + 8 * (i as int)));
                    }
                    if !inner.is_null() {
                        if (inner.offset as u64) + (inner.length as u64) > n as u64 {
                            proof {
                                assert(!self.spec_inner_ok(object@));
                            }
                            return false;
                        }
                    }
                    i = i + 1;
                }
                true
            },
            _ => true,
        }
    }

    /// Resolves the payload of a dynamic property whose elements are
    /// single bytes, as a borrowed slice: `None` exactly when the
    /// header is null.
    fn byte_payload<'a>(&self, object: &'a [u8]) -> (r: Option<&'a [u8]>)
        requires
            self.data_type.spec_is_dynamic(),
            self.data_type.elem_size() == 1,
            self.spec_valid(object@),
        ensures
            r is Some <==> !self.spec_position(object@).spec_is_null(),
            r matches Some(s) ==> s@ == self.spec_payload(object@),
    {
        let h = read_position(object, self.offset);
        if h.is_null() {
            return None;
        }
        let start = h.offset as usize;
        let payload = slice_subrange(object, start, start + h.length as usize);
        Some(payload)
    }

    /// Reads a String payload as a borrowed string slice, validating
    /// UTF-8: `None` exactly when the header is null. The payload of a
    /// present string must be valid UTF-8; a blob that violates this is
    /// corrupt, and [`Self::get_string_checked`] reports that instead
    /// of excluding it.
    pub fn get_string<'a>(&self, object: &'a [u8]) -> (r: Option<&'a str>)
        requires
            self.data_type == DataType::String,
            self.spec_valid(object@),
            !self.spec_position(object@).spec_is_null() ==> valid_utf8(self.spec_payload(object@)),
        ensures
            r is Some <==> !self.spec_position(object@).spec_is_null(),
            r matches Some(s) ==> s@ == decode_utf8(self.spec_payload(object@)),
    {
        match self.byte_payload(object) {
            None => None,
            Some(payload) => match bytes_as_utf8(payload) {
                Some(s) => Some(s),
                None => unreached(),
            },
        }
    }

    /// Reads an Int list payload into a freshly decoded vector, `None`
    /// exactly when the header is null. An empty list with a non-null
    /// header yields a present, zero-length vector.
    pub fn get_int_list(&self, object: &[u8]) -> (r: Option<Vec<i32>>)
        requires
            self.data_type == DataType::IntList,
            self.spec_valid(object@),
        ensures
            r is Some <==> !self.spec_position(object@).spec_is_null(),
            r matches Some(v) ==> v@ == self.spec_int_list(object@),
    {
        let h = read_position(object, self.offset);
        if h.is_null() {
            return None;
        }
        let start = h.offset as usize;
        let len = h.length as usize;
        let mut v: Vec<i32> = Vec::new();
        let mut i: usize = 0;
        while i < len
            invariant
                i <= len,
                v@.len() == i,
                self.data_type == DataType::IntList,
                self.spec_valid(object@),
                h == self.spec_position(object@),
                !h.spec_is_null(),
                start == h.offset,
                len == h.length,
                forall|j: int| 0 <= j < i ==> v@[j] == self.spec_int_list(object@)[j],
            decreases len - i,
        {
            let bytes = slice_subrange(object, start + i * 4, start + i * 4 + 4);
            let x = i32_le(bytes);
            proof {
                assert(x == self.spec_int_list(object@)[i as int]);
            }
            v.push(x);
            i = i + 1;
        }
        proof {
            assert(v@ =~= self.spec_int_list(object@));
        }
        Some(v)
    }

    /// Reads a Long list payload into a freshly decoded vector, `None`
    /// exactly when the header is null.
    pub fn get_long_list(&self, object: &[u8]) -> (r: Option<Vec<i64>>)
        requires
            self.data_type == DataType::LongList,
            self.spec_valid(object@),
        ensures
            r is Some <==> !self.spec_position(object@).spec_is_null(),
            r matches Some(v) ==> v@ == self.spec_long_list(object@),
    {
        let h = read_position(object, self.offset);
        if h.is_null() {
            return None;
        }
        let start = h.offset as usize;
        let len = h.length as usize;
        let mut v: Vec<i64> = Vec::new();
        let mut i: usize = 0;
        while i < len
            invariant
                i <= len,
                v@.len() == i,
                self.data_type == DataType::LongList,
                self.spec_valid(object@),
                h == self.spec_position(object@),
                !h.spec_is_null(),
                start == h.offset,
                len == h.length,
                forall|j: int| 0 <= j < i ==> v@[j] == self.spec_long_list(object@)[j],
            decreases len - i,
        {
            let bytes = slice_subrange(object, start + i * 8, start + i * 8 + 8);
            let x = i64_le(bytes);
            proof {
                assert(x == self.spec_long_list(object@)[i as int]);
            }
            v.push(x);
            i = i + 1;
        }
        proof {
            assert(v@ =~= self.spec_long_list(object@));
        }
        Some(v)
    }

    /// Reads a Float list payload as the raw bit patterns of its
    /// elements, `None` exactly when the header is null. The caller
    /// turns each element's bits into a floating-point number.
    pub fn get_float_list_bits(&self, object: &[u8]) -> (r: Option<Vec<u32>>)
        requires
            self.data_type == DataType::FloatList,
            self.spec_valid(object@),
        ensures
            r is Some <==> !self.spec_position(object@).spec_is_null(),
            r matches Some(v) ==> v@ == self.spec_float_list_bits(object@),
    {
        let h = read_position(object, self.offset);
        if h.is_null() {
            return None;
        }
        let start = h.offset as usize;
        let len = h.length as usize;
        let mut v: Vec<u32> = Vec::new();
        let mut i: usize = 0;
        while i < len
            invariant
                i <= len,
                v@.len() == i,
                self.data_type == DataType::FloatList,
                self.spec_valid(object@),
                h == self.spec_position(object@),
                !h.spec_is_null(),
                start == h.offset,
                len == h.length,
                forall|j: int| 0 <= j < i ==> v@[j] == self.spec_float_list_bits(object@)[j],
            decreases len - i,
        {
            let bytes = slice_subrange(object, start + i * 4, start + i * 4 + 4);
            let x = u32_le(bytes);
            proof {
                assert(x == self.spec_float_list_bits(object@)[i as int]);
            }
            v.push(x);
            i = i + 1;
        }
        proof {
            assert(v@ =~= self.spec_float_list_bits(object@));
        }
        Some(v)
    }

    /// Reads a Double list payload as the raw bit patterns of its
    /// elements, `None` exactly when the header is null.
    pub fn get_double_list_bits(&self, object: &[u8]) -> (r: Option<Vec<u64>>)
        requires
            self.data_type == DataType::DoubleList,
            self.spec_valid(object@),
        ensures
            r is Some <==> !self.spec_position(object@).spec_is_null(),
            r matches Some(v) ==> v@ == self.spec_double_list_bits(object@),
    {
        let h = read_position(object, self.offset);
        if h.is_null() {
            return None;
        }
        let start = h.offset as usize;
        let len = h.length as usize;
        let mut v: Vec<u64> = Vec::new();
        let mut i: usize = 0;
        while i < len
            invariant
                i <= len,
                v@.len() == i,
                self.data_type == DataType::DoubleList,
                self.spec_valid(object@),
                h == self.spec_position(object@),
                !h.spec_is_null(),
                start == h.offset,
                len == h.length,
                forall|j: int| 0 <= j < i ==> v@[j] == self.spec_double_list_bits(object@)[j],
            decreases len - i,
        {
            let bytes = slice_subrange(object, start + i * 8, start + i * 8 + 8);
            let x = u64_le(bytes);
            proof {
                assert(x == self.spec_double_list_bits(object@)[i as int]);
            }
            v.push(x);
            i = i + 1;
        }
        proof {
            assert(v@ =~= self.spec_double_list_bits(object@));
        }
        Some(v)
    }


    /// Reads a String list payload: one optional string per element,
    /// where a null inner header gives a `None` element, distinct from
    /// an empty one. `Ok(None)` reports a null outer header, and
    /// `Err(InvalidUtf8)` exactly when some present element's payload
    /// is not valid UTF-8.
    pub fn get_string_list_checked<'a>(&self, object: &'a [u8]) -> (r: Result<
        Option<Vec<Option<&'a str>>>,
        InvalidUtf8,
    >)
        requires
            self.data_type == DataType::StringList,
            self.spec_valid(object@),
        ensures
            r is Err <==> (!self.spec_position(object@).spec_is_null() && exists|i: int|
                0 <= i < self.spec_position(object@).length
                    && !self.spec_inner_position(object@, i).spec_is_null() && !valid_utf8(
                    #[trigger] self.spec_inner_payload(object@, i),
                )),
            r matches Ok(o) ==> {
                &&& o is Some <==> !self.spec_position(object@).spec_is_null()
                &&& o matches Some(v) ==> {
                    &&& v@.len() == self.spec_position(object@).length
                    &&& forall|i: int|
                        0 <= i < v@.len() ==> (#[trigger] v@[i] is Some
                            <==> !self.spec_inner_position(object@, i).spec_is_null())
                    &&& forall|i: int|
                        0 <= i < v@.len() ==> (#[trigger] v@[i] matches Some(s) ==> s@
                            == decode_utf8(self.spec_inner_payload(object@, i)))
                }
            },
    {
        let h = read_position(object, self.offset);
        if h.is_null() {
            return Ok(None);
        }
        let start = h.offset as usize;
        let len = h.length as usize;
        let mut v: Vec<Option<&'a str>> = Vec::new();
        let mut i: usize = 0;
        while i < len
            invariant
                i <= len,
                v@.len() == i,
                self.data_type == DataType::StringList,
                self.spec_valid(object@),
                h == self.spec_position(object@),
                !h.spec_is_null(),
                start == h.offset,
                len == h.length,
                forall|j: int|
                    0 <= j < i ==> (#[trigger] v@[j] is Some <==> !self.spec_inner_position(
                        object@,
                        j,
                    ).spec_is_null()),
                forall|j: int|
                    0 <= j < i ==> (#[trigger] v@[j] matches Some(s) ==> s@ == decode_utf8(
                        self.spec_inner_payload(object@, j),
                    )),
                forall|j: int|
                    0 <= j < i ==> (!self.spec_inner_position(object@, j).spec_is_null()
                        ==> valid_utf8(#[trigger] self.spec_inner_payload(object@, j))),
            decreases len - i,
        {
            let inner = read_position(object, start + i * 8);
            proof {
                assert(inner == self.spec_inner_position(object@, i as int));
            }
            if inner.is_null() {
                v.push(None);
            } else {
                let inner_start = inner.offset as usize;
                let payload = slice_subrange(
                    object,
                    inner_start,
                    inner_start + inner.length as usize,
                );
                proof {
                    assert(payload@ == self.spec_inner_payload(object@, i as int));
                }
                match bytes_as_utf8(payload) {
                    Some(s) => v.push(Some(s)),
                    None => {
                        return Err(InvalidUtf8);
                    },
                }
            }
            i = i + 1;
        }
        Ok(Some(v))
    }

    /// Reads a String payload, surfacing invalid UTF-8 as the
    /// corruption error it is: `Ok(None)` for a null header,
    /// `Ok(Some(_))` for a present well-formed string, and
    /// `Err(InvalidUtf8)` exactly when the present payload is not
    /// valid UTF-8.
    pub fn get_string_checked<'a>(&self, object: &'a [u8]) -> (r: Result<
        Option<&'a str>,
        InvalidUtf8,
    >)
        requires
            self.data_type == DataType::String,
            self.spec_valid(object@),
        ensures
            r is Err <==> (!self.spec_position(object@).spec_is_null() && !valid_utf8(
                self.spec_payload(object@),
            )),
            r matches Ok(o) ==> {
                &&& o is Some <==> !self.spec_position(object@).spec_is_null()
                &&& o matches Some(s) ==> s@ == decode_utf8(self.spec_payload(object@))
            },
    {
        match self.byte_payload(object) {
            None => Ok(None),
            Some(payload) => match bytes_as_utf8(payload) {
                Some(s) => Ok(Some(s)),
                None => Err(InvalidUtf8),
            },
        }
    }
}

/// Error returned when a present String payload is not valid UTF-8:
/// corruption of the blob, never a legitimate value.
#[derive(PartialEq, Eq, Structural, Copy, Clone, Debug)]
pub struct InvalidUtf8;

/// Relies on `std::str::from_utf8`: it returns `Ok` exactly when the
/// bytes are valid UTF-8, and the returned string slice is a view of
/// those same bytes, so its characters are their UTF-8 decoding.
#[verifier::external_body]
fn bytes_as_utf8<'a>(bytes: &'a [u8]) -> (r: Option<&'a str>)
    ensures
        r is Some <==> valid_utf8(bytes@),
        r matches Some(s) ==> s@ == decode_utf8(bytes@),
{
    std::str::from_utf8(bytes).ok()
}

} // verus!
