//! The write-side contract, and the proof that reading inverts it.
//!
//! No executable writer lives here: producers are free in how they lay
//! a blob out, but the predicates below state what a conforming writer
//! must have put at a property's slot (and, for dynamic properties, in
//! its payload) for a value. The lemmas prove the round trip: whenever
//! a blob satisfies the predicate for a value, the matching accessor's
//! contract returns exactly that value, element-wise for lists.

use crate::data_type::DataType;
use crate::encoding::lemma_i32_le_round_trip;
use crate::encoding::lemma_i64_le_round_trip;
use crate::encoding::lemma_u32_le_round_trip;
use crate::encoding::lemma_u64_le_round_trip;
use crate::encoding::spec_i32_le;
use crate::encoding::spec_i32_le_bytes;
use crate::encoding::spec_i64_le;
use crate::encoding::spec_i64_le_bytes;
use crate::encoding::spec_u32_le;
use crate::encoding::spec_u32_le_bytes;
use crate::encoding::spec_u64_le;
use crate::encoding::spec_u64_le_bytes;
use crate::encoding::is_nan_bits_32;
use crate::encoding::is_nan_bits_64;
use crate::position::DataPosition;
use crate::position::spec_position_at;
use crate::property::Property;
use crate::property::FALSE_BOOL;
use crate::property::NULL_BOOL;
use crate::property::NULL_INT;
use crate::property::NULL_LONG;
use crate::property::TRUE_BOOL;
use vstd::prelude::*;
use vstd::utf8::decode_utf8;
use vstd::utf8::encode_utf8;
use vstd::utf8::encode_utf8_decode_utf8;
use vstd::utf8::encode_utf8_valid_utf8;
use vstd::utf8::valid_utf8;

verus! {

/// A conforming writer stored the raw value `v` in the Int slot of
/// `p`: the slot lies in the blob and holds `v`'s four little-endian
/// bytes. Null is written as the sentinel `NULL_INT` itself.
pub open spec fn encodes_int(b: Seq<u8>, p: Property, v: i32) -> bool {
    &&& p.data_type == DataType::Int
    &&& p.spec_in_bounds(b)
    &&& b.subrange(p.offset as int, p.offset + 4) == spec_i32_le_bytes(v)
}

/// A conforming writer stored the raw value `v` in the Long slot of
/// `p`.
pub open spec fn encodes_long(b: Seq<u8>, p: Property, v: i64) -> bool {
    &&& p.data_type == DataType::Long
    &&& p.spec_in_bounds(b)
    &&& b.subrange(p.offset as int, p.offset + 8) == spec_i64_le_bytes(v)
}

/// A conforming writer stored a single-precision float with bit
/// pattern `bits` in the Float slot of `p`. Null is written as a NaN
/// pattern.
pub open spec fn encodes_float_bits(b: Seq<u8>, p: Property, bits: u32) -> bool {
    &&& p.data_type == DataType::Float
    &&& p.spec_in_bounds(b)
    &&& b.subrange(p.offset as int, p.offset + 4) == spec_u32_le_bytes(bits)
}

/// A conforming writer stored a double-precision float with bit
/// pattern `bits` in the Double slot of `p`.
pub open spec fn encodes_double_bits(b: Seq<u8>, p: Property, bits: u64) -> bool {
    &&& p.data_type == DataType::Double
    &&& p.spec_in_bounds(b)
    &&& b.subrange(p.offset as int, p.offset + 8) == spec_u64_le_bytes(bits)
}

/// A conforming writer stored the tri-state `v` in the Bool slot of
/// `p`: byte 0 for `false`, 1 for `true`, and the canonical 2 for
/// null.
pub open spec fn encodes_bool(b: Seq<u8>, p: Property, v: Option<bool>) -> bool {
    &&& p.data_type == DataType::Bool
    &&& p.spec_in_bounds(b)
    &&& b[p.offset as int] == (match v {
        Some(false) => FALSE_BOOL,
        Some(true) => TRUE_BOOL,
        None => NULL_BOOL,
    })
}

/// A conforming writer stored the header `h` in the slot of the
/// dynamic property `p`: its `offset` then its `length`, each as four
/// little-endian bytes.
pub open spec fn encodes_header(b: Seq<u8>, p: Property, h: DataPosition) -> bool {
    &&& p.data_type.spec_is_dynamic()
    &&& p.spec_in_bounds(b)
    &&& b.subrange(p.offset as int, p.offset + 4) == spec_u32_le_bytes(h.offset)
    &&& b.subrange(p.offset + 4, p.offset + 8) == spec_u32_le_bytes(h.length)
}

/// A conforming writer stored the byte string `data` for the dynamic
/// property `p`: a non-null header pointing at `at`, and the bytes
/// themselves in the payload. This is the writer's obligation for a
/// present Bytes value; a null one is written as a zero header.
pub open spec fn encodes_bytes(b: Seq<u8>, p: Property, at: u32, data: Seq<u8>) -> bool {
    &&& p.data_type == DataType::Bytes
    &&& data.len() <= u32::MAX
    &&& encodes_header(b, p, DataPosition { offset: at, length: data.len() as u32 })
    &&& at != 0
    &&& at + data.len() <= b.len()
    &&& b.subrange(at as int, at + data.len()) == data
}

/// A conforming writer stored the character sequence `s` for the
/// String property `p`: a non-null header pointing at `at`, and the
/// UTF-8 encoding of `s` in the payload.
pub open spec fn encodes_string(b: Seq<u8>, p: Property, at: u32, s: Seq<char>) -> bool {
    &&& p.data_type == DataType::String
    &&& encode_utf8(s).len() <= u32::MAX
    &&& encodes_header(b, p, DataPosition { offset: at, length: encode_utf8(s).len() as u32 })
    &&& at != 0
    &&& at + encode_utf8(s).len() <= b.len()
    &&& b.subrange(at as int, at + encode_utf8(s).len()) == encode_utf8(s)
}

/// A conforming writer stored the list `vs` for the IntList property
/// `p`: a non-null header pointing at `at`, an offset aligned to the
/// 4-byte element size, and each element's little-endian bytes in
/// order in the payload.
pub open spec fn encodes_int_list(b: Seq<u8>, p: Property, at: u32, vs: Seq<i32>) -> bool {
    &&& p.data_type == DataType::IntList
    &&& vs.len() <= u32::MAX
    &&& encodes_header(b, p, DataPosition { offset: at, length: vs.len() as u32 })
    &&& at != 0
    &&& at % 4 == 0
    &&& at + 4 * vs.len() <= b.len()
    &&& forall|j: int|
        0 <= j < vs.len() ==> b.subrange(at + 4 * j, at + 4 * j + 4) == spec_i32_le_bytes(
            #[trigger] vs[j],
        )
}

/// A conforming writer stored the list `vs` for the LongList property
/// `p`, with 8-byte elements and alignment.
pub open spec fn encodes_long_list(b: Seq<u8>, p: Property, at: u32, vs: Seq<i64>) -> bool {
    &&& p.data_type == DataType::LongList
    &&& vs.len() <= u32::MAX
    &&& encodes_header(b, p, DataPosition { offset: at, length: vs.len() as u32 })
    &&& at != 0
    &&& at % 8 == 0
    &&& at + 8 * vs.len() <= b.len()
    &&& forall|j: int|
        0 <= j < vs.len() ==> b.subrange(at + 8 * j, at + 8 * j + 8) == spec_i64_le_bytes(
            #[trigger] vs[j],
        )
}

/// A conforming writer stored the list of single-precision bit
/// patterns `vs` for the FloatList property `p`.
pub open spec fn encodes_float_list_bits(b: Seq<u8>, p: Property, at: u32, vs: Seq<u32>) -> bool {
    &&& p.data_type == DataType::FloatList
    &&& vs.len() <= u32::MAX
    &&& encodes_header(b, p, DataPosition { offset: at, length: vs.len() as u32 })
    &&& at != 0
    &&& at % 4 == 0
    &&& at + 4 * vs.len() <= b.len()
    &&& forall|j: int|
        0 <= j < vs.len() ==> b.subrange(at + 4 * j, at + 4 * j + 4) == spec_u32_le_bytes(
            #[trigger] vs[j],
        )
}

/// A conforming writer stored the list of double-precision bit
/// patterns `vs` for the DoubleList property `p`.
pub open spec fn encodes_double_list_bits(b: Seq<u8>, p: Property, at: u32, vs: Seq<u64>) -> bool {
    &&& p.data_type == DataType::DoubleList
    &&& vs.len() <= u32::MAX
    &&& encodes_header(b, p, DataPosition { offset: at, length: vs.len() as u32 })
    &&& at != 0
    &&& at % 8 == 0
    &&& at + 8 * vs.len() <= b.len()
    &&& forall|j: int|
        0 <= j < vs.len() ==> b.subrange(at + 8 * j, at + 8 * j + 8) == spec_u64_le_bytes(
            #[trigger] vs[j],
        )
}

/// A conforming writer stored the nested list `items` for the
/// BytesList property `p`: a non-null outer header pointing at `at`,
/// `items.len()` inner headers laid contiguously there, and for each
/// present element its bytes at its own inner offset. A null element
/// is written as a zero inner header, distinct from an empty one.
pub open spec fn encodes_bytes_list(
    b: Seq<u8>,
    p: Property,
    at: u32,
    inners: Seq<DataPosition>,
    items: Seq<Option<Seq<u8>>>,
) -> bool {
    &&& p.data_type == DataType::BytesList
    &&& inners.len() == items.len()
    &&& items.len() <= u32::MAX
    &&& encodes_header(b, p, DataPosition { offset: at, length: items.len() as u32 })
    &&& at != 0
    &&& at % 4 == 0
    &&& at + 8 * items.len() <= b.len()
    &&& forall|i: int|
        0 <= i < items.len() ==> {
            &&& b.subrange(at + 8 * i, at + 8 * i + 4) == spec_u32_le_bytes(
                (#[trigger] inners[i]).offset,
            )
            &&& b.subrange(at + 8 * i + 4, at + 8 * i + 8) == spec_u32_le_bytes(inners[i].length)
        }
    &&& forall|i: int|
        0 <= i < items.len() ==> match #[trigger] items[i] {
            None => inners[i].offset == 0,
            Some(d) => {
                &&& inners[i].offset != 0
                &&& d.len() == inners[i].length
                &&& inners[i].offset + d.len() <= b.len()
                &&& b.subrange(inners[i].offset as int, inners[i].offset + d.len()) == d
            },
        }
}


/// A conforming writer stored the nested list `items` for the
/// StringList property `p`: like a Bytes list, with each present
/// element's payload the UTF-8 encoding of its characters.
pub open spec fn encodes_string_list(
    b: Seq<u8>,
    p: Property,
    at: u32,
    inners: Seq<DataPosition>,
    items: Seq<Option<Seq<char>>>,
) -> bool {
    &&& p.data_type == DataType::StringList
    &&& inners.len() == items.len()
    &&& items.len() <= u32::MAX
    &&& encodes_header(b, p, DataPosition { offset: at, length: items.len() as u32 })
    &&& at != 0
    &&& at % 4 == 0
    &&& at + 8 * items.len() <= b.len()
    &&& forall|i: int|
        0 <= i < items.len() ==> {
            &&& b.subrange(at + 8 * i, at + 8 * i + 4) == spec_u32_le_bytes(
                (#[trigger] inners[i]).offset,
            )
            &&& b.subrange(at + 8 * i + 4, at + 8 * i + 8) == spec_u32_le_bytes(inners[i].length)
        }
    &&& forall|i: int|
        0 <= i < items.len() ==> match #[trigger] items[i] {
            None => inners[i].offset == 0,
            Some(s) => {
                &&& inners[i].offset != 0
                &&& encode_utf8(s).len() == inners[i].length
                &&& inners[i].offset + encode_utf8(s).len() <= b.len()
                &&& b.subrange(inners[i].offset as int, inners[i].offset + encode_utf8(s).len())
                    == encode_utf8(s)
            },
        }
}

/// Round trip for the dynamic header: the header a conforming writer
/// stored is the header the reader resolves.
pub proof fn lemma_header_round_trip(b: Seq<u8>, p: Property, h: DataPosition)
    requires
        encodes_header(b, p, h),
    ensures
        p.spec_position(b) == h,
        p.spec_is_null(b) <==> h.offset == 0,
{
    lemma_u32_le_round_trip(h.offset);
    lemma_u32_le_round_trip(h.length);
}

/// Round trip for Int: the getter returns the raw value the writer
/// stored, and the property reads as null exactly for the sentinel.
pub proof fn lemma_int_round_trip(b: Seq<u8>, p: Property, v: i32)
    requires
        encodes_int(b, p, v),
    ensures
        spec_i32_le(b.subrange(p.offset as int, p.offset + 4)) == v,
        p.spec_is_null(b) <==> v == NULL_INT,
{
    lemma_i32_le_round_trip(v);
}

/// Round trip for Long.
pub proof fn lemma_long_round_trip(b: Seq<u8>, p: Property, v: i64)
    requires
        encodes_long(b, p, v),
    ensures
        spec_i64_le(b.subrange(p.offset as int, p.offset + 8)) == v,
        p.spec_is_null(b) <==> v == NULL_LONG,
{
    lemma_i64_le_round_trip(v);
}

/// Round trip for Float bits: the bit pattern survives unchanged, and
/// the property reads as null exactly for a NaN pattern.
pub proof fn lemma_float_bits_round_trip(b: Seq<u8>, p: Property, bits: u32)
    requires
        encodes_float_bits(b, p, bits),
    ensures
        spec_u32_le(b.subrange(p.offset as int, p.offset + 4)) == bits,
        p.spec_is_null(b) <==> is_nan_bits_32(bits),
{
    lemma_u32_le_round_trip(bits);
}

/// Round trip for Double bits.
pub proof fn lemma_double_bits_round_trip(b: Seq<u8>, p: Property, bits: u64)
    requires
        encodes_double_bits(b, p, bits),
    ensures
        spec_u64_le(b.subrange(p.offset as int, p.offset + 8)) == bits,
        p.spec_is_null(b) <==> is_nan_bits_64(bits),
{
    lemma_u64_le_round_trip(bits);
}

/// Round trip for Bool: the tri-state the writer stored is the one
/// the getter decodes, and null is read exactly when `None` was
/// written.
pub proof fn lemma_bool_round_trip(b: Seq<u8>, p: Property, v: Option<bool>)
    requires
        encodes_bool(b, p, v),
    ensures
        p.spec_get_bool(b) == v,
        p.spec_is_null(b) <==> v is None,
{
}

/// Round trip for Bytes: the blob is well-formed for `p`, the value
/// is present, and the payload the reader resolves is exactly the
/// byte string the writer stored.
pub proof fn lemma_bytes_round_trip(b: Seq<u8>, p: Property, at: u32, data: Seq<u8>)
    requires
        encodes_bytes(b, p, at, data),
    ensures
        p.spec_valid(b),
        !p.spec_is_null(b),
        p.spec_payload(b) == data,
{
    lemma_header_round_trip(b, p, DataPosition { offset: at, length: data.len() as u32 });
}

/// Round trip for String: the payload the writer stored is valid
/// UTF-8 and decodes to exactly the characters that were encoded.
pub proof fn lemma_string_round_trip(b: Seq<u8>, p: Property, at: u32, s: Seq<char>)
    requires
        encodes_string(b, p, at, s),
    ensures
        p.spec_valid(b),
        !p.spec_is_null(b),
        valid_utf8(p.spec_payload(b)),
        decode_utf8(p.spec_payload(b)) == s,
{
    let data = encode_utf8(s);
    lemma_header_round_trip(b, p, DataPosition { offset: at, length: data.len() as u32 });
    encode_utf8_valid_utf8(s);
    encode_utf8_decode_utf8(s);
}

/// Round trip for FloatList bits.
pub proof fn lemma_float_list_bits_round_trip(b: Seq<u8>, p: Property, at: u32, vs: Seq<u32>)
    requires
        encodes_float_list_bits(b, p, at, vs),
    ensures
        p.spec_valid(b),
        !p.spec_is_null(b),
        p.spec_float_list_bits(b) == vs,
{
    lemma_header_round_trip(b, p, DataPosition { offset: at, length: vs.len() as u32 });
    assert forall|j: int| 0 <= j < vs.len() implies p.spec_float_list_bits(b)[j] == vs[j] by {
        lemma_u32_le_round_trip(vs[j]);
    }
    assert(p.spec_float_list_bits(b) =~= vs);
}

/// Round trip for DoubleList bits.
pub proof fn lemma_double_list_bits_round_trip(b: Seq<u8>, p: Property, at: u32, vs: Seq<u64>)
    requires
        encodes_double_list_bits(b, p, at, vs),
    ensures
        p.spec_valid(b),
        !p.spec_is_null(b),
        p.spec_double_list_bits(b) == vs,
{
    lemma_header_round_trip(b, p, DataPosition { offset: at, length: vs.len() as u32 });
    assert forall|j: int| 0 <= j < vs.len() implies p.spec_double_list_bits(b)[j] == vs[j] by {
        lemma_u64_le_round_trip(vs[j]);
    }
    assert(p.spec_double_list_bits(b) =~= vs);
}

/// Round trip for BytesList: the blob is well-formed for `p`, the
/// outer list is present with one entry per written element, null
/// elements read as absent, and each present element's payload is
/// exactly the byte string the writer stored.
pub proof fn lemma_bytes_list_round_trip(
    b: Seq<u8>,
    p: Property,
    at: u32,
    inners: Seq<DataPosition>,
    items: Seq<Option<Seq<u8>>>,
)
    requires
        encodes_bytes_list(b, p, at, inners, items),
    ensures
        p.spec_valid(b),
        !p.spec_is_null(b),
        p.spec_position(b).length == items.len(),
        forall|i: int|
            0 <= i < items.len() ==> (p.spec_inner_position(b, i).spec_is_null() <==> #[trigger] items[i] is None),
        forall|i: int|
            0 <= i < items.len() ==> match #[trigger] items[i] {
                None => true,
                Some(d) => b.subrange(
                    p.spec_inner_position(b, i).offset as int,
                    p.spec_inner_position(b, i).offset + p.spec_inner_position(b, i).length,
                ) == d,
            },
{
    lemma_header_round_trip(b, p, DataPosition { offset: at, length: items.len() as u32 });
    assert forall|i: int|
        #![trigger p.spec_inner_position(b, i)]
        0 <= i < items.len() implies p.spec_inner_position(b, i) == inners[i] by {
        lemma_u32_le_round_trip(inners[i].offset);
        lemma_u32_le_round_trip(inners[i].length);
        assert(b.subrange(at + 8 * i, at + 8 * i + 4) == spec_u32_le_bytes(inners[i].offset));
    }
    assert forall|i: int|
        0 <= i < p.spec_position(b).length implies {
            let inner = #[trigger] spec_position_at(b, p.spec_position(b).offset + 8 * i);
            !inner.spec_is_null() ==> inner.offset + inner.length <= b.len()
        } by {
        assert(p.spec_inner_position(b, i) == inners[i]);
        assert(spec_position_at(b, p.spec_position(b).offset + 8 * i) == p.spec_inner_position(
            b,
            i,
        ));
        if items[i] is None {
            assert(inners[i].offset == 0);
        } else {
            assert(items[i].unwrap().len() == inners[i].length);
            assert(inners[i].offset + inners[i].length <= b.len());
        }
    }
    assert(p.spec_inner_ok(b));
}

/// Round trip for StringList: the blob is well-formed for `p`, the
/// outer list is present with one entry per written element, null
/// elements read as absent, and each present element's payload is
/// valid UTF-8 decoding to exactly the characters the writer encoded.
pub proof fn lemma_string_list_round_trip(
    b: Seq<u8>,
    p: Property,
    at: u32,
    inners: Seq<DataPosition>,
    items: Seq<Option<Seq<char>>>,
)
    requires
        encodes_string_list(b, p, at, inners, items),
    ensures
        p.spec_valid(b),
        !p.spec_is_null(b),
        p.spec_position(b).length == items.len(),
        forall|i: int|
            0 <= i < items.len() ==> (p.spec_inner_position(b, i).spec_is_null() <==> #[trigger] items[i] is None),
        forall|i: int|
            0 <= i < items.len() ==> match #[trigger] items[i] {
                None => true,
                Some(s) => valid_utf8(p.spec_inner_payload(b, i)) && decode_utf8(
                    p.spec_inner_payload(b, i),
                ) == s,
            },
{
    lemma_header_round_trip(b, p, DataPosition { offset: at, length: items.len() as u32 });
    assert forall|i: int|
        #![trigger p.spec_inner_position(b, i)]
        0 <= i < items.len() implies p.spec_inner_position(b, i) == inners[i] by {
        lemma_u32_le_round_trip(inners[i].offset);
        lemma_u32_le_round_trip(inners[i].length);
        assert(b.subrange(at + 8 * i, at + 8 * i + 4) == spec_u32_le_bytes(inners[i].offset));
    }
    assert forall|i: int|
        0 <= i < p.spec_position(b).length implies {
            let inner = #[trigger] spec_position_at(b, p.spec_position(b).offset + 8 * i);
            !inner.spec_is_null() ==> inner.offset + inner.length <= b.len()
        } by {
        assert(p.spec_inner_position(b, i) == inners[i]);
        assert(spec_position_at(b, p.spec_position(b).offset + 8 * i) == p.spec_inner_position(
            b,
            i,
        ));
        if items[i] is None {
            assert(inners[i].offset == 0);
        } else {
            assert(encode_utf8(items[i].unwrap()).len() == inners[i].length);
            assert(inners[i].offset + inners[i].length <= b.len());
        }
    }
    assert(p.spec_inner_ok(b));
    assert forall|i: int|
        0 <= i < items.len() implies match #[trigger] items[i] {
            None => true,
            Some(s) => valid_utf8(p.spec_inner_payload(b, i)) && decode_utf8(
                p.spec_inner_payload(b, i),
            ) == s,
        } by {
        if items[i] is Some {
            let s = items[i].unwrap();
            assert(p.spec_inner_position(b, i) == inners[i]);
            assert(p.spec_inner_payload(b, i) == encode_utf8(s));
            encode_utf8_valid_utf8(s);
            encode_utf8_decode_utf8(s);
        }
    }
}

/// Round trip for IntList: the blob is well-formed for `p`, the list
/// is present, and the reader decodes element-wise exactly the values
/// the writer stored.
pub proof fn lemma_int_list_round_trip(b: Seq<u8>, p: Property, at: u32, vs: Seq<i32>)
    requires
        encodes_int_list(b, p, at, vs),
    ensures
        p.spec_valid(b),
        !p.spec_is_null(b),
        p.spec_int_list(b) == vs,
{
    lemma_header_round_trip(b, p, DataPosition { offset: at, length: vs.len() as u32 });
    assert forall|j: int| 0 <= j < vs.len() implies p.spec_int_list(b)[j] == vs[j] by {
        lemma_i32_le_round_trip(vs[j]);
    }
    assert(p.spec_int_list(b) =~= vs);
}

/// Round trip for LongList.
pub proof fn lemma_long_list_round_trip(b: Seq<u8>, p: Property, at: u32, vs: Seq<i64>)
    requires
        encodes_long_list(b, p, at, vs),
    ensures
        p.spec_valid(b),
        !p.spec_is_null(b),
        p.spec_long_list(b) == vs,
{
    lemma_header_round_trip(b, p, DataPosition { offset: at, length: vs.len() as u32 });
    assert forall|j: int| 0 <= j < vs.len() implies p.spec_long_list(b)[j] == vs[j] by {
        lemma_i64_le_round_trip(vs[j]);
    }
    assert(p.spec_long_list(b) =~= vs);
}

} // verus!
