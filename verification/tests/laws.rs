use object_codec::data_type::DataType;
use object_codec::position::DataPosition;
use object_codec::position::read_position;
use object_codec::property::InvalidUtf8;
use object_codec::property::Property;

#[test]
fn test_int_null_vs_zero() {
    let property = Property::new(DataType::Int, 0);

    let blob = [0x00, 0x00, 0x00, 0x80];
    assert!(property.is_null(&blob));
    assert_eq!(property.get_int(&blob), -2147483648);

    let blob = [0, 0, 0, 0];
    assert!(!property.is_null(&blob));
    assert_eq!(property.get_int(&blob), 0);
}

#[test]
fn test_int_min_plus_one_not_null() {
    let property = Property::new(DataType::Int, 0);

    let blob = i32::to_le_bytes(i32::MIN + 1);
    assert!(!property.is_null(&blob));
    assert_eq!(property.get_int(&blob), i32::MIN + 1);
}

#[test]
fn test_bool_tri_state() {
    let property = Property::new(DataType::Bool, 0);

    assert_eq!(property.get_bool(&[0]), Some(false));
    assert_eq!(property.get_bool(&[1]), Some(true));
    assert_eq!(property.get_bool(&[2]), None);
    assert_eq!(property.get_bool(&[123]), None);
    assert_eq!(property.get_bool(&[255]), None);
}

#[test]
fn test_nan_is_null_negative_zero_is_not() {
    let property = Property::new(DataType::Float, 0);

    assert!(property.is_null(&f32::to_le_bytes(f32::NAN)));
    assert!(property.is_null(&u32::to_le_bytes(0x7fc0_0123)));
    assert!(property.is_null(&u32::to_le_bytes(0xffc0_0001)));
    assert!(!property.is_null(&f32::to_le_bytes(-0.0)));
    assert!(!property.is_null(&f32::to_le_bytes(f32::INFINITY)));

    let property = Property::new(DataType::Double, 0);
    assert!(property.is_null(&f64::to_le_bytes(f64::NAN)));
    assert!(property.is_null(&u64::to_le_bytes(0x7ff8_0000_0000_4242)));
    assert!(!property.is_null(&f64::to_le_bytes(-0.0)));
    assert!(!property.is_null(&f64::to_le_bytes(f64::NEG_INFINITY)));
}

#[test]
fn test_string_present() {
    let property = Property::new(DataType::String, 0);

    let mut blob = vec![8, 0, 0, 0, 5, 0, 0, 0];
    blob.extend_from_slice("hello".as_bytes());
    assert_eq!(property.get_string(&blob), Some("hello"));
    assert_eq!(property.get_string_checked(&blob), Ok(Some("hello")));
}

#[test]
fn test_string_null() {
    let property = Property::new(DataType::String, 0);

    let blob = [0, 0, 0, 0, 2, 0, 0, 0];
    assert_eq!(property.get_string(&blob), None);
    assert_eq!(property.get_string_checked(&blob), Ok(None));
    assert!(property.is_null(&blob));
}

#[test]
fn test_invalid_utf8_is_reported() {
    let property = Property::new(DataType::String, 0);

    let blob = [8, 0, 0, 0, 2, 0, 0, 0, 0xff, 0xfe];
    assert_eq!(property.get_string_checked(&blob), Err(InvalidUtf8));
}

#[test]
fn test_empty_list_is_present() {
    let property = Property::new(DataType::IntList, 0);

    let blob = [8, 0, 0, 0, 0, 0, 0, 0];
    assert!(!property.is_null(&blob));
    assert_eq!(property.get_length(&blob), Some(0));
    assert_eq!(property.get_int_list(&blob), Some(vec![]));
    assert!(property.validate(&blob));
}

#[test]
fn test_misaligned_payload_is_detected() {
    let property = Property::new(DataType::IntList, 0);

    let blob = [10, 0, 0, 0, 1, 0, 0, 0, 0, 0, 5, 0, 0, 0, 0, 0];
    assert!(!property.validate(&blob));

    let blob = [8, 0, 0, 0, 1, 0, 0, 0, 5, 0, 0, 0];
    assert!(property.validate(&blob));
}

#[test]
fn test_out_of_range_payload_is_detected() {
    let property = Property::new(DataType::LongList, 0);

    let blob = [8, 0, 0, 0, 9, 0, 0, 0];
    assert!(!property.validate(&blob));

    let property = Property::new(DataType::Bytes, 0);
    let blob = [8, 0, 0, 0, 3, 0, 0, 0, 1, 2];
    assert!(!property.validate(&blob));
}

#[test]
fn test_getters_idempotent() {
    let int_property = Property::new(DataType::Int, 0);
    let blob = i32::to_le_bytes(77);
    assert_eq!(int_property.get_int(&blob), int_property.get_int(&blob));

    let string_property = Property::new(DataType::String, 0);
    let mut blob = vec![8, 0, 0, 0, 2, 0, 0, 0];
    blob.extend_from_slice("hi".as_bytes());
    assert_eq!(
        string_property.get_string(&blob),
        string_property.get_string(&blob)
    );

    let list_property = Property::new(DataType::IntList, 0);
    let blob = [8, 0, 0, 0, 1, 0, 0, 0, 9, 0, 0, 0];
    assert_eq!(
        list_property.get_int_list(&blob),
        list_property.get_int_list(&blob)
    );
    assert_eq!(list_property.is_null(&blob), list_property.is_null(&blob));
}

#[test]
fn test_get_bytes_list() {
    let property = Property::new(DataType::BytesList, 0);

    let mut blob = vec![8, 0, 0, 0, 2, 0, 0, 0];
    blob.extend_from_slice(&[24, 0, 0, 0, 3, 0, 0, 0]);
    blob.extend_from_slice(&[0, 0, 0, 0, 0, 0, 0, 0]);
    blob.extend_from_slice(b"abc");
    assert_eq!(
        property.get_bytes_list(&blob),
        Some(vec![Some(&b"abc"[..]), None])
    );

    let blob = [0, 0, 0, 0, 2, 0, 0, 0];
    assert_eq!(property.get_bytes_list(&blob), None);
}

#[test]
fn test_get_static_raw() {
    let property = Property::new(DataType::Int, 1);
    let blob = [9, 1, 2, 3, 4, 9];
    assert_eq!(property.get_static_raw(&blob), &[1, 2, 3, 4]);

    let property = Property::new(DataType::Bool, 0);
    let blob = [7, 8];
    assert_eq!(property.get_static_raw(&blob), &[7]);

    let property = Property::new(DataType::Long, 0);
    let blob = i64::to_le_bytes(-1);
    assert_eq!(property.get_static_raw(&blob), &[255u8; 8]);
}

#[test]
fn test_get_dynamic_raw() {
    let property = Property::new(DataType::Bytes, 0);

    let blob = [8, 0, 0, 0, 1, 0, 0, 0, 42];
    assert_eq!(
        property.get_dynamic_raw(&blob),
        Some(&[8u8, 0, 0, 0, 1, 0, 0, 0][..])
    );

    let blob = [0, 0, 0, 0, 1, 0, 0, 0];
    assert_eq!(property.get_dynamic_raw(&blob), None);
}

#[test]
fn test_get_float_bits() {
    let property = Property::new(DataType::Float, 0);

    let blob = f32::to_le_bytes(123.123);
    assert_eq!(property.get_float_bits(&blob), 123.123f32.to_bits());
    assert_eq!(f32::from_bits(property.get_float_bits(&blob)), 123.123);
}

#[test]
fn test_get_double_bits() {
    let property = Property::new(DataType::Double, 0);

    let blob = f64::to_le_bytes(123123.123123123);
    assert_eq!(property.get_double_bits(&blob), 123123.123123123f64.to_bits());
    assert_eq!(
        f64::from_bits(property.get_double_bits(&blob)),
        123123.123123123
    );
}

#[test]
fn test_get_float_list_bits() {
    let property = Property::new(DataType::FloatList, 0);

    let mut blob = vec![8, 0, 0, 0, 2, 0, 0, 0];
    blob.extend_from_slice(&10.5f32.to_le_bytes());
    blob.extend_from_slice(&20.6f32.to_le_bytes());
    assert_eq!(
        property.get_float_list_bits(&blob),
        Some(vec![10.5f32.to_bits(), 20.6f32.to_bits()])
    );

    let blob = [0, 0, 0, 0, 2, 0, 0, 0];
    assert_eq!(property.get_float_list_bits(&blob), None);
}

#[test]
fn test_get_double_list_bits() {
    let property = Property::new(DataType::DoubleList, 0);

    let mut blob = vec![8, 0, 0, 0, 2, 0, 0, 0];
    blob.extend_from_slice(&10.5f64.to_le_bytes());
    blob.extend_from_slice(&20.6f64.to_le_bytes());
    assert_eq!(
        property.get_double_list_bits(&blob),
        Some(vec![10.5f64.to_bits(), 20.6f64.to_bits()])
    );

    let blob = [0, 0, 0, 0, 2, 0, 0, 0];
    assert_eq!(property.get_double_list_bits(&blob), None);
}

#[test]
fn test_read_position() {
    let blob = [7, 0, 0, 0, 3, 0, 0, 0, 0, 0, 0, 0, 0, 0, 0, 1];
    let h = read_position(&blob, 0);
    assert_eq!(h, DataPosition { offset: 7, length: 3 });
    assert!(!h.is_null());

    let h = read_position(&blob, 8);
    assert_eq!(h, DataPosition { offset: 0, length: 16777216 });
    assert!(h.is_null());
}

#[test]
fn test_is_dynamic() {
    assert!(!DataType::Bool.is_dynamic());
    assert!(!DataType::Int.is_dynamic());
    assert!(!DataType::Float.is_dynamic());
    assert!(!DataType::Long.is_dynamic());
    assert!(!DataType::Double.is_dynamic());
    assert!(DataType::String.is_dynamic());
    assert!(DataType::Bytes.is_dynamic());
    assert!(DataType::IntList.is_dynamic());
    assert!(DataType::LongList.is_dynamic());
    assert!(DataType::FloatList.is_dynamic());
    assert!(DataType::DoubleList.is_dynamic());
    assert!(DataType::BoolList.is_dynamic());
    assert!(DataType::StringList.is_dynamic());
    assert!(DataType::BytesList.is_dynamic());
}

#[test]
fn test_validate_static() {
    let property = Property::new(DataType::Int, 4);
    assert!(property.validate(&[0u8; 8]));
    assert!(!property.validate(&[0u8; 7]));

    let property = Property::new(DataType::Double, 0);
    assert!(property.validate(&[0u8; 8]));
    assert!(!property.validate(&[0u8; 4]));
}

#[test]
fn test_validate_nested_list() {
    let property = Property::new(DataType::BytesList, 0);

    let mut blob = vec![8, 0, 0, 0, 1, 0, 0, 0];
    blob.extend_from_slice(&[16, 0, 0, 0, 2, 0, 0, 0]);
    blob.extend_from_slice(&[5, 6]);
    assert!(property.validate(&blob));

    let mut blob = vec![8, 0, 0, 0, 1, 0, 0, 0];
    blob.extend_from_slice(&[16, 0, 0, 0, 9, 0, 0, 0]);
    blob.extend_from_slice(&[5, 6]);
    assert!(!property.validate(&blob));
}

#[test]
fn test_get_string_list() {
    let property = Property::new(DataType::StringList, 0);

    let mut blob = vec![8, 0, 0, 0, 3, 0, 0, 0];
    blob.extend_from_slice(&[32, 0, 0, 0, 5, 0, 0, 0]);
    blob.extend_from_slice(&[0, 0, 0, 0, 0, 0, 0, 0]);
    blob.extend_from_slice(&[37, 0, 0, 0, 0, 0, 0, 0]);
    blob.extend_from_slice("hello".as_bytes());
    assert_eq!(
        property.get_string_list_checked(&blob),
        Ok(Some(vec![Some("hello"), None, Some("")]))
    );

    let blob = [0, 0, 0, 0, 3, 0, 0, 0];
    assert_eq!(property.get_string_list_checked(&blob), Ok(None));
}

#[test]
fn test_get_string_list_invalid_utf8() {
    let property = Property::new(DataType::StringList, 0);

    let mut blob = vec![8, 0, 0, 0, 1, 0, 0, 0];
    blob.extend_from_slice(&[16, 0, 0, 0, 2, 0, 0, 0]);
    blob.extend_from_slice(&[0xff, 0xfe]);
    assert_eq!(property.get_string_list_checked(&blob), Err(InvalidUtf8));
}
