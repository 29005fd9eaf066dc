use object_codec::data_type::DataType;
use object_codec::property::Property;
use object_codec::property::NULL_INT;
use object_codec::property::NULL_LONG;

#[test]
fn test_int_is_null() {
    let property = Property::new(DataType::Int, 0);

    let null_bytes = i32::to_le_bytes(NULL_INT);
    assert!(property.is_null(&null_bytes));

    let bytes = i32::to_le_bytes(0);
    assert!(!property.is_null(&bytes));
}

#[test]
fn test_long_is_null() {
    let property = Property::new(DataType::Long, 0);

    let null_bytes = i64::to_le_bytes(NULL_LONG);
    assert!(property.is_null(&null_bytes));

    let bytes = i64::to_le_bytes(0);
    assert!(!property.is_null(&bytes));
}

#[test]
fn test_float_is_null() {
    let property = Property::new(DataType::Float, 0);

    let null_bytes = f32::to_le_bytes(f32::NAN);
    assert!(property.is_null(&null_bytes));

    let bytes = i32::to_le_bytes(0);
    assert!(!property.is_null(&bytes));
}

#[test]
fn test_double_is_null() {
    let property = Property::new(DataType::Double, 0);

    let null_bytes = f64::to_le_bytes(f64::NAN);
    assert!(property.is_null(&null_bytes));

    let bytes = f64::to_le_bytes(0.0);
    assert!(!property.is_null(&bytes));
}

#[test]
fn test_bool_is_null() {
    let property = Property::new(DataType::Bool, 0);

    let null_bytes = [123];
    assert!(property.is_null(&null_bytes));

    let bytes = [0];
    assert!(!property.is_null(&bytes));

    let bytes = [1];
    assert!(!property.is_null(&bytes));
}

#[test]
fn test_list_is_null() {
    let property = Property::new(DataType::String, 0);

    let null_bytes = [0, 0, 0, 0, 1, 0, 0, 0];
    assert!(property.is_null(&null_bytes));

    let bytes = [8, 0, 0, 0, 1, 0, 0, 0, 42];
    assert!(!property.is_null(&bytes));
}

#[test]
fn test_get_int() {
    let property = Property::new(DataType::Int, 0);

    let bytes = i32::to_le_bytes(123);
    assert_eq!(property.get_int(&bytes), 123);

    let null_bytes = i32::to_le_bytes(NULL_INT);
    assert_eq!(property.get_int(&null_bytes), NULL_INT);
}

#[test]
fn test_get_long() {
    let property = Property::new(DataType::Long, 0);

    let bytes = i64::to_le_bytes(123123123123123123);
    assert_eq!(property.get_long(&bytes), 123123123123123123);

    let null_bytes = i64::to_le_bytes(NULL_LONG);
    assert_eq!(property.get_long(&null_bytes), NULL_LONG);
}

#[test]
fn test_get_bool() {
    let property = Property::new(DataType::Bool, 0);

    let bytes = [0];
    assert_eq!(property.get_bool(&bytes), Some(false));

    let bytes = [1];
    assert_eq!(property.get_bool(&bytes), Some(true));

    let null_bytes = [2];
    assert_eq!(property.get_bool(&null_bytes), None);
}

#[test]
fn test_get_length() {
    let property = Property::new(DataType::IntList, 0);

    let bytes = [8, 0, 0, 0, 1, 0, 0, 0];
    assert_eq!(property.get_length(&bytes), Some(1));

    let bytes = [0, 0, 0, 0, 1, 0, 0, 0];
    assert_eq!(property.get_length(&bytes), None);
}

#[test]
fn test_get_string() {
    let property = Property::new(DataType::String, 0);

    let mut bytes = vec![8, 0, 0, 0, 5, 0, 0, 0];
    bytes.extend_from_slice("hello".as_bytes());
    assert_eq!(property.get_string(&bytes), Some("hello"));

    let bytes = [0, 0, 0, 0, 2, 0, 0, 0];
    assert_eq!(property.get_string(&bytes), None);
}

#[test]
fn test_get_bytes() {
    let property = Property::new(DataType::Bytes, 0);

    let mut bytes = vec![8, 0, 0, 0, 5, 0, 0, 0];
    bytes.extend_from_slice("hello".as_bytes());
    assert_eq!(property.get_bytes(&bytes), Some("hello".as_bytes()));

    let bytes = [0, 0, 0, 0, 2, 0, 0, 0];
    assert_eq!(property.get_bytes(&bytes), None);
}

#[test]
fn test_get_int_list() {
    let property = Property::new(DataType::IntList, 0);

    let bytes = [8, 0, 0, 0, 2, 0, 0, 0, 5, 0, 0, 0, 6, 0, 0, 0];
    assert_eq!(property.get_int_list(&bytes), Some(vec![5i32, 6]));

    let bytes = [0, 0, 0, 0, 2, 0, 0, 0];
    assert_eq!(property.get_int_list(&bytes), None);
}

#[test]
fn test_get_long_list() {
    let property = Property::new(DataType::LongList, 0);

    let bytes = [
        8, 0, 0, 0, 2, 0, 0, 0, 5, 0, 0, 0, 0, 0, 0, 0, 6, 0, 0, 0, 0, 0, 0, 0,
    ];
    assert_eq!(property.get_long_list(&bytes), Some(vec![5i64, 6]));

    let bytes = [0, 0, 0, 0, 2, 0, 0, 0];
    assert_eq!(property.get_long_list(&bytes), None);
}
