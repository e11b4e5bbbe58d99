use proptree::cursor::Cursor;
use proptree::error::ParseError;
use proptree::properties::ArrayProperty;
use proptree::properties::BoolProperty;
use proptree::properties::EnumProperty;
use proptree::properties::FloatProperty;
use proptree::properties::GuidProperty;
use proptree::properties::IntProperty;
use proptree::properties::MapProperty;
use proptree::properties::ObjectProperty;
use proptree::properties::Property;
use proptree::properties::SetProperty;
use proptree::properties::StringProperty;
use proptree::properties::StructProperty;

/// One length-prefixed string record: length including the
/// terminator, the text, one zero byte.
fn string_record(s: &str) -> Vec<u8> {
    let mut v = Vec::new();
    v.extend_from_slice(&((s.len() + 1) as i32).to_le_bytes());
    v.extend_from_slice(s.as_bytes());
    v.push(0);
    v
}

/// One `(name, type, length)` field header of a property list.
fn field_header(name: &str, ptype: &str) -> Vec<u8> {
    let mut v = string_record(name);
    v.extend_from_slice(&string_record(ptype));
    v.extend_from_slice(&0u64.to_le_bytes());
    v
}

fn decode(tag: &str, payload: Vec<u8>) -> Result<Property, ParseError> {
    let mut cursor = Cursor::new(payload);
    Property::new(tag, &mut cursor)
}

#[test]
fn test_int_round_trip() {
    let mut payload = vec![0u8];
    payload.extend_from_slice(&42i32.to_le_bytes());
    match decode("IntProperty", payload) {
        Ok(Property::IntProperty(IntProperty(v))) => assert_eq!(v, 42),
        other => panic!("expected an Int leaf, got {:?}", other.is_ok()),
    }
}

#[test]
fn test_int_negative() {
    let mut payload = vec![0xffu8];
    payload.extend_from_slice(&(-123456789i32).to_le_bytes());
    match decode("IntProperty", payload) {
        Ok(Property::IntProperty(IntProperty(v))) => assert_eq!(v, -123456789),
        _ => panic!("expected an Int leaf"),
    }
}

#[test]
fn test_uint32_tag_is_int() {
    let mut payload = vec![0u8];
    payload.extend_from_slice(&7i32.to_le_bytes());
    match decode("UInt32Property", payload) {
        Ok(Property::IntProperty(IntProperty(v))) => assert_eq!(v, 7),
        _ => panic!("expected an Int leaf"),
    }
}

#[test]
fn test_bool_round_trip() {
    match decode("BoolProperty", vec![1u8]) {
        Ok(Property::BoolProperty(BoolProperty(b))) => assert!(b),
        _ => panic!("expected a Bool leaf"),
    }
    match decode("BoolProperty", vec![0u8]) {
        Ok(Property::BoolProperty(BoolProperty(b))) => assert!(!b),
        _ => panic!("expected a Bool leaf"),
    }
}

#[test]
fn test_float_round_trip() {
    let payload = 1.5f32.to_bits().to_le_bytes().to_vec();
    match decode("FloatProperty", payload) {
        Ok(Property::FloatProperty(FloatProperty(bits))) => {
            assert_eq!(f32::from_bits(bits), 1.5f32);
        }
        _ => panic!("expected a Float leaf"),
    }
}

#[test]
fn test_string_round_trip() {
    match decode("StrProperty", string_record("Hello, world")) {
        Ok(Property::StringProperty(StringProperty(s))) => assert_eq!(s, "Hello, world"),
        _ => panic!("expected a String leaf"),
    }
}

#[test]
fn test_enum_round_trip() {
    match decode("EnumProperty", string_record("EColor::Red")) {
        Ok(Property::EnumProperty(EnumProperty(s))) => assert_eq!(s, "EColor::Red"),
        _ => panic!("expected an Enum leaf"),
    }
}

#[test]
fn test_object_round_trip() {
    match decode("ObjectProperty", string_record("/Game/Thing.Thing_C")) {
        Ok(Property::ObjectProperty(ObjectProperty(s))) => {
            assert_eq!(s, "/Game/Thing.Thing_C")
        }
        _ => panic!("expected an Object leaf"),
    }
}

#[test]
fn test_struct_guid_is_bare_leaf() {
    let mut payload = string_record("Guid");
    payload.extend_from_slice(&[0u8; 17]);
    let guid: Vec<u8> = (1..=16).collect();
    payload.extend_from_slice(&guid);
    match decode("StructProperty", payload) {
        Ok(Property::GuidProperty(GuidProperty(g))) => assert_eq!(g, guid),
        _ => panic!("expected a bare Guid leaf with no Struct wrapper"),
    }
}

#[test]
fn test_datetime_normalizes_to_decimal_text() {
    let mut payload = string_record("DateTime");
    payload.extend_from_slice(&[0u8; 17]);
    payload.extend_from_slice(&637134336000000000i64.to_le_bytes());
    match decode("StructProperty", payload) {
        Ok(Property::StringProperty(StringProperty(s))) => {
            assert_eq!(s, "637134336000000000")
        }
        _ => panic!("expected a String leaf"),
    }
}

#[test]
fn test_datetime_negative_timestamp() {
    let mut payload = string_record("DateTime");
    payload.extend_from_slice(&[0u8; 17]);
    payload.extend_from_slice(&(-42i64).to_le_bytes());
    match decode("StructProperty", payload) {
        Ok(Property::StringProperty(StringProperty(s))) => assert_eq!(s, "-42"),
        _ => panic!("expected a String leaf"),
    }
}

#[test]
fn test_struct_single_field_collapses() {
    let mut payload = string_record("Vitals");
    payload.extend_from_slice(&[0u8; 17]);
    payload.extend_from_slice(&field_header("Health", "IntProperty"));
    payload.push(0);
    payload.extend_from_slice(&99i32.to_le_bytes());
    payload.extend_from_slice(&string_record("None"));
    match decode("StructProperty", payload) {
        Ok(Property::StructProperty(StructProperty { name, property })) => {
            assert_eq!(name, "Vitals");
            match *property {
                Property::IntProperty(IntProperty(v)) => assert_eq!(v, 99),
                _ => panic!("expected the bare field value, no name wrapper"),
            }
        }
        _ => panic!("expected a Struct node"),
    }
}

#[test]
fn test_struct_two_fields_become_map() {
    let mut payload = string_record("Pair");
    payload.extend_from_slice(&[0u8; 17]);
    payload.extend_from_slice(&field_header("A", "IntProperty"));
    payload.push(0);
    payload.extend_from_slice(&1i32.to_le_bytes());
    payload.extend_from_slice(&field_header("B", "IntProperty"));
    payload.push(0);
    payload.extend_from_slice(&2i32.to_le_bytes());
    payload.extend_from_slice(&string_record("None"));
    match decode("StructProperty", payload) {
        Ok(Property::StructProperty(StructProperty { name, property })) => {
            assert_eq!(name, "Pair");
            match *property {
                Property::MapProperty(MapProperty(entries)) => {
                    assert_eq!(entries.len(), 2);
                    assert_eq!(entries[0].0, "A");
                    assert_eq!(entries[1].0, "B");
                    assert!(matches!(
                        *entries[0].1,
                        Property::IntProperty(IntProperty(1))
                    ));
                    assert!(matches!(
                        *entries[1].1,
                        Property::IntProperty(IntProperty(2))
                    ));
                }
                _ => panic!("expected a Map node for two or more fields"),
            }
        }
        _ => panic!("expected a Struct node"),
    }
}

#[test]
fn test_duplicate_field_name_overwrites() {
    let mut payload = string_record("Dup");
    payload.extend_from_slice(&[0u8; 17]);
    payload.extend_from_slice(&field_header("X", "IntProperty"));
    payload.push(0);
    payload.extend_from_slice(&1i32.to_le_bytes());
    payload.extend_from_slice(&field_header("X", "IntProperty"));
    payload.push(0);
    payload.extend_from_slice(&2i32.to_le_bytes());
    payload.extend_from_slice(&string_record("None"));
    match decode("StructProperty", payload) {
        Ok(Property::StructProperty(StructProperty { property, .. })) => {
            assert!(matches!(*property, Property::IntProperty(IntProperty(2))));
        }
        _ => panic!("expected a Struct node with the later value"),
    }
}

#[test]
fn test_array_of_three_objects() {
    let mut payload = string_record("ObjectProperty");
    payload.push(0);
    payload.extend_from_slice(&3i32.to_le_bytes());
    payload.extend_from_slice(&string_record("/Game/A"));
    payload.extend_from_slice(&string_record("/Game/B"));
    payload.extend_from_slice(&string_record("/Game/C"));
    match decode("ArrayProperty", payload) {
        Ok(Property::ArrayProperty(ArrayProperty(items))) => {
            assert_eq!(items.len(), 3);
            let expected = ["/Game/A", "/Game/B", "/Game/C"];
            for (item, want) in items.iter().zip(expected.iter()) {
                match &**item {
                    Property::ObjectProperty(ObjectProperty(s)) => assert_eq!(s, want),
                    _ => panic!("expected an Object leaf"),
                }
            }
        }
        _ => panic!("expected an Array node"),
    }
}

#[test]
fn test_array_of_guid_structs_shares_header() {
    let guid_a: Vec<u8> = (1..=16).collect();
    let guid_b: Vec<u8> = (17..=32).collect();
    let mut payload = string_record("StructProperty");
    payload.push(0);
    payload.extend_from_slice(&2i32.to_le_bytes());
    payload.extend_from_slice(&field_header("Ids", "StructProperty"));
    payload.extend_from_slice(&string_record("Guid"));
    payload.extend_from_slice(&[0u8; 17]);
    payload.extend_from_slice(&guid_a);
    payload.extend_from_slice(&guid_b);
    match decode("ArrayProperty", payload) {
        Ok(Property::ArrayProperty(ArrayProperty(items))) => {
            assert_eq!(items.len(), 2);
            match (&*items[0], &*items[1]) {
                (
                    Property::GuidProperty(GuidProperty(a)),
                    Property::GuidProperty(GuidProperty(b)),
                ) => {
                    assert_eq!(*a, guid_a);
                    assert_eq!(*b, guid_b);
                }
                _ => panic!("expected two bare Guid leaves"),
            }
        }
        _ => panic!("expected an Array node"),
    }
}

#[test]
fn test_set_of_objects() {
    let mut payload = string_record("ObjectProperty");
    payload.push(0);
    payload.extend_from_slice(&1i32.to_le_bytes());
    payload.extend_from_slice(&string_record("/Game/Only"));
    match decode("SetProperty", payload) {
        Ok(Property::SetProperty(SetProperty(items))) => {
            assert_eq!(items.len(), 1);
            assert!(matches!(&*items[0], Property::ObjectProperty(_)));
        }
        _ => panic!("expected a Set node"),
    }
}

#[test]
fn test_map_tag_collapses_property_list() {
    let mut payload = field_header("K1", "IntProperty");
    payload.push(0);
    payload.extend_from_slice(&10i32.to_le_bytes());
    payload.extend_from_slice(&field_header("K2", "IntProperty"));
    payload.push(0);
    payload.extend_from_slice(&20i32.to_le_bytes());
    payload.extend_from_slice(&string_record("None"));
    match decode("MapProperty", payload) {
        Ok(Property::MapProperty(MapProperty(entries))) => {
            assert_eq!(entries.len(), 2);
            assert_eq!(entries[0].0, "K1");
            assert_eq!(entries[1].0, "K2");
        }
        _ => panic!("expected a Map node"),
    }
}

#[test]
fn test_unknown_tag_fails_despite_valid_data() {
    let mut payload = vec![0u8];
    payload.extend_from_slice(&1i32.to_le_bytes());
    match decode("Int8Property", payload) {
        Err(ParseError::UnknownPropertyType(t)) => assert_eq!(t, "Int8Property"),
        _ => panic!("expected UnknownPropertyType"),
    }
}

#[test]
fn test_unknown_nested_tag_aborts_struct() {
    let mut payload = string_record("Outer");
    payload.extend_from_slice(&[0u8; 17]);
    payload.extend_from_slice(&field_header("F", "Int8Property"));
    payload.extend_from_slice(&string_record("None"));
    match decode("StructProperty", payload) {
        Err(ParseError::UnknownPropertyType(t)) => assert_eq!(t, "Int8Property"),
        _ => panic!("expected UnknownPropertyType"),
    }
}

#[test]
fn test_list_stops_at_sentinel_and_cursor_rests_past_it() {
    let mut payload = field_header("Only", "IntProperty");
    payload.push(0);
    payload.extend_from_slice(&5i32.to_le_bytes());
    payload.extend_from_slice(&string_record("None"));
    let end_of_sentinel = payload.len();
    payload.extend_from_slice(&[0xAB, 0xCD, 0xEF]);
    let mut cursor = Cursor::new(payload);
    match StructProperty::parse_property_array(&mut cursor) {
        Ok(Property::IntProperty(IntProperty(v))) => assert_eq!(v, 5),
        _ => panic!("expected the collected field"),
    }
    assert_eq!(cursor.pos, end_of_sentinel);
}

#[test]
fn test_list_stops_at_end_of_buffer() {
    let mut payload = field_header("Only", "IntProperty");
    payload.push(0);
    payload.extend_from_slice(&6i32.to_le_bytes());
    let len = payload.len();
    let mut cursor = Cursor::new(payload);
    match StructProperty::parse_property_array(&mut cursor) {
        Ok(Property::IntProperty(IntProperty(v))) => assert_eq!(v, 6),
        _ => panic!("expected the collected field"),
    }
    assert_eq!(cursor.pos, len);
}

#[test]
fn test_empty_property_list_is_an_error() {
    let payload = string_record("None");
    let mut cursor = Cursor::new(payload);
    match StructProperty::parse_property_array(&mut cursor) {
        Err(ParseError::EmptyPropertyList) => (),
        _ => panic!("expected EmptyPropertyList"),
    }
}

#[test]
fn test_unhandled_array_data_type() {
    let mut payload = string_record("IntProperty");
    payload.push(0);
    payload.extend_from_slice(&1i32.to_le_bytes());
    match decode("ArrayProperty", payload) {
        Err(ParseError::UnhandledArrayDataType(t)) => assert_eq!(t, "IntProperty"),
        _ => panic!("expected UnhandledArrayDataType"),
    }
}

#[test]
fn test_unhandled_array_property_type() {
    let mut payload = string_record("StructProperty");
    payload.push(0);
    payload.extend_from_slice(&1i32.to_le_bytes());
    payload.extend_from_slice(&field_header("Ids", "IntProperty"));
    match decode("ArrayProperty", payload) {
        Err(ParseError::UnhandledArrayPropertyType(t)) => assert_eq!(t, "IntProperty"),
        _ => panic!("expected UnhandledArrayPropertyType"),
    }
}

#[test]
fn test_short_buffer_is_cursor_exhausted() {
    match decode("IntProperty", vec![0u8, 1u8]) {
        Err(ParseError::CursorExhausted) => (),
        _ => panic!("expected CursorExhausted"),
    }
}

#[test]
fn test_string_length_under_one_is_invalid() {
    let payload = 0i32.to_le_bytes().to_vec();
    match decode("StrProperty", payload) {
        Err(ParseError::InvalidString) => (),
        _ => panic!("expected InvalidString"),
    }
}

#[test]
fn test_string_bad_utf8_is_invalid() {
    let mut payload = 3i32.to_le_bytes().to_vec();
    payload.extend_from_slice(&[0xff, 0xfe, 0x00]);
    match decode("StrProperty", payload) {
        Err(ParseError::InvalidString) => (),
        _ => panic!("expected InvalidString"),
    }
}

#[test]
fn test_error_leaves_no_partial_tree() {
    // the whole decode fails on the second, unknown field even though
    // the first field was fine
    let mut payload = string_record("Outer");
    payload.extend_from_slice(&[0u8; 17]);
    payload.extend_from_slice(&field_header("Good", "IntProperty"));
    payload.push(0);
    payload.extend_from_slice(&1i32.to_le_bytes());
    payload.extend_from_slice(&field_header("Bad", "NopeProperty"));
    payload.extend_from_slice(&string_record("None"));
    assert!(decode("StructProperty", payload).is_err());
}
