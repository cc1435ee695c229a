use fix::fields::{DecodeError, FIXMessageField, FieldType, FieldValue, StringField};
use fix::messages::{FIXMessageFields, FieldError, RawFIXMessage, RawFIXMessageFields};

fn assert_field_value(message: &RawFIXMessage, field: &StringField, expected: &str) {
    let result = message.get_value(field);
    assert_eq!(result, Ok(&FieldValue::Str(String::from(expected))));
}

fn assert_field_value_at(message: &RawFIXMessage, field: &StringField, index: usize, expected: &str) {
    let result = message.get_value_at(field, index);
    assert_eq!(result, Ok(&FieldValue::Str(String::from(expected))));
}

#[test]
fn test_raw_fix_message() {
    let field1: StringField = StringField(1, "Field1");
    let field2: StringField = StringField(2, "Field2");
    let field3: StringField = StringField(3, "Field3");

    let fields: RawFIXMessageFields = RawFIXMessageFields::new()
        .add_value(&field1, FieldValue::Str(String::from("abc1")))
        .add_value(&field2, FieldValue::Str(String::from("def2")))
        .add_value(&field3, FieldValue::Str(String::from("ghi3")))
        .add_value(&field2, FieldValue::Str(String::from("jkl4")))
        .add_value(&field3, FieldValue::Str(String::from("mno5")))
        .add_value(&field1, FieldValue::Str(String::from("pqr6")))
        .add_value(&field3, FieldValue::Str(String::from("stu7")))
        .add_value(&field1, FieldValue::Str(String::from("vwx8")))
        .add_value(&field2, FieldValue::Str(String::from("yz90")));

    let message: RawFIXMessage = fields.into_message();

    assert_field_value(&message, &field1, "abc1");
    assert_field_value_at(&message, &field1, 1, "pqr6");
    assert_field_value_at(&message, &field1, 2, "vwx8");
    assert_field_value(&message, &field2, "def2");
    assert_field_value_at(&message, &field2, 1, "jkl4");
    assert_field_value_at(&message, &field2, 2, "yz90");
    assert_field_value(&message, &field3, "ghi3");
    assert_field_value_at(&message, &field3, 1, "mno5");
    assert_field_value_at(&message, &field3, 2, "stu7");
}

#[test]
fn interleaved_insertions_keep_per_tag_order() {
    let mut builder = RawFIXMessageFields::new();
    builder = builder.add_tag_value(10, FieldValue::Int(1));
    builder = builder.add_tag_value(20, FieldValue::Int(2));
    builder = builder.add_tag_value(10, FieldValue::Int(3));
    builder = builder.add_tag_value(30, FieldValue::Int(4));
    builder = builder.add_tag_value(20, FieldValue::Int(5));
    builder = builder.add_tag_value(10, FieldValue::Int(6));
    let message = builder.into_message();

    assert_eq!(message.get_tag_value_at(10, 0), Ok(&FieldValue::Int(1)));
    assert_eq!(message.get_tag_value_at(10, 1), Ok(&FieldValue::Int(3)));
    assert_eq!(message.get_tag_value_at(10, 2), Ok(&FieldValue::Int(6)));
    assert_eq!(message.get_tag_value_at(20, 0), Ok(&FieldValue::Int(2)));
    assert_eq!(message.get_tag_value_at(20, 1), Ok(&FieldValue::Int(5)));
    assert_eq!(message.get_tag_value_at(30, 0), Ok(&FieldValue::Int(4)));
    assert_eq!(message.get_tag_value(10), Ok(&FieldValue::Int(1)));
}

#[test]
fn absent_tag_is_tag_absent() {
    let field5: StringField = StringField(5, "Field5");
    let message = RawFIXMessageFields::new()
        .add_tag_value(1, FieldValue::Str(String::from("abc1")))
        .into_message();

    assert_eq!(message.get_value_at(&field5, 0), Err(FieldError::TagAbsent));
    assert_eq!(message.get_value(&field5), Err(FieldError::TagAbsent));
    assert_eq!(message.get_tag_value(5), Err(FieldError::TagAbsent));
    assert_eq!(message.get_tag_value_at(5, 3), Err(FieldError::TagAbsent));
}

#[test]
fn empty_store_never_crashes() {
    let message = RawFIXMessageFields::new().into_message();
    let field1: StringField = StringField(1, "Field1");

    assert_eq!(message.get_tag_value(1), Err(FieldError::TagAbsent));
    assert_eq!(message.get_tag_value_at(0, usize::MAX), Err(FieldError::TagAbsent));
    assert_eq!(message.get_value(&field1), Err(FieldError::TagAbsent));
}

#[test]
fn index_beyond_occurrences_is_out_of_range() {
    let message = RawFIXMessageFields::new()
        .add_tag_value(7, FieldValue::Char('a'))
        .add_tag_value(7, FieldValue::Char('b'))
        .into_message();

    assert_eq!(message.get_tag_value_at(7, 1), Ok(&FieldValue::Char('b')));
    assert_eq!(message.get_tag_value_at(7, 2), Err(FieldError::IndexOutOfRange));
    assert_eq!(message.get_tag_value_at(7, usize::MAX), Err(FieldError::IndexOutOfRange));
    // Distinct from a tag that was never stored.
    assert_eq!(message.get_tag_value_at(8, 2), Err(FieldError::TagAbsent));
}

#[test]
fn wrong_kind_is_type_mismatch_and_value_untouched() {
    let field9: StringField = StringField(9, "Field9");
    let message = RawFIXMessageFields::new()
        .add_tag_value(9, FieldValue::Int(42))
        .into_message();

    assert_eq!(message.get_value(&field9), Err(FieldError::TypeMismatch));
    assert_eq!(message.get_value_at(&field9, 0), Err(FieldError::TypeMismatch));
    // The stored value is still there, unchanged, for untyped access.
    assert_eq!(message.get_tag_value(9), Ok(&FieldValue::Int(42)));
}

#[test]
fn total_occurrences_equal_insertions() {
    let message = RawFIXMessageFields::new()
        .add_tag_value(1, FieldValue::Str(String::from("abc1")))
        .add_tag_value(2, FieldValue::Str(String::from("def2")))
        .add_tag_value(3, FieldValue::Str(String::from("ghi3")))
        .add_tag_value(2, FieldValue::Str(String::from("jkl4")))
        .add_tag_value(3, FieldValue::Str(String::from("mno5")))
        .add_tag_value(1, FieldValue::Str(String::from("pqr6")))
        .add_tag_value(3, FieldValue::Str(String::from("stu7")))
        .add_tag_value(1, FieldValue::Str(String::from("vwx8")))
        .add_tag_value(2, FieldValue::Str(String::from("yz90")))
        .into_message();

    let mut total: usize = 0;
    for tag in 0u32..16 {
        let mut index: usize = 0;
        while message.get_tag_value_at(tag, index).is_ok() {
            index += 1;
        }
        total += index;
    }
    assert_eq!(total, 9);
}

#[test]
fn descriptor_reports_its_binding() {
    let field: StringField = StringField(35, "MsgType");
    assert_eq!(field.get_tag_num(), 35);
    assert_eq!(field.get_name(), "MsgType");
    assert_eq!(field.value_type(), FieldType::Str);
}

#[test]
fn descriptor_decode_is_the_codecs_business() {
    let field: StringField = StringField(35, "MsgType");
    let raw: Vec<u8> = vec![b'A'];
    assert_eq!(field.get_value(raw), Err(DecodeError));
}

#[test]
fn value_type_matches_kind() {
    assert_eq!(FieldValue::Str(String::from("x")).value_type(), FieldType::Str);
    assert_eq!(FieldValue::Int(-3).value_type(), FieldType::Int);
    assert_eq!(FieldValue::Decimal { mantissa: 1025, scale: 2 }.value_type(), FieldType::Decimal);
    assert_eq!(FieldValue::Timestamp(1700000000).value_type(), FieldType::Timestamp);
    assert_eq!(FieldValue::Char('c').value_type(), FieldType::Char);
    assert_eq!(FieldValue::Bool(false).value_type(), FieldType::Bool);
    assert_eq!(FieldValue::Raw(vec![0, 1, 2]).value_type(), FieldType::Raw);
}
