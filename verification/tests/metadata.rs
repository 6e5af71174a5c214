// The recursive metadata value grammar: every value kind, entry lists
// and their terminator, strict arrays, UTF-8 enforcement, and the
// nesting bound.

use flavors::parser::{
    script_data, script_data_value, script_data_object, script_data_objects,
    script_data_object_end, script_data_string, script_data_long_string, script_data_date,
    script_data_ecma_array, script_data_strict_array, ScriptData, ScriptDataValue,
    ScriptDataObject, ScriptDataDate, ParseResult, ParseError, MAX_NESTING_DEPTH,
};

fn short_string(s: &str) -> Vec<u8> {
    let mut out: Vec<u8> = vec![(s.len() >> 8) as u8, s.len() as u8];
    out.extend(s.as_bytes());
    out
}

#[test]
fn value_number() {
    let mut bytes: Vec<u8> = vec![0];
    bytes.extend(1.5f64.to_be_bytes());
    assert_eq!(
        script_data_value(&bytes),
        ParseResult::Complete(ScriptDataValue::Number(1.5f64.to_bits()), 9)
    );
    assert_eq!(script_data_value(&bytes[..4]), ParseResult::Incomplete(5));
}

#[test]
fn value_boolean() {
    assert_eq!(
        script_data_value(&[1, 0]),
        ParseResult::Complete(ScriptDataValue::Boolean(false), 2)
    );
    // Any nonzero byte is true.
    assert_eq!(
        script_data_value(&[1, 7]),
        ParseResult::Complete(ScriptDataValue::Boolean(true), 2)
    );
    assert_eq!(script_data_value(&[1]), ParseResult::Incomplete(1));
}

#[test]
fn value_string() {
    let mut bytes: Vec<u8> = vec![2];
    bytes.extend(short_string("salut"));
    assert_eq!(
        script_data_value(&bytes),
        ParseResult::Complete(ScriptDataValue::String(b"salut".to_vec()), 8)
    );
}

#[test]
fn value_movie_clip() {
    let mut bytes: Vec<u8> = vec![4];
    bytes.extend(short_string("clip"));
    assert_eq!(
        script_data_value(&bytes),
        ParseResult::Complete(ScriptDataValue::MovieClip(b"clip".to_vec()), 7)
    );
}

#[test]
fn value_null_and_undefined() {
    assert_eq!(script_data_value(&[5]), ParseResult::Complete(ScriptDataValue::Null, 1));
    assert_eq!(script_data_value(&[6]), ParseResult::Complete(ScriptDataValue::Undefined, 1));
    assert_eq!(script_data_value(&[]), ParseResult::Incomplete(1));
}

#[test]
fn value_reference() {
    assert_eq!(
        script_data_value(&[7, 0x12, 0x34]),
        ParseResult::Complete(ScriptDataValue::Reference(0x1234), 3)
    );
    assert_eq!(script_data_value(&[7, 0x12]), ParseResult::Incomplete(1));
}

#[test]
fn value_object() {
    // { "a": null }, then the terminator.
    let mut bytes: Vec<u8> = vec![3];
    bytes.extend(short_string("a"));
    bytes.push(5);
    bytes.extend([0, 0, 9]);
    assert_eq!(
        script_data_value(&bytes),
        ParseResult::Complete(
            ScriptDataValue::Object(vec![ScriptDataObject {
                name: b"a".to_vec(),
                data: ScriptDataValue::Null,
            }]),
            8,
        )
    );
    // An empty object is the bare terminator.
    assert_eq!(
        script_data_value(&[3, 0, 0, 9]),
        ParseResult::Complete(ScriptDataValue::Object(vec![]), 4)
    );
}

#[test]
fn value_date() {
    let mut bytes: Vec<u8> = vec![11];
    bytes.extend(1234.5f64.to_be_bytes());
    bytes.extend([0xff, 0xc4]);
    assert_eq!(
        script_data_value(&bytes),
        ParseResult::Complete(
            ScriptDataValue::Date(ScriptDataDate {
                date_time: 1234.5f64.to_bits(),
                local_date_time_offset: -60,
            }),
            11,
        )
    );
}

#[test]
fn value_long_string() {
    let mut bytes: Vec<u8> = vec![12];
    bytes.extend(5u32.to_be_bytes());
    bytes.extend(b"hello");
    assert_eq!(
        script_data_value(&bytes),
        ParseResult::Complete(ScriptDataValue::LongString(b"hello".to_vec()), 10)
    );
    assert_eq!(script_data_value(&bytes[..7]), ParseResult::Incomplete(3));
}

#[test]
fn value_strict_array() {
    // [1.0, null], count 2, no terminator.
    let mut bytes: Vec<u8> = vec![10];
    bytes.extend(2u32.to_be_bytes());
    bytes.push(0);
    bytes.extend(1.0f64.to_be_bytes());
    bytes.push(5);
    assert_eq!(
        script_data_value(&bytes),
        ParseResult::Complete(
            ScriptDataValue::StrictArray(vec![
                ScriptDataValue::Number(1.0f64.to_bits()),
                ScriptDataValue::Null,
            ]),
            15,
        )
    );
    // Fewer values than the count is an incomplete read.
    assert!(matches!(script_data_value(&bytes[..14]), ParseResult::Incomplete(_)));
    // A zero count is an empty array.
    let empty: Vec<u8> = vec![10, 0, 0, 0, 0];
    assert_eq!(
        script_data_value(&empty),
        ParseResult::Complete(ScriptDataValue::StrictArray(vec![]), 5)
    );
}

#[test]
fn value_unknown_marker() {
    assert_eq!(script_data_value(&[9, 0, 0]), ParseResult::Failure(ParseError::UnknownValueMarker));
    assert_eq!(script_data_value(&[13]), ParseResult::Failure(ParseError::UnknownValueMarker));
}

#[test]
fn strings_must_be_utf8() {
    // 0xff can never appear in UTF-8.
    assert_eq!(
        script_data_string(&[0, 1, 0xff]),
        ParseResult::Failure(ParseError::InvalidUtf8)
    );
    // Overlong two-byte encoding of '\0'.
    assert_eq!(
        script_data_string(&[0, 2, 0xc0, 0x80]),
        ParseResult::Failure(ParseError::InvalidUtf8)
    );
    // An encoded surrogate is not a scalar.
    assert_eq!(
        script_data_string(&[0, 3, 0xed, 0xa0, 0x80]),
        ParseResult::Failure(ParseError::InvalidUtf8)
    );
    // Well-formed multi-byte encodings pass.
    let text = "caf\u{e9} \u{1f3b5}";
    let mut bytes: Vec<u8> = vec![0, text.len() as u8];
    bytes.extend(text.as_bytes());
    assert_eq!(
        script_data_string(&bytes),
        ParseResult::Complete(text.as_bytes().to_vec(), 2 + text.len())
    );
    // A truncated multi-byte encoding fails: the declared byte length
    // is all there is.
    assert_eq!(
        script_data_string(&[0, 1, 0xc3]),
        ParseResult::Failure(ParseError::InvalidUtf8)
    );
}

#[test]
fn string_length_bounds() {
    assert_eq!(script_data_string(&[]), ParseResult::Incomplete(2));
    assert_eq!(script_data_string(&[0]), ParseResult::Incomplete(1));
    assert_eq!(script_data_string(&[0, 5, b'a']), ParseResult::Incomplete(4));
    assert_eq!(script_data_string(&[0, 0]), ParseResult::Complete(vec![], 2));
    assert_eq!(script_data_long_string(&[0, 0]), ParseResult::Incomplete(2));
    assert_eq!(script_data_long_string(&[0, 0, 0, 0]), ParseResult::Complete(vec![], 4));
}

#[test]
fn object_end_marker() {
    assert_eq!(script_data_object_end(&[0, 0, 9, 42]), ParseResult::Complete((), 3));
    assert_eq!(script_data_object_end(&[0, 0]), ParseResult::Incomplete(1));
    assert_eq!(
        script_data_object_end(&[0, 1, 9]),
        ParseResult::Failure(ParseError::NotObjectEnd)
    );
}

#[test]
fn objects_list() {
    let mut bytes = short_string("k");
    bytes.push(1);
    bytes.push(1);
    bytes.extend(short_string("m"));
    bytes.push(5);
    bytes.extend([0, 0, 9]);
    assert_eq!(
        script_data_objects(&bytes),
        ParseResult::Complete(
            vec![
                ScriptDataObject { name: b"k".to_vec(), data: ScriptDataValue::Boolean(true) },
                ScriptDataObject { name: b"m".to_vec(), data: ScriptDataValue::Null },
            ],
            12,
        )
    );
    assert_eq!(script_data_objects(&[0, 0, 9]), ParseResult::Complete(vec![], 3));

    let mut one = short_string("k");
    one.push(5);
    assert_eq!(
        script_data_object(&one),
        ParseResult::Complete(
            ScriptDataObject { name: b"k".to_vec(), data: ScriptDataValue::Null },
            4,
        )
    );
}

#[test]
fn ecma_array_order_and_terminator() {
    // Entries come back in wire order, values exact.
    let mut bytes: Vec<u8> = Vec::new();
    bytes.extend(2u32.to_be_bytes());
    bytes.extend(short_string("first"));
    bytes.push(0);
    bytes.extend(7.25f64.to_be_bytes());
    bytes.extend(short_string("second"));
    bytes.push(2);
    bytes.extend(short_string("two"));
    bytes.extend([0, 0, 9]);
    assert_eq!(
        script_data_ecma_array(&bytes),
        ParseResult::Complete(
            vec![
                ScriptDataObject {
                    name: b"first".to_vec(),
                    data: ScriptDataValue::Number(7.25f64.to_bits()),
                },
                ScriptDataObject {
                    name: b"second".to_vec(),
                    data: ScriptDataValue::String(b"two".to_vec()),
                },
            ],
            bytes.len(),
        )
    );
    // Dropping the terminator turns the result into an incomplete
    // read, not a failure: the terminator may not have arrived yet.
    let clipped = &bytes[..bytes.len() - 3];
    assert!(matches!(script_data_ecma_array(clipped), ParseResult::Incomplete(_)));
    // The advisory count is ignored: a wrong count decodes the same.
    let mut wrong_count = bytes.clone();
    wrong_count[3] = 99;
    assert_eq!(script_data_ecma_array(&wrong_count), script_data_ecma_array(&bytes));
}

#[test]
fn strict_array_entry_point() {
    let mut bytes: Vec<u8> = Vec::new();
    bytes.extend(1u32.to_be_bytes());
    bytes.push(6);
    assert_eq!(
        script_data_strict_array(&bytes),
        ParseResult::Complete(vec![ScriptDataValue::Undefined], 5)
    );
}

#[test]
fn script_data_top_level() {
    // The record name must be a string value.
    assert_eq!(script_data(&[0, 0, 0]), ParseResult::Failure(ParseError::NameNotString));
    assert_eq!(script_data(&[]), ParseResult::Incomplete(1));

    let mut bytes: Vec<u8> = vec![2];
    bytes.extend(short_string("onMetaData"));
    bytes.push(5);
    assert_eq!(
        script_data(&bytes),
        ParseResult::Complete(
            ScriptData { name: b"onMetaData".to_vec(), arguments: ScriptDataValue::Null },
            14,
        )
    );
}

#[test]
fn record_prefixes_are_incomplete() {
    // Every strict prefix of a decodable record is an incomplete read,
    // never a failure; this covers losing the list terminator too.
    let mut bytes: Vec<u8> = vec![2];
    bytes.extend(short_string("onMetaData"));
    bytes.push(8);
    bytes.extend(2u32.to_be_bytes());
    bytes.extend(short_string("duration"));
    bytes.push(0);
    bytes.extend(28.133f64.to_be_bytes());
    bytes.extend(short_string("cut"));
    bytes.push(5);
    bytes.extend([0, 0, 9]);
    assert!(matches!(script_data(&bytes), ParseResult::Complete(_, _)));
    for m in 0..bytes.len() {
        assert!(matches!(script_data(&bytes[..m]), ParseResult::Incomplete(_)));
    }
}

fn nested_strict_arrays(levels: u32) -> Vec<u8> {
    // Each level is a strict array of one element; the innermost
    // element is a null.
    let mut bytes: Vec<u8> = vec![5];
    for _ in 0..levels {
        let mut outer: Vec<u8> = vec![10, 0, 0, 0, 1];
        outer.extend(&bytes);
        bytes = outer;
    }
    bytes
}

#[test]
fn nesting_bound() {
    // The innermost value of `levels` wrapped arrays sits at nesting
    // depth `levels`; the decoder allows depths below
    // MAX_NESTING_DEPTH and fails hard one past it.
    let fine = nested_strict_arrays(MAX_NESTING_DEPTH - 1);
    assert!(matches!(script_data_value(&fine), ParseResult::Complete(_, _)));
    let too_deep = nested_strict_arrays(MAX_NESTING_DEPTH);
    assert_eq!(
        script_data_value(&too_deep),
        ParseResult::Failure(ParseError::NestingTooDeep)
    );
}
