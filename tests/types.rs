use odbc::types::{decode_value, OdbcType, SqlDate, SqlSsTime2, SqlTime, SqlTimestamp};
use std::collections::HashSet;

fn round_trip<T: OdbcType + PartialEq + std::fmt::Debug>(v: T) {
    let bytes = v.encoded_value().buf.unwrap();
    assert_eq!(bytes.len() as u64, v.column_size());
    let back: T = decode_value(&bytes).unwrap();
    assert_eq!(back, v);
}

#[test]
fn integers_round_trip() {
    round_trip(0u8);
    round_trip(42u8);
    round_trip(255u8);
    round_trip(0i8);
    round_trip(42i8);
    round_trip(-128i8);
    round_trip(0i16);
    round_trip(-42i16);
    round_trip(i16::MAX);
    round_trip(0u16);
    round_trip(42u16);
    round_trip(0i32);
    round_trip(-42i32);
    round_trip(i32::MIN);
    round_trip(0u32);
    round_trip(42u32);
    round_trip(u32::MAX);
    round_trip(0i64);
    round_trip(-42i64);
    round_trip(i64::MIN);
    round_trip(0u64);
    round_trip(42u64);
    round_trip(u64::MAX);
}

#[test]
fn integer_layout() {
    assert_eq!(258u16.encoded_value().buf.unwrap(), vec![2, 1]);
    assert_eq!((-2i32).encoded_value().buf.unwrap(), vec![0xfe, 0xff, 0xff, 0xff]);
    assert_eq!(i32::convert(&[1, 0, 0, 0]), 1);
    assert_eq!(i16::convert(&[0xff, 0xff]), -1);
    assert_eq!(u64::convert(&[0, 1, 0, 0, 0, 0, 0, 0]), 256);
}

#[test]
fn bools_round_trip() {
    round_trip(true);
    round_trip(false);
    assert_eq!(bool::convert(&[7]), true);
    assert!(decode_value::<bool>(&[1, 0]).is_none());
}

#[test]
fn binary_with_embedded_zero_round_trips() {
    round_trip(Vec::<u8>::new());
    round_trip(vec![1u8, 0, 2, 0, 0, 3]);
}

#[test]
fn wide_text_round_trips() {
    round_trip(Vec::<u16>::new());
    round_trip(vec![0x48u16, 0x20ac, 0, 0xffff]);
    assert_eq!(Vec::<u16>::convert(&[0x41, 0, 0x42, 0, 9]), vec![0x41u16, 0x42]);
    assert_eq!(<Vec<u16> as OdbcType>::null_bytes_count(), 2);
}

#[test]
fn text_is_utf8() {
    let s = String::from("Hello, World!");
    assert_eq!(s.encoded_value().buf.unwrap(), b"Hello, World!".to_vec());
    assert_eq!(s.column_size(), 13);
    assert_eq!(String::convert("Grüße".as_bytes()), "Grüße");
    assert_eq!(String::convert(b""), "");
    assert_eq!(<String as OdbcType>::null_bytes_count(), 1);
}

#[test]
fn dates_and_times_round_trip() {
    round_trip(SqlDate { year: 0, month: 0, day: 0 });
    round_trip(SqlDate { year: -44, month: 3, day: 15 });
    round_trip(SqlTime { hour: 23, minute: 59, second: 58 });
    round_trip(SqlTimestamp { year: 2001, month: 9, day: 11, hour: 8, minute: 46, second: 40, fraction: 123456789 });
    round_trip(SqlSsTime2 { hour: 1, minute: 2, second: 3, fraction: 4 });
    assert_eq!(SqlTimestamp { year: 0, month: 0, day: 0, hour: 0, minute: 0, second: 0, fraction: 0 }.column_size(), 16);
    assert_eq!(SqlSsTime2 { hour: 0, minute: 0, second: 0, fraction: 0 }.column_size(), 12);
    assert!(decode_value::<SqlDate>(&[1, 2, 3]).is_none());
}

#[test]
fn type_codes() {
    assert_eq!(<i32 as OdbcType>::sql_data_type(), 4);
    assert_eq!(<i32 as OdbcType>::c_data_type(), -16);
    assert_eq!(<String as OdbcType>::c_data_type(), 1);
    assert_eq!(<Vec<u8> as OdbcType>::c_data_type(), -2);
    assert_eq!(<SqlTimestamp as OdbcType>::c_data_type(), 93);
}

#[test]
fn encoded_value_test() {
    let mut seen = HashSet::new();
    let mut encoded_values = Vec::new();

    for i in 0..10 {
        for h in 0..10 {
            let string_value = format!("{}{}", i, h);
            let enc = string_value.encoded_value();
            let ptr = enc.value_ptr().unwrap().as_ptr();
            if seen.len() == 0 || !seen.contains(&ptr) {
                seen.insert(ptr);
                encoded_values.push(enc);
            } else {
                panic!("same address occur!");
            }
        }
    }
    seen.clear();
    encoded_values.clear();

    for i in 0..10 {
        for h in 0..10 {
            let owned = format!("{}{}", i, h);
            let str_value: &str = &owned;
            let enc = String::from(str_value).encoded_value();
            let ptr = enc.value_ptr().unwrap().as_ptr();
            if seen.len() == 0 || !seen.contains(&ptr) {
                seen.insert(ptr);
                encoded_values.push(enc);
            } else {
                panic!("same address occur!");
            }
        }
    }
}
