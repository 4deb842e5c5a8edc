use odbc::diagnostics::DiagnosticRecord;
use odbc::result::{
    drain_diagnostics, into_result, into_result_with, try_into_option, GetDiagRec, HandleReturn, Return,
    ReturnOption, data_status,
};

fn record(state: &[u8; 5], native: i32, message: &str) -> DiagnosticRecord {
    let mut st = state.to_vec();
    st.push(0);
    let mut buffer = message.as_bytes().to_vec();
    buffer.push(0);
    DiagnosticRecord::from_driver(&st, native, &buffer, message.len() as i16)
}

#[test]
fn record_from_driver_trims_padding() {
    let buffer = b"Function sequence error\0\0\0\0".to_vec();
    let rec = DiagnosticRecord::from_driver(b"HY010\0", 7, &buffer, 27);
    assert_eq!(rec.get_raw_state(), b"HY010\0");
    assert_eq!(rec.get_raw_message(), b"Function sequence error");
    assert_eq!(rec.get_native_error(), 7);
    assert_eq!(rec.message_text(), "Function sequence error");
}

#[test]
fn record_from_driver_limits_length_to_buffer() {
    let buffer = b"abcdef".to_vec();
    let rec = DiagnosticRecord::from_driver(b"01000\0", 0, &buffer, 1000);
    assert_eq!(rec.get_raw_message(), b"abcde");
    assert_eq!(rec.message_text(), "abcde");
}

#[test]
fn empty_record() {
    let rec = DiagnosticRecord::empty();
    assert_eq!(rec.get_raw_state(), b"HY000\0");
    assert_eq!(rec.get_raw_message(), b"No SQL-driver error information available.");
    assert_eq!(rec.get_native_error(), -1);
}

#[test]
fn drains_every_record_in_order() {
    let handle = vec![record(b"01000", 1, "one"), record(b"01001", 2, "two"), record(b"01002", 3, "three")];
    let drained = drain_diagnostics(&handle);
    assert_eq!(drained.len(), 3);
    let natives: Vec<i32> = drained.iter().map(|d| d.get_native_error()).collect();
    assert_eq!(natives, vec![1, 2, 3]);
    assert!(handle.get_diag_rec(4).is_none());
}

#[test]
fn drains_nothing_from_a_clean_handle() {
    let handle: Vec<DiagnosticRecord> = Vec::new();
    assert!(drain_diagnostics(&handle).is_empty());
}

#[test]
fn error_reports_first_record() {
    let handle = vec![record(b"IM002", 0, "Data source name not found"), record(b"01000", 5, "later")];
    let r: odbc::result::OdbcResult<u8> = Return::Error.into_result(&handle);
    let e = r.err().unwrap();
    assert_eq!(e.get_raw_state(), b"IM002\0");
    assert_eq!(e.message_text(), "Data source name not found");
}

#[test]
fn error_without_records_reports_stand_in() {
    let handle: Vec<DiagnosticRecord> = Vec::new();
    let r: odbc::result::OdbcResult<u8> = Return::Error.into_result(&handle);
    let e = r.err().unwrap();
    assert_eq!(e.get_raw_state(), b"HY000\0");
    assert_eq!(e.get_native_error(), -1);
}

#[test]
fn warning_yields_value() {
    let handle = vec![record(b"01004", 0, "String data, right truncated")];
    assert_eq!(Return::SuccessWithInfo(5u8).into_result(&handle).ok(), Some(5));
    assert_eq!(Return::Success(6u8).into_result(&handle).ok(), Some(6));
}

#[test]
fn no_data_is_none() {
    let handle: Vec<DiagnosticRecord> = Vec::new();
    let r = try_into_option(ReturnOption::<u8, ()>::NoData(()), &handle);
    assert_eq!(r.ok(), Some(None));
    let r = try_into_option(ReturnOption::<u8, ()>::Info(3), &handle);
    assert_eq!(r.ok(), Some(Some(3)));
    let r = try_into_option(ReturnOption::<u8, ()>::Error(()), &handle);
    assert_eq!(r.err().unwrap().get_native_error(), -1);
}

#[test]
fn handle_returned_with_error_supplies_diagnostics() {
    let failing = vec![record(b"08001", 9, "Unable to connect")];
    let r = into_result(HandleReturn::<Vec<DiagnosticRecord>, Vec<DiagnosticRecord>>::Error(failing));
    assert_eq!(r.err().unwrap().get_native_error(), 9);
    let ok = vec![record(b"01000", 1, "warning")];
    let r = into_result(HandleReturn::<Vec<DiagnosticRecord>, Vec<DiagnosticRecord>>::Info(ok));
    assert_eq!(r.ok().unwrap().len(), 1);
}

#[test]
fn diagnostics_from_another_handle() {
    let env = vec![record(b"HY024", 4, "Invalid attribute value")];
    let r = into_result_with(&env, HandleReturn::<u8, ()>::Error(()));
    assert_eq!(r.err().unwrap().get_native_error(), 4);
    let r = into_result_with(&env, HandleReturn::<u8, ()>::Success(1));
    assert_eq!(r.ok(), Some(1));
}

#[test]
fn statuses_with_no_data() {
    assert!(matches!(data_status(0), Return::Success(true)));
    assert!(matches!(data_status(1), Return::SuccessWithInfo(true)));
    assert!(matches!(data_status(100), Return::Success(false)));
    assert!(matches!(data_status(-1), Return::Error));
    assert!(matches!(Return::from_status(1, 'x'), Return::SuccessWithInfo('x')));
}

use odbc::result::DiagnosticDrain;

#[test]
fn drain_asks_in_ascending_order_until_none() {
    let handle = vec![record(b"01000", 1, "one"), record(b"01001", 2, "two")];
    let mut drain = DiagnosticDrain::new();
    let mut asked = Vec::new();
    while let Some(n) = drain.next_record_number() {
        asked.push(n);
        drain.take(handle.get_diag_rec(n));
    }
    assert_eq!(asked, vec![1, 2, 3]);
    let recs = drain.into_records();
    assert_eq!(recs.len(), 2);
    assert_eq!(recs[1].get_native_error(), 2);
}
