use odbc::arena::{Chunks, CHUNK_LEN};
use odbc::connection::{ConnectionOp, ConnectionState};
use odbc::statement::{has_result_set, ColumnDescriptor, ParameterBindings, StatementOp, StatementState};
use odbc::output::SQL_NULL_DATA;
use odbc::{as_buffer_length, Row};

#[test]
fn fetch_needs_an_executed_query() {
    let s = StatementState::fresh();
    assert!(!s.allows(StatementOp::Fetch));
    assert!(s.allows(StatementOp::ExecDirect));
    let s = s.after(StatementOp::ExecDirect, true, 2);
    assert!(s.allows(StatementOp::Fetch));
    assert!(!s.allows(StatementOp::ExecDirect));
    let s = s.after(StatementOp::CloseCursor, true, 0);
    assert!(!s.allows(StatementOp::Fetch));
    assert!(s.allows(StatementOp::ExecDirect));
}

#[test]
fn zero_columns_mean_no_result_set() {
    assert!(!has_result_set(true, 0));
    assert!(has_result_set(true, 1));
    assert!(!has_result_set(false, 3));
    let s = StatementState::fresh().after(StatementOp::ExecDirect, true, 0);
    assert!(!s.allows(StatementOp::Fetch));
}

#[test]
fn prepared_statements_execute() {
    let s = StatementState::fresh().after(StatementOp::Prepare, true, 0);
    assert!(s.allows(StatementOp::Execute));
    assert!(!s.allows(StatementOp::ExecDirect));
    let s = s.after(StatementOp::Execute, true, 1);
    assert!(s.allows(StatementOp::Fetch));
}

#[test]
fn commit_needs_autocommit_off() {
    let c = ConnectionState::fresh();
    assert!(!c.allows(ConnectionOp::Commit));
    let c = c.after(ConnectionOp::Connect, true);
    assert!(!c.allows(ConnectionOp::Commit));
    let failed = c.after(ConnectionOp::DisableAutocommit, false);
    assert_eq!(failed, c);
    let off = c.after(ConnectionOp::DisableAutocommit, true);
    assert!(off.allows(ConnectionOp::Commit));
    assert!(off.allows(ConnectionOp::Rollback));
    let on = off.after(ConnectionOp::EnableAutocommit, true);
    assert!(!on.allows(ConnectionOp::Commit));
}

#[test]
fn arena_slots_stay_put() {
    let mut chunks = Chunks::new();
    let a = chunks.alloc_slot(1, 10);
    let b = chunks.alloc_slot(200, 20);
    assert_eq!(chunks.chunk_count(), 4);
    assert_eq!((b.chunk, b.offset), (200 / CHUNK_LEN, 200 % CHUNK_LEN));
    assert_eq!(chunks.get(a), 10);
    assert_eq!(chunks.get(b), 20);
    chunks.alloc_slot(1, 11);
    assert_eq!(chunks.get(a), 11);
    assert_eq!(chunks.get(b), 20);
    chunks.clear();
    assert_eq!(chunks.chunk_count(), 0);
}

#[test]
fn binding_sets_indicators() {
    let mut params = ParameterBindings::new();
    let text = String::from("Hello, World!");
    let text_param = params.bind(1, Some(&text)).unwrap();
    assert_eq!(text_param.indicator, 13);
    assert_eq!(text_param.column_size, 13);
    assert_eq!(text_param.c_data_type, 1);
    let null_param = params.bind::<i32>(2, None).unwrap();
    assert_eq!(null_param.indicator, SQL_NULL_DATA);
    let year = 1968i32;
    let year_param = params.bind(3, Some(&year)).unwrap();
    assert_eq!(year_param.indicator, 4);
    assert_eq!(params.indicator(text_param.slot), 13);
    assert_eq!(params.indicator(null_param.slot), SQL_NULL_DATA);
    params.reset();
}

#[test]
fn column_description() {
    let mut buffer = [0u8; 16];
    buffer[..5].copy_from_slice(b"TITLE");
    let d = ColumnDescriptor::from_driver(&buffer, 5, 12, 255, 0, 1);
    assert_eq!(d.name, "TITLE");
    assert_eq!(d.data_type, 12);
    assert_eq!(d.column_size, Some(255));
    assert_eq!(d.decimal_digits, None);
    assert_eq!(d.nullable, Some(true));
    let d = ColumnDescriptor::from_driver(&buffer, 40, 4, 0, 2, 0);
    assert_eq!(d.name.len(), 16);
    assert_eq!(d.column_size, None);
    assert_eq!(d.decimal_digits, Some(2));
    assert_eq!(d.nullable, Some(false));
    let d = ColumnDescriptor::from_driver(&buffer, 2, 4, 0, 0, 2);
    assert_eq!(d.name, "TI");
    assert_eq!(d.nullable, None);
}

#[test]
fn buffer_lengths_fit_sixteen_bits() {
    assert_eq!(as_buffer_length(0), 0);
    assert_eq!(as_buffer_length(1024), 1024);
    assert_eq!(as_buffer_length(32767), 32767);
    assert_eq!(as_buffer_length(40000), 32767);
}

#[test]
fn rows() {
    let mut row = Row::new(3);
    assert_eq!(row.length(), 3);
    assert!(row.get_col(1).unwrap().is_none());
}
