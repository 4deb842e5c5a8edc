use odbc::output::{GetData, GetDataFault, GetDataStep, INITIAL_BUFFER_LEN, SQL_NO_TOTAL, SQL_NULL_DATA};
use odbc::result::{Return, SQL_ERROR, SQL_NO_DATA, SQL_SUCCESS, SQL_SUCCESS_WITH_INFO};

/// A driver holding one value that answers get-data calls the way a driver manager does.
struct Driver {
    value: Vec<u8>,
    pos: usize,
    terminator: usize,
    no_total_below: usize,
    calls: usize,
}

impl Driver {
    fn new(value: Vec<u8>, terminator: usize) -> Driver {
        Driver { value, pos: 0, terminator, no_total_below: 0, calls: 0 }
    }

    fn answer(&mut self, region_len: usize, buffer_len: usize) -> (i16, i64, Vec<u8>) {
        self.calls += 1;
        let rest = self.value.len() - self.pos;
        let mut region = vec![0u8; region_len];
        if rest + self.terminator <= region_len {
            region[..rest].copy_from_slice(&self.value[self.pos..]);
            self.pos += rest;
            (SQL_SUCCESS, rest as i64, region)
        } else {
            let k = region_len - self.terminator;
            region[..k].copy_from_slice(&self.value[self.pos..self.pos + k]);
            self.pos += k;
            let indicator = if buffer_len < self.no_total_below { SQL_NO_TOTAL } else { rest as i64 };
            (SQL_SUCCESS_WITH_INFO, indicator, region)
        }
    }
}

fn run(capacity: usize, driver: &mut Driver) -> GetDataStep {
    let mut state = GetData::new(capacity, driver.terminator);
    loop {
        let (status, indicator, region) = driver.answer(state.region_len(), state.buffer().len());
        match state.step(status, indicator, &region) {
            GetDataStep::Again => continue,
            done => return done,
        }
    }
}

fn value_of(step: GetDataStep) -> Vec<u8> {
    match step {
        GetDataStep::Done(Return::Success(Some(bytes))) => bytes,
        _ => panic!("retrieval did not complete with a value"),
    }
}

fn sample(len: usize) -> Vec<u8> {
    (0..len).map(|i| (i % 251) as u8 + 1).collect()
}

#[test]
fn exact_capacity_detects_truncation() {
    let value = sample(40);
    let mut driver = Driver::new(value.clone(), 1);
    let got = value_of(run(40, &mut driver));
    assert_eq!(got, value);
    assert_eq!(driver.calls, 2);
}

#[test]
fn exact_capacity_wide_text() {
    let value = sample(64);
    let mut driver = Driver::new(value.clone(), 2);
    let got = value_of(run(64, &mut driver));
    assert_eq!(got, value);
    assert_eq!(driver.calls, 2);
}

#[test]
fn room_for_terminator_reads_once() {
    let value = sample(40);
    let mut driver = Driver::new(value.clone(), 1);
    let got = value_of(run(41, &mut driver));
    assert_eq!(got, value);
    assert_eq!(driver.calls, 1);
}

#[test]
fn binary_value_filling_the_buffer_reads_once() {
    let value = sample(40);
    let mut driver = Driver::new(value.clone(), 0);
    let got = value_of(run(40, &mut driver));
    assert_eq!(got, value);
    assert_eq!(driver.calls, 1);
}

#[test]
fn no_total_growth_terminates_logarithmically() {
    let value = sample(100_000);
    let mut driver = Driver::new(value.clone(), 1);
    driver.no_total_below = 70_000;
    let got = value_of(run(INITIAL_BUFFER_LEN, &mut driver));
    assert_eq!(got, value);
    // 512 doubles 8 times to 131072 >= 70000; once it is reached the rest is known.
    assert!(driver.calls <= 8 + 2);
}

#[test]
fn six_hundred_bytes_with_zero_at_511_need_one_retry() {
    let mut value = vec![b'a'; 600];
    value[511] = 0;
    let mut driver = Driver::new(value.clone(), 1);
    let got = value_of(run(INITIAL_BUFFER_LEN, &mut driver));
    assert_eq!(got.len(), 600);
    assert_eq!(got[511], 0);
    assert_eq!(got, value);
    assert_eq!(driver.calls, 2);
}

#[test]
fn null_column() {
    let mut state = GetData::new(16, 1);
    let region = vec![0u8; state.region_len()];
    match state.step(SQL_SUCCESS, SQL_NULL_DATA, &region) {
        GetDataStep::Done(Return::Success(None)) => (),
        _ => panic!("NULL expected"),
    }
    assert!(state.is_finished());
}

#[test]
fn warning_without_truncation_keeps_the_value() {
    let mut state = GetData::new(16, 1);
    let mut region = vec![0u8; 16];
    region[..3].copy_from_slice(b"abc");
    match state.step(SQL_SUCCESS_WITH_INFO, 3, &region) {
        GetDataStep::Done(Return::SuccessWithInfo(Some(bytes))) => assert_eq!(bytes, b"abc".to_vec()),
        _ => panic!("value with warning expected"),
    }
}

#[test]
fn error_status() {
    let mut state = GetData::new(16, 1);
    let region = vec![0u8; 16];
    assert!(matches!(state.step(SQL_ERROR, 0, &region), GetDataStep::Done(Return::Error)));
}

#[test]
fn column_already_read() {
    let mut state = GetData::new(16, 1);
    let region = vec![0u8; 16];
    assert!(matches!(state.step(SQL_NO_DATA, 0, &region), GetDataStep::Failed(GetDataFault::AlreadyRead)));
}

#[test]
fn unexpected_status() {
    let mut state = GetData::new(16, 1);
    let region = vec![0u8; 16];
    assert!(matches!(state.step(99, 0, &region), GetDataStep::Failed(GetDataFault::UnexpectedStatus)));
}

#[test]
fn indicator_past_the_buffer() {
    let mut state = GetData::new(16, 1);
    let region = vec![0u8; 16];
    assert!(matches!(state.step(SQL_SUCCESS, 17, &region), GetDataStep::Failed(GetDataFault::IndicatorOutOfRange)));
}

#[test]
fn negative_indicator() {
    let mut state = GetData::new(16, 1);
    let region = vec![0u8; 16];
    assert!(matches!(state.step(SQL_SUCCESS_WITH_INFO, -7, &region), GetDataStep::Failed(GetDataFault::IndicatorOutOfRange)));
}

#[test]
fn value_too_large() {
    let mut state = GetData::new(16, 1);
    let region = vec![0u8; 16];
    assert!(matches!(state.step(SQL_SUCCESS_WITH_INFO, i64::MAX, &region), GetDataStep::Failed(GetDataFault::TooLarge)));
}

#[test]
fn known_total_grows_to_exact_size() {
    let mut state = GetData::new(8, 1);
    let region = vec![7u8; 8];
    assert!(matches!(state.step(SQL_SUCCESS_WITH_INFO, 20, &region), GetDataStep::Again));
    assert_eq!(state.buffer().len(), 21);
    assert_eq!(state.start(), 7);
    assert_eq!(state.region_len(), 14);
}

#[test]
fn no_total_doubles() {
    let mut state = GetData::new(8, 2);
    let region = vec![7u8; 8];
    assert!(matches!(state.step(SQL_SUCCESS_WITH_INFO, SQL_NO_TOTAL, &region), GetDataStep::Again));
    assert_eq!(state.buffer().len(), 16);
    assert_eq!(state.start(), 6);
}

use odbc::output::{column_from_single_read, decode_outcome};

#[test]
fn decodes_finished_retrieval() {
    let r = decode_outcome::<i32>(Return::Success(Some(vec![0xd0, 0x07, 0, 0])));
    assert!(matches!(r, Some(Return::Success(Some(2000)))));
    let r = decode_outcome::<String>(Return::SuccessWithInfo(Some(b"Jurassic Park".to_vec())));
    match r {
        Some(Return::SuccessWithInfo(Some(s))) => assert_eq!(s, "Jurassic Park"),
        _ => panic!("text expected"),
    }
    assert!(decode_outcome::<i32>(Return::Success(Some(vec![1]))).is_none());
    assert!(matches!(decode_outcome::<i32>(Return::Success(None)), Some(Return::Success(None))));
    assert!(matches!(decode_outcome::<i32>(Return::Error), Some(Return::Error)));
}

#[test]
fn single_read_columns() {
    let buffer = b"1968 and more".to_vec();
    assert_eq!(column_from_single_read(SQL_SUCCESS, 4, &buffer).unwrap(), Some(b"1968".to_vec()));
    assert_eq!(column_from_single_read(SQL_SUCCESS_WITH_INFO, SQL_NULL_DATA, &buffer).unwrap(), None);
    assert_eq!(column_from_single_read(SQL_SUCCESS, SQL_NO_TOTAL, &buffer).unwrap_err().0, "No total!");
    assert_eq!(column_from_single_read(SQL_SUCCESS, 99, &buffer).unwrap_err().0, "Indicator outside of the buffer");
    assert_eq!(column_from_single_read(SQL_NO_DATA, 0, &buffer).unwrap_err().0, "No field data");
    assert_eq!(column_from_single_read(SQL_ERROR, 0, &buffer).unwrap_err().0, "Error fetching field data");
}
