//! Diagnostic records that the driver attaches to a handle after an operation.
use vstd::prelude::*;
use crate::text::{decode_text, utf8_decoded};

verus! {

/// Size of the buffer that receives a diagnostic message, terminator included.
pub const MAX_DIAGNOSTIC_MESSAGE_SIZE: usize = 1024;

/// Number of bytes of a SQLSTATE code, terminator included.
pub const SQL_STATE_SIZE: usize = 6;

/// A diagnostic record: SQLSTATE, native error code and message.
#[derive(Debug)]
pub struct DiagnosticRecord {
    /// Five characters of SQLSTATE followed by a terminating zero.
    pub state: Vec<u8>,
    /// The message bytes as the driver wrote them, without trailing zeros.
    pub message: Vec<u8>,
    pub native_error: i32,
    /// The message decoded to text.
    pub message_string: String,
}

/// SQLSTATE of the record that stands in when the driver supplies none: `HY000`.
pub open spec fn empty_state() -> Seq<u8> {
    seq![72u8, 89, 48, 48, 48, 0]
}

/// Message of the record that stands in when the driver supplies none:
/// `No SQL-driver error information available.`
pub open spec fn empty_message() -> Seq<u8> {
    seq![
        78u8, 111, 32, 83, 81, 76, 45, 100, 114, 105, 118, 101, 114, 32, 101, 114, 114, 111, 114,
        32, 105, 110, 102, 111, 114, 109, 97, 116, 105, 111, 110, 32, 97, 118, 97, 105, 108, 97,
        98, 108, 101, 46,
    ]
}

/// The stand-in record, as plain values.
pub open spec fn empty_view() -> DiagnosticRecordView {
    DiagnosticRecordView {
        state: empty_state(),
        message: empty_message(),
        native_error: -1i32,
        message_string: Seq::empty(),
    }
}

/// Length of the message in `buffer[..n]` once trailing zeros are removed.
pub open spec fn trimmed_len(buffer: Seq<u8>, n: int) -> int
    decreases n,
{
    if n <= 0 {
        0
    } else if buffer[n - 1] == 0 {
        trimmed_len(buffer, n - 1)
    } else {
        n
    }
}

/// Length that the driver reported for a message, limited to what the buffer holds.
pub open spec fn reported_len(buffer_len: int, text_length: int) -> int {
    if text_length < 0 {
        0
    } else if text_length > buffer_len - 1 {
        buffer_len - 1
    } else {
        text_length
    }
}

/// What a diagnostic record holds, as plain values.
pub struct DiagnosticRecordView {
    pub state: Seq<u8>,
    pub message: Seq<u8>,
    pub native_error: i32,
    pub message_string: Seq<char>,
}

impl View for DiagnosticRecord {
    type V = DiagnosticRecordView;

    open spec fn view(&self) -> DiagnosticRecordView {
        DiagnosticRecordView {
            state: self.state@,
            message: self.message@,
            native_error: self.native_error,
            message_string: self.message_string@,
        }
    }
}

impl DiagnosticRecord {
    /// The record is well formed: a five character state followed by a zero.
    pub open spec fn wf(&self) -> bool {
        self.state@.len() == SQL_STATE_SIZE && self.state@[5] == 0
    }

    /// Raw SQLSTATE bytes, terminator included.
    pub fn get_raw_state(&self) -> (r: &[u8])
        ensures
            r@ == self.state@,
    {
        self.state.as_slice()
    }

    /// Raw message bytes, for callers that decode them themselves.
    pub fn get_raw_message(&self) -> (r: &[u8])
        ensures
            r@ == self.message@,
    {
        self.message.as_slice()
    }

    /// Native error code of the driver.
    pub fn get_native_error(&self) -> (r: i32)
        ensures
            r == self.native_error,
    {
        self.native_error
    }

    /// The message decoded to text.
    pub fn message_text(&self) -> (r: &str)
        ensures
            r@ == self.message_string@,
    {
        self.message_string.as_str()
    }

    /// The record used when the driver reports an error but supplies no diagnostics.
    pub fn empty() -> (r: DiagnosticRecord)
        ensures
            r.wf(),
            r@ == empty_view(),
    {
        let state: Vec<u8> = vec![72u8, 89, 48, 48, 48, 0];
        let message: Vec<u8> = vec![
            78u8, 111, 32, 83, 81, 76, 45, 100, 114, 105, 118, 101, 114, 32, 101, 114, 114, 111,
            114, 32, 105, 110, 102, 111, 114, 109, 97, 116, 105, 111, 110, 32, 97, 118, 97, 105,
            108, 97, 98, 108, 101, 46,
        ];
        assert(state@ =~= empty_state());
        assert(message@ =~= empty_message());
        let r = DiagnosticRecord { state, message, native_error: -1, message_string: String::new() };
        assert(r@.message_string =~= Seq::<char>::empty());
        r
    }

    /// Builds a record from what the driver wrote: the state, the native error, the message
    /// buffer and the message length it reported.
    ///
    /// The reported length is limited to the buffer (less one byte for the terminator), and
    /// trailing zeros, which some drivers pad the message with, are dropped.
    pub fn from_driver(state: &[u8], native_error: i32, buffer: &[u8], text_length: i16) -> (r:
        DiagnosticRecord)
        requires
            state@.len() == SQL_STATE_SIZE,
            state@[5] == 0,
            buffer@.len() >= 1,
        ensures
            r.wf(),
            r.state@ == state@,
            r.native_error == native_error,
            r.message@ == buffer@.take(
                trimmed_len(buffer@, reported_len(buffer@.len() as int, text_length as int)),
            ),
            r.message_string@ == utf8_decoded(r.message@),
    {
        let ghost n0 = reported_len(buffer@.len() as int, text_length as int);
        let mut len: usize = if text_length < 0 {
            0
        } else if text_length as usize > buffer.len() - 1 {
            buffer.len() - 1
        } else {
            text_length as usize
        };
        assert(len as int == n0);
        while len > 0 && buffer[len - 1] == 0
            invariant
                len <= buffer@.len(),
                trimmed_len(buffer@, len as int) == trimmed_len(buffer@, n0),
            decreases len,
        {
            len = len - 1;
        }
        let mut message: Vec<u8> = Vec::new();
        let mut i: usize = 0;
        while i < len
            invariant
                i <= len <= buffer@.len(),
                message@ == buffer@.take(i as int),
            decreases len - i,
        {
            message.push(buffer[i]);
            i = i + 1;
            assert(message@ =~= buffer@.take(i as int));
        }
        let mut st: Vec<u8> = Vec::new();
        let mut j: usize = 0;
        while j < state.len()
            invariant
                j <= state@.len(),
                st@ == state@.take(j as int),
            decreases state@.len() - j,
        {
            st.push(state[j]);
            j = j + 1;
            assert(st@ =~= state@.take(j as int));
        }
        assert(st@ =~= state@);
        let message_string = decode_text(message.as_slice());
        DiagnosticRecord { state: st, message, native_error, message_string }
    }
}

} // verus!
