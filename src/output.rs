//! Retrieval of variable-length column data with a growable buffer.
//!
//! The driver copies a value into the region of the caller's buffer that starts at the
//! current position, and reports through the indicator how long the value (from that
//! position on) is. When the value does not fit, the buffer grows and the driver is asked
//! again for the rest, which lands behind the part already received:
//!
//! - a known length grows the buffer to hold exactly the rest plus the terminator;
//! - an unknown length ("no total") doubles the buffer.
//!
//! [`GetData`] holds the buffer and makes these decisions; whoever talks to the driver passes
//! each answer to [`GetData::step`] and calls again while it answers [`GetDataStep::Again`].
use vstd::prelude::*;
use crate::result::{Return, SQL_SUCCESS, SQL_SUCCESS_WITH_INFO, SQL_ERROR, SQL_NO_DATA};
use crate::types::{decode_value, OdbcType};
use crate::GenericError;

verus! {

/// Indicator value: the column holds NULL.
pub const SQL_NULL_DATA: i64 = -1;
/// Indicator value: the driver does not know how many bytes remain.
pub const SQL_NO_TOTAL: i64 = -4;
/// Largest buffer the retrieval grows to.
pub const MAX_BUFFER_LEN: usize = 0x4000_0000;
/// Size of the buffer a cursor starts every retrieval with.
pub const INITIAL_BUFFER_LEN: usize = 512;

/// Why a retrieval cannot go on.
#[derive(PartialEq, Eq, Structural, Clone, Copy, Debug)]
pub enum GetDataFault {
    /// The driver reports no data: the column has already been read completely.
    AlreadyRead,
    /// The driver returned a status that get-data never returns.
    UnexpectedStatus,
    /// The indicator is negative (and no sentinel), or points past the buffer on success.
    IndicatorOutOfRange,
    /// The value would need a buffer larger than [`MAX_BUFFER_LEN`].
    TooLarge,
}

/// What one answer of the driver leads to.
pub enum GetDataStep {
    /// The value is not complete: ask the driver again for [`GetData::region_len`] bytes.
    Again,
    /// The retrieval is over: NULL or the value's bytes, with or without a warning, or an
    /// error whose description is in the handle's diagnostics.
    Done(Return<Option<Vec<u8>>>),
    /// The answer breaks the protocol.
    Failed(GetDataFault),
}

/// What one answer of the driver leads to, as plain values.
pub enum StepResult {
    Again,
    Null { warning: bool },
    Value { bytes: Seq<u8>, warning: bool },
    Error,
    Failed(GetDataFault),
}

impl GetDataStep {
    pub open spec fn view(&self) -> StepResult {
        match self {
            GetDataStep::Again => StepResult::Again,
            GetDataStep::Done(Return::Success(None)) => StepResult::Null { warning: false },
            GetDataStep::Done(Return::SuccessWithInfo(None)) => StepResult::Null { warning: true },
            GetDataStep::Done(Return::Success(Some(b))) => StepResult::Value { bytes: b@, warning: false },
            GetDataStep::Done(Return::SuccessWithInfo(Some(b))) => StepResult::Value { bytes: b@, warning: true },
            GetDataStep::Done(Return::Error) => StepResult::Error,
            GetDataStep::Failed(f) => StepResult::Failed(*f),
        }
    }
}

/// The state of a retrieval, as plain values.
pub struct GetDataView {
    /// The whole buffer.
    pub buffer: Seq<u8>,
    /// Where the driver writes next: everything before it has been received.
    pub start: int,
    /// Bytes the driver appends after the data (0 for binary and fixed size values, 1 for
    /// narrow text, 2 for wide text).
    pub terminator: int,
    /// Whether the retrieval is over.
    pub finished: bool,
}

/// `n` zero bytes.
pub open spec fn zeros(n: int) -> Seq<u8> {
    Seq::new(n as nat, |i: int| 0u8)
}

/// The buffer once the driver has written `region` at the current position.
pub open spec fn filled(s: GetDataView, region: Seq<u8>) -> Seq<u8> {
    s.buffer.take(s.start) + region
}

/// The retrieval can go on: the region the driver writes to has room for more than the
/// terminator.
pub open spec fn ready(s: GetDataView) -> bool {
    &&& !s.finished
    &&& 0 <= s.terminator
    &&& 0 <= s.start
    &&& s.start + s.terminator < s.buffer.len()
    &&& s.buffer.len() <= MAX_BUFFER_LEN
}

/// The value did not fit: the rest is `indicator` bytes (or unknown when no total is given).
pub open spec fn truncated(s: GetDataView, indicator: int) -> bool {
    indicator == SQL_NO_TOTAL || (indicator >= 0 && s.start + indicator + s.terminator
        > s.buffer.len())
}

/// Length of the buffer after a truncated answer.
pub open spec fn grown_len(s: GetDataView, indicator: int) -> int {
    if indicator == SQL_NO_TOTAL {
        2 * (s.buffer.len() as int)
    } else {
        s.start + indicator + s.terminator
    }
}

/// What an answer leads to.
pub open spec fn step_result(s: GetDataView, status: i16, indicator: int, region: Seq<u8>) -> StepResult {
    let f = filled(s, region);
    if status == SQL_SUCCESS {
        if indicator == SQL_NULL_DATA {
            StepResult::Null { warning: false }
        } else if 0 <= indicator && s.start + indicator <= s.buffer.len() {
            StepResult::Value { bytes: f.take(s.start + indicator), warning: false }
        } else {
            StepResult::Failed(GetDataFault::IndicatorOutOfRange)
        }
    } else if status == SQL_SUCCESS_WITH_INFO {
        if indicator == SQL_NULL_DATA {
            StepResult::Null { warning: true }
        } else if truncated(s, indicator) {
            if grown_len(s, indicator) <= MAX_BUFFER_LEN {
                StepResult::Again
            } else {
                StepResult::Failed(GetDataFault::TooLarge)
            }
        } else if indicator < 0 {
            StepResult::Failed(GetDataFault::IndicatorOutOfRange)
        } else {
            StepResult::Value { bytes: f.take(s.start + indicator), warning: true }
        }
    } else if status == SQL_ERROR {
        StepResult::Error
    } else if status == SQL_NO_DATA {
        StepResult::Failed(GetDataFault::AlreadyRead)
    } else {
        StepResult::Failed(GetDataFault::UnexpectedStatus)
    }
}

/// The state after an answer: when the driver is asked again, the buffer has grown and the
/// next write starts over the terminator of this one; otherwise the retrieval is over.
pub open spec fn next_state(s: GetDataView, status: i16, indicator: int, region: Seq<u8>) -> GetDataView {
    let f = filled(s, region);
    if step_result(s, status, indicator, region) is Again {
        GetDataView {
            buffer: f + zeros(grown_len(s, indicator) - s.buffer.len()),
            start: s.buffer.len() - s.terminator,
            terminator: s.terminator,
            finished: false,
        }
    } else {
        GetDataView { buffer: f, start: s.start, terminator: s.terminator, finished: true }
    }
}

/// The buffer and position of one column value being retrieved.
pub struct GetData {
    buffer: Vec<u8>,
    start: usize,
    terminator: usize,
    finished: bool,
}

impl View for GetData {
    type V = GetDataView;

    closed spec fn view(&self) -> GetDataView {
        GetDataView {
            buffer: self.buffer@,
            start: self.start as int,
            terminator: self.terminator as int,
            finished: self.finished,
        }
    }
}

impl GetData {
    /// Starts a retrieval with a zeroed buffer of `capacity` bytes, for values that the
    /// driver terminates with `terminator` zero bytes.
    pub fn new(capacity: usize, terminator: usize) -> (r: GetData)
        requires
            terminator < capacity <= MAX_BUFFER_LEN,
        ensures
            r@ == (GetDataView { buffer: zeros(capacity as int), start: 0, terminator: terminator as int, finished: false }),
            ready(r@),
    {
        let mut buffer: Vec<u8> = Vec::new();
        while buffer.len() < capacity
            invariant
                buffer.len() <= capacity,
                buffer@ == zeros(buffer.len() as int),
            decreases capacity - buffer.len(),
        {
            buffer.push(0);
            assert(buffer@ =~= zeros(buffer.len() as int));
        }
        GetData { buffer, start: 0, terminator, finished: false }
    }

    /// Whether the retrieval is over; the driver may not be asked again then.
    pub fn is_finished(&self) -> (r: bool)
        ensures
            r == self@.finished,
    {
        self.finished
    }

    /// Where the driver writes next.
    pub fn start(&self) -> (r: usize)
        ensures
            r == self@.start,
    {
        self.start
    }

    /// How many bytes the driver may write at the current position.
    pub fn region_len(&self) -> (r: usize)
        requires
            ready(self@),
        ensures
            r == self@.buffer.len() - self@.start,
    {
        self.buffer.len() - self.start
    }

    /// The whole buffer.
    pub fn buffer(&self) -> (r: &[u8])
        ensures
            r@ == self@.buffer,
    {
        self.buffer.as_slice()
    }

    /// Takes the driver's answer to a get-data call on the current region: its status, its
    /// indicator and the bytes of the region after the call.
    pub fn step(&mut self, status: i16, indicator: i64, region: &[u8]) -> (r: GetDataStep)
        requires
            ready(old(self)@),
            region@.len() == old(self)@.buffer.len() - old(self)@.start,
        ensures
            r.view() == step_result(old(self)@, status, indicator as int, region@),
            final(self)@ == next_state(old(self)@, status, indicator as int, region@),
            r is Again ==> ready(final(self)@),
    {
        let ghost s = self@;
        let len = self.buffer.len();
        let mut i: usize = 0;
        while i < region.len()
            invariant
                ready(s),
                self.start == s.start,
                self.terminator == s.terminator,
                self.finished == s.finished,
                self.buffer@.len() == len,
                len == s.buffer.len(),
                region@.len() == len - self.start,
                i <= region@.len(),
                self.buffer@ == s.buffer.take(s.start) + region@.take(i as int) + s.buffer.skip(s.start + i),
            decreases region@.len() - i,
        {
            let ghost before = self.buffer@;
            self.buffer.set(self.start + i, region[i]);
            i = i + 1;
            assert(self.buffer@ =~= s.buffer.take(s.start) + region@.take(i as int) + s.buffer.skip(s.start + i));
        }
        assert(self.buffer@ =~= filled(s, region@));
        let start = self.start;
        let tw = self.terminator;
        if status == SQL_SUCCESS {
            self.finished = true;
            if indicator == SQL_NULL_DATA {
                GetDataStep::Done(Return::Success(None))
            } else if 0 <= indicator && indicator as u64 <= (len - start) as u64 {
                let bytes = self.prefix(start + indicator as usize);
                GetDataStep::Done(Return::Success(Some(bytes)))
            } else {
                GetDataStep::Failed(GetDataFault::IndicatorOutOfRange)
            }
        } else if status == SQL_SUCCESS_WITH_INFO {
            if indicator == SQL_NULL_DATA {
                self.finished = true;
                GetDataStep::Done(Return::SuccessWithInfo(None))
            } else if indicator == SQL_NO_TOTAL {
                if len <= MAX_BUFFER_LEN / 2 {
                    self.grow(2 * len);
                    self.start = len - tw;
                    GetDataStep::Again
                } else {
                    self.finished = true;
                    GetDataStep::Failed(GetDataFault::TooLarge)
                }
            } else if indicator < 0 {
                self.finished = true;
                GetDataStep::Failed(GetDataFault::IndicatorOutOfRange)
            } else if indicator as u64 > (len - start - tw) as u64 {
                if indicator as u64 <= (MAX_BUFFER_LEN - start - tw) as u64 {
                    self.grow(start + indicator as usize + tw);
                    self.start = len - tw;
                    GetDataStep::Again
                } else {
                    self.finished = true;
                    GetDataStep::Failed(GetDataFault::TooLarge)
                }
            } else {
                self.finished = true;
                let bytes = self.prefix(start + indicator as usize);
                GetDataStep::Done(Return::SuccessWithInfo(Some(bytes)))
            }
        } else {
            self.finished = true;
            if status == SQL_ERROR {
                GetDataStep::Done(Return::Error)
            } else if status == SQL_NO_DATA {
                GetDataStep::Failed(GetDataFault::AlreadyRead)
            } else {
                GetDataStep::Failed(GetDataFault::UnexpectedStatus)
            }
        }
    }

    /// Appends zeros until the buffer is `new_len` bytes long.
    fn grow(&mut self, new_len: usize)
        requires
            old(self).buffer@.len() <= new_len,
        ensures
            final(self).buffer@ == old(self).buffer@ + zeros(new_len - old(self).buffer@.len()),
            final(self).start == old(self).start,
            final(self).terminator == old(self).terminator,
            final(self).finished == old(self).finished,
    {
        let ghost b = self.buffer@;
        while self.buffer.len() < new_len
            invariant
                b.len() <= self.buffer@.len() <= new_len,
                self.buffer@ == b + zeros(self.buffer@.len() - b.len()),
                self.start == old(self).start,
                self.terminator == old(self).terminator,
                self.finished == old(self).finished,
            decreases new_len - self.buffer@.len(),
        {
            self.buffer.push(0);
            assert(self.buffer@ =~= b + zeros(self.buffer@.len() - b.len()));
        }
    }

    /// A copy of the first `n` bytes of the buffer.
    fn prefix(&self, n: usize) -> (r: Vec<u8>)
        requires
            n <= self.buffer@.len(),
        ensures
            r@ == self.buffer@.take(n as int),
    {
        let mut out: Vec<u8> = Vec::new();
        let mut i: usize = 0;
        while i < n
            invariant
                i <= n <= self.buffer@.len(),
                out@ == self.buffer@.take(i as int),
            decreases n - i,
        {
            out.push(self.buffer[i]);
            i = i + 1;
            assert(out@ =~= self.buffer@.take(i as int));
        }
        out
    }
}

/// Reads the value of a finished retrieval as a `T`; `None` when the bytes do not make a
/// value of that type.
pub fn decode_outcome<T: OdbcType>(outcome: Return<Option<Vec<u8>>>) -> (r: Option<Return<Option<T>>>)
    ensures
        match outcome {
            Return::Error => r matches Some(Return::Error),
            Return::Success(None) => r matches Some(Return::Success(None)),
            Return::SuccessWithInfo(None) => r matches Some(Return::SuccessWithInfo(None)),
            Return::Success(Some(b)) => if T::decodable(b@) {
                r matches Some(Return::Success(Some(v))) && v@ == T::spec_decode(b@)
            } else {
                r is None
            },
            Return::SuccessWithInfo(Some(b)) => if T::decodable(b@) {
                r matches Some(Return::SuccessWithInfo(Some(v))) && v@ == T::spec_decode(b@)
            } else {
                r is None
            },
        },
{
    match outcome {
        Return::Error => Some(Return::Error),
        Return::Success(None) => Some(Return::Success(None)),
        Return::SuccessWithInfo(None) => Some(Return::SuccessWithInfo(None)),
        Return::Success(Some(b)) => match decode_value::<T>(b.as_slice()) {
            Some(v) => Some(Return::Success(Some(v))),
            None => None,
        },
        Return::SuccessWithInfo(Some(b)) => match decode_value::<T>(b.as_slice()) {
            Some(v) => Some(Return::SuccessWithInfo(Some(v))),
            None => None,
        },
    }
}

/// Reads a column in a single call into a fixed buffer, without growing it: NULL is
/// `None`, a length within the buffer gives that many bytes, and anything else is an error.
pub fn column_from_single_read(status: i16, indicator: i64, buffer: &[u8]) -> (r: core::result::Result<Option<Vec<u8>>, GenericError>)
    ensures
        (status == SQL_SUCCESS || status == SQL_SUCCESS_WITH_INFO) ==> {
            if indicator == SQL_NULL_DATA {
                r matches Ok(None)
            } else if indicator == SQL_NO_TOTAL {
                r matches Err(e) && e.0@ == "No total!"@
            } else if 0 <= indicator <= buffer@.len() {
                r matches Ok(Some(b)) && b@ == buffer@.take(indicator as int)
            } else {
                r matches Err(e) && e.0@ == "Indicator outside of the buffer"@
            }
        },
        status == SQL_NO_DATA ==> (r matches Err(e) && e.0@ == "No field data"@),
        status != SQL_SUCCESS && status != SQL_SUCCESS_WITH_INFO && status != SQL_NO_DATA
            ==> (r matches Err(e) && e.0@ == "Error fetching field data"@),
{
    if status == SQL_SUCCESS || status == SQL_SUCCESS_WITH_INFO {
        if indicator == SQL_NULL_DATA {
            Ok(None)
        } else if indicator == SQL_NO_TOTAL {
            Err(GenericError("No total!".to_owned()))
        } else if 0 <= indicator && indicator as u64 <= buffer.len() as u64 {
            let n = indicator as usize;
            let mut out: Vec<u8> = Vec::new();
            let mut i: usize = 0;
            while i < n
                invariant
                    i <= n <= buffer@.len(),
                    out@ == buffer@.take(i as int),
                decreases n - i,
            {
                out.push(buffer[i]);
                i = i + 1;
                assert(out@ =~= buffer@.take(i as int));
            }
            Ok(Some(out))
        } else {
            Err(GenericError("Indicator outside of the buffer".to_owned()))
        }
    } else if status == SQL_NO_DATA {
        Err(GenericError("No field data".to_owned()))
    } else {
        Err(GenericError("Error fetching field data".to_owned()))
    }
}

/// A driver that holds `value` and answers a get-data call in the usual way: `pos` bytes have
/// been delivered, the region has `n` bytes, and `tw` of them are kept for the terminator.
/// The rest of the value fits when it takes at most `n - tw` bytes.
pub open spec fn rest_fits(value: Seq<u8>, pos: int, n: int, tw: int) -> bool {
    value.len() - pos <= n - tw
}

/// The status such a driver returns: success when the rest fits, a warning otherwise.
pub open spec fn model_status(value: Seq<u8>, pos: int, n: int, tw: int) -> i16 {
    if rest_fits(value, pos, n, tw) {
        SQL_SUCCESS
    } else {
        SQL_SUCCESS_WITH_INFO
    }
}

/// The indicator such a driver returns: the length of the rest, or "no total" when it
/// truncates and does not know the length.
pub open spec fn model_indicator(value: Seq<u8>, pos: int, n: int, tw: int, no_total: bool) -> int {
    if !rest_fits(value, pos, n, tw) && no_total {
        SQL_NO_TOTAL as int
    } else {
        value.len() - pos
    }
}

/// The region such a driver leaves behind: as much of the rest as fits, then zeros.
pub open spec fn model_region(value: Seq<u8>, pos: int, n: int, tw: int) -> Seq<u8> {
    let k = if rest_fits(value, pos, n, tw) { value.len() - pos } else { n - tw };
    value.subrange(pos, pos + k) + zeros(n - k)
}

/// A retrieval of `value` from a driver that reports "no total" as long as the buffer is
/// shorter than `threshold` bytes. The result is the final outcome and the number of calls
/// made; `fuel` bounds the calls after the first.
pub open spec fn model_run(s: GetDataView, value: Seq<u8>, threshold: int, fuel: nat) -> (StepResult, nat)
    decreases fuel,
{
    let n = s.buffer.len() - s.start;
    let no_total = s.buffer.len() < threshold;
    let status = model_status(value, s.start, n, s.terminator);
    let indicator = model_indicator(value, s.start, n, s.terminator, no_total);
    let region = model_region(value, s.start, n, s.terminator);
    let r = step_result(s, status, indicator, region);
    if r is Again && fuel > 0 {
        let (o, c) = model_run(next_state(s, status, indicator, region), value, threshold, (fuel - 1) as nat);
        (o, c + 1)
    } else {
        (r, 1)
    }
}

/// How often a buffer of `len` bytes doubles before it holds `threshold` bytes.
pub open spec fn doublings(len: int, threshold: int) -> nat
    decreases (if len < threshold { threshold - len } else { 0 }),
{
    if len <= 0 || len >= threshold {
        0
    } else {
        1 + doublings(2 * len, threshold)
    }
}

pub open spec fn pow2(n: nat) -> int
    decreases n,
{
    if n == 0 {
        1
    } else {
        2 * pow2((n - 1) as nat)
    }
}

/// The state a retrieval starts in.
pub open spec fn initial(capacity: int, terminator: int) -> GetDataView {
    GetDataView { buffer: zeros(capacity), start: 0, terminator, finished: false }
}

/// A value of exactly `L` bytes read into a buffer of `L` bytes, where the terminator does
/// not fit: the first answer is a truncation, the buffer grows once, and the second answer
/// completes the whole `L`-byte value.
pub proof fn lemma_exact_capacity_truncates(value: Seq<u8>, terminator: int)
    requires
        1 <= terminator < value.len(),
        value.len() + terminator <= MAX_BUFFER_LEN,
    ensures
        ({
            let s0 = initial(value.len() as int, terminator);
            let n0 = value.len() as int;
            let st0 = model_status(value, 0, n0, terminator);
            let ind0 = model_indicator(value, 0, n0, terminator, false);
            let reg0 = model_region(value, 0, n0, terminator);
            let s1 = next_state(s0, st0, ind0, reg0);
            let n1 = s1.buffer.len() - s1.start;
            let st1 = model_status(value, s1.start, n1, terminator);
            let ind1 = model_indicator(value, s1.start, n1, terminator, false);
            let reg1 = model_region(value, s1.start, n1, terminator);
            &&& step_result(s0, st0, ind0, reg0) is Again
            &&& s1.buffer.len() == value.len() + terminator
            &&& step_result(s1, st1, ind1, reg1) == (StepResult::Value { bytes: value, warning: false })
        }),
{
    let l = value.len() as int;
    let s0 = initial(l, terminator);
    let reg0 = model_region(value, 0, l, terminator);
    let s1 = next_state(s0, SQL_SUCCESS_WITH_INFO, l, reg0);
    assert(s1.start == l - terminator);
    let n1 = s1.buffer.len() - s1.start;
    assert(n1 == 2 * terminator);
    let reg1 = model_region(value, s1.start, n1, terminator);
    let f = filled(s1, reg1);
    assert(f.take(l) =~= value);
}

/// A value of `L` bytes read into a buffer of `L` plus terminator bytes: the first answer
/// completes it, so the driver is asked only once.
pub proof fn lemma_room_for_terminator_reads_once(value: Seq<u8>, terminator: int)
    requires
        0 <= terminator,
        value.len() + terminator <= MAX_BUFFER_LEN,
        0 < value.len() + terminator,
    ensures
        ({
            let n0 = value.len() + terminator;
            let s0 = initial(n0, terminator);
            step_result(
                s0,
                model_status(value, 0, n0, terminator),
                model_indicator(value, 0, n0, terminator, false),
                model_region(value, 0, n0, terminator),
            ) == (StepResult::Value { bytes: value, warning: false })
        }),
{
    let n0 = value.len() + terminator;
    let s0 = initial(n0, terminator);
    let f = filled(s0, model_region(value, 0, n0, terminator));
    assert(f.take(value.len() as int) =~= value);
}

/// What holds of a retrieval of `value` in progress: what was received is a prefix of it.
pub open spec fn receiving(s: GetDataView, value: Seq<u8>) -> bool {
    &&& ready(s)
    &&& s.terminator <= 2
    &&& s.start <= value.len()
    &&& s.buffer.take(s.start) == value.take(s.start)
}

pub proof fn lemma_doublings_step(len: int, threshold: int)
    requires
        0 < len < threshold,
    ensures
        doublings(len, threshold) == 1 + doublings(2 * len, threshold),
{
}

/// The number of doublings is logarithmic: before the last doubling the buffer was still
/// shorter than the threshold.
pub proof fn lemma_doublings_logarithmic(len: int, threshold: int)
    requires
        0 < len,
    ensures
        doublings(len, threshold) == 0 || len * pow2((doublings(len, threshold) - 1) as nat) < threshold,
    decreases (if len < threshold { threshold - len } else { 0 }),
{
    if len < threshold {
        lemma_doublings_logarithmic(2 * len, threshold);
        let d = doublings(2 * len, threshold);
        if d > 0 {
            assert(pow2(d) == 2 * pow2((d - 1) as nat));
            assert(len * pow2(d) == (2 * len) * pow2((d - 1) as nat)) by (nonlinear_arith)
                requires pow2(d) == 2 * pow2((d - 1) as nat);
        }
    }
}

/// The bound on the calls that a retrieval in state `s` needs.
pub open spec fn calls_bound(s: GetDataView, threshold: int) -> nat {
    doublings(s.buffer.len() as int, threshold) + 2
}

/// One answer that the value fits completes the retrieval with the whole value.
proof fn lemma_model_fits(s: GetDataView, value: Seq<u8>, threshold: int, fuel: nat)
    requires
        receiving(s, value),
        rest_fits(value, s.start, s.buffer.len() - s.start, s.terminator),
    ensures
        model_run(s, value, threshold, fuel) == (StepResult::Value { bytes: value, warning: false }, 1nat),
{
    let n = s.buffer.len() - s.start;
    let region = model_region(value, s.start, n, s.terminator);
    let f = filled(s, region);
    assert(f.take(value.len() as int) =~= value);
}

/// After a truncation, what was received is still a prefix of the value.
proof fn lemma_model_truncated(s: GetDataView, value: Seq<u8>, no_total: bool)
    requires
        receiving(s, value),
        !rest_fits(value, s.start, s.buffer.len() - s.start, s.terminator),
        grown_len(s, model_indicator(value, s.start, s.buffer.len() - s.start, s.terminator, no_total)) <= MAX_BUFFER_LEN,
    ensures
        ({
            let n = s.buffer.len() - s.start;
            let st = model_status(value, s.start, n, s.terminator);
            let ind = model_indicator(value, s.start, n, s.terminator, no_total);
            let reg = model_region(value, s.start, n, s.terminator);
            let s2 = next_state(s, st, ind, reg);
            &&& step_result(s, st, ind, reg) is Again
            &&& receiving(s2, value)
            &&& s2.start == s.buffer.len() - s.terminator
            &&& s2.buffer.len() == grown_len(s, ind)
        }),
{
    let n = s.buffer.len() - s.start;
    let ind = model_indicator(value, s.start, n, s.terminator, no_total);
    let reg = model_region(value, s.start, n, s.terminator);
    let s2 = next_state(s, SQL_SUCCESS_WITH_INFO, ind, reg);
    let f = filled(s, reg);
    assert(s2.buffer.take(s2.start) =~= value.take(s2.start));
}

/// A retrieval from a driver that reports "no total" until the buffer holds `threshold`
/// bytes ends with the whole value after at most one call per doubling plus two.
pub proof fn lemma_no_total_terminates(s: GetDataView, value: Seq<u8>, threshold: int, fuel: nat)
    requires
        receiving(s, value),
        value.len() <= MAX_BUFFER_LEN / 4,
        threshold <= MAX_BUFFER_LEN / 4,
        s.buffer.len() <= MAX_BUFFER_LEN / 4 || s.buffer.len() >= threshold,
        fuel + 1 >= calls_bound(s, threshold),
    ensures
        model_run(s, value, threshold, fuel).0 == (StepResult::Value { bytes: value, warning: false }),
        model_run(s, value, threshold, fuel).1 <= calls_bound(s, threshold),
    decreases fuel,
{
    let n = s.buffer.len() - s.start;
    let len = s.buffer.len() as int;
    if rest_fits(value, s.start, n, s.terminator) {
        lemma_model_fits(s, value, threshold, fuel);
    } else if len < threshold {
        lemma_model_truncated(s, value, true);
        let ind = model_indicator(value, s.start, n, s.terminator, true);
        let s2 = next_state(s, SQL_SUCCESS_WITH_INFO, ind, model_region(value, s.start, n, s.terminator));
        lemma_doublings_step(len, threshold);
        lemma_no_total_terminates(s2, value, threshold, (fuel - 1) as nat);
    } else {
        lemma_model_truncated(s, value, false);
        let ind = model_indicator(value, s.start, n, s.terminator, false);
        let s2 = next_state(s, SQL_SUCCESS_WITH_INFO, ind, model_region(value, s.start, n, s.terminator));
        assert(rest_fits(value, s2.start, s2.buffer.len() - s2.start, s2.terminator));
        lemma_model_fits(s2, value, threshold, (fuel - 1) as nat);
    }
}

/// From a fresh buffer of `capacity` bytes, a driver that reports "no total" until the
/// buffer holds `threshold` bytes delivers the whole value within `doublings + 2` calls.
pub proof fn lemma_no_total_from_start(capacity: int, terminator: int, value: Seq<u8>, threshold: int)
    requires
        0 <= terminator <= 2,
        terminator < capacity <= MAX_BUFFER_LEN / 4,
        value.len() <= MAX_BUFFER_LEN / 4,
        threshold <= MAX_BUFFER_LEN / 4,
    ensures
        ({
            let fuel = doublings(capacity, threshold) + 1;
            let (o, c) = model_run(initial(capacity, terminator), value, threshold, fuel);
            &&& o == (StepResult::Value { bytes: value, warning: false })
            &&& c <= doublings(capacity, threshold) + 2
        }),
{
    let s0 = initial(capacity, terminator);
    assert(s0.buffer.take(0) =~= value.take(0));
    lemma_no_total_terminates(s0, value, threshold, doublings(capacity, threshold) + 1);
}

} // verus!
