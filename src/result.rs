//! Outcomes of native calls and the single seam that turns them into results.
//!
//! Every native call is first classified into a [`Return`] (or one of its variants with a
//! no-data case or with a payload on error). Diagnostics are then fetched from the handle:
//! on a warning all records are drained, on an error the first record becomes the error.
use vstd::prelude::*;
use crate::diagnostics::{DiagnosticRecord, DiagnosticRecordView};

verus! {

/// Status code: the call succeeded.
pub const SQL_SUCCESS: i16 = 0;
/// Status code: the call succeeded and left diagnostic records.
pub const SQL_SUCCESS_WITH_INFO: i16 = 1;
/// Status code: the call failed.
pub const SQL_ERROR: i16 = -1;
/// Status code: there was no (more) data.
pub const SQL_NO_DATA: i16 = 100;

/// Largest record number that can be asked for: record numbers are 16 bit.
pub const MAX_RECORD_NUMBER: i16 = 32767;

/// Outcome of a native call. An error carries no payload: its description is fetched
/// separately from the handle's diagnostics.
#[must_use]
pub enum Return<T> {
    Success(T),
    SuccessWithInfo(T),
    Error,
}

/// Outcome of a native call that may also report that there is no data.
#[must_use]
pub enum ReturnOption<T, E> {
    Success(T),
    Info(T),
    NoData(E),
    Error(E),
}

/// Outcome of a native call that hands back a value on error too (usually the handle).
#[must_use]
pub enum HandleReturn<T, E> {
    Success(T),
    Info(T),
    Error(E),
}

/// A handle whose diagnostic records can be retrieved after an operation.
pub trait GetDiagRec {
    /// The records that the last operation left on the handle, record number one first.
    spec fn diag_records(&self) -> Seq<DiagnosticRecordView>;

    /// Retrieves a diagnostic record.
    ///
    /// Record numbers start at one. If no record is available for the number, `None` is
    /// returned.
    fn get_diag_rec(&self, record_number: i16) -> (r: Option<DiagnosticRecord>)
        requires
            record_number >= 1,
        ensures
            option_view(r) == record_at(self.diag_records(), record_number as int),
    ;
}

/// The view of an optional record.
pub open spec fn option_view(r: Option<DiagnosticRecord>) -> Option<DiagnosticRecordView> {
    match r {
        Some(d) => Some(d@),
        None => None,
    }
}

/// The record with the given number, if there is one.
pub open spec fn record_at(records: Seq<DiagnosticRecordView>, n: int) -> Option<DiagnosticRecordView> {
    if 1 <= n <= records.len() {
        Some(records[n - 1])
    } else {
        None
    }
}

/// How many records can be retrieved from a handle with the given records.
pub open spec fn retrievable(records: Seq<DiagnosticRecordView>) -> int {
    if records.len() <= MAX_RECORD_NUMBER as int {
        records.len() as int
    } else {
        MAX_RECORD_NUMBER as int
    }
}

/// The records that draining a handle yields.
pub open spec fn drained(records: Seq<DiagnosticRecordView>) -> Seq<DiagnosticRecordView> {
    records.take(retrievable(records))
}

/// The error that a failed call is reported as: the first record, or the stand-in record
/// when there is none.
pub open spec fn first_record_or_empty(records: Seq<DiagnosticRecordView>) -> DiagnosticRecordView {
    if records.len() >= 1 {
        records[0]
    } else {
        crate::diagnostics::empty_view()
    }
}

/// Result type of the operations of this crate: the error is the driver's first record.
pub type OdbcResult<T> = core::result::Result<T, DiagnosticRecord>;

/// The views of a sequence of records.
pub open spec fn views(s: Seq<DiagnosticRecord>) -> Seq<DiagnosticRecordView> {
    s.map_values(|d: DiagnosticRecord| d@)
}

/// Retrieves every diagnostic record of the handle, asking for record numbers 1, 2, 3, ...
/// in ascending order until none is left (or the largest record number is reached).
pub fn drain_diagnostics<D: GetDiagRec>(handle: &D) -> (r: Vec<DiagnosticRecord>)
    ensures
        views(r@) == drained(handle.diag_records()),
{
    let ghost recs = handle.diag_records();
    let mut out: Vec<DiagnosticRecord> = Vec::new();
    let mut i: i16 = 1;
    assert(views(out@) =~= recs.take(0));
    loop
        invariant_except_break
            recs == handle.diag_records(),
            1 <= i,
            i - 1 <= recs.len(),
            views(out@) == recs.take(i - 1),
        ensures
            recs == handle.diag_records(),
            views(out@) == drained(recs),
        decreases MAX_RECORD_NUMBER - i,
    {
        match handle.get_diag_rec(i) {
            Some(d) => {
                let ghost before = out@;
                out.push(d);
                assert(views(out@) =~= views(before).push(d@));
                assert(views(out@) =~= recs.take(i as int));
                if i == MAX_RECORD_NUMBER {
                    assert(drained(recs) =~= recs.take(i as int));
                    break;
                }
                i = i + 1;
            },
            None => {
                assert(drained(recs) =~= recs.take(i - 1));
                break;
            },
        }
    }
    out
}

/// Draining a handle with `N` records (at most the largest record number) retrieves all
/// `N`, in ascending record number order; record numbers below one are never asked for, as
/// [`GetDiagRec::get_diag_rec`] does not admit them.
pub proof fn lemma_drain_retrieves_all(records: Seq<DiagnosticRecordView>)
    requires
        records.len() <= MAX_RECORD_NUMBER as int,
    ensures
        drained(records) == records,
        forall|n: int| 1 <= n <= records.len() ==> record_at(records, n) == Some(#[trigger] drained(records)[n - 1]),
{
    assert(drained(records) =~= records);
}

/// Drains the records of a handle whose records are read by someone else: it says which
/// record number to read next (1, 2, 3, ... until one is missing) and collects the records.
pub struct DiagnosticDrain {
    next: i16,
    done: bool,
    records: Vec<DiagnosticRecord>,
}

/// The state of a drain, as plain values.
pub struct DrainView {
    pub next: int,
    pub done: bool,
    pub records: Seq<DiagnosticRecordView>,
}

impl View for DiagnosticDrain {
    type V = DrainView;

    closed spec fn view(&self) -> DrainView {
        DrainView { next: self.next as int, done: self.done, records: views(self.records@) }
    }
}

/// The state of a drain after the record it asked for was read (`None`: there is none).
pub open spec fn drain_next(s: DrainView, rec: Option<DiagnosticRecordView>) -> DrainView {
    match rec {
        Some(d) => DrainView {
            next: if s.next == MAX_RECORD_NUMBER as int { s.next } else { s.next + 1 },
            done: s.next == MAX_RECORD_NUMBER as int,
            records: s.records.push(d),
        },
        None => DrainView { done: true, ..s },
    }
}

impl DiagnosticDrain {
    pub open spec fn wf(&self) -> bool {
        1 <= self@.next <= MAX_RECORD_NUMBER
    }

    pub fn new() -> (r: DiagnosticDrain)
        ensures
            r.wf(),
            r@ == (DrainView { next: 1, done: false, records: Seq::empty() }),
    {
        let r = DiagnosticDrain { next: 1, done: false, records: Vec::new() };
        assert(views(r.records@) =~= Seq::<DiagnosticRecordView>::empty());
        r
    }

    /// The record number to read next, or `None` when draining is over.
    pub fn next_record_number(&self) -> (r: Option<i16>)
        requires
            self.wf(),
        ensures
            self@.done ==> r is None,
            !self@.done ==> r == Some(self@.next as i16),
            r matches Some(n) ==> n >= 1,
    {
        if self.done {
            None
        } else {
            Some(self.next)
        }
    }

    /// Takes the record read for the number asked for.
    pub fn take(&mut self, rec: Option<DiagnosticRecord>)
        requires
            old(self).wf(),
            !old(self)@.done,
        ensures
            final(self).wf(),
            final(self)@ == drain_next(old(self)@, option_view(rec)),
    {
        match rec {
            Some(d) => {
                let ghost before = self.records@;
                self.records.push(d);
                assert(views(self.records@) =~= views(before).push(d@));
                if self.next == MAX_RECORD_NUMBER {
                    self.done = true;
                } else {
                    self.next = self.next + 1;
                }
            },
            None => {
                self.done = true;
            },
        }
    }

    /// The records collected.
    pub fn into_records(self) -> (r: Vec<DiagnosticRecord>)
        ensures
            views(r@) == self@.records,
    {
        self.records
    }
}

/// Reading, for each number a drain asks for, the record of that number keeps what it
/// collected equal to the records read so far; once it is done it holds all records of
/// the handle (up to the largest record number), in order.
pub proof fn lemma_drain_collects_all(s: DrainView, records: Seq<DiagnosticRecordView>)
    requires
        1 <= s.next <= MAX_RECORD_NUMBER,
        !s.done,
        s.next - 1 <= records.len(),
        s.records == records.take(s.next - 1),
    ensures
        ({
            let t = drain_next(s, record_at(records, s.next));
            &&& t.done ==> t.records == drained(records)
            &&& !t.done ==> t.next - 1 <= records.len() && t.records == records.take(t.next - 1)
        }),
{
    let t = drain_next(s, record_at(records, s.next));
    if s.next <= records.len() {
        assert(t.records =~= records.take(s.next));
    }
    if t.done {
        assert(t.records =~= drained(records));
    }
}

/// The error that a failed call reports: every record is retrieved, and the first one (or
/// the stand-in record when there is none) is returned.
pub fn first_diagnostic<D: GetDiagRec>(handle: &D) -> (r: DiagnosticRecord)
    ensures
        r@ == first_record_or_empty(handle.diag_records()),
{
    let ghost recs = handle.diag_records();
    let mut records = drain_diagnostics(handle);
    assert(views(records@).len() == records@.len());
    if records.len() == 0 {
        assert(recs.len() == 0) by {
            if recs.len() > 0 {
                assert(drained(recs).len() > 0);
            }
        }
        DiagnosticRecord::empty()
    } else {
        assert(views(records@)[0] == records@[0]@);
        assert(drained(recs)[0] == recs[0]);
        records.swap_remove(0)
    }
}

/// Turns the outcome of a call into a result; diagnostics come from `handle`.
///
/// A warning drains the handle's records and yields the value; an error yields the first
/// record, or the stand-in record when the driver supplied none.
pub fn into_result_with<D: GetDiagRec, T, E>(diag: &D, ret: HandleReturn<T, E>) -> (r: OdbcResult<T>)
    ensures
        match ret {
            HandleReturn::Success(v) => r == OdbcResult::<T>::Ok(v),
            HandleReturn::Info(v) => r == OdbcResult::<T>::Ok(v),
            HandleReturn::Error(_) => r is Err && r->Err_0@ == first_record_or_empty(diag.diag_records()),
        },
{
    match ret {
        HandleReturn::Success(value) => Ok(value),
        HandleReturn::Info(value) => {
            let _warnings = drain_diagnostics(diag);
            Ok(value)
        },
        HandleReturn::Error(_) => Err(first_diagnostic(diag)),
    }
}

/// Turns the outcome of a call into a result; diagnostics come from the value that the
/// call handed back, on success and on error alike.
pub fn into_result<T: GetDiagRec, E: GetDiagRec>(ret: HandleReturn<T, E>) -> (r: OdbcResult<T>)
    ensures
        match ret {
            HandleReturn::Success(v) => r == OdbcResult::<T>::Ok(v),
            HandleReturn::Info(v) => r == OdbcResult::<T>::Ok(v),
            HandleReturn::Error(e) => r is Err && r->Err_0@ == first_record_or_empty(e.diag_records()),
        },
{
    match ret {
        HandleReturn::Success(value) => Ok(value),
        HandleReturn::Info(value) => {
            let _warnings = drain_diagnostics(&value);
            Ok(value)
        },
        HandleReturn::Error(value) => Err(first_diagnostic(&value)),
    }
}

/// Turns the outcome of a call that may find no data into a result: no data is `Ok(None)`.
pub fn try_into_option<T, E, D: GetDiagRec>(ret: ReturnOption<T, E>, handle: &D) -> (r: OdbcResult<Option<T>>)
    ensures
        match ret {
            ReturnOption::Success(v) => r == OdbcResult::<Option<T>>::Ok(Some(v)),
            ReturnOption::Info(v) => r == OdbcResult::<Option<T>>::Ok(Some(v)),
            ReturnOption::NoData(_) => r == OdbcResult::<Option<T>>::Ok(None),
            ReturnOption::Error(_) => r is Err && r->Err_0@ == first_record_or_empty(handle.diag_records()),
        },
{
    match ret {
        ReturnOption::Success(value) => Ok(Some(value)),
        ReturnOption::Info(value) => {
            let _warnings = drain_diagnostics(handle);
            Ok(Some(value))
        },
        ReturnOption::NoData(_) => Ok(None),
        ReturnOption::Error(_) => Err(first_diagnostic(handle)),
    }
}

impl<T> Return<T> {
    /// Classifies a status code that a native call returned together with a value.
    pub fn from_status(status: i16, value: T) -> (r: Return<T>)
        requires
            status == SQL_SUCCESS || status == SQL_SUCCESS_WITH_INFO || status == SQL_ERROR,
        ensures
            status == SQL_SUCCESS ==> r == Return::Success(value),
            status == SQL_SUCCESS_WITH_INFO ==> r == Return::SuccessWithInfo(value),
            status == SQL_ERROR ==> r is Error,
    {
        if status == SQL_SUCCESS {
            Return::Success(value)
        } else if status == SQL_SUCCESS_WITH_INFO {
            Return::SuccessWithInfo(value)
        } else {
            Return::Error
        }
    }

    /// Turns the outcome into a result; diagnostics come from `odbc_object`.
    ///
    /// A warning drains the handle's records and yields the value; an error yields the first
    /// record, or the stand-in record when the driver supplied none.
    pub fn into_result<O: GetDiagRec>(self, odbc_object: &O) -> (r: OdbcResult<T>)
        ensures
            match self {
                Return::Success(v) => r == OdbcResult::<T>::Ok(v),
                Return::SuccessWithInfo(v) => r == OdbcResult::<T>::Ok(v),
                Return::Error => r is Err && r->Err_0@ == first_record_or_empty(odbc_object.diag_records()),
            },
    {
        match self {
            Return::Success(value) => Ok(value),
            Return::SuccessWithInfo(value) => {
                let _warnings = drain_diagnostics(odbc_object);
                Ok(value)
            },
            Return::Error => Err(first_diagnostic(odbc_object)),
        }
    }
}

/// Classifies the status of a call that reports "no data" as a regular outcome (fetching a
/// row, executing a statement): `true` when there was data.
pub fn data_status(status: i16) -> (r: Return<bool>)
    requires
        status == SQL_SUCCESS || status == SQL_SUCCESS_WITH_INFO || status == SQL_ERROR
            || status == SQL_NO_DATA,
    ensures
        status == SQL_SUCCESS ==> r == Return::Success(true),
        status == SQL_SUCCESS_WITH_INFO ==> r == Return::SuccessWithInfo(true),
        status == SQL_NO_DATA ==> r == Return::Success(false),
        status == SQL_ERROR ==> r is Error,
{
    if status == SQL_NO_DATA {
        Return::Success(false)
    } else {
        Return::from_status(status, true)
    }
}

/// A list of records can stand for a handle, for instance one whose records were collected
/// beforehand.
impl GetDiagRec for Vec<DiagnosticRecord> {
    open spec fn diag_records(&self) -> Seq<DiagnosticRecordView> {
        self@.map_values(|d: DiagnosticRecord| d@)
    }

    fn get_diag_rec(&self, record_number: i16) -> (r: Option<DiagnosticRecord>) {
        let n = record_number as usize;
        if n <= self.len() {
            let d = &self[n - 1];
            Some(copy_record(d))
        } else {
            None
        }
    }
}

/// A field by field copy of a record.
fn copy_record(d: &DiagnosticRecord) -> (r: DiagnosticRecord)
    ensures
        r@ == d@,
{
    DiagnosticRecord {
        state: copy_bytes(&d.state),
        message: copy_bytes(&d.message),
        native_error: d.native_error,
        message_string: d.message_string.clone(),
    }
}

fn copy_bytes(v: &Vec<u8>) -> (r: Vec<u8>)
    ensures
        r@ == v@,
{
    let mut out: Vec<u8> = Vec::new();
    let mut i: usize = 0;
    while i < v.len()
        invariant
            i <= v@.len(),
            out@ == v@.take(i as int),
        decreases v@.len() - i,
    {
        out.push(v[i]);
        i = i + 1;
        assert(out@ =~= v@.take(i as int));
    }
    assert(out@ =~= v@);
    out
}

} // verus!
