//! Decisions of the statement lifecycle: which operations a statement admits in which
//! state, what state an operation leads to, how a column description is read from what the
//! driver wrote, and how parameters are bound.
use vstd::prelude::*;
use crate::arena::{Chunks, IndicatorSlot, slot_of, CHUNK_LEN};
use crate::output::SQL_NULL_DATA;
use crate::text::{decode_text, utf8_decoded};
use crate::types::{EncodedValue, OdbcType};

verus! {

// The state markers are types, used as type parameters of statements; their one variant
// is never needed.

/// State marker: a freshly allocated statement (also one that has been executed and whose
/// result set is closed).
pub enum Allocated {
    Marker,
}

/// State marker: an executed statement, which admits the same operations as a freshly
/// allocated one once its result set is closed.
pub type Executed = Allocated;

/// State marker: a statement compiled into an access plan.
pub enum Prepared {
    Marker,
}

/// State marker: a statement with an open result set cursor.
pub enum HasResult {
    Marker,
}

/// State marker: a statement without a result set.
pub enum NoResult {
    Marker,
}

/// The state of a statement, as the lifecycle table sees it.
#[derive(PartialEq, Eq, Structural, Clone, Copy, Debug)]
pub struct StatementState {
    /// Compiled by `prepare` (as opposed to freshly allocated).
    pub prepared: bool,
    /// A result set cursor is open.
    pub has_result: bool,
}

/// Operations on a statement.
#[derive(PartialEq, Eq, Structural, Clone, Copy, Debug)]
pub enum StatementOp {
    ExecDirect,
    Tables,
    Prepare,
    Execute,
    Fetch,
    CloseCursor,
    NumResultCols,
    DescribeCol,
    AffectedRowCount,
    BindParameter,
    ResetParameters,
}

/// The state of a statement right after it is allocated.
pub open spec fn fresh_statement() -> StatementState {
    StatementState { prepared: false, has_result: false }
}

/// Whether a statement in state `s` admits operation `op`.
pub open spec fn statement_allows(s: StatementState, op: StatementOp) -> bool {
    match op {
        StatementOp::ExecDirect | StatementOp::Tables | StatementOp::Prepare => !s.prepared && !s.has_result,
        StatementOp::Execute => s.prepared && !s.has_result,
        StatementOp::Fetch | StatementOp::CloseCursor => s.has_result,
        StatementOp::NumResultCols | StatementOp::DescribeCol => s.has_result || s.prepared,
        StatementOp::AffectedRowCount => s.has_result || !s.prepared,
        StatementOp::BindParameter | StatementOp::ResetParameters => true,
    }
}

/// The state after operation `op` succeeded in state `s`. After an execution, a result set
/// is open exactly when the statement produced data and it has at least one column.
pub open spec fn statement_after(s: StatementState, op: StatementOp, executed: bool, num_cols: i16) -> StatementState {
    match op {
        StatementOp::ExecDirect | StatementOp::Execute => StatementState {
            prepared: s.prepared,
            has_result: executed && num_cols > 0,
        },
        StatementOp::Tables => StatementState { prepared: s.prepared, has_result: true },
        StatementOp::Prepare => StatementState { prepared: true, has_result: false },
        StatementOp::CloseCursor => StatementState { prepared: s.prepared, has_result: false },
        _ => s,
    }
}

impl StatementState {
    /// The state of a freshly allocated statement.
    pub fn fresh() -> (r: StatementState)
        ensures
            r == fresh_statement(),
    {
        StatementState { prepared: false, has_result: false }
    }

    /// Whether this state admits `op`.
    pub fn allows(&self, op: StatementOp) -> (r: bool)
        ensures
            r == statement_allows(*self, op),
    {
        match op {
            StatementOp::ExecDirect | StatementOp::Tables | StatementOp::Prepare => !self.prepared && !self.has_result,
            StatementOp::Execute => self.prepared && !self.has_result,
            StatementOp::Fetch | StatementOp::CloseCursor => self.has_result,
            StatementOp::NumResultCols | StatementOp::DescribeCol => self.has_result || self.prepared,
            StatementOp::AffectedRowCount => self.has_result || !self.prepared,
            StatementOp::BindParameter | StatementOp::ResetParameters => true,
        }
    }

    /// The state after `op` succeeded. `executed` is false when execution reported no
    /// data; `num_cols` is the number of result columns the driver reported afterwards.
    /// An operation that failed leaves the state as it was.
    pub fn after(&self, op: StatementOp, executed: bool, num_cols: i16) -> (r: StatementState)
        requires
            statement_allows(*self, op),
        ensures
            r == statement_after(*self, op, executed, num_cols),
    {
        match op {
            StatementOp::ExecDirect | StatementOp::Execute => StatementState {
                prepared: self.prepared,
                has_result: executed && num_cols > 0,
            },
            StatementOp::Tables => StatementState { prepared: self.prepared, has_result: true },
            StatementOp::Prepare => StatementState { prepared: true, has_result: false },
            StatementOp::CloseCursor => StatementState { prepared: self.prepared, has_result: false },
            _ => *self,
        }
    }
}

/// Whether an execution left a result set: the driver produced data and reports at least
/// one result column. A result set with no columns counts as none.
pub fn has_result_set(executed: bool, num_cols: i16) -> (r: bool)
    ensures
        r == (executed && num_cols > 0),
{
    executed && num_cols > 0
}

/// Nullability code: the column admits no NULL.
pub const SQL_NO_NULLS: i16 = 0;
/// Nullability code: the column admits NULL.
pub const SQL_NULLABLE: i16 = 1;
/// Nullability code: unknown.
pub const SQL_NULLABLE_UNKNOWN: i16 = 2;

/// Description of a result set column.
pub struct ColumnDescriptor {
    pub name: String,
    /// SQL type code.
    pub data_type: i16,
    /// `None` when the driver reports 0.
    pub column_size: Option<u64>,
    /// `None` when the driver reports 0.
    pub decimal_digits: Option<u16>,
    /// `None` when unknown.
    pub nullable: Option<bool>,
}

/// Whether the nullability code says the column admits NULL, if known.
pub open spec fn nullable_of(code: i16) -> Option<bool> {
    if code == SQL_NULLABLE {
        Some(true)
    } else if code == SQL_NO_NULLS {
        Some(false)
    } else {
        None
    }
}

/// Length of a name that the driver reported, limited to the buffer.
pub open spec fn name_len(buffer_len: int, name_length: int) -> int {
    if name_length < 0 {
        0
    } else if name_length > buffer_len {
        buffer_len
    } else {
        name_length
    }
}

impl ColumnDescriptor {
    /// Builds a description from what the driver wrote: the name buffer and the name length
    /// it reported, the type code, the size, the decimal digits and the nullability code.
    pub fn from_driver(
        name_buffer: &[u8],
        name_length: i16,
        data_type: i16,
        column_size: u64,
        decimal_digits: i16,
        nullable: i16,
    ) -> (r: ColumnDescriptor)
        ensures
            r.name@ == utf8_decoded(name_buffer@.take(name_len(name_buffer@.len() as int, name_length as int))),
            r.data_type == data_type,
            r.column_size == (if column_size == 0 { None } else { Some(column_size) }),
            r.decimal_digits == (if decimal_digits == 0 { None } else { Some(decimal_digits as u16) }),
            r.nullable == nullable_of(nullable),
    {
        let n: usize = if name_length < 0 {
            0
        } else if name_length as usize > name_buffer.len() {
            name_buffer.len()
        } else {
            name_length as usize
        };
        let mut name_bytes: Vec<u8> = Vec::new();
        let mut i: usize = 0;
        while i < n
            invariant
                i <= n <= name_buffer@.len(),
                name_bytes@ == name_buffer@.take(i as int),
            decreases n - i,
        {
            name_bytes.push(name_buffer[i]);
            i = i + 1;
            assert(name_bytes@ =~= name_buffer@.take(i as int));
        }
        let name = decode_text(name_bytes.as_slice());
        ColumnDescriptor {
            name,
            data_type,
            column_size: if column_size == 0 { None } else { Some(column_size) },
            decimal_digits: if decimal_digits == 0 { None } else { Some(decimal_digits as u16) },
            nullable: if nullable == SQL_NULLABLE {
                Some(true)
            } else if nullable == SQL_NO_NULLS {
                Some(false)
            } else {
                None
            },
        }
    }
}

/// What a parameter is bound with: the slot of its indicator, the indicator, its type codes
/// and the bytes of its value (none for NULL).
pub struct BoundParameter {
    pub slot: IndicatorSlot,
    pub indicator: i64,
    pub column_size: u64,
    pub c_data_type: i16,
    pub sql_data_type: i16,
}

/// The indicator of a parameter value: the NULL sentinel for no value, its size otherwise.
pub open spec fn parameter_indicator<T: OdbcType>(value: Option<T::V>) -> int {
    match value {
        Some(v) => T::spec_encode(v).len() as int,
        None => SQL_NULL_DATA as int,
    }
}

/// The view of an optional value.
pub open spec fn value_view<T: View>(value: Option<&T>) -> Option<T::V> {
    match value {
        Some(v) => Some(v@),
        None => None,
    }
}

/// The parameters bound to a statement: their indicators, at places that stay put until
/// the parameters are reset, and the bytes of their values, kept alive for execution.
pub struct ParameterBindings {
    indicators: Chunks,
    values: Vec<EncodedValue>,
}

impl ParameterBindings {
    pub open spec fn wf(&self) -> bool {
        self.indicators().wf()
    }

    /// The indicator storage.
    pub closed spec fn indicators(&self) -> Chunks {
        self.indicators
    }

    /// The bytes of the values bound so far, in binding order.
    pub closed spec fn values(&self) -> Seq<Option<Seq<u8>>> {
        self.values@.map_values(|e: EncodedValue| match e.buf {
            Some(b) => Some(b@),
            None => None,
        })
    }

    pub fn new() -> (r: ParameterBindings)
        ensures
            r.wf(),
            r.indicators()@.len() == 0,
            r.values().len() == 0,
    {
        let r = ParameterBindings { indicators: Chunks::new(), values: Vec::new() };
        assert(r.values() =~= Seq::<Option<Seq<u8>>>::empty());
        r
    }

    /// Binds parameter `index` (starting at 1) to a value, or to NULL for `None`: stores
    /// its indicator and keeps its bytes. A value whose size does not fit the indicator is
    /// not bound, and `None` is returned.
    pub fn bind<T: OdbcType>(&mut self, index: u16, value: Option<&T>) -> (r: Option<BoundParameter>)
        requires
            old(self).wf(),
        ensures
            final(self).wf(),
            r is None <==> parameter_indicator::<T>(value_view(value)) > i64::MAX,
            r is None ==> *final(self) == *old(self),
            r matches Some(p) ==> {
                &&& p.slot == slot_of(index as int)
                &&& p.slot.chunk < final(self).indicators()@.len()
                &&& p.slot.offset < CHUNK_LEN
                &&& final(self).values().len() > 0
                &&& p.indicator == parameter_indicator::<T>(value_view(value))
                &&& p.column_size == (match value { Some(v) => T::spec_encode(v@).len() as int, None => 0 })
                &&& final(self).indicators().at(p.slot) == p.indicator
                &&& p.c_data_type == T::spec_c_data_type()
                &&& p.sql_data_type == T::spec_sql_data_type()
                &&& final(self).values() == old(self).values().push(match value {
                    Some(v) => Some(T::spec_encode(v@)),
                    None => None,
                })
            },
    {
        let (indicator, column_size, encoded) = match value {
            Some(v) => {
                let e = v.encoded_value();
                let size = e.column_size();
                if size > i64::MAX as u64 {
                    return None;
                }
                (size as i64, size, e)
            },
            None => (SQL_NULL_DATA, 0u64, EncodedValue::new(None)),
        };
        let slot = self.indicators.alloc_slot(index as usize, indicator);
        self.values.push(encoded);
        proof {
            assert(self.values() =~= old(self).values().push(match value {
                Some(v) => Some(T::spec_encode(v@)),
                None => None,
            }));
        }
        Some(BoundParameter {
            slot,
            indicator,
            column_size,
            c_data_type: T::c_data_type(),
            sql_data_type: T::sql_data_type(),
        })
    }

    /// The indicator in a slot.
    pub fn indicator(&self, slot: IndicatorSlot) -> (r: i64)
        requires
            self.wf(),
            slot.chunk < self.indicators()@.len(),
            slot.offset < CHUNK_LEN,
        ensures
            r == self.indicators().at(slot),
    {
        self.indicators.get(slot)
    }

    /// The place of the indicator in a slot, to hand to the driver; it stays put until the
    /// parameters are reset.
    pub fn indicator_ref(&self, slot: IndicatorSlot) -> (r: &i64)
        requires
            self.wf(),
            slot.chunk < self.indicators()@.len(),
            slot.offset < CHUNK_LEN,
        ensures
            *r == self.indicators().at(slot),
    {
        self.indicators.get_ref(slot)
    }

    /// Number of values bound so far.
    pub fn count(&self) -> (r: usize)
        ensures
            r == self.values().len(),
    {
        self.values.len()
    }

    /// The bytes of the `k`-th value bound, to hand to the driver; `None` for NULL.
    pub fn value(&self, k: usize) -> (r: Option<&[u8]>)
        requires
            k < self.values().len(),
        ensures
            match self.values()[k as int] {
                Some(b) => r matches Some(x) && x@ == b,
                None => r is None,
            },
    {
        self.values[k].value_ptr()
    }

    /// Drops every indicator and value: no execution that reads them may be pending.
    pub fn reset(&mut self)
        ensures
            final(self).wf(),
            final(self).indicators()@.len() == 0,
            final(self).values().len() == 0,
    {
        self.indicators.clear();
        self.values.clear();
        assert(self.values() =~= Seq::<Option<Seq<u8>>>::empty());
    }
}

/// The statement lifecycle admits no illegal sequence: fetching needs an open result set,
/// which a fresh statement does not have; a result set opens only through an execution that
/// produced columns or through a catalog query; and a statement with an open result set
/// cannot be executed or prepared again before the cursor is closed.
pub proof fn lemma_statement_lifecycle(s: StatementState, op: StatementOp, executed: bool, num_cols: i16)
    requires
        statement_allows(s, op),
    ensures
        statement_allows(s, StatementOp::Fetch) == s.has_result,
        !statement_allows(fresh_statement(), StatementOp::Fetch),
        !statement_allows(fresh_statement(), StatementOp::Execute),
        !s.has_result && statement_after(s, op, executed, num_cols).has_result ==> (op
            == StatementOp::Tables || ((op == StatementOp::ExecDirect || op == StatementOp::Execute)
            && executed && num_cols > 0)),
        s.has_result ==> !statement_allows(s, StatementOp::ExecDirect) && !statement_allows(s, StatementOp::Execute)
            && !statement_allows(s, StatementOp::Prepare),
        op == StatementOp::CloseCursor ==> !statement_after(s, op, executed, num_cols).has_result,
{
}

} // verus!
