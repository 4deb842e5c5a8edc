//! A safe layer over the handle-based ODBC API: outcome classification and diagnostics,
//! the truncation-safe data retrieval protocol, value marshalling, and the indicator arena.
use vstd::prelude::*;

pub mod text;
pub mod diagnostics;
pub mod result;
pub mod output;
pub mod types;
pub mod arena;
pub mod statement;
pub mod connection;
pub mod environment;

verus! {

/// Largest value of a signed 16 bit integer, used for buffer lengths handed to the driver.
pub const SMALLINT_MAX: usize = 32767;

/// Clamps a buffer length to what fits into the driver's 16 bit length argument.
pub fn as_buffer_length(n: usize) -> (r: i16)
    ensures
        r as int == if n <= SMALLINT_MAX { n as int } else { SMALLINT_MAX as int },
{
    if n > SMALLINT_MAX {
        32767
    } else {
        n as i16
    }
}

/// A generic error with a message.
#[derive(Debug, Clone)]
pub struct GenericError(pub String);

/// A row of a result set: how many columns it has.
pub struct Row {
    columns: u16,
}

impl Row {
    pub fn new(columns: u16) -> (r: Row)
        ensures
            r.len_spec() == columns,
    {
        Row { columns }
    }

    pub closed spec fn len_spec(&self) -> u16 {
        self.columns
    }

    /// Number of columns.
    pub fn length(&self) -> (r: u16)
        ensures
            r == self.len_spec(),
    {
        self.columns
    }

    /// The data of a column. A row carries no column data of its own: column data is read
    /// through a cursor, so this is always `None`.
    pub fn get_col(&mut self, index: u16) -> (r: core::result::Result<Option<Vec<u8>>, GenericError>)
        ensures
            r matches Ok(None),
            final(self).len_spec() == old(self).len_spec(),
    {
        Ok(None)
    }
}

} // verus!
