//! How values are presented to and read back from the driver.
//!
//! Each supported type states its SQL and C type codes, how a value is laid out in bytes
//! for binding as a parameter, and how bytes that the driver wrote are read back. Numbers
//! are laid out in little-endian order, the byte order of the targets the driver managers
//! run on.
use vstd::prelude::*;
use crate::text::{decode_text, encode_text, utf8_decoded, utf8_encoded};

verus! {

/// SQL type code: variable length character data.
pub const SQL_VARCHAR: i16 = 12;
/// SQL type code: small integer.
pub const SQL_SMALLINT: i16 = 5;
/// SQL type code: integer.
pub const SQL_INTEGER: i16 = 4;
/// SQL type code: big integer.
pub const SQL_EXT_BIGINT: i16 = -5;
/// SQL type code: single bit.
pub const SQL_EXT_BIT: i16 = -7;
/// SQL type code: variable length binary data.
pub const SQL_EXT_VARBINARY: i16 = -3;
/// SQL type code: variable length wide character data.
pub const SQL_EXT_WVARCHAR: i16 = -9;
/// SQL type code: date.
pub const SQL_DATE: i16 = 91;
/// SQL type code: time.
pub const SQL_TIME: i16 = 92;
/// SQL type code: timestamp.
pub const SQL_TIMESTAMP: i16 = 93;

/// C type code: narrow character data.
pub const SQL_C_CHAR: i16 = 1;
/// C type code: wide character data.
pub const SQL_C_WCHAR: i16 = -8;
/// C type code: binary data.
pub const SQL_C_BINARY: i16 = -2;
/// C type code: bit.
pub const SQL_C_BIT: i16 = -7;
/// C type code: unsigned 8 bit integer.
pub const SQL_C_UTINYINT: i16 = -28;
/// C type code: signed 8 bit integer.
pub const SQL_C_STINYINT: i16 = -26;
/// C type code: signed 16 bit integer.
pub const SQL_C_SSHORT: i16 = -15;
/// C type code: unsigned 16 bit integer.
pub const SQL_C_USHORT: i16 = -17;
/// C type code: signed 32 bit integer.
pub const SQL_C_SLONG: i16 = -16;
/// C type code: unsigned 32 bit integer.
pub const SQL_C_ULONG: i16 = -18;
/// C type code: signed 64 bit integer.
pub const SQL_C_SBIGINT: i16 = -25;
/// C type code: unsigned 64 bit integer.
pub const SQL_C_UBIGINT: i16 = -27;
/// C type code: date structure.
pub const SQL_C_DATE: i16 = 9;
/// C type code: time structure.
pub const SQL_C_TIME: i16 = 10;
/// C type code: timestamp structure.
pub const SQL_C_TYPE_TIMESTAMP: i16 = 93;

/// `256` to the power of `n`.
pub open spec fn pow256(n: nat) -> int
    decreases n,
{
    if n == 0 {
        1
    } else {
        256 * pow256((n - 1) as nat)
    }
}

/// The unsigned number that bytes encode, least significant byte first.
pub open spec fn le_value(b: Seq<u8>) -> int
    decreases b.len(),
{
    if b.len() == 0 {
        0
    } else {
        b[0] as int + 256 * le_value(b.drop_first())
    }
}

/// The `n` bytes of an unsigned number, least significant byte first.
pub open spec fn le_bytes(x: int, n: nat) -> Seq<u8>
    decreases n,
{
    if n == 0 {
        Seq::empty()
    } else {
        seq![(x % 256) as u8] + le_bytes(x / 256, (n - 1) as nat)
    }
}

/// Two's complement: the unsigned number of `n` bytes that stands for `v`.
pub open spec fn to_unsigned(v: int, n: nat) -> int {
    if v < 0 {
        v + pow256(n)
    } else {
        v
    }
}

/// Two's complement: the signed number that an unsigned number of `n` bytes stands for.
pub open spec fn to_signed(u: int, n: nat) -> int {
    if u >= pow256(n) / 2 {
        u - pow256(n)
    } else {
        u
    }
}

pub proof fn lemma_pow256_values()
    ensures
        pow256(1) == 0x100,
        pow256(2) == 0x1_0000,
        pow256(4) == 0x1_0000_0000,
        pow256(8) == 0x1_0000_0000_0000_0000,
{
    assert(pow256(0) == 1);
    assert(pow256(1) == 0x100);
    assert(pow256(2) == 0x1_0000);
    assert(pow256(3) == 0x100_0000);
    assert(pow256(4) == 0x1_0000_0000);
    assert(pow256(5) == 0x100_0000_0000);
    assert(pow256(6) == 0x1_0000_0000_0000);
    assert(pow256(7) == 0x100_0000_0000_0000);
    assert(pow256(8) == 0x1_0000_0000_0000_0000);
}

pub proof fn lemma_pow256_monotonic(a: nat, b: nat)
    requires
        a <= b,
    ensures
        1 <= pow256(a) <= pow256(b),
    decreases b,
{
    if b > 0 {
        if a < b {
            lemma_pow256_monotonic(a, (b - 1) as nat);
        } else {
            lemma_pow256_monotonic(0, (b - 1) as nat);
        }
    }
}

pub proof fn lemma_le_bytes_len(x: int, n: nat)
    ensures
        le_bytes(x, n).len() == n,
    decreases n,
{
    if n > 0 {
        lemma_le_bytes_len(x / 256, (n - 1) as nat);
    }
}

pub proof fn lemma_le_value_bound(b: Seq<u8>)
    ensures
        0 <= le_value(b) < pow256(b.len()),
    decreases b.len(),
{
    if b.len() > 0 {
        lemma_le_value_bound(b.drop_first());
    }
}

/// Reading back the bytes of a number that fits gives the number.
pub proof fn lemma_le_round_trip(x: int, n: nat)
    requires
        0 <= x < pow256(n),
    ensures
        le_value(le_bytes(x, n)) == x,
    decreases n,
{
    if n > 0 {
        let p = pow256((n - 1) as nat);
        assert(x / 256 < p) by (nonlinear_arith)
            requires x < 256 * p, 0 <= x;
        lemma_le_round_trip(x / 256, (n - 1) as nat);
        assert(le_bytes(x, n).drop_first() =~= le_bytes(x / 256, (n - 1) as nat));
    }
}

/// Two's complement round trip for a signed number of `n` bytes.
pub proof fn lemma_signed_round_trip(v: int, n: nat)
    requires
        n >= 1,
        -(pow256(n) / 2) <= v < pow256(n) / 2,
    ensures
        0 <= to_unsigned(v, n) < pow256(n),
        to_signed(to_unsigned(v, n), n) == v,
{
    lemma_pow256_monotonic(1, n);
}

/// The `n` bytes of `x`, least significant first.
pub fn le_encode(x: u64, n: usize) -> (r: Vec<u8>)
    requires
        n <= 8,
    ensures
        r@ == le_bytes(x as int, n as nat),
{
    let mut out: Vec<u8> = Vec::new();
    let mut cur: u64 = x;
    let mut i: usize = 0;
    while i < n
        invariant
            i <= n <= 8,
            out@ + le_bytes(cur as int, (n - i) as nat) == le_bytes(x as int, n as nat),
        decreases n - i,
    {
        let ghost before = out@;
        let ghost c = cur as int;
        assert(le_bytes(c, (n - i) as nat) == seq![(c % 256) as u8] + le_bytes(c / 256, (n - i - 1) as nat));
        out.push((cur % 256) as u8);
        cur = cur / 256;
        i = i + 1;
        assert(out@ + le_bytes(cur as int, (n - i) as nat) =~= before + le_bytes(c, (n - i + 1) as nat));
    }
    assert(out@ =~= le_bytes(x as int, n as nat));
    out
}

/// The unsigned number in `b[off..off + n]`, least significant byte first.
pub fn le_decode(b: &[u8], off: usize, n: usize) -> (r: u64)
    requires
        n <= 8,
        off + n <= b@.len(),
    ensures
        r as int == le_value(b@.subrange(off as int, off + n)),
{
    let len = b.len();
    let mut acc: u64 = 0;
    let mut i: usize = n;
    proof {
        assert(b@.subrange(off + n, off + n) =~= Seq::<u8>::empty());
    }
    while i > 0
        invariant
            i <= n <= 8,
            off + n <= b@.len(),
            b@.len() == len,
            acc as int == le_value(b@.subrange(off + i, off + n)),
        decreases i,
    {
        let ghost rest = b@.subrange(off + i, off + n);
        proof {
            lemma_le_value_bound(rest);
            lemma_pow256_monotonic((n - i) as nat, 7);
            lemma_pow256_values();
            assert(b@.subrange(off + i - 1, off + n).drop_first() =~= rest);
        }
        acc = acc * 256 + b[off + i - 1] as u64;
        i = i - 1;
    }
    acc
}

/// A value presented to the driver as bytes; `None` stands for a value bound in place.
pub struct EncodedValue {
    pub buf: Option<Vec<u8>>,
}

impl EncodedValue {
    pub fn new(buf: Option<Vec<u8>>) -> (r: Self)
        ensures
            r.buf == buf,
    {
        EncodedValue { buf }
    }

    /// Whether there are bytes.
    pub fn has_value(&self) -> (r: bool)
        ensures
            r == self.buf is Some,
    {
        self.buf.is_some()
    }

    /// Number of bytes, 0 when there are none.
    pub fn column_size(&self) -> (r: u64)
        ensures
            r == match self.buf {
                Some(b) => b@.len() as int,
                None => 0,
            },
    {
        match &self.buf {
            Some(b) => b.len() as u64,
            None => 0,
        }
    }

    /// The bytes handed to the driver, if any.
    pub fn value_ptr(&self) -> (r: Option<&[u8]>)
        ensures
            r is Some == self.buf is Some,
            r is Some ==> r->Some_0@ == self.buf->Some_0@,
    {
        match &self.buf {
            Some(b) => Some(b.as_slice()),
            None => None,
        }
    }
}

/// A type whose values can be bound as parameters and read back from result columns.
pub trait OdbcType: Sized + View {
    /// Whether bytes from the driver can be read as a value.
    spec fn decodable(bytes: Seq<u8>) -> bool;

    /// The value that bytes from the driver stand for.
    spec fn spec_decode(bytes: Seq<u8>) -> Self::V;

    /// The bytes that present a value to the driver.
    spec fn spec_encode(v: Self::V) -> Seq<u8>;

    /// SQL type code used when binding.
    spec fn spec_sql_data_type() -> i16;

    /// C type code of the bytes.
    spec fn spec_c_data_type() -> i16;

    /// SQL type code used when binding.
    fn sql_data_type() -> (r: i16)
        ensures
            r == Self::spec_sql_data_type(),
    ;

    /// C type code of the bytes.
    fn c_data_type() -> (r: i16)
        ensures
            r == Self::spec_c_data_type(),
    ;

    /// Number of zero bytes the driver appends after a value of this type.
    fn null_bytes_count() -> (r: usize)
        ensures
            r <= 2,
    ;

    /// Whether `bytes` can be read as a value.
    fn can_convert(bytes: &[u8]) -> (r: bool)
        ensures
            r == Self::decodable(bytes@),
    ;

    /// Reads a value from the bytes the driver wrote.
    fn convert(bytes: &[u8]) -> (r: Self)
        requires
            Self::decodable(bytes@),
        ensures
            r@ == Self::spec_decode(bytes@),
    ;

    /// The bytes that present this value to the driver.
    fn encoded_value(&self) -> (r: EncodedValue)
        ensures
            r.buf is Some,
            r.buf->Some_0@ == Self::spec_encode(self@),
    ;

    /// Number of bytes that present this value to the driver.
    fn column_size(&self) -> (r: u64)
        ensures
            r == Self::spec_encode(self@).len(),
    ;
}

/// Types whose values come back unchanged from their bytes.
pub trait ExactOdbcType: OdbcType {
    proof fn lemma_round_trip(v: Self::V)
        ensures
            Self::decodable(Self::spec_encode(v)),
            Self::spec_decode(Self::spec_encode(v)) == v,
    ;
}

/// Reading back the bytes that present a value gives the value, for every type whose
/// values are exact (numbers, booleans, binary data, wide text, dates and times).
pub proof fn lemma_decode_encode<T: ExactOdbcType>(v: T::V)
    ensures
        T::decodable(T::spec_encode(v)),
        T::spec_decode(T::spec_encode(v)) == v,
{
    T::lemma_round_trip(v);
}

/// Reads a value from bytes the driver wrote, or `None` when they do not make one.
pub fn decode_value<T: OdbcType>(bytes: &[u8]) -> (r: Option<T>)
    ensures
        r is Some == T::decodable(bytes@),
        r is Some ==> r->Some_0@ == T::spec_decode(bytes@),
{
    if T::can_convert(bytes) {
        Some(T::convert(bytes))
    } else {
        None
    }
}

impl OdbcType for u8 {
    open spec fn decodable(bytes: Seq<u8>) -> bool {
        bytes.len() >= 1
    }

    open spec fn spec_decode(bytes: Seq<u8>) -> u8 {
        le_value(bytes.take(1)) as u8
    }

    open spec fn spec_encode(v: u8) -> Seq<u8> {
        le_bytes(v as int, 1)
    }

    open spec fn spec_sql_data_type() -> i16 {
        SQL_SMALLINT
    }

    fn sql_data_type() -> (r: i16) {
        SQL_SMALLINT
    }

    open spec fn spec_c_data_type() -> i16 {
        SQL_C_UTINYINT
    }

    fn c_data_type() -> (r: i16) {
        SQL_C_UTINYINT
    }

    fn null_bytes_count() -> (r: usize) {
        0
    }

    fn can_convert(bytes: &[u8]) -> (r: bool) {
        bytes.len() >= 1
    }

    fn convert(bytes: &[u8]) -> (r: u8) {
        let u = le_decode(bytes, 0, 1);
        proof {
            lemma_pow256_values();
            lemma_le_value_bound(bytes@.take(1));
            assert(bytes@.subrange(0, 1) =~= bytes@.take(1));
        }
        u as u8
    }

    fn encoded_value(&self) -> (r: EncodedValue) {
        EncodedValue::new(Some(le_encode(*self as u64, 1)))
    }

    fn column_size(&self) -> (r: u64) {
        proof {
            lemma_le_bytes_len(to_unsigned(*self as int, 1), 1);
            lemma_le_bytes_len(*self as int, 1);
        }
        1
    }
}

impl ExactOdbcType for u8 {
    proof fn lemma_round_trip(v: u8) {
        lemma_pow256_values();
        let b = le_bytes(v as int, 1);
        lemma_le_bytes_len(v as int, 1);
        lemma_le_round_trip(v as int, 1);
        assert(b.take(1) =~= b);
    }
}

impl OdbcType for i8 {
    open spec fn decodable(bytes: Seq<u8>) -> bool {
        bytes.len() >= 1
    }

    open spec fn spec_decode(bytes: Seq<u8>) -> i8 {
        to_signed(le_value(bytes.take(1)), 1) as i8
    }

    open spec fn spec_encode(v: i8) -> Seq<u8> {
        le_bytes(to_unsigned(v as int, 1), 1)
    }

    open spec fn spec_sql_data_type() -> i16 {
        SQL_SMALLINT
    }

    fn sql_data_type() -> (r: i16) {
        SQL_SMALLINT
    }

    open spec fn spec_c_data_type() -> i16 {
        SQL_C_STINYINT
    }

    fn c_data_type() -> (r: i16) {
        SQL_C_STINYINT
    }

    fn null_bytes_count() -> (r: usize) {
        0
    }

    fn can_convert(bytes: &[u8]) -> (r: bool) {
        bytes.len() >= 1
    }

    fn convert(bytes: &[u8]) -> (r: i8) {
        let u = le_decode(bytes, 0, 1);
        proof {
            lemma_pow256_values();
            lemma_le_value_bound(bytes@.take(1));
            assert(bytes@.subrange(0, 1) =~= bytes@.take(1));
        }
        if u >= 0x80 {
            (u as i128 - 0x100i128) as i8
        } else {
            u as i8
        }
    }

    fn encoded_value(&self) -> (r: EncodedValue) {
        proof {
            lemma_pow256_values();
        }
        let u: u64 = if *self < 0 {
            (*self as i128 + 0x100i128) as u64
        } else {
            *self as u64
        };
        EncodedValue::new(Some(le_encode(u, 1)))
    }

    fn column_size(&self) -> (r: u64) {
        proof {
            lemma_le_bytes_len(to_unsigned(*self as int, 1), 1);
            lemma_le_bytes_len(*self as int, 1);
        }
        1
    }
}

impl ExactOdbcType for i8 {
    proof fn lemma_round_trip(v: i8) {
        lemma_pow256_values();
        lemma_signed_round_trip(v as int, 1);
        let b = le_bytes(to_unsigned(v as int, 1), 1);
        lemma_le_bytes_len(to_unsigned(v as int, 1), 1);
        lemma_le_round_trip(to_unsigned(v as int, 1), 1);
        assert(b.take(1) =~= b);
    }
}

impl OdbcType for i16 {
    open spec fn decodable(bytes: Seq<u8>) -> bool {
        bytes.len() >= 2
    }

    open spec fn spec_decode(bytes: Seq<u8>) -> i16 {
        to_signed(le_value(bytes.take(2)), 2) as i16
    }

    open spec fn spec_encode(v: i16) -> Seq<u8> {
        le_bytes(to_unsigned(v as int, 2), 2)
    }

    open spec fn spec_sql_data_type() -> i16 {
        SQL_SMALLINT
    }

    fn sql_data_type() -> (r: i16) {
        SQL_SMALLINT
    }

    open spec fn spec_c_data_type() -> i16 {
        SQL_C_SSHORT
    }

    fn c_data_type() -> (r: i16) {
        SQL_C_SSHORT
    }

    fn null_bytes_count() -> (r: usize) {
        0
    }

    fn can_convert(bytes: &[u8]) -> (r: bool) {
        bytes.len() >= 2
    }

    fn convert(bytes: &[u8]) -> (r: i16) {
        let u = le_decode(bytes, 0, 2);
        proof {
            lemma_pow256_values();
            lemma_le_value_bound(bytes@.take(2));
            assert(bytes@.subrange(0, 2) =~= bytes@.take(2));
        }
        if u >= 0x8000 {
            (u as i128 - 0x1_0000i128) as i16
        } else {
            u as i16
        }
    }

    fn encoded_value(&self) -> (r: EncodedValue) {
        proof {
            lemma_pow256_values();
        }
        let u: u64 = if *self < 0 {
            (*self as i128 + 0x1_0000i128) as u64
        } else {
            *self as u64
        };
        EncodedValue::new(Some(le_encode(u, 2)))
    }

    fn column_size(&self) -> (r: u64) {
        proof {
            lemma_le_bytes_len(to_unsigned(*self as int, 2), 2);
            lemma_le_bytes_len(*self as int, 2);
        }
        2
    }
}

impl ExactOdbcType for i16 {
    proof fn lemma_round_trip(v: i16) {
        lemma_pow256_values();
        lemma_signed_round_trip(v as int, 2);
        let b = le_bytes(to_unsigned(v as int, 2), 2);
        lemma_le_bytes_len(to_unsigned(v as int, 2), 2);
        lemma_le_round_trip(to_unsigned(v as int, 2), 2);
        assert(b.take(2) =~= b);
    }
}

impl OdbcType for u16 {
    open spec fn decodable(bytes: Seq<u8>) -> bool {
        bytes.len() >= 2
    }

    open spec fn spec_decode(bytes: Seq<u8>) -> u16 {
        le_value(bytes.take(2)) as u16
    }

    open spec fn spec_encode(v: u16) -> Seq<u8> {
        le_bytes(v as int, 2)
    }

    open spec fn spec_sql_data_type() -> i16 {
        SQL_SMALLINT
    }

    fn sql_data_type() -> (r: i16) {
        SQL_SMALLINT
    }

    open spec fn spec_c_data_type() -> i16 {
        SQL_C_USHORT
    }

    fn c_data_type() -> (r: i16) {
        SQL_C_USHORT
    }

    fn null_bytes_count() -> (r: usize) {
        0
    }

    fn can_convert(bytes: &[u8]) -> (r: bool) {
        bytes.len() >= 2
    }

    fn convert(bytes: &[u8]) -> (r: u16) {
        let u = le_decode(bytes, 0, 2);
        proof {
            lemma_pow256_values();
            lemma_le_value_bound(bytes@.take(2));
            assert(bytes@.subrange(0, 2) =~= bytes@.take(2));
        }
        u as u16
    }

    fn encoded_value(&self) -> (r: EncodedValue) {
        EncodedValue::new(Some(le_encode(*self as u64, 2)))
    }

    fn column_size(&self) -> (r: u64) {
        proof {
            lemma_le_bytes_len(to_unsigned(*self as int, 2), 2);
            lemma_le_bytes_len(*self as int, 2);
        }
        2
    }
}

impl ExactOdbcType for u16 {
    proof fn lemma_round_trip(v: u16) {
        lemma_pow256_values();
        let b = le_bytes(v as int, 2);
        lemma_le_bytes_len(v as int, 2);
        lemma_le_round_trip(v as int, 2);
        assert(b.take(2) =~= b);
    }
}

impl OdbcType for i32 {
    open spec fn decodable(bytes: Seq<u8>) -> bool {
        bytes.len() >= 4
    }

    open spec fn spec_decode(bytes: Seq<u8>) -> i32 {
        to_signed(le_value(bytes.take(4)), 4) as i32
    }

    open spec fn spec_encode(v: i32) -> Seq<u8> {
        le_bytes(to_unsigned(v as int, 4), 4)
    }

    open spec fn spec_sql_data_type() -> i16 {
        SQL_INTEGER
    }

    fn sql_data_type() -> (r: i16) {
        SQL_INTEGER
    }

    open spec fn spec_c_data_type() -> i16 {
        SQL_C_SLONG
    }

    fn c_data_type() -> (r: i16) {
        SQL_C_SLONG
    }

    fn null_bytes_count() -> (r: usize) {
        0
    }

    fn can_convert(bytes: &[u8]) -> (r: bool) {
        bytes.len() >= 4
    }

    fn convert(bytes: &[u8]) -> (r: i32) {
        let u = le_decode(bytes, 0, 4);
        proof {
            lemma_pow256_values();
            lemma_le_value_bound(bytes@.take(4));
            assert(bytes@.subrange(0, 4) =~= bytes@.take(4));
        }
        if u >= 0x8000_0000 {
            (u as i128 - 0x1_0000_0000i128) as i32
        } else {
            u as i32
        }
    }

    fn encoded_value(&self) -> (r: EncodedValue) {
        proof {
            lemma_pow256_values();
        }
        let u: u64 = if *self < 0 {
            (*self as i128 + 0x1_0000_0000i128) as u64
        } else {
            *self as u64
        };
        EncodedValue::new(Some(le_encode(u, 4)))
    }

    fn column_size(&self) -> (r: u64) {
        proof {
            lemma_le_bytes_len(to_unsigned(*self as int, 4), 4);
            lemma_le_bytes_len(*self as int, 4);
        }
        4
    }
}

impl ExactOdbcType for i32 {
    proof fn lemma_round_trip(v: i32) {
        lemma_pow256_values();
        lemma_signed_round_trip(v as int, 4);
        let b = le_bytes(to_unsigned(v as int, 4), 4);
        lemma_le_bytes_len(to_unsigned(v as int, 4), 4);
        lemma_le_round_trip(to_unsigned(v as int, 4), 4);
        assert(b.take(4) =~= b);
    }
}

impl OdbcType for u32 {
    open spec fn decodable(bytes: Seq<u8>) -> bool {
        bytes.len() >= 4
    }

    open spec fn spec_decode(bytes: Seq<u8>) -> u32 {
        le_value(bytes.take(4)) as u32
    }

    open spec fn spec_encode(v: u32) -> Seq<u8> {
        le_bytes(v as int, 4)
    }

    open spec fn spec_sql_data_type() -> i16 {
        SQL_INTEGER
    }

    fn sql_data_type() -> (r: i16) {
        SQL_INTEGER
    }

    open spec fn spec_c_data_type() -> i16 {
        SQL_C_ULONG
    }

    fn c_data_type() -> (r: i16) {
        SQL_C_ULONG
    }

    fn null_bytes_count() -> (r: usize) {
        0
    }

    fn can_convert(bytes: &[u8]) -> (r: bool) {
        bytes.len() >= 4
    }

    fn convert(bytes: &[u8]) -> (r: u32) {
        let u = le_decode(bytes, 0, 4);
        proof {
            lemma_pow256_values();
            lemma_le_value_bound(bytes@.take(4));
            assert(bytes@.subrange(0, 4) =~= bytes@.take(4));
        }
        u as u32
    }

    fn encoded_value(&self) -> (r: EncodedValue) {
        EncodedValue::new(Some(le_encode(*self as u64, 4)))
    }

    fn column_size(&self) -> (r: u64) {
        proof {
            lemma_le_bytes_len(to_unsigned(*self as int, 4), 4);
            lemma_le_bytes_len(*self as int, 4);
        }
        4
    }
}

impl ExactOdbcType for u32 {
    proof fn lemma_round_trip(v: u32) {
        lemma_pow256_values();
        let b = le_bytes(v as int, 4);
        lemma_le_bytes_len(v as int, 4);
        lemma_le_round_trip(v as int, 4);
        assert(b.take(4) =~= b);
    }
}

impl OdbcType for i64 {
    open spec fn decodable(bytes: Seq<u8>) -> bool {
        bytes.len() >= 8
    }

    open spec fn spec_decode(bytes: Seq<u8>) -> i64 {
        to_signed(le_value(bytes.take(8)), 8) as i64
    }

    open spec fn spec_encode(v: i64) -> Seq<u8> {
        le_bytes(to_unsigned(v as int, 8), 8)
    }

    open spec fn spec_sql_data_type() -> i16 {
        SQL_EXT_BIGINT
    }

    fn sql_data_type() -> (r: i16) {
        SQL_EXT_BIGINT
    }

    open spec fn spec_c_data_type() -> i16 {
        SQL_C_SBIGINT
    }

    fn c_data_type() -> (r: i16) {
        SQL_C_SBIGINT
    }

    fn null_bytes_count() -> (r: usize) {
        0
    }

    fn can_convert(bytes: &[u8]) -> (r: bool) {
        bytes.len() >= 8
    }

    fn convert(bytes: &[u8]) -> (r: i64) {
        let u = le_decode(bytes, 0, 8);
        proof {
            lemma_pow256_values();
            lemma_le_value_bound(bytes@.take(8));
            assert(bytes@.subrange(0, 8) =~= bytes@.take(8));
        }
        if u >= 0x8000_0000_0000_0000 {
            (u as i128 - 0x1_0000_0000_0000_0000i128) as i64
        } else {
            u as i64
        }
    }

    fn encoded_value(&self) -> (r: EncodedValue) {
        proof {
            lemma_pow256_values();
        }
        let u: u64 = if *self < 0 {
            (*self as i128 + 0x1_0000_0000_0000_0000i128) as u64
        } else {
            *self as u64
        };
        EncodedValue::new(Some(le_encode(u, 8)))
    }

    fn column_size(&self) -> (r: u64) {
        proof {
            lemma_le_bytes_len(to_unsigned(*self as int, 8), 8);
            lemma_le_bytes_len(*self as int, 8);
        }
        8
    }
}

impl ExactOdbcType for i64 {
    proof fn lemma_round_trip(v: i64) {
        lemma_pow256_values();
        lemma_signed_round_trip(v as int, 8);
        let b = le_bytes(to_unsigned(v as int, 8), 8);
        lemma_le_bytes_len(to_unsigned(v as int, 8), 8);
        lemma_le_round_trip(to_unsigned(v as int, 8), 8);
        assert(b.take(8) =~= b);
    }
}

impl OdbcType for u64 {
    open spec fn decodable(bytes: Seq<u8>) -> bool {
        bytes.len() >= 8
    }

    open spec fn spec_decode(bytes: Seq<u8>) -> u64 {
        le_value(bytes.take(8)) as u64
    }

    open spec fn spec_encode(v: u64) -> Seq<u8> {
        le_bytes(v as int, 8)
    }

    open spec fn spec_sql_data_type() -> i16 {
        SQL_EXT_BIGINT
    }

    fn sql_data_type() -> (r: i16) {
        SQL_EXT_BIGINT
    }

    open spec fn spec_c_data_type() -> i16 {
        SQL_C_UBIGINT
    }

    fn c_data_type() -> (r: i16) {
        SQL_C_UBIGINT
    }

    fn null_bytes_count() -> (r: usize) {
        0
    }

    fn can_convert(bytes: &[u8]) -> (r: bool) {
        bytes.len() >= 8
    }

    fn convert(bytes: &[u8]) -> (r: u64) {
        let u = le_decode(bytes, 0, 8);
        proof {
            lemma_pow256_values();
            lemma_le_value_bound(bytes@.take(8));
            assert(bytes@.subrange(0, 8) =~= bytes@.take(8));
        }
        u as u64
    }

    fn encoded_value(&self) -> (r: EncodedValue) {
        EncodedValue::new(Some(le_encode(*self as u64, 8)))
    }

    fn column_size(&self) -> (r: u64) {
        proof {
            lemma_le_bytes_len(to_unsigned(*self as int, 8), 8);
            lemma_le_bytes_len(*self as int, 8);
        }
        8
    }
}

impl ExactOdbcType for u64 {
    proof fn lemma_round_trip(v: u64) {
        lemma_pow256_values();
        let b = le_bytes(v as int, 8);
        lemma_le_bytes_len(v as int, 8);
        lemma_le_round_trip(v as int, 8);
        assert(b.take(8) =~= b);
    }
}

/// A copy of bytes.
pub fn copy_bytes(b: &[u8]) -> (r: Vec<u8>)
    ensures
        r@ == b@,
{
    let mut out: Vec<u8> = Vec::new();
    let mut i: usize = 0;
    while i < b.len()
        invariant
            i <= b@.len(),
            out@ == b@.take(i as int),
        decreases b@.len() - i,
    {
        out.push(b[i]);
        i = i + 1;
        assert(out@ =~= b@.take(i as int));
    }
    assert(out@ =~= b@);
    out
}

impl OdbcType for bool {
    open spec fn decodable(bytes: Seq<u8>) -> bool {
        bytes.len() == 1
    }

    open spec fn spec_decode(bytes: Seq<u8>) -> bool {
        bytes[0] > 0
    }

    open spec fn spec_encode(v: bool) -> Seq<u8> {
        if v {
            seq![1u8]
        } else {
            seq![0u8]
        }
    }

    open spec fn spec_sql_data_type() -> i16 {
        SQL_EXT_BIT
    }

    fn sql_data_type() -> (r: i16) {
        SQL_EXT_BIT
    }

    open spec fn spec_c_data_type() -> i16 {
        SQL_C_BIT
    }

    fn c_data_type() -> (r: i16) {
        SQL_C_BIT
    }

    fn null_bytes_count() -> (r: usize) {
        0
    }

    fn can_convert(bytes: &[u8]) -> (r: bool) {
        bytes.len() == 1
    }

    fn convert(bytes: &[u8]) -> (r: bool) {
        bytes[0] > 0
    }

    fn encoded_value(&self) -> (r: EncodedValue) {
        let b: Vec<u8> = if *self {
            vec![1u8]
        } else {
            vec![0u8]
        };
        assert(b@ =~= Self::spec_encode(*self));
        EncodedValue::new(Some(b))
    }

    fn column_size(&self) -> (r: u64) {
        1
    }
}

impl ExactOdbcType for bool {
    proof fn lemma_round_trip(v: bool) {
    }
}

impl OdbcType for Vec<u8> {
    open spec fn decodable(bytes: Seq<u8>) -> bool {
        true
    }

    open spec fn spec_decode(bytes: Seq<u8>) -> Seq<u8> {
        bytes
    }

    open spec fn spec_encode(v: Seq<u8>) -> Seq<u8> {
        v
    }

    open spec fn spec_sql_data_type() -> i16 {
        SQL_EXT_VARBINARY
    }

    fn sql_data_type() -> (r: i16) {
        SQL_EXT_VARBINARY
    }

    open spec fn spec_c_data_type() -> i16 {
        SQL_C_BINARY
    }

    fn c_data_type() -> (r: i16) {
        SQL_C_BINARY
    }

    fn null_bytes_count() -> (r: usize) {
        0
    }

    fn can_convert(bytes: &[u8]) -> (r: bool) {
        true
    }

    fn convert(bytes: &[u8]) -> (r: Vec<u8>) {
        copy_bytes(bytes)
    }

    fn encoded_value(&self) -> (r: EncodedValue) {
        EncodedValue::new(Some(copy_bytes(self.as_slice())))
    }

    fn column_size(&self) -> (r: u64) {
        self.len() as u64
    }
}

impl ExactOdbcType for Vec<u8> {
    proof fn lemma_round_trip(v: Seq<u8>) {
    }
}

/// The 16 bit units that bytes stand for, two bytes each, least significant first; a
/// trailing odd byte is ignored.
pub open spec fn wide_units(bytes: Seq<u8>) -> Seq<u16> {
    Seq::new(bytes.len() / 2, |i: int| (bytes[2 * i] as int + 256 * bytes[2 * i + 1] as int) as u16)
}

/// The bytes of 16 bit units, two each, least significant first.
pub open spec fn wide_bytes(units: Seq<u16>) -> Seq<u8> {
    Seq::new(2 * units.len(), |i: int| if i % 2 == 0 { (units[i / 2] % 256) as u8 } else { (units[i / 2] / 256) as u8 })
}

impl OdbcType for Vec<u16> {
    open spec fn decodable(bytes: Seq<u8>) -> bool {
        true
    }

    open spec fn spec_decode(bytes: Seq<u8>) -> Seq<u16> {
        wide_units(bytes)
    }

    open spec fn spec_encode(v: Seq<u16>) -> Seq<u8> {
        wide_bytes(v)
    }

    open spec fn spec_sql_data_type() -> i16 {
        SQL_EXT_WVARCHAR
    }

    fn sql_data_type() -> (r: i16) {
        SQL_EXT_WVARCHAR
    }

    open spec fn spec_c_data_type() -> i16 {
        SQL_C_WCHAR
    }

    fn c_data_type() -> (r: i16) {
        SQL_C_WCHAR
    }

    fn null_bytes_count() -> (r: usize) {
        2
    }

    fn can_convert(bytes: &[u8]) -> (r: bool) {
        true
    }

    fn convert(bytes: &[u8]) -> (r: Vec<u16>) {
        let n = bytes.len() / 2;
        let mut out: Vec<u16> = Vec::new();
        let mut i: usize = 0;
        while i < n
            invariant
                i <= n,
                n == bytes@.len() / 2,
                out@ == wide_units(bytes@).take(i as int),
            decreases n - i,
        {
            let lo = bytes[2 * i] as u16;
            let hi = bytes[2 * i + 1] as u16;
            out.push(lo + 256 * hi);
            i = i + 1;
            assert(out@ =~= wide_units(bytes@).take(i as int));
        }
        assert(out@ =~= wide_units(bytes@));
        out
    }

    fn encoded_value(&self) -> (r: EncodedValue) {
        let mut out: Vec<u8> = Vec::new();
        let mut i: usize = 0;
        while i < self.len()
            invariant
                i <= self@.len(),
                out@ == wide_bytes(self@).take(2 * i),
            decreases self@.len() - i,
        {
            let u = self[i];
            out.push((u % 256) as u8);
            out.push((u / 256) as u8);
            i = i + 1;
            assert(out@ =~= wide_bytes(self@).take(2 * i));
        }
        assert(out@ =~= wide_bytes(self@));
        EncodedValue::new(Some(out))
    }

    fn column_size(&self) -> (r: u64) {
        let e = self.encoded_value();
        e.column_size()
    }
}

impl ExactOdbcType for Vec<u16> {
    proof fn lemma_round_trip(v: Seq<u16>) {
        let b = wide_bytes(v);
        assert forall|i: int| 0 <= i < v.len() implies #[trigger] wide_units(b)[i] == v[i] by {
            assert(b[2 * i] == (v[i] % 256) as u8);
            assert(b[2 * i + 1] == (v[i] / 256) as u8);
        }
        assert(wide_units(b) =~= v);
    }
}

impl OdbcType for String {
    open spec fn decodable(bytes: Seq<u8>) -> bool {
        true
    }

    open spec fn spec_decode(bytes: Seq<u8>) -> Seq<char> {
        utf8_decoded(bytes)
    }

    open spec fn spec_encode(v: Seq<char>) -> Seq<u8> {
        utf8_encoded(v)
    }

    open spec fn spec_sql_data_type() -> i16 {
        SQL_VARCHAR
    }

    fn sql_data_type() -> (r: i16) {
        SQL_VARCHAR
    }

    open spec fn spec_c_data_type() -> i16 {
        SQL_C_CHAR
    }

    fn c_data_type() -> (r: i16) {
        SQL_C_CHAR
    }

    fn null_bytes_count() -> (r: usize) {
        1
    }

    fn can_convert(bytes: &[u8]) -> (r: bool) {
        true
    }

    fn convert(bytes: &[u8]) -> (r: String) {
        decode_text(bytes)
    }

    fn encoded_value(&self) -> (r: EncodedValue) {
        EncodedValue::new(Some(encode_text(self.as_str())))
    }

    fn column_size(&self) -> (r: u64) {
        let b = encode_text(self.as_str());
        b.len() as u64
    }
}

/// Reads an unsigned 16 bit number at `off`.
fn read_u16(b: &[u8], off: usize) -> (r: u16)
    requires
        off + 2 <= b@.len(),
    ensures
        r == le_value(b@.subrange(off as int, off + 2)) as u16,
{
    let u = le_decode(b, off, 2);
    proof {
        lemma_pow256_values();
        lemma_le_value_bound(b@.subrange(off as int, off + 2));
    }
    u as u16
}

/// Reads a signed 16 bit number at `off`.
fn read_i16(b: &[u8], off: usize) -> (r: i16)
    requires
        off + 2 <= b@.len(),
    ensures
        r == to_signed(le_value(b@.subrange(off as int, off + 2)), 2) as i16,
{
    let u = le_decode(b, off, 2);
    proof {
        lemma_pow256_values();
        lemma_le_value_bound(b@.subrange(off as int, off + 2));
    }
    if u >= 0x8000 {
        (u as i32 - 0x1_0000i32) as i16
    } else {
        u as i16
    }
}

/// Reads an unsigned 32 bit number at `off`.
fn read_u32(b: &[u8], off: usize) -> (r: u32)
    requires
        off + 4 <= b@.len(),
    ensures
        r == le_value(b@.subrange(off as int, off + 4)) as u32,
{
    let u = le_decode(b, off, 4);
    proof {
        lemma_pow256_values();
        lemma_le_value_bound(b@.subrange(off as int, off + 4));
    }
    u as u32
}

/// Appends the `n` bytes of `x`.
fn put(out: &mut Vec<u8>, x: u64, n: usize)
    requires
        n <= 8,
    ensures
        final(out)@ == old(out)@ + le_bytes(x as int, n as nat),
{
    let mut b = le_encode(x, n);
    out.append(&mut b);
}

/// The bytes of a signed 16 bit number.
pub open spec fn i16_bytes(v: i16) -> Seq<u8> {
    le_bytes(to_unsigned(v as int, 2), 2)
}

/// The bytes of an unsigned 16 bit number.
pub open spec fn u16_bytes(v: u16) -> Seq<u8> {
    le_bytes(v as int, 2)
}

/// The bytes of an unsigned 32 bit number.
pub open spec fn u32_bytes(v: u32) -> Seq<u8> {
    le_bytes(v as int, 4)
}

/// The signed 16 bit number at `off`.
pub open spec fn i16_at(b: Seq<u8>, off: int) -> i16 {
    to_signed(le_value(b.subrange(off, off + 2)), 2) as i16
}

/// The unsigned 16 bit number at `off`.
pub open spec fn u16_at(b: Seq<u8>, off: int) -> u16 {
    le_value(b.subrange(off, off + 2)) as u16
}

/// The unsigned 32 bit number at `off`.
pub open spec fn u32_at(b: Seq<u8>, off: int) -> u32 {
    le_value(b.subrange(off, off + 4)) as u32
}

proof fn lemma_i16_at(b: Seq<u8>, off: int, v: i16)
    requires
        0 <= off,
        off + 2 <= b.len(),
        b.subrange(off, off + 2) == i16_bytes(v),
    ensures
        i16_at(b, off) == v,
{
    lemma_pow256_values();
    lemma_signed_round_trip(v as int, 2);
    lemma_le_round_trip(to_unsigned(v as int, 2), 2);
}

proof fn lemma_u16_at(b: Seq<u8>, off: int, v: u16)
    requires
        0 <= off,
        off + 2 <= b.len(),
        b.subrange(off, off + 2) == u16_bytes(v),
    ensures
        u16_at(b, off) == v,
{
    lemma_pow256_values();
    lemma_le_round_trip(v as int, 2);
}

proof fn lemma_u32_at(b: Seq<u8>, off: int, v: u32)
    requires
        0 <= off,
        off + 4 <= b.len(),
        b.subrange(off, off + 4) == u32_bytes(v),
    ensures
        u32_at(b, off) == v,
{
    lemma_pow256_values();
    lemma_le_round_trip(v as int, 4);
}

proof fn lemma_field_lens(a: i16, b: u16, c: u32)
    ensures
        i16_bytes(a).len() == 2,
        u16_bytes(b).len() == 2,
        u32_bytes(c).len() == 4,
{
    lemma_le_bytes_len(to_unsigned(a as int, 2), 2);
    lemma_le_bytes_len(b as int, 2);
    lemma_le_bytes_len(c as int, 4);
}

/// A date, laid out as the driver's C structure (6 bytes).
#[derive(PartialEq, Eq, Structural, Clone, Copy, Debug)]
pub struct SqlDate {
    pub year: i16,
    pub month: u16,
    pub day: u16,
}

impl View for SqlDate {
    type V = SqlDate;

    open spec fn view(&self) -> SqlDate {
        *self
    }
}

impl OdbcType for SqlDate {
    open spec fn decodable(bytes: Seq<u8>) -> bool {
        bytes.len() == 6
    }

    open spec fn spec_decode(bytes: Seq<u8>) -> SqlDate {
        SqlDate { year: i16_at(bytes, 0), month: u16_at(bytes, 2), day: u16_at(bytes, 4) }
    }

    open spec fn spec_encode(v: SqlDate) -> Seq<u8> {
        i16_bytes(v.year) + u16_bytes(v.month) + u16_bytes(v.day)
    }

    open spec fn spec_sql_data_type() -> i16 {
        SQL_DATE
    }

    fn sql_data_type() -> (r: i16) {
        SQL_DATE
    }

    open spec fn spec_c_data_type() -> i16 {
        SQL_C_DATE
    }

    fn c_data_type() -> (r: i16) {
        SQL_C_DATE
    }

    fn null_bytes_count() -> (r: usize) {
        0
    }

    fn can_convert(bytes: &[u8]) -> (r: bool) {
        bytes.len() == 6
    }

    fn convert(bytes: &[u8]) -> (r: SqlDate) {
        SqlDate { year: read_i16(bytes, 0), month: read_u16(bytes, 2), day: read_u16(bytes, 4) }
    }

    fn encoded_value(&self) -> (r: EncodedValue) {
        let mut out: Vec<u8> = Vec::new();
        proof {
            lemma_pow256_values();
        }
        let u: u64 = if self.year < 0 {
            (self.year as i32 + 0x1_0000i32) as u64
        } else {
            self.year as u64
        };
        put(&mut out, u, 2);
        put(&mut out, self.month as u64, 2);
        put(&mut out, self.day as u64, 2);
        assert(out@ =~= Self::spec_encode(*self));
        EncodedValue::new(Some(out))
    }

    fn column_size(&self) -> (r: u64) {
        proof {
        lemma_field_lens(self.year, 0, 0);
        lemma_field_lens(0, self.month, 0);
        lemma_field_lens(0, self.day, 0);
        }
        6
    }
}

impl ExactOdbcType for SqlDate {
    proof fn lemma_round_trip(v: SqlDate) {
        lemma_field_lens(v.year, 0, 0);
        lemma_field_lens(0, v.month, 0);
        lemma_field_lens(0, v.day, 0);
        let b = Self::spec_encode(v);
        assert(b.subrange(0, 2) =~= i16_bytes(v.year));
        lemma_i16_at(b, 0, v.year);
        assert(b.subrange(2, 4) =~= u16_bytes(v.month));
        lemma_u16_at(b, 2, v.month);
        assert(b.subrange(4, 6) =~= u16_bytes(v.day));
        lemma_u16_at(b, 4, v.day);
    }
}

/// A time of day, laid out as the driver's C structure (6 bytes).
#[derive(PartialEq, Eq, Structural, Clone, Copy, Debug)]
pub struct SqlTime {
    pub hour: u16,
    pub minute: u16,
    pub second: u16,
}

impl View for SqlTime {
    type V = SqlTime;

    open spec fn view(&self) -> SqlTime {
        *self
    }
}

impl OdbcType for SqlTime {
    open spec fn decodable(bytes: Seq<u8>) -> bool {
        bytes.len() == 6
    }

    open spec fn spec_decode(bytes: Seq<u8>) -> SqlTime {
        SqlTime { hour: u16_at(bytes, 0), minute: u16_at(bytes, 2), second: u16_at(bytes, 4) }
    }

    open spec fn spec_encode(v: SqlTime) -> Seq<u8> {
        u16_bytes(v.hour) + u16_bytes(v.minute) + u16_bytes(v.second)
    }

    open spec fn spec_sql_data_type() -> i16 {
        SQL_TIME
    }

    fn sql_data_type() -> (r: i16) {
        SQL_TIME
    }

    open spec fn spec_c_data_type() -> i16 {
        SQL_C_TIME
    }

    fn c_data_type() -> (r: i16) {
        SQL_C_TIME
    }

    fn null_bytes_count() -> (r: usize) {
        0
    }

    fn can_convert(bytes: &[u8]) -> (r: bool) {
        bytes.len() == 6
    }

    fn convert(bytes: &[u8]) -> (r: SqlTime) {
        SqlTime { hour: read_u16(bytes, 0), minute: read_u16(bytes, 2), second: read_u16(bytes, 4) }
    }

    fn encoded_value(&self) -> (r: EncodedValue) {
        let mut out: Vec<u8> = Vec::new();
        proof {
            lemma_pow256_values();
        }
        put(&mut out, self.hour as u64, 2);
        put(&mut out, self.minute as u64, 2);
        put(&mut out, self.second as u64, 2);
        assert(out@ =~= Self::spec_encode(*self));
        EncodedValue::new(Some(out))
    }

    fn column_size(&self) -> (r: u64) {
        proof {
        lemma_field_lens(0, self.hour, 0);
        lemma_field_lens(0, self.minute, 0);
        lemma_field_lens(0, self.second, 0);
        }
        6
    }
}

impl ExactOdbcType for SqlTime {
    proof fn lemma_round_trip(v: SqlTime) {
        lemma_field_lens(0, v.hour, 0);
        lemma_field_lens(0, v.minute, 0);
        lemma_field_lens(0, v.second, 0);
        let b = Self::spec_encode(v);
        assert(b.subrange(0, 2) =~= u16_bytes(v.hour));
        lemma_u16_at(b, 0, v.hour);
        assert(b.subrange(2, 4) =~= u16_bytes(v.minute));
        lemma_u16_at(b, 2, v.minute);
        assert(b.subrange(4, 6) =~= u16_bytes(v.second));
        lemma_u16_at(b, 4, v.second);
    }
}

/// A timestamp, laid out as the driver's C structure (16 bytes).
#[derive(PartialEq, Eq, Structural, Clone, Copy, Debug)]
pub struct SqlTimestamp {
    pub year: i16,
    pub month: u16,
    pub day: u16,
    pub hour: u16,
    pub minute: u16,
    pub second: u16,
    pub fraction: u32,
}

impl View for SqlTimestamp {
    type V = SqlTimestamp;

    open spec fn view(&self) -> SqlTimestamp {
        *self
    }
}

impl OdbcType for SqlTimestamp {
    open spec fn decodable(bytes: Seq<u8>) -> bool {
        bytes.len() == 16
    }

    open spec fn spec_decode(bytes: Seq<u8>) -> SqlTimestamp {
        SqlTimestamp { year: i16_at(bytes, 0), month: u16_at(bytes, 2), day: u16_at(bytes, 4), hour: u16_at(bytes, 6), minute: u16_at(bytes, 8), second: u16_at(bytes, 10), fraction: u32_at(bytes, 12) }
    }

    open spec fn spec_encode(v: SqlTimestamp) -> Seq<u8> {
        i16_bytes(v.year) + u16_bytes(v.month) + u16_bytes(v.day) + u16_bytes(v.hour) + u16_bytes(v.minute) + u16_bytes(v.second) + u32_bytes(v.fraction)
    }

    open spec fn spec_sql_data_type() -> i16 {
        SQL_TIMESTAMP
    }

    fn sql_data_type() -> (r: i16) {
        SQL_TIMESTAMP
    }

    open spec fn spec_c_data_type() -> i16 {
        SQL_C_TYPE_TIMESTAMP
    }

    fn c_data_type() -> (r: i16) {
        SQL_C_TYPE_TIMESTAMP
    }

    fn null_bytes_count() -> (r: usize) {
        0
    }

    fn can_convert(bytes: &[u8]) -> (r: bool) {
        bytes.len() == 16
    }

    fn convert(bytes: &[u8]) -> (r: SqlTimestamp) {
        SqlTimestamp { year: read_i16(bytes, 0), month: read_u16(bytes, 2), day: read_u16(bytes, 4), hour: read_u16(bytes, 6), minute: read_u16(bytes, 8), second: read_u16(bytes, 10), fraction: read_u32(bytes, 12) }
    }

    fn encoded_value(&self) -> (r: EncodedValue) {
        let mut out: Vec<u8> = Vec::new();
        proof {
            lemma_pow256_values();
        }
        let u: u64 = if self.year < 0 {
            (self.year as i32 + 0x1_0000i32) as u64
        } else {
            self.year as u64
        };
        put(&mut out, u, 2);
        put(&mut out, self.month as u64, 2);
        put(&mut out, self.day as u64, 2);
        put(&mut out, self.hour as u64, 2);
        put(&mut out, self.minute as u64, 2);
        put(&mut out, self.second as u64, 2);
        put(&mut out, self.fraction as u64, 4);
        assert(out@ =~= Self::spec_encode(*self));
        EncodedValue::new(Some(out))
    }

    fn column_size(&self) -> (r: u64) {
        proof {
        lemma_field_lens(self.year, 0, 0);
        lemma_field_lens(0, self.month, 0);
        lemma_field_lens(0, self.day, 0);
        lemma_field_lens(0, self.hour, 0);
        lemma_field_lens(0, self.minute, 0);
        lemma_field_lens(0, self.second, 0);
        lemma_field_lens(0, 0, self.fraction);
        }
        16
    }
}

impl ExactOdbcType for SqlTimestamp {
    proof fn lemma_round_trip(v: SqlTimestamp) {
        lemma_field_lens(v.year, 0, 0);
        lemma_field_lens(0, v.month, 0);
        lemma_field_lens(0, v.day, 0);
        lemma_field_lens(0, v.hour, 0);
        lemma_field_lens(0, v.minute, 0);
        lemma_field_lens(0, v.second, 0);
        lemma_field_lens(0, 0, v.fraction);
        let b = Self::spec_encode(v);
        assert(b.subrange(0, 2) =~= i16_bytes(v.year));
        lemma_i16_at(b, 0, v.year);
        assert(b.subrange(2, 4) =~= u16_bytes(v.month));
        lemma_u16_at(b, 2, v.month);
        assert(b.subrange(4, 6) =~= u16_bytes(v.day));
        lemma_u16_at(b, 4, v.day);
        assert(b.subrange(6, 8) =~= u16_bytes(v.hour));
        lemma_u16_at(b, 6, v.hour);
        assert(b.subrange(8, 10) =~= u16_bytes(v.minute));
        lemma_u16_at(b, 8, v.minute);
        assert(b.subrange(10, 12) =~= u16_bytes(v.second));
        lemma_u16_at(b, 10, v.second);
        assert(b.subrange(12, 16) =~= u32_bytes(v.fraction));
        lemma_u32_at(b, 12, v.fraction);
    }
}

/// A time of day with fractional seconds, sent as binary, laid out as the driver's C structure (12 bytes).
#[derive(PartialEq, Eq, Structural, Clone, Copy, Debug)]
pub struct SqlSsTime2 {
    pub hour: u16,
    pub minute: u16,
    pub second: u16,
    pub fraction: u32,
}

impl View for SqlSsTime2 {
    type V = SqlSsTime2;

    open spec fn view(&self) -> SqlSsTime2 {
        *self
    }
}

impl OdbcType for SqlSsTime2 {
    open spec fn decodable(bytes: Seq<u8>) -> bool {
        bytes.len() == 12
    }

    open spec fn spec_decode(bytes: Seq<u8>) -> SqlSsTime2 {
        SqlSsTime2 { hour: u16_at(bytes, 0), minute: u16_at(bytes, 2), second: u16_at(bytes, 4), fraction: u32_at(bytes, 8) }
    }

    open spec fn spec_encode(v: SqlSsTime2) -> Seq<u8> {
        u16_bytes(v.hour) + u16_bytes(v.minute) + u16_bytes(v.second) + seq![0u8, 0u8] + u32_bytes(v.fraction)
    }

    open spec fn spec_sql_data_type() -> i16 {
        SQL_EXT_VARBINARY
    }

    fn sql_data_type() -> (r: i16) {
        SQL_EXT_VARBINARY
    }

    open spec fn spec_c_data_type() -> i16 {
        SQL_C_BINARY
    }

    fn c_data_type() -> (r: i16) {
        SQL_C_BINARY
    }

    fn null_bytes_count() -> (r: usize) {
        0
    }

    fn can_convert(bytes: &[u8]) -> (r: bool) {
        bytes.len() == 12
    }

    fn convert(bytes: &[u8]) -> (r: SqlSsTime2) {
        SqlSsTime2 { hour: read_u16(bytes, 0), minute: read_u16(bytes, 2), second: read_u16(bytes, 4), fraction: read_u32(bytes, 8) }
    }

    fn encoded_value(&self) -> (r: EncodedValue) {
        let mut out: Vec<u8> = Vec::new();
        proof {
            lemma_pow256_values();
        }
        put(&mut out, self.hour as u64, 2);
        put(&mut out, self.minute as u64, 2);
        put(&mut out, self.second as u64, 2);
        out.push(0u8);
        out.push(0u8);
        put(&mut out, self.fraction as u64, 4);
        assert(out@ =~= Self::spec_encode(*self));
        EncodedValue::new(Some(out))
    }

    fn column_size(&self) -> (r: u64) {
        proof {
        lemma_field_lens(0, self.hour, 0);
        lemma_field_lens(0, self.minute, 0);
        lemma_field_lens(0, self.second, 0);
        lemma_field_lens(0, 0, self.fraction);
        }
        12
    }
}

impl ExactOdbcType for SqlSsTime2 {
    proof fn lemma_round_trip(v: SqlSsTime2) {
        lemma_field_lens(0, v.hour, 0);
        lemma_field_lens(0, v.minute, 0);
        lemma_field_lens(0, v.second, 0);
        lemma_field_lens(0, 0, v.fraction);
        let b = Self::spec_encode(v);
        assert(b.subrange(0, 2) =~= u16_bytes(v.hour));
        lemma_u16_at(b, 0, v.hour);
        assert(b.subrange(2, 4) =~= u16_bytes(v.minute));
        lemma_u16_at(b, 2, v.minute);
        assert(b.subrange(4, 6) =~= u16_bytes(v.second));
        lemma_u16_at(b, 4, v.second);
        assert(b.subrange(8, 12) =~= u32_bytes(v.fraction));
        lemma_u32_at(b, 8, v.fraction);
    }
}

} // verus!
