//! The environment: the version declaration, and listing drivers and data sources.
use vstd::prelude::*;
use crate::result::{SQL_SUCCESS, SQL_SUCCESS_WITH_INFO, SQL_ERROR, SQL_NO_DATA};
use crate::text::{decode_text, utf8_decoded};

verus! {

/// Fetch direction: the next element.
pub const SQL_FETCH_NEXT: u16 = 1;
/// Fetch direction: the first element, starting over (all data sources).
pub const SQL_FETCH_FIRST: u16 = 2;
/// Fetch direction: the first user data source.
pub const SQL_FETCH_FIRST_USER: u16 = 31;
/// Fetch direction: the first system data source.
pub const SQL_FETCH_FIRST_SYSTEM: u16 = 32;

/// Whether an environment admits an operation: the version must be declared once, before
/// connections are allocated or drivers and data sources listed.
pub open spec fn environment_allows(version3: bool, declare_version: bool) -> bool {
    if declare_version {
        !version3
    } else {
        version3
    }
}

/// Whether an environment admits an operation (see [`environment_allows`]).
pub fn environment_admits(version3: bool, declare_version: bool) -> (r: bool)
    ensures
        r == environment_allows(version3, declare_version),
{
    if declare_version {
        !version3
    } else {
        version3
    }
}

/// Outcome of one step of iterating over drivers or data sources.
#[must_use]
pub enum IterationResult<T> {
    Success(T),
    SuccessWithInfo(T),
    NoData,
    Error,
}

impl<T> IterationResult<T> {
    /// Classifies the status of one step together with the lengths it reported.
    pub fn from_status(status: i16, value: T) -> (r: IterationResult<T>)
        requires
            status == SQL_SUCCESS || status == SQL_SUCCESS_WITH_INFO || status == SQL_ERROR
                || status == SQL_NO_DATA,
        ensures
            status == SQL_SUCCESS ==> r == IterationResult::Success(value),
            status == SQL_SUCCESS_WITH_INFO ==> r == IterationResult::SuccessWithInfo(value),
            status == SQL_NO_DATA ==> r is NoData,
            status == SQL_ERROR ==> r is Error,
    {
        if status == SQL_SUCCESS {
            IterationResult::Success(value)
        } else if status == SQL_SUCCESS_WITH_INFO {
            IterationResult::SuccessWithInfo(value)
        } else if status == SQL_NO_DATA {
            IterationResult::NoData
        } else {
            IterationResult::Error
        }
    }
}

/// Buffer sizes needed to list every element without truncation: the longest first and
/// second string, and the number of elements.
#[derive(PartialEq, Eq, Structural, Clone, Copy, Debug)]
pub struct InfoSizes {
    pub max1: i16,
    pub max2: i16,
    pub count: usize,
}

impl InfoSizes {
    pub open spec fn spec_new() -> InfoSizes {
        InfoSizes { max1: 0, max2: 0, count: 0 }
    }

    pub fn new() -> (r: InfoSizes)
        ensures
            r == InfoSizes::spec_new(),
    {
        InfoSizes { max1: 0, max2: 0, count: 0 }
    }

    /// Takes the lengths of one more element into account (the count stops at the largest
    /// `usize`).
    pub fn record(&mut self, len1: i16, len2: i16)
        ensures
            final(self).max1 == if len1 > old(self).max1 { len1 } else { old(self).max1 },
            final(self).max2 == if len2 > old(self).max2 { len2 } else { old(self).max2 },
            final(self).count == if old(self).count < usize::MAX { old(self).count + 1 } else { old(self).count as int },
    {
        if len1 > self.max1 {
            self.max1 = len1;
        }
        if len2 > self.max2 {
            self.max2 = len2;
        }
        if self.count < usize::MAX {
            self.count = self.count + 1;
        }
    }

    /// Buffer length for the first strings: the longest plus a terminator.
    pub fn buffer_len1(&self) -> (r: usize)
        ensures
            r == if self.max1 < 0 { 1 } else { self.max1 + 1 },
    {
        if self.max1 < 0 {
            1
        } else {
            self.max1 as usize + 1
        }
    }

    /// Buffer length for the second strings: the longest plus a terminator.
    pub fn buffer_len2(&self) -> (r: usize)
        ensures
            r == if self.max2 < 0 { 1 } else { self.max2 + 1 },
    {
        if self.max2 < 0 {
            1
        } else {
            self.max2 as usize + 1
        }
    }
}

/// Name and description of a data source.
pub struct DataSourceInfo {
    /// Name of the data source.
    pub server_name: String,
    /// Description of the data source.
    pub driver: String,
}

/// Description and attributes of a driver.
pub struct DriverInfo {
    /// Name of the driver.
    pub description: String,
    /// Attributes of the driver, as key and value, in the order the driver lists them.
    pub attributes: Vec<(String, String)>,
}

/// Byte `=`, which separates a key from its value.
pub const EQUALS: u8 = 61;

/// Position of the first `x` in `b`, or its length when there is none.
pub open spec fn find(b: Seq<u8>, x: u8) -> int
    decreases b.len(),
{
    if b.len() == 0 {
        0
    } else if b[0] == x {
        0
    } else {
        1 + find(b.drop_first(), x)
    }
}

/// The key of an attribute entry: up to the first `=`.
pub open spec fn entry_key(e: Seq<u8>) -> Seq<u8> {
    e.take(find(e, EQUALS))
}

/// The value of an attribute entry: after the first `=`, up to the next one (empty when
/// there is no `=`).
pub open spec fn entry_value(e: Seq<u8>) -> Seq<u8> {
    let k = find(e, EQUALS);
    if k < e.len() {
        let rest = e.skip(k + 1);
        rest.take(find(rest, EQUALS))
    } else {
        Seq::empty()
    }
}

/// The entries of a driver's attribute list: entries end at a zero byte, and the list ends
/// at the first empty entry (or the end of the bytes).
pub open spec fn attribute_entries(b: Seq<u8>) -> Seq<Seq<u8>>
    decreases b.len(),
    via attribute_entries_decreases
{
    let e = find(b, 0);
    if e == 0 {
        Seq::empty()
    } else if e >= b.len() {
        seq![b]
    } else {
        seq![b.take(e)] + attribute_entries(b.skip(e + 1))
    }
}

#[via_fn]
proof fn attribute_entries_decreases(b: Seq<u8>) {
    lemma_find_bounds(b, 0);
}

pub proof fn lemma_find_bounds(b: Seq<u8>, x: u8)
    ensures
        0 <= find(b, x) <= b.len(),
        find(b, x) < b.len() ==> b[find(b, x)] == x,
        forall|i: int| 0 <= i < find(b, x) ==> b[i] != x,
    decreases b.len(),
{
    if b.len() > 0 && b[0] != x {
        lemma_find_bounds(b.drop_first(), x);
        assert forall|i: int| 0 <= i < find(b, x) implies b[i] != x by {
            if i > 0 {
                assert(b[i] == b.drop_first()[i - 1]);
            }
        }
    }
}

/// Position of the first `x` in `b[from..]`, counted from `from`.
fn find_from(b: &[u8], from: usize, x: u8) -> (r: usize)
    requires
        from <= b@.len(),
    ensures
        r == from + find(b@.skip(from as int), x),
{
    let mut i = from;
    proof {
        lemma_find_bounds(b@.skip(from as int), x);
    }
    while i < b.len() && b[i] != x
        invariant
            from <= i <= b@.len(),
            find(b@.skip(from as int), x) == (i - from) + find(b@.skip(i as int), x),
        decreases b@.len() - i,
    {
        assert(b@.skip(i as int).drop_first() =~= b@.skip(i + 1));
        i = i + 1;
    }
    i
}

/// A copy of `b[from..to]`.
fn copy_range(b: &[u8], from: usize, to: usize) -> (r: Vec<u8>)
    requires
        from <= to <= b@.len(),
    ensures
        r@ == b@.subrange(from as int, to as int),
{
    let mut out: Vec<u8> = Vec::new();
    let mut i = from;
    while i < to
        invariant
            from <= i <= to <= b@.len(),
            out@ == b@.subrange(from as int, i as int),
        decreases to - i,
    {
        out.push(b[i]);
        i = i + 1;
        assert(out@ =~= b@.subrange(from as int, i as int));
    }
    out
}

/// Splits one attribute entry `b[from..to]` into key and value bytes.
fn split_entry(b: &[u8], from: usize, to: usize) -> (r: (Vec<u8>, Vec<u8>))
    requires
        from <= to <= b@.len(),
    ensures
        r.0@ == entry_key(b@.subrange(from as int, to as int)),
        r.1@ == entry_value(b@.subrange(from as int, to as int)),
{
    let ghost e = b@.subrange(from as int, to as int);
    let entry = copy_range(b, from, to);
    let k = find_from(entry.as_slice(), 0, EQUALS);
    assert(entry@.skip(0) =~= e);
    proof {
        lemma_find_bounds(e, EQUALS);
    }
    let key = copy_range(entry.as_slice(), 0, k);
    assert(key@ =~= entry_key(e));
    if k < entry.len() {
        let v_end = find_from(entry.as_slice(), k + 1, EQUALS);
        proof {
            lemma_find_bounds(e.skip(k + 1), EQUALS);
        }
        let value = copy_range(entry.as_slice(), k + 1, v_end);
        assert(value@ =~= entry_value(e));
        (key, value)
    } else {
        let value: Vec<u8> = Vec::new();
        assert(value@ =~= entry_value(e));
        (key, value)
    }
}

/// Parses a driver's attribute list, `key=value` entries each ended by a zero byte with an
/// empty entry at the end, into key and value bytes.
pub fn parse_attribute_bytes(b: &[u8]) -> (r: Vec<(Vec<u8>, Vec<u8>)>)
    ensures
        r@.len() == attribute_entries(b@).len(),
        forall|i: int| 0 <= i < r@.len() ==> {
            &&& (#[trigger] r@[i]).0@ == entry_key(attribute_entries(b@)[i])
            &&& r@[i].1@ == entry_value(attribute_entries(b@)[i])
        },
{
    let mut out: Vec<(Vec<u8>, Vec<u8>)> = Vec::new();
    let mut pos: usize = 0;
    let ghost done: Seq<Seq<u8>> = Seq::empty();
    assert(b@.skip(0) =~= b@);
    assert(done + attribute_entries(b@) =~= attribute_entries(b@));
    loop
        invariant_except_break
            pos <= b@.len(),
            done + attribute_entries(b@.skip(pos as int)) == attribute_entries(b@),
            out@.len() == done.len(),
            forall|i: int| 0 <= i < out@.len() ==> {
                &&& (#[trigger] out@[i]).0@ == entry_key(done[i])
                &&& out@[i].1@ == entry_value(done[i])
            },
        ensures
            out@.len() == attribute_entries(b@).len(),
            forall|i: int| 0 <= i < out@.len() ==> {
                &&& (#[trigger] out@[i]).0@ == entry_key(attribute_entries(b@)[i])
                &&& out@[i].1@ == entry_value(attribute_entries(b@)[i])
            },
        decreases b@.len() - pos,
    {
        let ghost rest = b@.skip(pos as int);
        let end = find_from(b, pos, 0);
        proof {
            lemma_find_bounds(rest, 0);
        }
        if end == pos {
            assert(attribute_entries(rest) =~= Seq::<Seq<u8>>::empty());
            assert(done =~= attribute_entries(b@));
            break;
        }
        let kv = split_entry(b, pos, end);
        assert(b@.subrange(pos as int, end as int) =~= rest.take(end - pos));
        out.push(kv);
        if end >= b.len() {
            assert(rest =~= rest.take(end - pos));
            proof {
                done = done.push(rest);
            }
            assert(attribute_entries(rest) =~= seq![rest]);
            assert(done =~= attribute_entries(b@));
            break;
        }
        proof {
            assert(rest.skip(end - pos + 1) =~= b@.skip(end + 1));
            assert(attribute_entries(rest) =~= seq![rest.take(end - pos)] + attribute_entries(b@.skip(end + 1)));
            done = done.push(rest.take(end - pos));
            assert(done + attribute_entries(b@.skip(end + 1)) =~= attribute_entries(b@));
        }
        pos = end + 1;
    }
    out
}

/// Parses a driver's attribute list into keys and values, decoded to text.
pub fn parse_attributes(b: &[u8]) -> (r: Vec<(String, String)>)
    ensures
        r@.len() == attribute_entries(b@).len(),
        forall|i: int| 0 <= i < r@.len() ==> {
            &&& (#[trigger] r@[i]).0@ == utf8_decoded(entry_key(attribute_entries(b@)[i]))
            &&& r@[i].1@ == utf8_decoded(entry_value(attribute_entries(b@)[i]))
        },
{
    let raw = parse_attribute_bytes(b);
    let mut out: Vec<(String, String)> = Vec::new();
    let mut i: usize = 0;
    while i < raw.len()
        invariant
            i <= raw@.len(),
            raw@.len() == attribute_entries(b@).len(),
            forall|j: int| 0 <= j < raw@.len() ==> {
                &&& (#[trigger] raw@[j]).0@ == entry_key(attribute_entries(b@)[j])
                &&& raw@[j].1@ == entry_value(attribute_entries(b@)[j])
            },
            out@.len() == i,
            forall|j: int| 0 <= j < i ==> {
                &&& (#[trigger] out@[j]).0@ == utf8_decoded(entry_key(attribute_entries(b@)[j]))
                &&& out@[j].1@ == utf8_decoded(entry_value(attribute_entries(b@)[j]))
            },
        decreases raw@.len() - i,
    {
        let key = decode_text(raw[i].0.as_slice());
        let value = decode_text(raw[i].1.as_slice());
        out.push((key, value));
        i = i + 1;
    }
    out
}

/// Size of the buffers used while finding out how long the strings are.
pub const SIZING_BUFFER_LEN: usize = 1024;

/// What a listing of drivers or data sources asks for next.
#[derive(PartialEq, Eq, Structural, Clone, Copy, Debug)]
pub enum ListingRequest {
    /// Call the driver manager with this direction and buffers of these lengths.
    Call { direction: u16, len1: usize, len2: usize },
    /// The listing is complete.
    Finished,
    /// The driver manager reported an error; its description is in the environment's
    /// diagnostics.
    Failed,
}

/// Lists drivers or data sources in two passes: the first finds the longest strings and
/// how many elements there are, the second collects the elements into buffers large enough
/// to hold them.
pub struct Listing {
    first: u16,
    restart: bool,
    collecting: bool,
    started: bool,
    failed: bool,
    finished: bool,
    sizes: InfoSizes,
    entries: Vec<(Vec<u8>, Vec<u8>)>,
}

/// The state of a listing, as plain values.
pub struct ListingView {
    /// Direction of the first call of a pass.
    pub first: u16,
    /// Whether the second pass starts over with `first` (data sources) or goes on with
    /// "next" (drivers).
    pub restart: bool,
    pub collecting: bool,
    /// Whether the current pass has made its first call.
    pub started: bool,
    pub failed: bool,
    pub finished: bool,
    pub sizes: InfoSizes,
    pub entries: Seq<(Seq<u8>, Seq<u8>)>,
}

impl View for Listing {
    type V = ListingView;

    closed spec fn view(&self) -> ListingView {
        ListingView {
            first: self.first,
            restart: self.restart,
            collecting: self.collecting,
            started: self.started,
            failed: self.failed,
            finished: self.finished,
            sizes: self.sizes,
            entries: self.entries@.map_values(|e: (Vec<u8>, Vec<u8>)| (e.0@, e.1@)),
        }
    }
}

/// The next request of a listing in state `l`.
pub open spec fn listing_request(l: ListingView) -> ListingRequest {
    if l.failed {
        ListingRequest::Failed
    } else if l.finished {
        ListingRequest::Finished
    } else if !l.collecting {
        ListingRequest::Call {
            direction: if l.started { SQL_FETCH_NEXT } else { l.first },
            len1: SIZING_BUFFER_LEN,
            len2: SIZING_BUFFER_LEN,
        }
    } else {
        ListingRequest::Call {
            direction: if !l.started && l.restart { l.first } else { SQL_FETCH_NEXT },
            len1: (if l.sizes.max1 < 0 { 1 } else { l.sizes.max1 + 1 }) as usize,
            len2: (if l.sizes.max2 < 0 { 1 } else { l.sizes.max2 + 1 }) as usize,
        }
    }
}

/// The first `n` bytes of `b`, `n` limited to `0..=b.len()`.
pub open spec fn clamped_prefix(b: Seq<u8>, n: int) -> Seq<u8> {
    if n < 0 {
        Seq::empty()
    } else if n > b.len() {
        b
    } else {
        b.take(n)
    }
}

/// The state of a listing after the driver manager answered its request.
pub open spec fn listing_next(l: ListingView, outcome: IterationResult<(i16, i16)>, buf1: Seq<u8>, buf2: Seq<u8>) -> ListingView {
    match outcome {
        IterationResult::Error => ListingView { failed: true, ..l },
        IterationResult::NoData => if l.collecting || l.sizes.count == 0 {
            ListingView { finished: true, ..l }
        } else {
            ListingView { collecting: true, started: false, ..l }
        },
        IterationResult::Success((a, b)) | IterationResult::SuccessWithInfo((a, b)) => if !l.collecting {
            ListingView {
                started: true,
                sizes: InfoSizes {
                    max1: if a > l.sizes.max1 { a } else { l.sizes.max1 },
                    max2: if b > l.sizes.max2 { b } else { l.sizes.max2 },
                    count: if l.sizes.count < usize::MAX { (l.sizes.count + 1) as usize } else { l.sizes.count },
                },
                ..l
            }
        } else {
            ListingView {
                started: true,
                entries: l.entries.push((clamped_prefix(buf1, a as int), clamped_prefix(buf2, b as int))),
                ..l
            }
        },
    }
}

/// Copies the first `n` bytes of `b`, `n` limited to `0..=b.len()`.
fn prefix_of(b: &[u8], n: i16) -> (r: Vec<u8>)
    ensures
        r@ == clamped_prefix(b@, n as int),
{
    let end: usize = if n < 0 {
        0
    } else if n as usize > b.len() {
        b.len()
    } else {
        n as usize
    };
    let r = copy_range(b, 0, end);
    assert(r@ =~= clamped_prefix(b@, n as int));
    r
}

impl Listing {
    /// Starts listing with `first` as the direction of the first call; `restart` says
    /// whether the second pass starts over with it.
    pub fn new(first: u16, restart: bool) -> (r: Listing)
        ensures
            r@.first == first,
            r@.restart == restart,
            !r@.collecting && !r@.started && !r@.failed && !r@.finished,
            r@.sizes == InfoSizes::spec_new(),
            r@.entries.len() == 0,
    {
        let r = Listing {
            first,
            restart,
            collecting: false,
            started: false,
            failed: false,
            finished: false,
            sizes: InfoSizes::new(),
            entries: Vec::new(),
        };
        assert(r@.entries =~= Seq::<(Seq<u8>, Seq<u8>)>::empty());
        r
    }

    /// Listing all data sources, user data sources or system data sources, as `first` says.
    pub fn data_sources(first: u16) -> (r: Listing)
        ensures
            r@.first == first,
            r@.restart,
            !r@.collecting && !r@.started && !r@.failed && !r@.finished,
            r@.sizes == InfoSizes::spec_new(),
            r@.entries.len() == 0,
    {
        Listing::new(first, true)
    }

    /// Listing drivers.
    pub fn drivers() -> (r: Listing)
        ensures
            r@.first == SQL_FETCH_FIRST,
            !r@.restart,
            !r@.collecting && !r@.started && !r@.failed && !r@.finished,
            r@.sizes == InfoSizes::spec_new(),
            r@.entries.len() == 0,
    {
        Listing::new(SQL_FETCH_FIRST, false)
    }

    /// What to do next.
    pub fn request(&self) -> (r: ListingRequest)
        ensures
            r == listing_request(self@),
    {
        if self.failed {
            ListingRequest::Failed
        } else if self.finished {
            ListingRequest::Finished
        } else if !self.collecting {
            ListingRequest::Call {
                direction: if self.started { SQL_FETCH_NEXT } else { self.first },
                len1: SIZING_BUFFER_LEN,
                len2: SIZING_BUFFER_LEN,
            }
        } else {
            ListingRequest::Call {
                direction: if !self.started && self.restart { self.first } else { SQL_FETCH_NEXT },
                len1: self.sizes.buffer_len1(),
                len2: self.sizes.buffer_len2(),
            }
        }
    }

    /// Takes the driver manager's answer to the request, with the two buffers it filled.
    pub fn step(&mut self, outcome: IterationResult<(i16, i16)>, buf1: &[u8], buf2: &[u8])
        requires
            listing_request(old(self)@) is Call,
        ensures
            final(self)@ == listing_next(old(self)@, outcome, buf1@, buf2@),
    {
        let ghost before = self.entries@;
        match outcome {
            IterationResult::Error => {
                self.failed = true;
            },
            IterationResult::NoData => {
                if self.collecting || self.sizes.count == 0 {
                    self.finished = true;
                } else {
                    self.collecting = true;
                    self.started = false;
                }
            },
            IterationResult::Success((a, b)) | IterationResult::SuccessWithInfo((a, b)) => {
                self.started = true;
                if !self.collecting {
                    self.sizes.record(a, b);
                } else {
                    let e1 = prefix_of(buf1, a);
                    let e2 = prefix_of(buf2, b);
                    self.entries.push((e1, e2));
                    assert(self@.entries =~= old(self)@.entries.push((clamped_prefix(buf1@, a as int), clamped_prefix(buf2@, b as int))));
                }
            },
        }
    }

    /// The elements collected, as pairs of byte strings.
    pub fn entries(&self) -> (r: &Vec<(Vec<u8>, Vec<u8>)>)
        ensures
            r@.map_values(|e: (Vec<u8>, Vec<u8>)| (e.0@, e.1@)) == self@.entries,
    {
        &self.entries
    }

    /// The collected elements as data sources: name and description, decoded to text.
    pub fn into_data_sources(self) -> (r: Vec<DataSourceInfo>)
        ensures
            r@.len() == self@.entries.len(),
            forall|i: int| 0 <= i < r@.len() ==> {
                &&& (#[trigger] r@[i]).server_name@ == utf8_decoded(self@.entries[i].0)
                &&& r@[i].driver@ == utf8_decoded(self@.entries[i].1)
            },
    {
        let ghost es = self@.entries;
        let mut out: Vec<DataSourceInfo> = Vec::new();
        let mut i: usize = 0;
        while i < self.entries.len()
            invariant
                i <= self.entries@.len(),
                es == self@.entries,
                es.len() == self.entries@.len(),
                out@.len() == i,
                forall|j: int| 0 <= j < i ==> {
                    &&& (#[trigger] out@[j]).server_name@ == utf8_decoded(es[j].0)
                    &&& out@[j].driver@ == utf8_decoded(es[j].1)
                },
            decreases self.entries@.len() - i,
        {
            assert(es[i as int] == (self.entries@[i as int].0@, self.entries@[i as int].1@));
            let server_name = decode_text(self.entries[i].0.as_slice());
            let driver = decode_text(self.entries[i].1.as_slice());
            out.push(DataSourceInfo { server_name, driver });
            i = i + 1;
        }
        out
    }

    /// The collected elements as drivers: description decoded to text, attributes parsed.
    pub fn into_drivers(self) -> (r: Vec<DriverInfo>)
        ensures
            r@.len() == self@.entries.len(),
            forall|i: int| 0 <= i < r@.len() ==> {
                &&& (#[trigger] r@[i]).description@ == utf8_decoded(self@.entries[i].0)
                &&& r@[i].attributes@.len() == attribute_entries(self@.entries[i].1).len()
            },
    {
        let ghost es = self@.entries;
        let mut out: Vec<DriverInfo> = Vec::new();
        let mut i: usize = 0;
        while i < self.entries.len()
            invariant
                i <= self.entries@.len(),
                es == self@.entries,
                es.len() == self.entries@.len(),
                out@.len() == i,
                forall|j: int| 0 <= j < i ==> {
                    &&& (#[trigger] out@[j]).description@ == utf8_decoded(es[j].0)
                    &&& out@[j].attributes@.len() == attribute_entries(es[j].1).len()
                },
            decreases self.entries@.len() - i,
        {
            assert(es[i as int] == (self.entries@[i as int].0@, self.entries@[i as int].1@));
            let description = decode_text(self.entries[i].0.as_slice());
            let attributes = parse_attributes(self.entries[i].1.as_slice());
            out.push(DriverInfo { description, attributes });
            i = i + 1;
        }
        out
    }
}

} // verus!
