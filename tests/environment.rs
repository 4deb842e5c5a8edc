use odbc::environment::{environment_admits, parse_attribute_bytes, parse_attributes, InfoSizes, IterationResult};

fn lookup<'a>(attributes: &'a [(String, String)], key: &str) -> &'a str {
    &attributes.iter().find(|(k, _)| k == key).unwrap().1
}

fn check_attributes(attributes: &[(String, String)]) {
    assert_eq!(lookup(attributes, "APILevel"), "2");
    assert_eq!(lookup(attributes, "ConnectFunctions"), "YYY");
    assert_eq!(lookup(attributes, "CPTimeout"), "60");
    assert_eq!(lookup(attributes, "DriverODBCVer"), "03.50");
    assert_eq!(lookup(attributes, "FileUsage"), "0");
    assert_eq!(lookup(attributes, "SQLLevel"), "1");
    assert_eq!(lookup(attributes, "UsageCount"), "1");
}

#[test]
fn environment_parse_attributes() {
    let buffer = "APILevel=2\0ConnectFunctions=YYY\0CPTimeout=60\0DriverODBCVer=03.\
                  50\0FileUsage=0\0SQLLevel=1\0UsageCount=1\0\0";
    let attributes = parse_attributes(buffer.as_bytes());
    check_attributes(&attributes);
}

#[test]
fn list_data_sources_parse_attributes() {
    let buffer = "APILevel=2\0ConnectFunctions=YYY\0CPTimeout=60\0DriverODBCVer=03.\
                  50\0FileUsage=0\0SQLLevel=1\0UsageCount=1\0\0";
    let attributes = parse_attributes(buffer.as_bytes());
    assert_eq!(attributes.len(), 7);
    check_attributes(&attributes);
}

#[test]
fn attribute_edge_cases() {
    assert!(parse_attribute_bytes(b"").is_empty());
    assert!(parse_attribute_bytes(b"\0A=1\0").is_empty());
    let r = parse_attribute_bytes(b"A=1=2\0B\0C=3");
    assert_eq!(r, vec![(b"A".to_vec(), b"1".to_vec()), (b"B".to_vec(), vec![]), (b"C".to_vec(), b"3".to_vec())]);
}

#[test]
fn info_sizes() {
    let mut sizes = InfoSizes::new();
    sizes.record(5, 20);
    sizes.record(12, 3);
    assert_eq!((sizes.max1, sizes.max2, sizes.count), (12, 20, 2));
    assert_eq!(sizes.buffer_len1(), 13);
    assert_eq!(sizes.buffer_len2(), 21);
}

#[test]
fn version_first() {
    assert!(environment_admits(false, true));
    assert!(!environment_admits(false, false));
    assert!(environment_admits(true, false));
    assert!(!environment_admits(true, true));
}

#[test]
fn iteration_statuses() {
    assert!(matches!(IterationResult::from_status(0, (1i16, 2i16)), IterationResult::Success((1, 2))));
    assert!(matches!(IterationResult::from_status(100, (0i16, 0i16)), IterationResult::NoData));
    assert!(matches!(IterationResult::from_status(-1, (0i16, 0i16)), IterationResult::Error));
}

use odbc::environment::{Listing, ListingRequest, SIZING_BUFFER_LEN, SQL_FETCH_FIRST, SQL_FETCH_FIRST_USER, SQL_FETCH_NEXT};

/// Answers listing calls from a fixed list of (name, description) pairs.
fn answer(items: &[(&str, &str)], pos: &mut usize, direction: u16, len1: usize, len2: usize) -> (IterationResult<(i16, i16)>, Vec<u8>, Vec<u8>) {
    if direction != SQL_FETCH_NEXT {
        *pos = 0;
    }
    let mut b1 = vec![0u8; len1];
    let mut b2 = vec![0u8; len2];
    if *pos >= items.len() {
        return (IterationResult::NoData, b1, b2);
    }
    let (a, b) = items[*pos];
    *pos += 1;
    let n1 = a.len().min(len1 - 1);
    let n2 = b.len().min(len2 - 1);
    b1[..n1].copy_from_slice(&a.as_bytes()[..n1]);
    b2[..n2].copy_from_slice(&b.as_bytes()[..n2]);
    (IterationResult::Success((a.len() as i16, b.len() as i16)), b1, b2)
}

#[test]
fn lists_data_sources_in_two_passes() {
    let items = [("TestDataSource", "SQLite3"), ("PostgreSQL", "PostgreSQL Unicode")];
    let mut listing = Listing::data_sources(SQL_FETCH_FIRST_USER);
    let mut pos = 0usize;
    let mut calls = Vec::new();
    loop {
        match listing.request() {
            ListingRequest::Call { direction, len1, len2 } => {
                calls.push((direction, len1, len2));
                let (outcome, b1, b2) = answer(&items, &mut pos, direction, len1, len2);
                listing.step(outcome, &b1, &b2);
            }
            ListingRequest::Finished => break,
            ListingRequest::Failed => panic!("listing failed"),
        }
    }
    assert_eq!(calls[0], (SQL_FETCH_FIRST_USER, SIZING_BUFFER_LEN, SIZING_BUFFER_LEN));
    assert_eq!(calls[1].0, SQL_FETCH_NEXT);
    assert_eq!(calls[3], (SQL_FETCH_FIRST_USER, 15, 19));
    assert_eq!(calls.len(), 6);
    let sources = listing.into_data_sources();
    assert_eq!(sources.len(), 2);
    assert_eq!(sources[0].server_name, "TestDataSource");
    assert_eq!(sources[0].driver, "SQLite3");
    assert_eq!(sources[1].server_name, "PostgreSQL");
    assert_eq!(sources[1].driver, "PostgreSQL Unicode");
}

#[test]
fn empty_listing_ends_after_sizing() {
    let mut listing = Listing::drivers();
    assert_eq!(listing.request(), ListingRequest::Call { direction: SQL_FETCH_FIRST, len1: SIZING_BUFFER_LEN, len2: SIZING_BUFFER_LEN });
    listing.step(IterationResult::NoData, &[], &[]);
    assert_eq!(listing.request(), ListingRequest::Finished);
    assert!(listing.into_drivers().is_empty());
}

#[test]
fn listing_error_fails() {
    let mut listing = Listing::drivers();
    listing.step(IterationResult::Error, &[], &[]);
    assert_eq!(listing.request(), ListingRequest::Failed);
}

#[test]
fn drivers_are_parsed() {
    let mut listing = Listing::drivers();
    listing.step(IterationResult::Success((6, 12)), &[], &[]);
    listing.step(IterationResult::NoData, &[], &[]);
    assert_eq!(listing.request(), ListingRequest::Call { direction: SQL_FETCH_NEXT, len1: 7, len2: 13 });
    listing.step(IterationResult::Success((6, 12)), b"SQLite\0", b"UsageCount=1\0");
    listing.step(IterationResult::NoData, &[], &[]);
    let drivers = listing.into_drivers();
    assert_eq!(drivers.len(), 1);
    assert_eq!(drivers[0].description, "SQLite");
    assert_eq!(drivers[0].attributes, vec![("UsageCount".to_string(), "1".to_string())]);
}
