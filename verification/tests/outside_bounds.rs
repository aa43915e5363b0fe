//! The bounds that the library's statements about chrono rely on.

#[test]
fn chrono_represents_exactly_the_stated_range() {
    assert!(chrono::DateTime::from_timestamp(-8334601228800, 0).is_some());
    assert!(chrono::DateTime::from_timestamp(-8334601228801, 0).is_none());
    assert!(chrono::DateTime::from_timestamp(8210266876799, 0).is_some());
    assert!(chrono::DateTime::from_timestamp(8210266876800, 0).is_none());
}

#[test]
fn rfc2822_years_zero_to_9999() {
    let first = chrono::DateTime::from_timestamp(-62167219200, 0).unwrap();
    assert_eq!(first.to_rfc2822(), "Sat, 1 Jan 0000 00:00:00 +0000");
    let last = chrono::DateTime::from_timestamp(253402300799, 0).unwrap();
    assert_eq!(last.to_rfc2822(), "Fri, 31 Dec 9999 23:59:59 +0000");
}
