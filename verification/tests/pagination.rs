use fuzzle::pagination::{QueryOffsetError, QueryPage};

#[test]
fn offset_text_reads_offset_and_seed() {
    let p = QueryPage::from_query_offset_and_seed("20;5", 10, 7).unwrap();
    assert_eq!((p.skip(), p.page_size(), p.seed()), (20, 10, 5));
    let p = QueryPage::from_query_offset_and_seed("5;-3;9", 4, 7).unwrap();
    assert_eq!((p.skip(), p.page_size(), p.seed()), (5, 4, -3));
    let p = QueryPage::from_query_offset_and_seed("+5;+3", 4, 7).unwrap();
    assert_eq!((p.skip(), p.seed()), (5, 3));
}

#[test]
fn offset_text_without_separator_starts_a_listing() {
    let p = QueryPage::from_query_offset_and_seed("", 10, 7).unwrap();
    assert_eq!((p.skip(), p.page_size(), p.seed()), (0, 10, 7));
    let p = QueryPage::from_query_offset_and_seed("abc", 3, -1).unwrap();
    assert_eq!((p.skip(), p.page_size(), p.seed()), (0, 3, -1));
    let p = QueryPage::from_query_offset("", 10).unwrap();
    assert_eq!((p.skip(), p.page_size()), (0, 10));
}

#[test]
fn offset_text_errors() {
    assert_eq!(QueryPage::from_query_offset_and_seed("x;5", 10, 0).unwrap_err(), QueryOffsetError::InvalidOffset);
    assert_eq!(QueryPage::from_query_offset_and_seed(";5", 10, 0).unwrap_err(), QueryOffsetError::InvalidOffset);
    assert_eq!(QueryPage::from_query_offset_and_seed("-1;5", 10, 0).unwrap_err(), QueryOffsetError::InvalidOffset);
    assert_eq!(QueryPage::from_query_offset_and_seed("5;x", 10, 0).unwrap_err(), QueryOffsetError::InvalidSeed);
    assert_eq!(QueryPage::from_query_offset_and_seed("5;", 10, 0).unwrap_err(), QueryOffsetError::InvalidSeed);
    assert_eq!(
        QueryPage::from_query_offset_and_seed("5;2147483648", 10, 0).unwrap_err(),
        QueryOffsetError::InvalidSeed
    );
    assert_eq!(QueryPage::from_query_offset("x;1", 10).unwrap_err(), QueryOffsetError::InvalidOffset);
}

#[test]
fn next_offset() {
    let p = QueryPage::from_query_offset_and_seed("20;-5", 10, 0).unwrap();
    assert_eq!(p.next_query_offset(10), "30;-5");
    assert_eq!(p.next_query_offset(11), "30;-5");
    assert_eq!(p.next_query_offset(9), "");
}

#[test]
fn next_offset_reads_back() {
    let p = QueryPage::from_query_offset_and_seed("40;123", 25, 0).unwrap();
    let next = QueryPage::from_query_offset_and_seed(&p.next_query_offset(25), 25, 9).unwrap();
    assert_eq!((next.skip(), next.page_size(), next.seed()), (65, 25, 123));
    let fresh = QueryPage::from_query_offset_and_seed(&p.next_query_offset(3), 25, 9).unwrap();
    assert_eq!((fresh.skip(), fresh.seed()), (0, 9));
}
