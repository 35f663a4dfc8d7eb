use fuzzle::pragma::{format_cache_size, KB};

#[test]
fn test_cache_size_default() {
    assert_eq!("-2000", format_cache_size(2000 * KB))
}

#[test]
fn cache_size_rounds_down_to_whole_kibibytes() {
    assert_eq!(format_cache_size(1023), "-0");
    assert_eq!(format_cache_size(1025), "-1");
}
