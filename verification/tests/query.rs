use walle_core::obc::check_query;

#[test]
fn test_query() {
    println!("{:?}", check_query(Some("key=v&a=b")));
    println!("{:?}", check_query(Some("access_token=v&a=b")));
    assert_eq!(check_query(Some("key=v&a=b")), None);
    assert_eq!(check_query(Some("access_token=v&a=b")), Some("v".to_owned()));
}

#[test]
fn query_without_pairs_has_no_token() {
    assert_eq!(check_query(None), None);
    assert_eq!(check_query(Some("")), None);
    assert_eq!(check_query(Some("access_token=v&flag")), None);
    assert_eq!(check_query(Some("access_token=v&")), None);
}

#[test]
fn the_last_token_wins_and_splits_at_the_first_equals() {
    assert_eq!(check_query(Some("access_token=a&access_token=b")), Some("b".to_owned()));
    assert_eq!(check_query(Some("access_token=a=b")), Some("a=b".to_owned()));
    assert_eq!(check_query(Some("access_token=")), Some("".to_owned()));
}
