use musikquadrupled::query::{forwarded_path, make_span_trace, remove_token_from_query, without_token, QueryDisplay};

fn pair(k: &str, v: &str) -> (String, String) {
    (k.to_string(), v.to_string())
}

#[test]
fn token_is_removed_from_query() {
    let pairs = remove_token_from_query(Some("b=2&token=secret&a=1"));
    assert_eq!(pairs, vec![pair("a", "1"), pair("b", "2")]);
    assert_eq!(remove_token_from_query(None), vec![]);
    assert_eq!(remove_token_from_query(Some("token=only")), vec![]);
}

#[test]
fn unparsable_query_counts_as_empty() {
    assert_eq!(remove_token_from_query(Some("a[b]=1&a=2")), vec![]);
}

#[test]
fn query_display_joins_pairs() {
    let shown = QueryDisplay::new(vec![pair("a", "1"), pair("b", "x y")]);
    assert_eq!(shown.to_string(), "a=1&b=x y");
    assert_eq!(QueryDisplay::new(vec![]).to_string(), "");
}

#[test]
fn span_fields_of_a_request() {
    let f = make_span_trace(Some("token=t&limit=5"), Some("req-1"));
    assert_eq!(f.id, "req-1");
    assert_eq!(f.query, Some("limit=5".to_string()));
    let g = make_span_trace(Some("token=t"), None);
    assert_eq!(g.id, "no id set");
    assert_eq!(g.query, None);
}

#[test]
fn forwarded_path_drops_token_and_empty_query() {
    assert_eq!(forwarded_path("/thumbnail/5", Some("token=abc")), "/thumbnail/5");
    assert_eq!(forwarded_path("/thumbnail/5", None), "/thumbnail/5");
    assert_eq!(forwarded_path("/audio/external_id/x", Some("token=abc&bitrate=320")), "/audio/external_id/x?bitrate=320");
    assert_eq!(forwarded_path("/a", Some("q=b%20c")), "/a?q=b+c");
}

#[test]
fn without_token_keeps_order_of_other_pairs() {
    let pairs = vec![pair("z", "1"), pair("token", "a"), pair("a", "2"), pair("token", "b")];
    assert_eq!(without_token(&pairs), vec![pair("z", "1"), pair("a", "2")]);
    assert_eq!(without_token(&vec![]), vec![]);
}
