use place_feed::url_attr::{encode_query, extract_id, extract_lat_lng};

#[test]
fn id_with_token_and_query() {
    let url = "https://www.google.com/maps/place/Foo/data=!3d1.2!4d3.4!19sChIJabc123?authuser=0&hl=en";
    assert_eq!(extract_id(url), "ChIJabc123");
}

#[test]
fn id_without_query_string_is_unknown() {
    let url = "https://www.google.com/maps/place/Foo/data=!19sChIJabc123";
    assert_eq!(extract_id(url), "unknown");
}

#[test]
fn id_with_query_but_no_token_is_unknown() {
    let url = "https://www.google.com/maps/place/Foo/data=!3d1.2?hl=en";
    assert_eq!(extract_id(url), "unknown");
}

#[test]
fn id_stops_at_second_token() {
    let url = "a!19sFIRST!19sSECOND?q=1";
    assert_eq!(extract_id(url), "FIRST");
}

#[test]
fn id_token_in_query_part_is_ignored() {
    let url = "https://host/path?x=!19sNOPE";
    assert_eq!(extract_id(url), "unknown");
}

#[test]
fn lat_lng_found() {
    let url = "https://maps/place/data=!8m2!3d12.345!4d-67.891!16s";
    let (lat, lng) = extract_lat_lng(url);
    assert_eq!(lat, "12.345");
    assert_eq!(lng, "-67.891");
    assert_eq!(lat.parse::<f64>().unwrap(), 12.345);
    assert_eq!(lng.parse::<f64>().unwrap(), -67.891);
}

#[test]
fn lat_lng_negative_latitude() {
    let url = "x3d-0.5!4d9.25y";
    let (lat, lng) = extract_lat_lng(url);
    assert_eq!((lat.as_str(), lng.as_str()), ("-0.5", "9.25"));
}

#[test]
fn lat_lng_absent_pattern_yields_zeros() {
    let (lat, lng) = extract_lat_lng("https://maps/place/nothing-here");
    assert_eq!((lat.as_str(), lng.as_str()), ("0.0", "0.0"));
    assert_eq!(lat.parse::<f64>().unwrap(), 0.0);
    assert_eq!(lng.parse::<f64>().unwrap(), 0.0);
}

#[test]
fn lat_lng_requires_fractional_digits() {
    let (lat, lng) = extract_lat_lng("3d12!4d34");
    assert_eq!((lat.as_str(), lng.as_str()), ("0.0", "0.0"));
}

#[test]
fn lat_lng_takes_leftmost_match() {
    let url = "3d1.1!4d2.2 and later 3d9.9!4d8.8";
    let (lat, lng) = extract_lat_lng(url);
    assert_eq!((lat.as_str(), lng.as_str()), ("1.1", "2.2"));
}

#[test]
fn query_spaces_become_plus_signs() {
    assert_eq!(encode_query("restaurante em lisboa"), "restaurante+em+lisboa");
    assert_eq!(encode_query("pizza"), "pizza");
    assert_eq!(encode_query(""), "");
    assert_eq!(encode_query("a  b"), "a++b");
}
