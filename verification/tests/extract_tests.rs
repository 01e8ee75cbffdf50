use place_feed::extract::extract_places;
use place_feed::markup::{MarkupNode, Snapshot};

fn el(tag: &str, attrs: Vec<(&str, &str)>, children: Vec<MarkupNode>) -> MarkupNode {
    MarkupNode::Element {
        tag: tag.to_string(),
        attrs: attrs.into_iter().map(|(k, v)| (k.to_string(), v.to_string())).collect(),
        children,
    }
}

fn tx(t: &str) -> MarkupNode {
    MarkupNode::Text { text: t.to_string() }
}

const URL: &str =
    "https://www.google.com/maps/place/Foo/data=!3d12.345!4d-67.891!19sChIJabc123?authuser=0";

fn entry(url: &str, meta_text: &str, phone_text: &str, agg: &str) -> MarkupNode {
    el(
        "div",
        vec![],
        vec![
            el("a", vec![("href", url)], vec![tx(agg)]),
            el("img", vec![("src", "https://img.example/t.jpg")], vec![]),
            el(
                "div",
                vec![("class", "fontBodyMedium")],
                vec![
                    el("div", vec![], vec![tx("headline")]),
                    el(
                        "div",
                        vec![],
                        vec![
                            el("span", vec![], vec![tx(meta_text)]),
                            el("span", vec![], vec![tx(phone_text)]),
                        ],
                    ),
                ],
            ),
        ],
    )
}

fn entry_without_body(url: &str) -> MarkupNode {
    el("div", vec![], vec![el("a", vec![("href", url)], vec![tx("4,0 x 7 y")])])
}

fn snapshot_of(entries: Vec<MarkupNode>) -> Snapshot {
    Snapshot { roots: vec![el("html", vec![], vec![el("body", vec![], entries)])] }
}

#[test]
fn well_formed_markers_yield_one_record_each() {
    let s = snapshot_of(vec![
        entry(URL, "Restaurant · Open now", "Phone · +351 21 123 4567", "4,5 stars 128 reviews"),
        entry(URL, "Cafe · Quiet", "x · +1 555 0100", "4,0 stars 12 reviews"),
        entry(URL, "Bar · Loud", "y · +44 20 7946 0000", "3,5 stars 7 reviews"),
    ]);
    let records = extract_places(&s);
    assert_eq!(records.len(), 3);
    for r in &records {
        assert!(!r.google_maps_uri.is_empty());
        assert_eq!(r.google_maps_uri, URL);
    }
}

#[test]
fn record_fields_follow_the_positional_rules() {
    let s = snapshot_of(vec![entry(
        URL,
        "Restaurant · Open now",
        "Phone · +351 21 123 4567",
        "4,5 stars 128 reviews",
    )]);
    let records = extract_places(&s);
    assert_eq!(records.len(), 1);
    let r = &records[0];
    assert_eq!(r.id, "ChIJabc123");
    assert_eq!(r.primary_type, "restaurant");
    assert_eq!(r.formatted_address, "Open now");
    assert_eq!(r.location.latitude.parse::<f64>().unwrap(), 12.345);
    assert_eq!(r.location.longitude.parse::<f64>().unwrap(), -67.891);
    assert_eq!(r.google_maps_uri, URL);
    assert_eq!(r.thumb.as_deref(), Some("https://img.example/t.jpg"));
    assert_eq!(r.international_phone_number.as_deref(), Some("+351 21 123 4567"));
    assert_eq!(r.rating.as_deref(), Some("4.5"));
    assert_eq!(r.rating.as_deref().unwrap().parse::<f64>().unwrap(), 4.5);
    assert_eq!(r.user_rating_count, Some(128));
}

#[test]
fn aggregate_tokens_drive_rating_and_count() {
    let s = snapshot_of(vec![entry(URL, "a · b", "c · d", "4,5 stars 128 reviews")]);
    let r = extract_places(&s);
    assert_eq!(r[0].rating.as_deref(), Some("4.5"));
    assert_eq!(r[0].user_rating_count, Some(128));
}

#[test]
fn unparsable_aggregate_tokens_are_left_to_the_caller() {
    let s = snapshot_of(vec![entry(URL, "a · b", "c · d", "great place to be")]);
    let r = extract_places(&s);
    assert_eq!(r[0].rating.as_deref(), Some("great"));
    assert_eq!(r[0].rating.as_deref().unwrap().parse::<f64>().ok(), None);
    assert_eq!(r[0].user_rating_count, None);
}

#[test]
fn aggregate_text_tokenizes_on_any_whitespace() {
    let s = snapshot_of(vec![entry(URL, "a · b", "c · d", "4,5\tstars\n128 reviews")]);
    let r = extract_places(&s);
    assert_eq!(r[0].rating.as_deref(), Some("4.5"));
    assert_eq!(r[0].user_rating_count, Some(128));
    let s2 = snapshot_of(vec![entry(URL, "a · b", "c · d", "  4,5  stars  128  ")]);
    let r2 = extract_places(&s2);
    assert_eq!(r2[0].rating.as_deref(), Some("4.5"));
    assert_eq!(r2[0].user_rating_count, Some(128));
}

#[test]
fn empty_aggregate_text_yields_no_tokens() {
    let s = snapshot_of(vec![entry(URL, "a · b", "c · d", "   ")]);
    let r = extract_places(&s);
    assert_eq!(r[0].rating, None);
    assert_eq!(r[0].user_rating_count, None);
}

#[test]
fn short_aggregate_text_has_no_count() {
    let s = snapshot_of(vec![entry(URL, "a · b", "c · d", "4,5 stars")]);
    let r = extract_places(&s);
    assert_eq!(r[0].rating.as_deref(), Some("4.5"));
    assert_eq!(r[0].user_rating_count, None);
}

#[test]
fn missing_phone_segment_is_none() {
    let s = snapshot_of(vec![entry(URL, "Type · Addr", "no separator here", "4,0 s 1 r")]);
    let r = extract_places(&s);
    assert_eq!(r[0].international_phone_number, None);
}

#[test]
fn malformed_marker_is_isolated() {
    let good_a = || entry(URL, "Restaurant · Open now", "p · +351 1", "4,5 stars 128 reviews");
    let good_b = || entry(URL, "Cafe · Closed", "p · +351 2", "4,0 stars 2 reviews");
    let s_all = snapshot_of(vec![good_a(), entry_without_body(URL), good_b()]);
    let records = extract_places(&s_all);
    assert_eq!(records.len(), 2);
    let s_good = snapshot_of(vec![good_a(), good_b()]);
    let expected = extract_places(&s_good);
    assert_eq!(records, expected);
}

#[test]
fn extraction_is_idempotent() {
    let s = snapshot_of(vec![
        entry(URL, "Restaurant · Open now", "p · +351 1", "4,5 stars 128 reviews"),
        entry_without_body(URL),
        entry(URL, "Cafe · Shut", "p · +351 2", "1,0 stars 1 reviews"),
    ]);
    let first = extract_places(&s);
    let second = extract_places(&s);
    assert_eq!(first, second);
}

#[test]
fn marker_without_href_pattern_is_not_a_marker() {
    let s = snapshot_of(vec![el(
        "div",
        vec![],
        vec![el("a", vec![("href", "https://elsewhere/x")], vec![tx("4,5 s 1 r")])],
    )]);
    assert_eq!(extract_places(&s).len(), 0);
}

#[test]
fn empty_snapshot_yields_no_records() {
    let s = Snapshot { roots: vec![] };
    assert_eq!(extract_places(&s).len(), 0);
}

#[test]
fn body_with_no_element_children_yields_no_record() {
    let s = snapshot_of(vec![el(
        "div",
        vec![],
        vec![
            el("a", vec![("href", URL)], vec![tx("4,5 s 1 r")]),
            el("div", vec![("class", "fontBodyMedium")], vec![tx("only text")]),
        ],
    )]);
    assert_eq!(extract_places(&s).len(), 0);
}

#[test]
fn metadata_line_with_single_child_uses_it_twice() {
    let s = snapshot_of(vec![el(
        "div",
        vec![],
        vec![
            el("a", vec![("href", URL)], vec![tx("4,5 s 6 r")]),
            el(
                "div",
                vec![("class", "fontBodyMedium")],
                vec![el(
                    "div",
                    vec![],
                    vec![el("span", vec![], vec![tx("Bakery · Rua A · 21 000")])],
                )],
            ),
        ],
    )]);
    let r = extract_places(&s);
    assert_eq!(r.len(), 1);
    assert_eq!(r[0].primary_type, "bakery");
    assert_eq!(r[0].formatted_address, "21 000");
    assert_eq!(r[0].international_phone_number.as_deref(), Some("Rua A"));
    assert_eq!(r[0].thumb, None);
}

#[test]
fn class_attribute_matches_whole_words_only() {
    let s = snapshot_of(vec![el(
        "div",
        vec![],
        vec![
            el("a", vec![("href", URL)], vec![tx("4,5 s 6 r")]),
            el(
                "div",
                vec![("class", "fontBodyMediumXL other")],
                vec![el("div", vec![], vec![el("span", vec![], vec![tx("T · A")])])],
            ),
        ],
    )]);
    assert_eq!(extract_places(&s).len(), 0);
}
