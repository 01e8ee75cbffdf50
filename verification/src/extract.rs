use vstd::prelude::*;
use crate::text::{
    spec_contains, spec_split, spec_tokens, spec_trim, lower_of, contains_str, split_char, tokens,
    trim, str_eq, to_lowercase,
};
use crate::numbers::{spec_parse_u32, spec_replace_commas, parse_u32, replace_commas};
use crate::url_attr::{spec_extract_id, spec_latlng, zero_text, extract_id, extract_lat_lng};
use crate::markup::{
    MarkupNode, Snapshot, child_count, child_at, children_of, tag_of, attrs_of, spec_attr,
    spec_has_class, spec_first_elem_child, spec_last_elem_child, first_desc_from, get_attr,
    has_class, first_elem_child, last_elem_child, joined_text, joined_text_exec,
    lemma_first_desc_pred, lemma_first_elem_child_is_element, lemma_last_elem_child_is_element,
};
use crate::record::{PlaceRecord, Location, RecordModel, rec_views};

verus! {

broadcast use vstd::std_specs::vec::group_vec_axioms, vstd::seq::group_seq_axioms;

/// The path fragment that makes a link a place marker.
pub open spec fn place_pat() -> Seq<char> {
    seq!['/', 'm', 'a', 'p', 's', '/', 'p', 'l', 'a', 'c', 'e', '/']
}

/// The class that names the body container of a marker entry.
pub open spec fn body_class() -> Seq<char> {
    seq!['f', 'o', 'n', 't', 'B', 'o', 'd', 'y', 'M', 'e', 'd', 'i', 'u', 'm']
}

/// The reference attribute of a marker.
pub open spec fn href_of(m: MarkupNode) -> Option<Seq<char>> {
    spec_attr(attrs_of(m), seq!['h', 'r', 'e', 'f'])
}

/// A marker element: an anchor whose reference contains the place path.
pub open spec fn is_marker(n: MarkupNode) -> bool {
    &&& n is Element
    &&& tag_of(n) == seq!['a']
    &&& match href_of(n) {
        Some(u) => spec_contains(u, place_pat()),
        None => false,
    }
}

/// The body container: a `div` carrying the body class.
pub open spec fn is_body_div(n: MarkupNode) -> bool {
    &&& n is Element
    &&& tag_of(n) == seq!['d', 'i', 'v']
    &&& match spec_attr(attrs_of(n), seq!['c', 'l', 'a', 's', 's']) {
        Some(v) => spec_has_class(v, body_class()),
        None => false,
    }
}

/// An image element.
pub open spec fn is_img(n: MarkupNode) -> bool {
    n is Element && tag_of(n) == seq!['i', 'm', 'g']
}

/// The body-container predicate as a value.
pub open spec fn body_pred() -> spec_fn(MarkupNode) -> bool {
    |c: MarkupNode| is_body_div(c)
}

/// The image predicate as a value.
pub open spec fn img_pred() -> spec_fn(MarkupNode) -> bool {
    |c: MarkupNode| is_img(c)
}

/// The last segment of a split.
pub open spec fn seg_last(segs: Seq<Seq<char>>) -> Seq<char> {
    segs[segs.len() - 1]
}

/// The fields assembled for a marker `m` with reference `url`, parent `p`
/// and metadata line `last` (the last element child of the body container).
pub open spec fn marker_fields(p: MarkupNode, m: MarkupNode, url: Seq<char>, last: MarkupNode)
    -> RecordModel {
    let fol = spec_first_elem_child(children_of(last));
    let lol = spec_last_elem_child(children_of(last));
    let fa = match fol {
        Some(f) => spec_trim(seg_last(spec_split(joined_text(f), '·'))),
        None => Seq::empty(),
    };
    let pt = match fol {
        Some(f) => lower_of(spec_trim(spec_split(joined_text(f), '·')[0])),
        None => Seq::empty(),
    };
    let phone = match lol {
        Some(l) => {
            let segs = spec_split(joined_text(l), '·');
            if segs.len() >= 2 {
                Some(spec_trim(segs[1]))
            } else {
                None
            }
        },
        None => None,
    };
    let thumb = match first_desc_from(p, 0, img_pred()) {
        Some(img) => spec_attr(attrs_of(img), seq!['s', 'r', 'c']),
        None => None,
    };
    let toks = spec_tokens(spec_trim(joined_text(m)));
    let coords = spec_latlng(url, 0);
    RecordModel {
        id: spec_extract_id(url),
        formatted_address: fa,
        latitude: match coords {
            Some(c) => c.0,
            None => zero_text(),
        },
        longitude: match coords {
            Some(c) => c.1,
            None => zero_text(),
        },
        primary_type: pt,
        maps_uri: url,
        thumb,
        phone,
        rating: if toks.len() >= 1 {
            Some(spec_replace_commas(toks[0]))
        } else {
            None
        },
        user_rating_count: if toks.len() > 2 {
            spec_parse_u32(toks[2])
        } else {
            None
        },
    }
}

/// The record a marker yields, or `None` when its entry lacks the body
/// container or the body container has no element children.
pub open spec fn marker_record(p: MarkupNode, m: MarkupNode) -> Option<RecordModel>
    recommends
        is_marker(m),
{
    let url = href_of(m).unwrap();
    match first_desc_from(p, 0, body_pred()) {
        None => None,
        Some(body) => match spec_last_elem_child(children_of(body)) {
            None => None,
            Some(last) => Some(marker_fields(p, m, url, last)),
        },
    }
}

/// Executable marker test, equal to `is_marker`.
pub fn is_marker_exec(n: &MarkupNode) -> (r: bool)
    ensures
        r == is_marker(*n),
{
    proof {
        reveal_strlit("a");
        reveal_strlit("href");
        reveal_strlit("/maps/place/");
        assert("a"@ =~= seq!['a']);
        assert("href"@ =~= seq!['h', 'r', 'e', 'f']);
        assert("/maps/place/"@ =~= place_pat());
    }
    match n {
        MarkupNode::Element { tag, attrs, .. } => {
            str_eq(tag.as_str(), "a") && match get_attr(attrs, "href") {
                Some(u) => contains_str(u.as_str(), "/maps/place/"),
                None => false,
            }
        },
        MarkupNode::Text { .. } => false,
    }
}

/// Executable body-container test, equal to `is_body_div`.
fn is_body_div_exec(n: &MarkupNode) -> (r: bool)
    ensures
        r == is_body_div(*n),
{
    proof {
        reveal_strlit("div");
        reveal_strlit("class");
        reveal_strlit("fontBodyMedium");
        assert("div"@ =~= seq!['d', 'i', 'v']);
        assert("class"@ =~= seq!['c', 'l', 'a', 's', 's']);
        assert("fontBodyMedium"@ =~= body_class());
    }
    match n {
        MarkupNode::Element { tag, attrs, .. } => {
            str_eq(tag.as_str(), "div") && match get_attr(attrs, "class") {
                Some(v) => has_class(v.as_str(), "fontBodyMedium"),
                None => false,
            }
        },
        MarkupNode::Text { .. } => false,
    }
}

/// Executable image test, equal to `is_img`.
fn is_img_exec(n: &MarkupNode) -> (r: bool)
    ensures
        r == is_img(*n),
{
    proof {
        reveal_strlit("img");
        assert("img"@ =~= seq!['i', 'm', 'g']);
    }
    match n {
        MarkupNode::Element { tag, .. } => str_eq(tag.as_str(), "img"),
        MarkupNode::Text { .. } => false,
    }
}

/// First strict descendant that is a body container, in document order.
fn find_body_div<'a>(n: &'a MarkupNode) -> (r: Option<&'a MarkupNode>)
    ensures
        match r {
            Some(b) => first_desc_from(*n, 0, body_pred()) == Some(*b),
            None => first_desc_from(*n, 0, body_pred()) is None,
        },
    decreases *n,
{
    match n {
        MarkupNode::Text { .. } => None,
        MarkupNode::Element { children, .. } => {
            let mut i: usize = 0;
            while i < children.len()
                invariant
                    i <= children@.len(),
                    children@ == children_of(*n),
                    child_count(*n) == children@.len(),
                    first_desc_from(*n, 0, body_pred()) == first_desc_from(
                        *n,
                        i as int,
                        body_pred(),
                    ),
                decreases children@.len() - i,
            {
                let c = &children[i];
                proof {
                    assert(child_at(*n, i as int) == children@[i as int]);
                    assert(body_pred()(*c) == is_body_div(*c));
                }
                if is_body_div_exec(c) {
                    return Some(c);
                }
                match find_body_div(c) {
                    Some(b) => {
                        return Some(b);
                    },
                    None => {},
                }
                i += 1;
            }
            None
        },
    }
}

/// First strict descendant that is an image, in document order.
fn find_img<'a>(n: &'a MarkupNode) -> (r: Option<&'a MarkupNode>)
    ensures
        match r {
            Some(b) => first_desc_from(*n, 0, img_pred()) == Some(*b),
            None => first_desc_from(*n, 0, img_pred()) is None,
        },
    decreases *n,
{
    match n {
        MarkupNode::Text { .. } => None,
        MarkupNode::Element { children, .. } => {
            let mut i: usize = 0;
            while i < children.len()
                invariant
                    i <= children@.len(),
                    children@ == children_of(*n),
                    child_count(*n) == children@.len(),
                    first_desc_from(*n, 0, img_pred()) == first_desc_from(
                        *n,
                        i as int,
                        img_pred(),
                    ),
                decreases children@.len() - i,
            {
                let c = &children[i];
                proof {
                    assert(child_at(*n, i as int) == children@[i as int]);
                    assert(img_pred()(*c) == is_img(*c));
                }
                if is_img_exec(c) {
                    return Some(c);
                }
                match find_img(c) {
                    Some(b) => {
                        return Some(b);
                    },
                    None => {},
                }
                i += 1;
            }
            None
        },
    }
}

/// Extract one record from marker `m` inside parent `p`, equal to
/// `marker_record`; `None` when the entry is malformed.
pub fn extract_record(p: &MarkupNode, m: &MarkupNode) -> (r: Option<PlaceRecord>)
    requires
        is_marker(*m),
    ensures
        match r {
            Some(rec) => marker_record(*p, *m) == Some(rec@),
            None => marker_record(*p, *m) is None,
        },
{
    proof {
        reveal_strlit("href");
        reveal_strlit("src");
        assert("href"@ =~= seq!['h', 'r', 'e', 'f']);
        assert("src"@ =~= seq!['s', 'r', 'c']);
    }
    let m_attrs = match m {
        MarkupNode::Element { attrs, .. } => attrs,
        MarkupNode::Text { .. } => {
            proof {
                assert(false);
            }
            return None;
        },
    };
    let url = match get_attr(m_attrs, "href") {
        Some(u) => u,
        None => {
            proof {
                assert(false);
            }
            return None;
        },
    };
    let body = match find_body_div(p) {
        Some(b) => b,
        None => {
            return None;
        },
    };
    let body_children = match body {
        MarkupNode::Element { children, .. } => children,
        MarkupNode::Text { .. } => {
            proof {
                lemma_first_desc_pred(*p, 0, body_pred());
                assert(false);
            }
            return None;
        },
    };
    let last = match last_elem_child(body_children) {
        Some(l) => l,
        None => {
            return None;
        },
    };
    let last_children = match last {
        MarkupNode::Element { children, .. } => children,
        MarkupNode::Text { .. } => {
            proof {
                lemma_last_elem_child_is_element(children_of(*body));
                assert(false);
            }
            return None;
        },
    };
    let fol = first_elem_child(last_children);
    let lol = last_elem_child(last_children);
    let (formatted_address, primary_type) = match fol {
        Some(f) => {
            let joined = joined_text_exec(f);
            let segs = split_char(joined.as_str(), '·');
            let last_seg = trim(segs[segs.len() - 1].as_str());
            let first_seg = trim(segs[0].as_str());
            (String::from_str(last_seg), to_lowercase(first_seg))
        },
        None => (String::new(), String::new()),
    };
    let phone = match lol {
        Some(l) => {
            let joined = joined_text_exec(l);
            let segs = split_char(joined.as_str(), '·');
            if segs.len() >= 2 {
                Some(String::from_str(trim(segs[1].as_str())))
            } else {
                None
            }
        },
        None => None,
    };
    let thumb = match find_img(p) {
        Some(img) => {
            let img_attrs = match img {
                MarkupNode::Element { attrs, .. } => attrs,
                MarkupNode::Text { .. } => {
                    proof {
                        lemma_first_desc_pred(*p, 0, img_pred());
                        assert(false);
                    }
                    return None;
                },
            };
            get_attr(img_attrs, "src")
        },
        None => None,
    };
    let joined_m = joined_text_exec(m);
    let toks = tokens(trim(joined_m.as_str()));
    let rating = if toks.len() >= 1 {
        Some(replace_commas(toks[0].as_str()))
    } else {
        None
    };
    let user_rating_count = if toks.len() > 2 {
        parse_u32(toks[2].as_str())
    } else {
        None
    };
    let (latitude, longitude) = extract_lat_lng(url.as_str());
    let id = extract_id(url.as_str());
    let rec = PlaceRecord {
        id,
        formatted_address,
        location: Location { latitude, longitude },
        primary_type,
        google_maps_uri: url,
        thumb,
        international_phone_number: phone,
        rating,
        user_rating_count,
    };
    Some(rec)
}

/// The records yielded by markers among the descendants of `n`, in document
/// order, starting at child `i`; each marker is judged inside its own parent.
pub open spec fn records_from(n: MarkupNode, i: int) -> Seq<RecordModel>
    decreases n, child_count(n) - i,
{
    if i < 0 || i >= child_count(n) {
        Seq::empty()
    } else {
        let c = child_at(n, i);
        (if is_marker(c) {
            match marker_record(n, c) {
                Some(r) => seq![r],
                None => Seq::<RecordModel>::empty(),
            }
        } else {
            Seq::<RecordModel>::empty()
        }) + records_from(c, 0) + records_from(n, i + 1)
    }
}

/// The records of a whole snapshot, in document order.
pub open spec fn snapshot_records_from(roots: Seq<MarkupNode>, i: int) -> Seq<RecordModel>
    decreases roots, roots.len() - i,
{
    if i < 0 || i >= roots.len() {
        Seq::empty()
    } else {
        records_from(roots[i], 0) + snapshot_records_from(roots, i + 1)
    }
}

/// The records of a whole snapshot, in document order.
pub open spec fn snapshot_records(s: Snapshot) -> Seq<RecordModel> {
    snapshot_records_from(s.roots@, 0)
}

/// Append the records of the markers under `n` to `out`.
fn collect_records(n: &MarkupNode, out: &mut Vec<PlaceRecord>)
    ensures
        rec_views(final(out)@) == rec_views(old(out)@) + records_from(*n, 0),
    decreases *n,
{
    match n {
        MarkupNode::Text { .. } => {
            proof {
                assert(rec_views(out@) =~= rec_views(out@) + records_from(*n, 0));
            }
        },
        MarkupNode::Element { children, .. } => {
            let mut i: usize = 0;
            while i < children.len()
                invariant
                    i <= children@.len(),
                    children@ == children_of(*n),
                    child_count(*n) == children@.len(),
                    rec_views(out@) + records_from(*n, i as int) == rec_views(old(out)@)
                        + records_from(*n, 0),
                decreases children@.len() - i,
            {
                let c = &children[i];
                let ghost before = rec_views(out@);
                proof {
                    assert(child_at(*n, i as int) == children@[i as int]);
                }
                if is_marker_exec(c) {
                    match extract_record(n, c) {
                        Some(rec) => {
                            let ghost rv = rec@;
                            out.push(rec);
                            proof {
                                assert(rec_views(out@) =~= before + seq![rv]);
                            }
                        },
                        None => {},
                    }
                }
                let ghost mid = rec_views(out@);
                collect_records(c, out);
                proof {
                    assert(rec_views(out@) =~= mid + records_from(*c, 0));
                    assert(before + records_from(*n, i as int) =~= rec_views(out@)
                        + records_from(*n, i + 1));
                }
                i += 1;
            }
            proof {
                assert(records_from(*n, children@.len() as int) =~= Seq::<RecordModel>::empty());
                assert(rec_views(out@) + records_from(*n, children@.len() as int) =~= rec_views(
                    out@,
                ));
            }
        },
    }
}

/// Extract every place record from a snapshot, in document order; pure and
/// total: a malformed entry yields no record and stops nothing.
pub fn extract_places(snapshot: &Snapshot) -> (r: Vec<PlaceRecord>)
    ensures
        rec_views(r@) == snapshot_records(*snapshot),
{
    let mut out: Vec<PlaceRecord> = Vec::new();
    let mut i: usize = 0;
    while i < snapshot.roots.len()
        invariant
            i <= snapshot.roots@.len(),
            rec_views(out@) + snapshot_records_from(snapshot.roots@, i as int)
                == snapshot_records_from(snapshot.roots@, 0),
        decreases snapshot.roots@.len() - i,
    {
        let ghost mid = rec_views(out@);
        collect_records(&snapshot.roots[i], &mut out);
        proof {
            assert(rec_views(out@) =~= mid + records_from(snapshot.roots@[i as int], 0));
            assert(mid + snapshot_records_from(snapshot.roots@, i as int) =~= rec_views(out@)
                + snapshot_records_from(snapshot.roots@, i + 1));
        }
        i += 1;
    }
    proof {
        assert(snapshot_records_from(snapshot.roots@, snapshot.roots@.len() as int) =~= Seq::<
            RecordModel,
        >::empty());
        assert(rec_views(out@) + snapshot_records_from(
            snapshot.roots@,
            snapshot.roots@.len() as int,
        ) =~= rec_views(out@));
    }
    out
}

} // verus!
