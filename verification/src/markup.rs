use vstd::prelude::*;
use crate::text::{
    match_at, seq_views, spec_join, str_eq, match_at_exec, join_with,
};

verus! {

broadcast use vstd::std_specs::vec::group_vec_axioms, vstd::seq::group_seq_axioms;

/// One node of a captured markup tree: an element with a tag, attributes
/// and child nodes, or a run of text.
#[derive(Debug)]
pub enum MarkupNode {
    Element { tag: String, attrs: Vec<(String, String)>, children: Vec<MarkupNode> },
    Text { text: String },
}

/// An immutable capture of the full page markup at one instant.
#[derive(Debug)]
pub struct Snapshot {
    pub roots: Vec<MarkupNode>,
}

/// Number of child nodes.
pub open spec fn child_count(n: MarkupNode) -> int {
    match n {
        MarkupNode::Element { children, .. } => children@.len() as int,
        MarkupNode::Text { .. } => 0,
    }
}

/// The `i`-th child node.
pub open spec fn child_at(n: MarkupNode, i: int) -> MarkupNode {
    match n {
        MarkupNode::Element { children, .. } => children@[i],
        MarkupNode::Text { .. } => n,
    }
}

/// The child nodes as a sequence.
pub open spec fn children_of(n: MarkupNode) -> Seq<MarkupNode> {
    match n {
        MarkupNode::Element { children, .. } => children@,
        MarkupNode::Text { .. } => Seq::empty(),
    }
}

/// The tag of an element; empty for text.
pub open spec fn tag_of(n: MarkupNode) -> Seq<char> {
    match n {
        MarkupNode::Element { tag, .. } => tag@,
        MarkupNode::Text { .. } => Seq::empty(),
    }
}

/// The attributes of an element; empty for text.
pub open spec fn attrs_of(n: MarkupNode) -> Seq<(String, String)> {
    match n {
        MarkupNode::Element { attrs, .. } => attrs@,
        MarkupNode::Text { .. } => Seq::empty(),
    }
}

/// Value of the first attribute named `name`.
pub open spec fn spec_attr(attrs: Seq<(String, String)>, name: Seq<char>) -> Option<Seq<char>>
    decreases attrs.len(),
{
    if attrs.len() == 0 {
        None
    } else if attrs[0].0@ == name {
        Some(attrs[0].1@)
    } else {
        spec_attr(attrs.subrange(1, attrs.len() as int), name)
    }
}

/// Executable attribute lookup, equal to `spec_attr`.
pub fn get_attr(attrs: &Vec<(String, String)>, name: &str) -> (r: Option<String>)
    ensures
        match r {
            Some(v) => spec_attr(attrs@, name@) == Some(v@),
            None => spec_attr(attrs@, name@) is None,
        },
{
    let mut i: usize = 0;
    proof {
        assert(attrs@.subrange(0, attrs@.len() as int) =~= attrs@);
    }
    while i < attrs.len()
        invariant
            i <= attrs@.len(),
            spec_attr(attrs@.subrange(i as int, attrs@.len() as int), name@) == spec_attr(
                attrs@,
                name@,
            ),
        decreases attrs@.len() - i,
    {
        let ghost suffix = attrs@.subrange(i as int, attrs@.len() as int);
        proof {
            assert(suffix[0] == attrs@[i as int]);
        }
        if str_eq(attrs[i].0.as_str(), name) {
            return Some(attrs[i].1.clone());
        }
        proof {
            assert(suffix.subrange(1, suffix.len() as int) =~= attrs@.subrange(
                i + 1,
                attrs@.len() as int,
            ));
        }
        i += 1;
    }
    None
}

/// Whitespace that separates names in a `class` attribute.
pub open spec fn is_class_space(c: char) -> bool {
    c == ' ' || c == '\t' || c == '\n' || c == '\r' || c == '\u{c}'
}

/// `name` stands as a whole whitespace-separated word of `v` at `i`.
pub open spec fn class_match_at(v: Seq<char>, name: Seq<char>, i: int) -> bool {
    &&& match_at(v, name, i)
    &&& (i == 0 || is_class_space(v[i - 1]))
    &&& (i + name.len() == v.len() || is_class_space(v[i + name.len()]))
}

/// `name` is one of the whitespace-separated words of `v`.
pub open spec fn spec_has_class(v: Seq<char>, name: Seq<char>) -> bool {
    exists|i: int| class_match_at(v, name, i)
}

/// Executable class-word test, equal to `spec_has_class`.
pub fn has_class(v: &str, name: &str) -> (r: bool)
    ensures
        r == spec_has_class(v@, name@),
{
    let n = v.unicode_len();
    let m = name.unicode_len();
    if m > n {
        assert(forall|i: int| !class_match_at(v@, name@, i));
        return false;
    }
    let mut i: usize = 0;
    loop
        invariant
            i <= n - m,
            m <= n,
            n == v@.len() <= usize::MAX,
            m == name@.len(),
            forall|k: int| 0 <= k < i ==> !class_match_at(v@, name@, k),
        decreases n - m - i,
    {
        if match_at_exec(v, name, i) {
            let left_ok = i == 0 || {
                let c = v.get_char(i - 1);
                c == ' ' || c == '\t' || c == '\n' || c == '\r' || c == '\u{c}'
            };
            let right_ok = i + m == n || {
                let c = v.get_char(i + m);
                c == ' ' || c == '\t' || c == '\n' || c == '\r' || c == '\u{c}'
            };
            if left_ok && right_ok {
                assert(class_match_at(v@, name@, i as int));
                return true;
            }
        }
        if i == n - m {
            proof {
                assert(forall|k: int| k > n - m ==> !class_match_at(v@, name@, k));
                assert(forall|k: int| k < 0 ==> !class_match_at(v@, name@, k));
            }
            return false;
        }
        i += 1;
    }
}

/// The last child that is an element.
pub open spec fn spec_last_elem_child(s: Seq<MarkupNode>) -> Option<MarkupNode>
    decreases s.len(),
{
    if s.len() == 0 {
        None
    } else if s.last() is Element {
        Some(s.last())
    } else {
        spec_last_elem_child(s.subrange(0, s.len() - 1))
    }
}

/// The first child that is an element.
pub open spec fn spec_first_elem_child(s: Seq<MarkupNode>) -> Option<MarkupNode>
    decreases s.len(),
{
    if s.len() == 0 {
        None
    } else if s[0] is Element {
        Some(s[0])
    } else {
        spec_first_elem_child(s.subrange(1, s.len() as int))
    }
}

/// A found last element child is an element.
pub proof fn lemma_last_elem_child_is_element(s: Seq<MarkupNode>)
    requires
        spec_last_elem_child(s) is Some,
    ensures
        spec_last_elem_child(s).unwrap() is Element,
    decreases s.len(),
{
    if s.len() == 0 {
    } else if s.last() is Element {
    } else {
        lemma_last_elem_child_is_element(s.subrange(0, s.len() - 1));
    }
}

/// A found first element child is an element.
pub proof fn lemma_first_elem_child_is_element(s: Seq<MarkupNode>)
    requires
        spec_first_elem_child(s) is Some,
    ensures
        spec_first_elem_child(s).unwrap() is Element,
    decreases s.len(),
{
    if s.len() == 0 {
    } else if s[0] is Element {
    } else {
        lemma_first_elem_child_is_element(s.subrange(1, s.len() as int));
    }
}

/// Executable search for the last element child, equal to the spec.
pub fn last_elem_child(children: &Vec<MarkupNode>) -> (r: Option<&MarkupNode>)
    ensures
        match r {
            Some(m) => spec_last_elem_child(children@) == Some(*m),
            None => spec_last_elem_child(children@) is None,
        },
{
    let mut i = children.len();
    proof {
        assert(children@.subrange(0, children@.len() as int) =~= children@);
    }
    while i > 0
        invariant
            i <= children@.len(),
            spec_last_elem_child(children@) == spec_last_elem_child(
                children@.subrange(0, i as int),
            ),
        decreases i,
    {
        i -= 1;
        let ghost pre = children@.subrange(0, i + 1);
        proof {
            assert(pre.last() == children@[i as int]);
            assert(pre.subrange(0, pre.len() - 1) =~= children@.subrange(0, i as int));
        }
        match &children[i] {
            MarkupNode::Element { .. } => {
                return Some(&children[i]);
            },
            MarkupNode::Text { .. } => {},
        }
    }
    None
}

/// Executable search for the first element child, equal to the spec.
pub fn first_elem_child(children: &Vec<MarkupNode>) -> (r: Option<&MarkupNode>)
    ensures
        match r {
            Some(m) => spec_first_elem_child(children@) == Some(*m),
            None => spec_first_elem_child(children@) is None,
        },
{
    let mut i: usize = 0;
    proof {
        assert(children@.subrange(0, children@.len() as int) =~= children@);
    }
    while i < children.len()
        invariant
            i <= children@.len(),
            spec_first_elem_child(children@) == spec_first_elem_child(
                children@.subrange(i as int, children@.len() as int),
            ),
        decreases children@.len() - i,
    {
        let ghost suffix = children@.subrange(i as int, children@.len() as int);
        proof {
            assert(suffix[0] == children@[i as int]);
            assert(suffix.subrange(1, suffix.len() as int) =~= children@.subrange(
                i + 1,
                children@.len() as int,
            ));
        }
        match &children[i] {
            MarkupNode::Element { .. } => {
                return Some(&children[i]);
            },
            MarkupNode::Text { .. } => {},
        }
        i += 1;
    }
    None
}

/// First node satisfying `p` among the strict descendants of `n` in
/// document order, children before their own subtrees, starting at child `i`.
pub open spec fn first_desc_from(n: MarkupNode, i: int, p: spec_fn(MarkupNode) -> bool) -> Option<
    MarkupNode,
>
    decreases n, child_count(n) - i,
{
    if i < 0 || i >= child_count(n) {
        None
    } else {
        let c = child_at(n, i);
        if p(c) {
            Some(c)
        } else {
            match first_desc_from(c, 0, p) {
                Some(m) => Some(m),
                None => first_desc_from(n, i + 1, p),
            }
        }
    }
}

/// A found descendant satisfies the predicate.
pub proof fn lemma_first_desc_pred(n: MarkupNode, i: int, p: spec_fn(MarkupNode) -> bool)
    requires
        first_desc_from(n, i, p) is Some,
    ensures
        p(first_desc_from(n, i, p).unwrap()),
    decreases n, child_count(n) - i,
{
    if i < 0 || i >= child_count(n) {
    } else {
        let c = child_at(n, i);
        if p(c) {
        } else {
            if first_desc_from(c, 0, p) is Some {
                lemma_first_desc_pred(c, 0, p);
            } else {
                lemma_first_desc_pred(n, i + 1, p);
            }
        }
    }
}

/// The text runs under `n` in document order, starting at child `i`.
pub open spec fn text_parts_from(n: MarkupNode, i: int) -> Seq<Seq<char>>
    decreases n, child_count(n) - i,
{
    if i < 0 || i >= child_count(n) {
        Seq::empty()
    } else {
        let c = child_at(n, i);
        (match c {
            MarkupNode::Text { text } => seq![text@],
            MarkupNode::Element { .. } => Seq::empty(),
        }) + text_parts_from(c, 0) + text_parts_from(n, i + 1)
    }
}

/// All text under `n`, joined with single spaces between runs.
pub open spec fn joined_text(n: MarkupNode) -> Seq<char> {
    spec_join(text_parts_from(n, 0), seq![' '])
}

/// Executable collection of the text runs under `n`, appended to `out`.
pub fn collect_text(n: &MarkupNode, out: &mut Vec<String>)
    ensures
        seq_views(final(out)@) == seq_views(old(out)@) + text_parts_from(*n, 0),
    decreases *n,
{
    match n {
        MarkupNode::Text { .. } => {
            proof {
                assert(seq_views(out@) =~= seq_views(out@) + text_parts_from(*n, 0));
            }
        },
        MarkupNode::Element { children, .. } => {
            let mut i: usize = 0;
            while i < children.len()
                invariant
                    i <= children@.len(),
                    children@ == children_of(*n),
                    n is Element,
                    seq_views(out@) + text_parts_from(*n, i as int) == seq_views(old(out)@)
                        + text_parts_from(*n, 0),
                decreases children@.len() - i,
            {
                let ghost c = children@[i as int];
                let ghost before = seq_views(out@);
                match &children[i] {
                    MarkupNode::Text { text } => {
                        out.push(text.clone());
                        proof {
                            assert(text_parts_from(c, 0) =~= Seq::<Seq<char>>::empty());
                            assert(seq_views(out@) =~= before + seq![text@]);
                            assert(text_parts_from(*n, i as int) == seq![text@] + text_parts_from(
                                c,
                                0,
                            ) + text_parts_from(*n, i + 1));
                            assert(before + text_parts_from(*n, i as int) =~= seq_views(out@)
                                + text_parts_from(*n, i + 1));
                        }
                    },
                    MarkupNode::Element { .. } => {
                        collect_text(&children[i], out);
                        proof {
                            assert(text_parts_from(*n, i as int) == Seq::<Seq<char>>::empty()
                                + text_parts_from(c, 0) + text_parts_from(*n, i + 1));
                            assert(before + text_parts_from(*n, i as int) =~= seq_views(out@)
                                + text_parts_from(*n, i + 1));
                        }
                    },
                }
                i += 1;
            }
            proof {
                assert(text_parts_from(*n, children@.len() as int) =~= Seq::<Seq<char>>::empty());
                assert(seq_views(out@) + text_parts_from(*n, children@.len() as int) =~= seq_views(
                    out@,
                ));
            }
        },
    }
}

/// Executable joined text of a node, equal to `joined_text`.
pub fn joined_text_exec(n: &MarkupNode) -> (r: String)
    ensures
        r@ == joined_text(*n),
{
    let mut parts: Vec<String> = Vec::new();
    collect_text(n, &mut parts);
    proof {
        reveal_strlit(" ");
        assert(" "@ =~= seq![' ']);
        assert(seq_views(parts@) =~= text_parts_from(*n, 0));
    }
    join_with(&parts, " ")
}

} // verus!
