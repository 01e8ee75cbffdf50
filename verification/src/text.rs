use vstd::prelude::*;

verus! {

/// True when `c` is an ASCII decimal digit.
pub open spec fn spec_is_digit(c: char) -> bool {
    '0' <= c && c <= '9'
}

/// Executable digit test, equal to the spec.
pub fn is_digit(c: char) -> (r: bool)
    ensures
        r == spec_is_digit(c),
{
    '0' <= c && c <= '9'
}

/// The characters that trimming removes: Unicode whitespace.
pub open spec fn spec_is_space(c: char) -> bool {
    c == ' ' || c == '\t' || c == '\n' || c == '\r' || c == '\u{b}' || c == '\u{c}'
        || c == '\u{85}' || c == '\u{a0}' || c == '\u{1680}'
        || ('\u{2000}' <= c && c <= '\u{200a}')
        || c == '\u{2028}' || c == '\u{2029}' || c == '\u{202f}' || c == '\u{205f}'
        || c == '\u{3000}'
}

/// Executable whitespace test, equal to the spec.
pub fn is_space(c: char) -> (r: bool)
    ensures
        r == spec_is_space(c),
{
    c == ' ' || c == '\t' || c == '\n' || c == '\r' || c == '\u{b}' || c == '\u{c}'
        || c == '\u{85}' || c == '\u{a0}' || c == '\u{1680}'
        || ('\u{2000}' <= c && c <= '\u{200a}')
        || c == '\u{2028}' || c == '\u{2029}' || c == '\u{202f}' || c == '\u{205f}'
        || c == '\u{3000}'
}

/// `pat` occurs in `s` starting at position `i`.
pub open spec fn match_at(s: Seq<char>, pat: Seq<char>, i: int) -> bool {
    &&& 0 <= i
    &&& i + pat.len() <= s.len()
    &&& forall|k: int| 0 <= k < pat.len() ==> s[i + k] == pat[k]
}

/// Least position at or after `from` where `pat` occurs in `s`.
pub open spec fn spec_find(s: Seq<char>, pat: Seq<char>, from: int) -> Option<int>
    decreases s.len() - from,
{
    if from < 0 || from + pat.len() > s.len() {
        None
    } else if match_at(s, pat, from) {
        Some(from)
    } else {
        spec_find(s, pat, from + 1)
    }
}

/// `pat` occurs somewhere in `s`.
pub open spec fn spec_contains(s: Seq<char>, pat: Seq<char>) -> bool {
    spec_find(s, pat, 0) is Some
}

/// A found position is a real occurrence at or after `from`.
pub proof fn lemma_find_some(s: Seq<char>, pat: Seq<char>, from: int)
    requires
        spec_find(s, pat, from) is Some,
    ensures
        from <= spec_find(s, pat, from).unwrap(),
        match_at(s, pat, spec_find(s, pat, from).unwrap()),
    decreases s.len() - from,
{
    if from < 0 || from + pat.len() > s.len() {
    } else if match_at(s, pat, from) {
    } else {
        lemma_find_some(s, pat, from + 1);
    }
}

/// Executable occurrence test at a fixed position.
pub fn match_at_exec(s: &str, pat: &str, i: usize) -> (r: bool)
    requires
        i + pat@.len() <= s@.len(),
        s@.len() <= usize::MAX,
    ensures
        r == match_at(s@, pat@, i as int),
{
    let m = pat.unicode_len();
    let mut j: usize = 0;
    while j < m
        invariant
            j <= m,
            m == pat@.len(),
            i + m <= s@.len(),
            s@.len() <= usize::MAX,
            forall|k: int| 0 <= k < j ==> s@[i + k] == pat@[k],
        decreases m - j,
    {
        if s.get_char(i + j) != pat.get_char(j) {
            return false;
        }
        j += 1;
    }
    true
}

/// Executable leftmost search, equal to `spec_find`.
pub fn find_from(s: &str, pat: &str, from: usize) -> (r: Option<usize>)
    ensures
        match r {
            Some(k) => spec_find(s@, pat@, from as int) == Some(k as int),
            None => spec_find(s@, pat@, from as int) is None,
        },
    decreases s@.len() + 1 - from,
{
    let n = s.unicode_len();
    let m = pat.unicode_len();
    if from > n || m > n - from {
        return None;
    }
    if match_at_exec(s, pat, from) {
        return Some(from);
    }
    find_from(s, pat, from + 1)
}

/// Executable substring test, equal to `spec_contains`.
pub fn contains_str(s: &str, pat: &str) -> (r: bool)
    ensures
        r == spec_contains(s@, pat@),
{
    match find_from(s, pat, 0) {
        Some(_) => true,
        None => false,
    }
}

/// Executable equality of two text slices by their characters.
pub fn str_eq(a: &str, b: &str) -> (r: bool)
    ensures
        r == (a@ == b@),
{
    let n = a.unicode_len();
    let m = b.unicode_len();
    if n != m {
        return false;
    }
    let r = match_at_exec(a, b, 0);
    proof {
        if r {
            assert(a@ =~= b@);
        }
    }
    r
}

/// The segments of `s` between occurrences of `sep`; empty segments are kept,
/// and there is always at least one segment.
pub open spec fn spec_split(s: Seq<char>, sep: char) -> Seq<Seq<char>>
    decreases s.len(),
{
    if s.len() == 0 {
        seq![Seq::<char>::empty()]
    } else if s[0] == sep {
        seq![Seq::<char>::empty()] + spec_split(s.subrange(1, s.len() as int), sep)
    } else {
        let rest = spec_split(s.subrange(1, s.len() as int), sep);
        seq![seq![s[0]] + rest[0]] + rest.subrange(1, rest.len() as int)
    }
}

/// The character sequences of a list of strings.
pub open spec fn seq_views(v: Seq<String>) -> Seq<Seq<char>> {
    v.map_values(|x: String| x@)
}

/// Executable split, equal to `spec_split`.
pub fn split_char(s: &str, sep: char) -> (r: Vec<String>)
    ensures
        seq_views(r@) == spec_split(s@, sep),
        r@.len() >= 1,
    decreases s@.len(),
{
    let n = s.unicode_len();
    if n == 0 {
        let mut r: Vec<String> = Vec::new();
        r.push(String::new());
        proof {
            assert(seq_views(r@) =~= spec_split(s@, sep));
        }
        r
    } else if s.get_char(0) == sep {
        let mut rest = split_char(s.substring_char(1, n), sep);
        rest.insert(0, String::new());
        proof {
            assert(seq_views(rest@) =~= spec_split(s@, sep));
        }
        rest
    } else {
        let mut rest = split_char(s.substring_char(1, n), sep);
        let ghost old_views = seq_views(rest@);
        let first = String::from_str(s.substring_char(0, 1)).concat(rest[0].as_str());
        proof {
            assert(s@.subrange(0, 1) =~= seq![s@[0]]);
        }
        rest.set(0, first);
        proof {
            assert(seq_views(rest@) =~= seq![seq![s@[0]] + old_views[0]] + old_views.subrange(
                1,
                old_views.len() as int,
            ));
            assert(seq_views(rest@) =~= spec_split(s@, sep));
        }
        rest
    }
}

/// The whitespace-separated tokens of `s`, in order; separators of any
/// length count once, so no token is empty.
pub open spec fn spec_tokens(s: Seq<char>) -> Seq<Seq<char>>
    decreases s.len(),
{
    if s.len() == 0 {
        Seq::empty()
    } else if spec_is_space(s[0]) {
        spec_tokens(s.subrange(1, s.len() as int))
    } else if s.len() == 1 {
        seq![seq![s[0]]]
    } else if spec_is_space(s[1]) {
        seq![seq![s[0]]] + spec_tokens(s.subrange(1, s.len() as int))
    } else {
        let rest = spec_tokens(s.subrange(1, s.len() as int));
        seq![seq![s[0]] + rest[0]] + rest.subrange(1, rest.len() as int)
    }
}

/// Executable whitespace tokenization, equal to `spec_tokens`.
pub fn tokens(s: &str) -> (r: Vec<String>)
    ensures
        seq_views(r@) == spec_tokens(s@),
        s@.len() >= 1 && !spec_is_space(s@[0]) ==> r@.len() >= 1,
    decreases s@.len(),
{
    let n = s.unicode_len();
    if n == 0 {
        let r: Vec<String> = Vec::new();
        proof {
            assert(seq_views(r@) =~= spec_tokens(s@));
        }
        r
    } else if is_space(s.get_char(0)) {
        tokens(s.substring_char(1, n))
    } else if n == 1 {
        let mut r: Vec<String> = Vec::new();
        r.push(String::from_str(s));
        proof {
            assert(s@ =~= seq![s@[0]]);
            assert(seq_views(r@) =~= spec_tokens(s@));
        }
        r
    } else if is_space(s.get_char(1)) {
        let mut rest = tokens(s.substring_char(1, n));
        rest.insert(0, String::from_str(s.substring_char(0, 1)));
        proof {
            assert(s@.subrange(0, 1) =~= seq![s@[0]]);
            assert(seq_views(rest@) =~= spec_tokens(s@));
        }
        rest
    } else {
        let mut rest = tokens(s.substring_char(1, n));
        let ghost old_views = seq_views(rest@);
        let first = String::from_str(s.substring_char(0, 1)).concat(rest[0].as_str());
        proof {
            assert(s@.subrange(0, 1) =~= seq![s@[0]]);
        }
        rest.set(0, first);
        proof {
            assert(seq_views(rest@) =~= seq![seq![s@[0]] + old_views[0]] + old_views.subrange(
                1,
                old_views.len() as int,
            ));
            assert(seq_views(rest@) =~= spec_tokens(s@));
        }
        rest
    }
}

/// `s` with leading and trailing whitespace removed.
pub open spec fn spec_trim(s: Seq<char>) -> Seq<char>
    decreases s.len(),
{
    if s.len() == 0 {
        s
    } else if spec_is_space(s[0]) {
        spec_trim(s.subrange(1, s.len() as int))
    } else if spec_is_space(s[s.len() - 1]) {
        spec_trim(s.subrange(0, s.len() - 1))
    } else {
        s
    }
}

/// Executable trim, equal to `spec_trim`.
pub fn trim<'a>(s: &'a str) -> (r: &'a str)
    ensures
        r@ == spec_trim(s@),
    decreases s@.len(),
{
    let n = s.unicode_len();
    if n == 0 {
        s
    } else if is_space(s.get_char(0)) {
        trim(s.substring_char(1, n))
    } else if is_space(s.get_char(n - 1)) {
        trim(s.substring_char(0, n - 1))
    } else {
        s
    }
}

/// Concatenation of `parts` with `sep` between consecutive parts.
pub open spec fn spec_join(parts: Seq<Seq<char>>, sep: Seq<char>) -> Seq<char>
    decreases parts.len(),
{
    if parts.len() == 0 {
        Seq::empty()
    } else if parts.len() == 1 {
        parts[0]
    } else {
        spec_join(parts.subrange(0, parts.len() - 1), sep) + sep + parts[parts.len() - 1]
    }
}

/// Executable join, equal to `spec_join`.
pub fn join_with(parts: &Vec<String>, sep: &str) -> (r: String)
    ensures
        r@ == spec_join(seq_views(parts@), sep@),
{
    let mut out = String::new();
    let mut i: usize = 0;
    while i < parts.len()
        invariant
            i <= parts@.len(),
            out@ == spec_join(seq_views(parts@).subrange(0, i as int), sep@),
        decreases parts@.len() - i,
    {
        if i > 0 {
            out.append(sep);
        }
        out.append(parts[i].as_str());
        proof {
            let vs = seq_views(parts@);
            assert(vs.subrange(0, i + 1).subrange(0, i as int) =~= vs.subrange(0, i as int));
            assert(vs.subrange(0, i + 1)[i as int] == parts@[i as int]@);
        }
        i += 1;
    }
    proof {
        assert(seq_views(parts@).subrange(0, parts@.len() as int) =~= seq_views(parts@));
    }
    out
}

/// Lowercased text, as `str::to_lowercase` computes it: a function of the
/// characters alone.
pub uninterp spec fn lower_of(s: Seq<char>) -> Seq<char>;

/// Relies on `str::to_lowercase`; its result is named by `lower_of`.
#[verifier::external_body]
pub(crate) fn to_lowercase(s: &str) -> (r: String)
    ensures
        r@ == lower_of(s@),
{
    s.to_lowercase()
}

} // verus!
