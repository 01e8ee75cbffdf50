use vstd::prelude::*;
use crate::text::{
    match_at, spec_find, spec_is_digit, is_digit, find_from, lemma_find_some, match_at_exec,
    spec_join, spec_split, split_char, join_with,
};

verus! {

/// A search query with spaces replaced by plus signs, as the search URL
/// carries it.
pub open spec fn spec_encode_query(q: Seq<char>) -> Seq<char> {
    spec_join(spec_split(q, ' '), seq!['+'])
}

/// Executable query encoding, equal to `spec_encode_query`.
pub fn encode_query(q: &str) -> (r: String)
    ensures
        r@ == spec_encode_query(q@),
{
    let parts = split_char(q, ' ');
    let r = join_with(&parts, "+");
    proof {
        reveal_strlit("+");
        assert("+"@ =~= seq!['+']);
    }
    r
}

/// The token that precedes the encoded identifier in a marker URL.
pub open spec fn id_token() -> Seq<char> {
    seq!['!', '1', '9', 's']
}

/// The fallback identifier for URLs without the expected shape.
pub open spec fn unknown_text() -> Seq<char> {
    seq!['u', 'n', 'k', 'n', 'o', 'w', 'n']
}

/// The fallback coordinate text for URLs without the coordinate pattern.
pub open spec fn zero_text() -> Seq<char> {
    seq!['0', '.', '0']
}

/// The identifier encoded in a marker URL: the text between the first
/// `!19s` token of the part before the query string and the next such
/// token (or the end of that part); `unknown` when the URL has no query
/// string or no token.
pub open spec fn spec_extract_id(url: Seq<char>) -> Seq<char> {
    match spec_find(url, seq!['?'], 0) {
        None => unknown_text(),
        Some(q) => {
            let pre = url.subrange(0, q);
            match spec_find(pre, id_token(), 0) {
                None => unknown_text(),
                Some(i) => {
                    let start = i + 4;
                    match spec_find(pre, id_token(), start) {
                        None => pre.subrange(start, pre.len() as int),
                        Some(j) => pre.subrange(start, j),
                    }
                },
            }
        },
    }
}

/// Executable identifier extraction, equal to `spec_extract_id`.
pub fn extract_id(url: &str) -> (r: String)
    ensures
        r@ == spec_extract_id(url@),
{
    proof {
        reveal_strlit("?");
        reveal_strlit("!19s");
        reveal_strlit("unknown");
        assert("?"@ =~= seq!['?']);
        assert("!19s"@ =~= id_token());
        assert("unknown"@ =~= unknown_text());
    }
    match find_from(url, "?", 0) {
        None => String::from_str("unknown"),
        Some(q) => {
            proof {
                lemma_find_some(url@, "?"@, 0);
            }
            let pre = url.substring_char(0, q);
            let pn = pre.unicode_len();
            match find_from(pre, "!19s", 0) {
                None => String::from_str("unknown"),
                Some(i) => {
                    proof {
                        lemma_find_some(pre@, "!19s"@, 0);
                    }
                    let start = i + 4;
                    match find_from(pre, "!19s", start) {
                        None => String::from_str(pre.substring_char(start, pn)),
                        Some(j) => {
                            proof {
                                lemma_find_some(pre@, "!19s"@, start as int);
                            }
                            String::from_str(pre.substring_char(start, j))
                        },
                    }
                },
            }
        },
    }
}

/// End of the maximal digit run starting at `j`.
pub open spec fn run_end(s: Seq<char>, j: int) -> int
    decreases s.len() - j,
{
    if 0 <= j < s.len() && spec_is_digit(s[j]) {
        run_end(s, j + 1)
    } else {
        j
    }
}

/// One signed decimal number `-?digits.digits` read greedily at `j`;
/// the position just past it, or `None`.
pub open spec fn number_end(s: Seq<char>, j: int) -> Option<int> {
    let j1 = if 0 <= j < s.len() && s[j] == '-' {
        j + 1
    } else {
        j
    };
    let e1 = run_end(s, j1);
    if e1 == j1 {
        None
    } else if 0 <= e1 < s.len() && s[e1] == '.' {
        let e2 = run_end(s, e1 + 1);
        if e2 == e1 + 1 {
            None
        } else {
            Some(e2)
        }
    } else {
        None
    }
}

/// The coordinate pattern `3d<number>!4d<number>` matched greedily at `i`;
/// the two captured numbers.
pub open spec fn latlng_at(s: Seq<char>, i: int) -> Option<(Seq<char>, Seq<char>)> {
    if match_at(s, seq!['3', 'd'], i) {
        match number_end(s, i + 2) {
            None => None,
            Some(e1) => {
                if match_at(s, seq!['!', '4', 'd'], e1) {
                    match number_end(s, e1 + 3) {
                        None => None,
                        Some(e2) => Some((s.subrange(i + 2, e1), s.subrange(e1 + 3, e2))),
                    }
                } else {
                    None
                }
            },
        }
    } else {
        None
    }
}

/// Leftmost match of the coordinate pattern at or after `from`.
pub open spec fn spec_latlng(s: Seq<char>, from: int) -> Option<(Seq<char>, Seq<char>)>
    decreases s.len() - from,
{
    if from < 0 || from >= s.len() {
        None
    } else {
        match latlng_at(s, from) {
            Some(caps) => Some(caps),
            None => spec_latlng(s, from + 1),
        }
    }
}

/// Executable maximal digit run, equal to `run_end`.
fn run_end_exec(s: &str, j: usize) -> (e: usize)
    requires
        j <= s@.len(),
        s@.len() <= usize::MAX,
    ensures
        e == run_end(s@, j as int),
        j <= e <= s@.len(),
    decreases s@.len() - j,
{
    let n = s.unicode_len();
    if j < n && is_digit(s.get_char(j)) {
        run_end_exec(s, j + 1)
    } else {
        j
    }
}

/// Executable greedy number match, equal to `number_end`.
fn number_end_exec(s: &str, j: usize) -> (r: Option<usize>)
    requires
        j <= s@.len(),
        s@.len() <= usize::MAX,
    ensures
        match r {
            Some(e) => number_end(s@, j as int) == Some(e as int) && j <= e <= s@.len(),
            None => number_end(s@, j as int) is None,
        },
{
    let n = s.unicode_len();
    let j1: usize = if j < n && s.get_char(j) == '-' {
        j + 1
    } else {
        j
    };
    let e1 = run_end_exec(s, j1);
    if e1 == j1 {
        None
    } else if e1 < n && s.get_char(e1) == '.' {
        let e2 = run_end_exec(s, e1 + 1);
        if e2 == e1 + 1 {
            None
        } else {
            Some(e2)
        }
    } else {
        None
    }
}

/// Executable greedy coordinate match at one position, equal to `latlng_at`.
fn latlng_at_exec<'a>(s: &'a str, i: usize) -> (r: Option<(&'a str, &'a str)>)
    requires
        i < s@.len(),
        s@.len() <= usize::MAX,
    ensures
        match r {
            Some(caps) => latlng_at(s@, i as int) == Some((caps.0@, caps.1@)),
            None => latlng_at(s@, i as int) is None,
        },
{
    proof {
        reveal_strlit("3d");
        reveal_strlit("!4d");
        assert("3d"@ =~= seq!['3', 'd']);
        assert("!4d"@ =~= seq!['!', '4', 'd']);
    }
    let n = s.unicode_len();
    if n - i < 2 || !match_at_exec(s, "3d", i) {
        return None;
    }
    match number_end_exec(s, i + 2) {
        None => None,
        Some(e1) => {
            if n - e1 < 3 || !match_at_exec(s, "!4d", e1) {
                return None;
            }
            match number_end_exec(s, e1 + 3) {
                None => None,
                Some(e2) => Some((s.substring_char(i + 2, e1), s.substring_char(e1 + 3, e2))),
            }
        },
    }
}

/// The latitude and longitude texts recovered from a marker URL: the two
/// numbers of the leftmost `3d<number>!4d<number>` pattern, or `0.0` for
/// both when the pattern is absent.
pub fn extract_lat_lng(url: &str) -> (r: (String, String))
    ensures
        match spec_latlng(url@, 0) {
            Some(caps) => r.0@ == caps.0 && r.1@ == caps.1,
            None => r.0@ == zero_text() && r.1@ == zero_text(),
        },
{
    let n = url.unicode_len();
    let mut i: usize = 0;
    while i < n
        invariant
            i <= n,
            n == url@.len() <= usize::MAX,
            spec_latlng(url@, 0) == spec_latlng(url@, i as int),
        decreases n - i,
    {
        match latlng_at_exec(url, i) {
            Some(caps) => {
                return (String::from_str(caps.0), String::from_str(caps.1));
            },
            None => {},
        }
        i += 1;
    }
    proof {
        reveal_strlit("0.0");
        assert("0.0"@ =~= zero_text());
    }
    (String::from_str("0.0"), String::from_str("0.0"))
}

} // verus!
