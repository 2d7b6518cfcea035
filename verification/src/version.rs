//! The version extractor: scans free-form probe output for the first
//! occurrence of the pattern `version "<token>"` and returns the quoted
//! token, or the sentinel "Unknown" when no such pattern is present. Total
//! over all inputs, no side effects.

use vstd::prelude::*;

verus! {

/// The marker whose first occurrence introduces the version token.
pub open spec fn spec_marker() -> Seq<char> {
    "version \""@
}

/// The number of characters of the marker.
pub open spec fn marker_len() -> int {
    9
}

/// The marker occurs in `s` at position `i`.
pub open spec fn marker_at(s: Seq<char>, i: int) -> bool {
    &&& 0 <= i
    &&& i + marker_len() <= s.len()
    &&& s.subrange(i, i + marker_len()) == spec_marker()
}

/// The least position at or after `k` where the marker occurs, if any.
pub open spec fn first_marker_from(s: Seq<char>, k: int) -> Option<int>
    decreases s.len() - k,
{
    if k + marker_len() > s.len() {
        None
    } else if marker_at(s, k) {
        Some(k)
    } else {
        first_marker_from(s, k + 1)
    }
}

/// The least position at or after `k` holding a double quote, if any.
pub open spec fn first_quote_from(s: Seq<char>, k: int) -> Option<int>
    decreases s.len() - k,
{
    if k < 0 || k >= s.len() {
        None
    } else if s[k] == '"' {
        Some(k)
    } else {
        first_quote_from(s, k + 1)
    }
}

/// What extraction returns: the characters between the first marker and the
/// next double quote after it, or the sentinel when either is missing.
pub open spec fn spec_parse_java_version(s: Seq<char>) -> Seq<char> {
    match first_marker_from(s, 0) {
        Some(i) => match first_quote_from(s, i + marker_len()) {
            Some(j) => s.subrange(i + marker_len(), j),
            None => "Unknown"@,
        },
        None => "Unknown"@,
    }
}

/// A found marker position is a real occurrence and the least one at or
/// after the start of the search.
pub proof fn lemma_first_marker_from_some(s: Seq<char>, k: int, i: int)
    requires
        0 <= k,
        first_marker_from(s, k) == Some(i),
    ensures
        k <= i,
        marker_at(s, i),
        forall|m: int| k <= m < i ==> !marker_at(s, m),
    decreases s.len() - k,
{
    if k + marker_len() > s.len() {
        assert(first_marker_from(s, k) is None);
    } else if marker_at(s, k) {
    } else {
        lemma_first_marker_from_some(s, k + 1, i);
    }
}

/// When the search finds no marker, no position at or after the start
/// carries one.
pub proof fn lemma_first_marker_from_none(s: Seq<char>, k: int)
    requires
        0 <= k,
        first_marker_from(s, k) is None,
    ensures
        forall|m: int| k <= m ==> !marker_at(s, m),
    decreases s.len() - k,
{
    if k + marker_len() > s.len() {
        assert forall|m: int| k <= m implies !marker_at(s, m) by {
            assert(m + marker_len() > s.len());
        }
    } else {
        lemma_first_marker_from_none(s, k + 1);
        assert forall|m: int| k <= m implies !marker_at(s, m) by {
            if m == k {
                assert(!marker_at(s, k));
            }
        }
    }
}

/// Any occurrence of the marker means the search from the start finds one.
pub proof fn lemma_marker_found(s: Seq<char>, i: int)
    requires
        marker_at(s, i),
    ensures
        first_marker_from(s, 0) is Some,
{
    if first_marker_from(s, 0) is None {
        lemma_first_marker_from_none(s, 0);
    }
}

/// A found quote position holds a double quote and is the least such
/// position at or after the start of the search.
pub proof fn lemma_first_quote_from_some(s: Seq<char>, k: int, j: int)
    requires
        0 <= k,
        first_quote_from(s, k) == Some(j),
    ensures
        k <= j < s.len(),
        s[j] == '"',
        forall|m: int| k <= m < j ==> s[m] != '"',
    decreases s.len() - k,
{
    if k >= s.len() {
        assert(first_quote_from(s, k) is None);
    } else if s[k] == '"' {
    } else {
        lemma_first_quote_from_some(s, k + 1, j);
    }
}

/// When the search finds no quote, no position at or after the start holds
/// one.
pub proof fn lemma_first_quote_from_none(s: Seq<char>, k: int)
    requires
        0 <= k,
        first_quote_from(s, k) is None,
    ensures
        forall|m: int| k <= m < s.len() ==> s[m] != '"',
    decreases s.len() - k,
{
    if k >= s.len() {
    } else {
        lemma_first_quote_from_none(s, k + 1);
        assert forall|m: int| k <= m < s.len() implies s[m] != '"' by {
            if m == k {
                assert(s[k] != '"');
            }
        }
    }
}

/// The extractor, characterized for every input text: when the marker
/// occurs anywhere, the result is the text between the end of its first
/// occurrence and the next double quote after it, when that quote exists;
/// with no marker occurrence at all, or no closing quote after the first
/// marker, the result is the sentinel.
pub proof fn lemma_extractor_characterized(s: Seq<char>)
    ensures
        match first_marker_from(s, 0) {
            Some(i) => {
                &&& marker_at(s, i)
                &&& forall|m: int| 0 <= m < i ==> !marker_at(s, m)
                &&& match first_quote_from(s, i + marker_len()) {
                    Some(j) => {
                        &&& i + marker_len() <= j < s.len()
                        &&& s[j] == '"'
                        &&& forall|m: int| i + marker_len() <= m < j ==> s[m] != '"'
                        &&& spec_parse_java_version(s) == s.subrange(i + marker_len(), j)
                    },
                    None => spec_parse_java_version(s) == "Unknown"@,
                }
            },
            None => (forall|m: int| !marker_at(s, m)) && spec_parse_java_version(s)
                == "Unknown"@,
        },
{
    match first_marker_from(s, 0) {
        Some(i) => {
            lemma_first_marker_from_some(s, 0, i);
            match first_quote_from(s, i + marker_len()) {
                Some(j) => {
                    lemma_first_quote_from_some(s, i + marker_len(), j);
                },
                None => {},
            }
        },
        None => {
            lemma_first_marker_from_none(s, 0);
            assert forall|m: int| !marker_at(s, m) by {
                if m >= 0 {
                    assert(!marker_at(s, m));
                }
            }
        },
    }
}

/// The marker occurs at `k` exactly when the next nine characters are
/// `version "`.
fn marker_at_exec(s: &str, k: usize) -> (b: bool)
    requires
        k + 9 <= s@.len(),
        s@.len() <= usize::MAX,
    ensures
        b == marker_at(s@, k as int),
{
    proof {
        reveal_strlit("version \"");
    }
    let marker: &str = "version \"";
    let mut j: usize = 0;
    while j < 9
        invariant
            j <= 9,
            k + 9 <= s@.len(),
            s@.len() <= usize::MAX,
            marker@ == spec_marker(),
            spec_marker().len() == 9,
            forall|m: int| 0 <= m < j ==> s@[k + m] == spec_marker()[m],
        decreases 9 - j,
    {
        if s.get_char(k + j) != marker.get_char(j) {
            proof {
                assert(s@.subrange(k as int, k as int + 9)[j as int] == s@[k + j]);
            }
            return false;
        }
        j += 1;
    }
    proof {
        assert(s@.subrange(k as int, k as int + 9) =~= spec_marker());
    }
    true
}

/// Extracts the version token from probe output: the characters between the
/// first occurrence of `version "` and the next double quote, or the
/// sentinel "Unknown" when the output holds no such pattern.
pub fn parse_java_version(output: &str) -> (r: String)
    ensures
        r@ == spec_parse_java_version(output@),
{
    proof {
        reveal_strlit("version \"");
    }
    let n = output.unicode_len();
    if n < 9 {
        return String::from_str("Unknown");
    }
    let mut k: usize = 0;
    while k <= n - 9
        invariant
            spec_marker().len() == 9,
            n == output@.len(),
            9 <= n,
            k <= n,
            first_marker_from(output@, 0) == first_marker_from(output@, k as int),
        decreases n - k,
    {
        if marker_at_exec(output, k) {
            assert(first_marker_from(output@, k as int) == Some(k as int));
            let t = k + 9;
            let mut j: usize = t;
            while j < n
                invariant
                    n == output@.len(),
                    t == k + 9,
                    first_marker_from(output@, 0) == Some(k as int),
                    t <= j <= n,
                    first_quote_from(output@, t as int) == first_quote_from(output@, j as int),
                decreases n - j,
            {
                if output.get_char(j) == '"' {
                    assert(first_quote_from(output@, j as int) == Some(j as int));
                    let token = output.substring_char(t, j);
                    return String::from_str(token);
                }
                j += 1;
            }
            assert(first_quote_from(output@, t as int) is None);
            return String::from_str("Unknown");
        }
        k += 1;
    }
    assert(first_marker_from(output@, k as int) is None);
    String::from_str("Unknown")
}

} // verus!
