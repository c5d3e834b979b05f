//! Character-level helpers shared by the frame decoder, the field extractor
//! and the renderer: whitespace trimming, prefix tests, substring search and
//! conversions between `&str` and `Vec<char>`.
use vstd::prelude::*;

verus! {

/// Whitespace as the wire protocol uses it: the four ASCII characters that can
/// pad a line-delimited frame.
pub open spec fn is_ws(c: char) -> bool {
    c == ' ' || c == '\t' || c == '\r' || c == '\n'
}

/// Executable mirror of [`is_ws`].
pub fn is_ws_char(c: char) -> (r: bool)
    ensures
        r == is_ws(c),
{
    c == ' ' || c == '\t' || c == '\r' || c == '\n'
}

/// Number of whitespace characters at the front of `s`.
pub open spec fn ws_prefix_len(s: Seq<char>) -> int
    decreases s.len(),
{
    if s.len() == 0 || !is_ws(s[0]) {
        0
    } else {
        1 + ws_prefix_len(s.skip(1))
    }
}

/// Number of whitespace characters at the back of `s`.
pub open spec fn ws_suffix_len(s: Seq<char>) -> int
    decreases s.len(),
{
    if s.len() == 0 || !is_ws(s[s.len() - 1]) {
        0
    } else {
        1 + ws_suffix_len(s.take(s.len() - 1))
    }
}

pub proof fn lemma_ws_prefix_len_bounds(s: Seq<char>)
    ensures
        0 <= ws_prefix_len(s) <= s.len(),
        forall|i: int| 0 <= i < ws_prefix_len(s) ==> is_ws(s[i]),
        ws_prefix_len(s) < s.len() ==> !is_ws(s[ws_prefix_len(s)]),
    decreases s.len(),
{
    if s.len() > 0 && is_ws(s[0]) {
        let t = s.skip(1);
        lemma_ws_prefix_len_bounds(t);
        assert forall|i: int| 0 <= i < ws_prefix_len(s) implies is_ws(s[i]) by {
            if i >= 1 {
                assert(s[i] == t[i - 1]);
            }
        }
    }
}

pub proof fn lemma_ws_suffix_len_bounds(s: Seq<char>)
    ensures
        0 <= ws_suffix_len(s) <= s.len(),
        forall|i: int| s.len() - ws_suffix_len(s) <= i < s.len() ==> is_ws(s[i]),
        ws_suffix_len(s) < s.len() ==> !is_ws(s[s.len() - ws_suffix_len(s) - 1]),
    decreases s.len(),
{
    if s.len() > 0 && is_ws(s[s.len() - 1]) {
        let t = s.take(s.len() - 1);
        lemma_ws_suffix_len_bounds(t);
        assert forall|i: int| s.len() - ws_suffix_len(s) <= i < s.len() implies is_ws(s[i]) by {
            if i < s.len() - 1 {
                assert(s[i] == t[i]);
            }
        }
    }
}

/// `s` with leading and trailing whitespace removed.
pub open spec fn spec_trim(s: Seq<char>) -> Seq<char> {
    if ws_prefix_len(s) == s.len() {
        Seq::empty()
    } else {
        s.subrange(ws_prefix_len(s), s.len() - ws_suffix_len(s))
    }
}

/// Trim leading and trailing whitespace from a character buffer.
pub fn trim_chars(s: &Vec<char>) -> (r: Vec<char>)
    ensures
        r@ == spec_trim(s@),
{
    proof {
        lemma_ws_prefix_len_bounds(s@);
        lemma_ws_suffix_len_bounds(s@);
    }
    let n = s.len();
    let mut lo: usize = 0;
    while lo < n && is_ws_char(s[lo])
        invariant
            0 <= lo <= n,
            n == s@.len(),
            forall|i: int| 0 <= i < lo ==> is_ws(s@[i]),
        decreases n - lo,
    {
        lo += 1;
    }
    if lo == n {
        proof {
            assert(ws_prefix_len(s@) >= s@.len()) by {
                lemma_ws_prefix_len_bounds(s@);
                if ws_prefix_len(s@) < s@.len() {
                    assert(!is_ws(s@[ws_prefix_len(s@)]));
                }
            }
        }
        return Vec::new();
    }
    proof {
        assert(ws_prefix_len(s@) == lo) by {
            lemma_ws_prefix_len_bounds(s@);
            if ws_prefix_len(s@) < lo {
                assert(is_ws(s@[ws_prefix_len(s@)]));
            }
            if ws_prefix_len(s@) > lo {
                assert(is_ws(s@[lo as int]));
            }
        }
    }
    let mut hi: usize = n;
    while hi > lo && is_ws_char(s[hi - 1])
        invariant
            lo <= hi <= n,
            n == s@.len(),
            lo < n,
            !is_ws(s@[lo as int]),
            forall|i: int| hi <= i < n ==> is_ws(s@[i]),
        decreases hi,
    {
        hi -= 1;
    }
    proof {
        assert(ws_suffix_len(s@) == n - hi) by {
            lemma_ws_suffix_len_bounds(s@);
            if ws_suffix_len(s@) < n - hi {
                assert(is_ws(s@[s@.len() - ws_suffix_len(s@) - 1]));
            }
            if ws_suffix_len(s@) > n - hi {
                assert(is_ws(s@[hi - 1]));
            }
        }
    }
    let mut r: Vec<char> = Vec::new();
    let mut i: usize = lo;
    while i < hi
        invariant
            lo <= i <= hi <= n,
            n == s@.len(),
            r@ == s@.subrange(lo as int, i as int),
        decreases hi - i,
    {
        r.push(s[i]);
        proof {
            assert(r@ =~= s@.subrange(lo as int, i + 1));
        }
        i += 1;
    }
    proof {
        assert(r@ =~= spec_trim(s@));
    }
    r
}

/// Whether `p` is a prefix of `s`.
pub open spec fn has_prefix(s: Seq<char>, p: Seq<char>) -> bool {
    s.len() >= p.len() && s.subrange(0, p.len() as int) == p
}

/// Test whether the buffer starts with the literal prefix `p`.
pub fn starts_with_chars(s: &Vec<char>, p: &str) -> (r: bool)
    ensures
        r == has_prefix(s@, p@),
{
    let plen = p.unicode_len();
    if s.len() < plen {
        return false;
    }
    let mut i: usize = 0;
    while i < plen
        invariant
            0 <= i <= plen,
            plen == p@.len(),
            s@.len() >= plen,
            forall|j: int| 0 <= j < i ==> s@[j] == p@[j],
        decreases plen - i,
    {
        if s[i] != p.get_char(i) {
            assert(s@.subrange(0, plen as int)[i as int] != p@[i as int]);
            return false;
        }
        i += 1;
    }
    proof {
        assert(s@.subrange(0, plen as int) =~= p@);
    }
    true
}

/// Whether the buffer holds exactly the characters of `p`.
pub fn chars_eq_str(s: &Vec<char>, p: &str) -> (r: bool)
    ensures
        r == (s@ == p@),
{
    if s.len() != p.unicode_len() {
        return false;
    }
    let r = starts_with_chars(s, p);
    proof {
        if has_prefix(s@, p@) {
            assert(s@ =~= s@.subrange(0, p@.len() as int));
        } else {
            if s@ == p@ {
                assert(s@.subrange(0, p@.len() as int) =~= p@);
            }
        }
    }
    r
}

/// Whether two string slices hold the same characters.
pub fn str_eq(a: &str, b: &str) -> (r: bool)
    ensures
        r == (a@ == b@),
{
    let alen = a.unicode_len();
    if alen != b.unicode_len() {
        return false;
    }
    let mut i: usize = 0;
    while i < alen
        invariant
            0 <= i <= alen,
            alen == a@.len() == b@.len(),
            forall|j: int| 0 <= j < i ==> a@[j] == b@[j],
        decreases alen - i,
    {
        if a.get_char(i) != b.get_char(i) {
            return false;
        }
        i += 1;
    }
    proof {
        assert(a@ =~= b@);
    }
    true
}

/// Copy the characters of a string slice into a vector.
pub fn str_to_chars(s: &str) -> (r: Vec<char>)
    ensures
        r@ == s@,
{
    let n = s.unicode_len();
    let mut r: Vec<char> = Vec::new();
    let mut i: usize = 0;
    while i < n
        invariant
            0 <= i <= n,
            n == s@.len(),
            r@ == s@.subrange(0, i as int),
        decreases n - i,
    {
        r.push(s.get_char(i));
        proof {
            assert(r@ =~= s@.subrange(0, i + 1));
        }
        i += 1;
    }
    proof {
        assert(r@ =~= s@);
    }
    r
}

/// Build an owned string from a character buffer.
/// Relies on `String::from_iter` over an iterator of characters: collecting
/// yields a string whose characters are exactly those collected, in order.
#[verifier::external_body]
pub fn chars_to_string(v: &Vec<char>) -> (r: String)
    ensures
        r@ == v@,
{
    v.iter().collect()
}

/// First index at which `p` occurs as a contiguous subsequence of `s`, if any.
pub open spec fn first_occurrence(s: Seq<char>, p: Seq<char>) -> Option<int> {
    if exists|k: int| 0 <= k <= s.len() - p.len() && #[trigger] s.subrange(k, k + p.len()) == p {
        let k = choose|k: int|
            0 <= k <= s.len() - p.len() && #[trigger] s.subrange(k, k + p.len()) == p && forall|
                j: int,
            | 0 <= j < k ==> #[trigger] s.subrange(j, j + p.len()) != p;
        Some(k)
    } else {
        None
    }
}

/// Search for the first occurrence of `p` inside `s`.
pub fn find_chars(s: &Vec<char>, p: &Vec<char>) -> (r: Option<usize>)
    requires
        p@.len() >= 1,
    ensures
        match r {
            Some(k) => {
                &&& 0 <= k <= s@.len() - p@.len()
                &&& s@.subrange(k as int, k + p@.len()) == p@
                &&& forall|j: int| 0 <= j < k ==> #[trigger] s@.subrange(j, j + p@.len()) != p@
                &&& first_occurrence(s@, p@) == Some(k as int)
            },
            None => {
                &&& forall|k: int|
                    0 <= k <= s@.len() - p@.len() ==> #[trigger] s@.subrange(k, k + p@.len()) != p@
                &&& first_occurrence(s@, p@) is None
            },
        },
{
    let n = s.len();
    let plen = p.len();
    if n < plen {
        proof {
            assert(forall|k: int|
                0 <= k <= s@.len() - p@.len() ==> #[trigger] s@.subrange(k, k + p@.len()) != p@);
        }
        return None;
    }
    let mut k: usize = 0;
    while k <= n - plen
        invariant
            0 <= k <= n - plen + 1,
            n == s@.len(),
            plen == p@.len(),
            plen >= 1,
            plen <= n,
            forall|j: int| 0 <= j < k ==> #[trigger] s@.subrange(j, j + p@.len()) != p@,
        decreases n - plen - k + 1,
    {
        let mut i: usize = 0;
        let mut matched = true;
        while i < plen && matched
            invariant
                0 <= i <= plen,
                0 <= k <= n - plen,
                n == s@.len(),
                plen == p@.len(),
                matched ==> forall|j: int| 0 <= j < i ==> s@[k + j] == p@[j],
                !matched ==> s@.subrange(k as int, k + p@.len()) != p@,
            decreases plen - i + (if matched {
                1int
            } else {
                0int
            }),
        {
            if s[k + i] != p[i] {
                matched = false;
                proof {
                    assert(s@.subrange(k as int, k + p@.len())[i as int] != p@[i as int]);
                }
            } else {
                i += 1;
            }
        }
        if matched {
            proof {
                assert(s@.subrange(k as int, k + p@.len()) =~= p@);
                let kk = choose|kk: int|
                    0 <= kk <= s@.len() - p@.len() && #[trigger] s@.subrange(kk, kk + p@.len())
                        == p@ && forall|j: int|
                        0 <= j < kk ==> #[trigger] s@.subrange(j, j + p@.len()) != p@;
                assert(first_occurrence(s@, p@) == Some(kk)) by {
                    assert(0 <= k as int <= s@.len() - p@.len() && s@.subrange(
                        k as int,
                        k as int + p@.len(),
                    ) == p@ && forall|j: int|
                        0 <= j < k as int ==> #[trigger] s@.subrange(j, j + p@.len()) != p@);
                }
                assert(kk == k as int) by {
                    if kk < k as int {
                        assert(s@.subrange(kk, kk + p@.len()) != p@);
                    }
                    if kk > k as int {
                        assert(s@.subrange(k as int, k as int + p@.len()) != p@);
                    }
                }
            }
            return Some(k);
        } else {
            proof {
                assert(s@.subrange(k as int, k + p@.len()) != p@);
            }
        }
        k += 1;
    }
    None
}

/// Copy `s[a..b]` into a fresh vector.
pub fn subvec(s: &Vec<char>, a: usize, b: usize) -> (r: Vec<char>)
    requires
        a <= b <= s@.len(),
    ensures
        r@ == s@.subrange(a as int, b as int),
{
    let mut r: Vec<char> = Vec::new();
    let mut i = a;
    while i < b
        invariant
            a <= i <= b <= s@.len(),
            r@ == s@.subrange(a as int, i as int),
        decreases b - i,
    {
        r.push(s[i]);
        proof {
            assert(r@ =~= s@.subrange(a as int, i + 1));
        }
        i += 1;
    }
    proof {
        assert(r@ =~= s@.subrange(a as int, b as int));
    }
    r
}

/// Index of the first occurrence of `c`, if any.
pub open spec fn first_index_of(s: Seq<char>, c: char) -> Option<int>
    decreases s.len(),
{
    if s.len() == 0 {
        None
    } else if s[0] == c {
        Some(0)
    } else {
        match first_index_of(s.skip(1), c) {
            None => None,
            Some(p) => Some(p + 1),
        }
    }
}

pub proof fn lemma_first_index_of(s: Seq<char>, c: char)
    ensures
        match first_index_of(s, c) {
            Some(p) => 0 <= p < s.len() && s[p] == c && forall|j: int| 0 <= j < p ==> s[j] != c,
            None => forall|j: int| 0 <= j < s.len() ==> s[j] != c,
        },
    decreases s.len(),
{
    if s.len() > 0 && s[0] != c {
        let t = s.skip(1);
        lemma_first_index_of(t, c);
        match first_index_of(t, c) {
            Some(p) => {
                assert forall|j: int| 0 <= j < p + 1 implies s[j] != c by {
                    if j >= 1 {
                        assert(s[j] == t[j - 1]);
                    }
                }
            },
            None => {
                assert forall|j: int| 0 <= j < s.len() implies s[j] != c by {
                    if j >= 1 {
                        assert(s[j] == t[j - 1]);
                    }
                }
            },
        }
    }
}

/// Find the first occurrence of a character.
pub fn find_char(s: &Vec<char>, c: char) -> (r: Option<usize>)
    ensures
        match r {
            Some(p) => first_index_of(s@, c) == Some(p as int) && p < s@.len(),
            None => first_index_of(s@, c) is None,
        },
{
    proof {
        lemma_first_index_of(s@, c);
    }
    let n = s.len();
    let mut i: usize = 0;
    while i < n
        invariant
            0 <= i <= n,
            n == s@.len(),
            forall|j: int| 0 <= j < i ==> s@[j] != c,
        decreases n - i,
    {
        if s[i] == c {
            proof {
                lemma_first_index_of(s@, c);
                match first_index_of(s@, c) {
                    Some(p) => {
                        if p < i as int {
                            assert(s@[p] != c);
                        }
                        if p > i as int {
                            assert(s@[i as int] != c);
                        }
                    },
                    None => {
                        assert(s@[i as int] != c);
                    },
                }
            }
            return Some(i);
        }
        i += 1;
    }
    None
}

} // verus!
