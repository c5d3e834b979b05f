//! Scanner for the JSON wire shapes the stream decoder consumes: whitespace
//! skipping, string scanning with escape decoding, value skipping by balanced
//! delimiters, object-member and array-element walking, and unsigned-number
//! reading. Every executable routine mirrors a specification function exactly,
//! so the frame parsers built on top have exact contracts.
use vstd::prelude::*;

use crate::text::is_ws;

verus! {

/// First position at or after `i` that does not hold whitespace.
pub open spec fn spec_skip_ws(s: Seq<char>, i: int) -> int
    decreases s.len() - i,
{
    if i < 0 || i >= s.len() || !is_ws(s[i]) {
        i
    } else {
        spec_skip_ws(s, i + 1)
    }
}

pub proof fn lemma_skip_ws_bounds(s: Seq<char>, i: int)
    requires
        0 <= i <= s.len(),
    ensures
        i <= spec_skip_ws(s, i) <= s.len(),
        spec_skip_ws(s, i) < s.len() ==> !is_ws(s[spec_skip_ws(s, i)]),
    decreases s.len() - i,
{
    if i < s.len() && is_ws(s[i]) {
        lemma_skip_ws_bounds(s, i + 1);
    }
}

/// Advance past whitespace.
pub fn skip_ws(s: &Vec<char>, i: usize) -> (r: usize)
    requires
        i <= s@.len(),
    ensures
        r == spec_skip_ws(s@, i as int),
        i <= r <= s@.len(),
{
    let mut j = i;
    while j < s.len() && crate::text::is_ws_char(s[j])
        invariant
            i <= j <= s@.len(),
            spec_skip_ws(s@, i as int) == spec_skip_ws(s@, j as int),
        decreases s@.len() - j,
    {
        j += 1;
    }
    proof {
        lemma_skip_ws_bounds(s@, j as int);
    }
    j
}

/// Value of a hexadecimal digit.
pub open spec fn spec_hex_val(c: char) -> Option<u32> {
    if '0' <= c && c <= '9' {
        Some(((c as u32) - ('0' as u32)) as u32)
    } else if 'a' <= c && c <= 'f' {
        Some(((c as u32) - ('a' as u32) + 10) as u32)
    } else if 'A' <= c && c <= 'F' {
        Some(((c as u32) - ('A' as u32) + 10) as u32)
    } else {
        None
    }
}

fn hex_val(c: char) -> (r: Option<u32>)
    ensures
        r == spec_hex_val(c),
{
    if '0' <= c && c <= '9' {
        Some((c as u32) - ('0' as u32))
    } else if 'a' <= c && c <= 'f' {
        Some((c as u32) - ('a' as u32) + 10)
    } else if 'A' <= c && c <= 'F' {
        Some((c as u32) - ('A' as u32) + 10)
    } else {
        None
    }
}

/// Value of the four hexadecimal digits at `i`.
pub open spec fn spec_hex4(s: Seq<char>, i: int) -> Option<u32> {
    if i + 4 <= s.len() && spec_hex_val(s[i]) is Some && spec_hex_val(s[i + 1]) is Some
        && spec_hex_val(s[i + 2]) is Some && spec_hex_val(s[i + 3]) is Some {
        Some(
            (spec_hex_val(s[i])->0 * 0x1000 + spec_hex_val(s[i + 1])->0 * 0x100 + spec_hex_val(
                s[i + 2],
            )->0 * 0x10 + spec_hex_val(s[i + 3])->0) as u32,
        )
    } else {
        None
    }
}

fn hex4(s: &Vec<char>, i: usize) -> (r: Option<u32>)
    requires
        i <= s@.len(),
    ensures
        r == spec_hex4(s@, i as int),
{
    if s.len() - i < 4 {
        return None;
    }
    let a = hex_val(s[i]);
    let b = hex_val(s[i + 1]);
    let c = hex_val(s[i + 2]);
    let d = hex_val(s[i + 3]);
    match (a, b, c, d) {
        (Some(a), Some(b), Some(c), Some(d)) => Some(a * 0x1000 + b * 0x100 + c * 0x10 + d),
        _ => None,
    }
}

/// A Unicode scalar value: what `char` can hold.
pub open spec fn is_scalar_u32(v: u32) -> bool {
    v < 0xD800 || (0xE000 <= v && v <= 0x10FFFF)
}

/// Relies on `char::from_u32`: it returns `Some` exactly when the value is a
/// Unicode scalar (not a surrogate and at most 0x10FFFF), and the character
/// returned has that code point.
#[verifier::external_body]
pub fn char_from_u32(v: u32) -> (r: Option<char>)
    ensures
        is_scalar_u32(v) ==> r == Some(v as char),
        !is_scalar_u32(v) ==> r is None,
{
    char::from_u32(v)
}

/// Decode the `\uXXXX` escape whose digits start at `i` (just after `\u`),
/// combining a surrogate pair into one scalar. Returns the decoded character
/// and the position after the escape.
pub open spec fn spec_unicode_escape(s: Seq<char>, i: int) -> Option<(char, int)> {
    match spec_hex4(s, i) {
        None => None,
        Some(hi) => if hi < 0xD800 || hi >= 0xE000 {
            Some(((hi as char), i + 4))
        } else if hi < 0xDC00 {
            // high surrogate: a low surrogate escape must follow
            if i + 6 <= s.len() && s[i + 4] == '\\' && s[i + 5] == 'u' {
                match spec_hex4(s, i + 6) {
                    None => None,
                    Some(lo) => if 0xDC00 <= lo && lo < 0xE000 {
                        Some(
                            (
                                ((0x10000 + (hi - 0xD800) * 0x400 + (lo - 0xDC00)) as u32 as char),
                                i + 10,
                            ),
                        )
                    } else {
                        None
                    },
                }
            } else {
                None
            }
        } else {
            // lone low surrogate
            None
        },
    }
}

fn unicode_escape(s: &Vec<char>, i: usize) -> (r: Option<(char, usize)>)
    requires
        i <= s@.len(),
    ensures
        match r {
            Some((c, j)) => spec_unicode_escape(s@, i as int) == Some((c, j as int)) && i < j <= s@.len(),
            None => spec_unicode_escape(s@, i as int) is None,
        },
{
    let n = s.len();
    match hex4(s, i) {
        None => None,
        Some(hi) => {
            if hi < 0xD800 || hi >= 0xE000 {
                proof {
                    assert(is_scalar_u32(hi));
                }
                proof {
                    assert(spec_hex4(s@, i as int) is Some);
                    assert(i + 4 <= n);
                }
                match char_from_u32(hi) {
                    Some(c) => Some((c, i + 4)),
                    None => None,  // unreachable: the value is a scalar
                }
            } else if hi < 0xDC00 {
                proof {
                    assert(spec_hex4(s@, i as int) is Some);
                    assert(i + 4 <= s@.len());
                }
                if s.len() - i >= 6 && s[i + 4] == '\\' && s[i + 5] == 'u' {
                    match hex4(s, i + 6) {
                        None => None,
                        Some(lo) => {
                            if 0xDC00 <= lo && lo < 0xE000 {
                                let v: u32 = 0x10000 + (hi - 0xD800) * 0x400 + (lo - 0xDC00);
                                proof {
                                    assert(is_scalar_u32(v));
                                }
                                match char_from_u32(v) {
                                    Some(c) => Some((c, i + 10)),
                                    None => None,  // unreachable: the value is a scalar
                                }
                            } else {
                                None
                            }
                        },
                    }
                } else {
                    None
                }
            } else {
                None
            }
        },
    }
}

/// The character a single-character escape stands for, if recognized.
pub open spec fn spec_escape_char(c: char) -> Option<char> {
    if c == '"' {
        Some('"')
    } else if c == '\\' {
        Some('\\')
    } else if c == '/' {
        Some('/')
    } else if c == 'n' {
        Some('\n')
    } else if c == 't' {
        Some('\t')
    } else if c == 'r' {
        Some('\r')
    } else if c == 'b' {
        Some('\u{8}')
    } else if c == 'f' {
        Some('\u{c}')
    } else {
        None
    }
}

fn escape_char(c: char) -> (r: Option<char>)
    ensures
        r == spec_escape_char(c),
{
    if c == '"' {
        Some('"')
    } else if c == '\\' {
        Some('\\')
    } else if c == '/' {
        Some('/')
    } else if c == 'n' {
        Some('\n')
    } else if c == 't' {
        Some('\t')
    } else if c == 'r' {
        Some('\r')
    } else if c == 'b' {
        Some('\u{8}')
    } else if c == 'f' {
        Some('\u{c}')
    } else {
        None
    }
}

/// Decoded content and end position of a string body: `i` points just after
/// the opening quote; the returned position is just after the closing quote.
pub open spec fn spec_string_rest(s: Seq<char>, i: int) -> Option<(Seq<char>, int)>
    decreases s.len() - i,
{
    if i < 0 || i >= s.len() {
        None
    } else if s[i] == '"' {
        Some((Seq::empty(), i + 1))
    } else if s[i] == '\\' {
        if i + 1 >= s.len() {
            None
        } else if s[i + 1] == 'u' {
            match spec_unicode_escape(s, i + 2) {
                None => None,
                Some((c, j)) => if j <= i {
                    None
                } else {
                    match spec_string_rest(s, j) {
                        None => None,
                        Some((t, e)) => Some((seq![c] + t, e)),
                    }
                },
            }
        } else {
            match spec_escape_char(s[i + 1]) {
                None => None,
                Some(c) => match spec_string_rest(s, i + 2) {
                    None => None,
                    Some((t, e)) => Some((seq![c] + t, e)),
                },
            }
        }
    } else {
        match spec_string_rest(s, i + 1) {
            None => None,
            Some((t, e)) => Some((seq![s[i]] + t, e)),
        }
    }
}

pub proof fn lemma_string_rest_bounds(s: Seq<char>, i: int)
    requires
        0 <= i,
    ensures
        spec_string_rest(s, i) matches Some(p) ==> i < p.1 <= s.len(),
    decreases s.len() - i,
{
    if 0 <= i < s.len() && s[i] != '"' {
        if s[i] == '\\' {
            if i + 1 < s.len() && s[i + 1] == 'u' {
                match spec_unicode_escape(s, i + 2) {
                    None => {},
                    Some((c, j)) => {
                        if j > i {
                            lemma_string_rest_bounds(s, j);
                        }
                    },
                }
            } else if i + 1 < s.len() {
                lemma_string_rest_bounds(s, i + 2);
            }
        } else {
            lemma_string_rest_bounds(s, i + 1);
        }
    }
}

/// Scan a string body starting just after the opening quote, decoding escapes.
pub fn string_rest(s: &Vec<char>, i: usize) -> (r: Option<(Vec<char>, usize)>)
    requires
        i <= s@.len(),
    ensures
        match r {
            Some((t, e)) => spec_string_rest(s@, i as int) == Some((t@, e as int)) && i < e
                <= s@.len(),
            None => spec_string_rest(s@, i as int) is None,
        },
{
    let mut out: Vec<char> = Vec::new();
    let mut j = i;
    loop
        invariant
            i <= j <= s@.len(),
            match spec_string_rest(s@, j as int) {
                Some(p) => spec_string_rest(s@, i as int) == Some((out@ + p.0, p.1)),
                None => spec_string_rest(s@, i as int) is None,
            },
        decreases s@.len() - j,
    {
        if j >= s.len() {
            return None;
        }
        let c = s[j];
        if c == '"' {
            proof {
                lemma_string_rest_bounds(s@, i as int);
                assert(out@ + Seq::<char>::empty() =~= out@);
            }
            return Some((out, j + 1));
        } else if c == '\\' {
            if j + 1 >= s.len() {
                return None;
            }
            let n = s[j + 1];
            if n == 'u' {
                match unicode_escape(s, j + 2) {
                    None => {
                        return None;
                    },
                    Some((d, k)) => {
                        proof {
                            match spec_string_rest(s@, k as int) {
                                Some(p) => {
                                    assert((out@ + (seq![d] + p.0)) =~= (out@.push(d) + p.0));
                                },
                                None => {},
                            }
                        }
                        out.push(d);
                        j = k;
                    },
                }
            } else {
                match escape_char(n) {
                    None => {
                        return None;
                    },
                    Some(d) => {
                        proof {
                            match spec_string_rest(s@, j + 2) {
                                Some(p) => {
                                    assert((out@ + (seq![d] + p.0)) =~= (out@.push(d) + p.0));
                                },
                                None => {},
                            }
                        }
                        out.push(d);
                        j = j + 2;
                    },
                }
            }
        } else {
            proof {
                match spec_string_rest(s@, j + 1) {
                    Some(p) => {
                        assert((out@ + (seq![c] + p.0)) =~= (out@.push(c) + p.0));
                    },
                    None => {},
                }
            }
            out.push(c);
            j = j + 1;
        }
    }
}

/// End position of the string whose body starts at `i`, without the content.
pub fn string_end(s: &Vec<char>, i: usize) -> (r: Option<usize>)
    requires
        i <= s@.len(),
    ensures
        match r {
            Some(e) => spec_string_rest(s@, i as int) matches Some(p) && p.1 == e as int && i < e
                <= s@.len(),
            None => spec_string_rest(s@, i as int) is None,
        },
{
    match string_rest(s, i) {
        Some((_, e)) => Some(e),
        None => None,
    }
}

/// End of a scalar lexeme (number, boolean, null): the first position holding
/// a delimiter or whitespace.
pub open spec fn spec_scalar_end(s: Seq<char>, i: int) -> int
    decreases s.len() - i,
{
    if i < 0 || i >= s.len() || s[i] == ',' || s[i] == '}' || s[i] == ']' || is_ws(s[i]) {
        i
    } else {
        spec_scalar_end(s, i + 1)
    }
}

pub proof fn lemma_scalar_end_bounds(s: Seq<char>, i: int)
    requires
        0 <= i <= s.len(),
    ensures
        i <= spec_scalar_end(s, i) <= s.len(),
    decreases s.len() - i,
{
    if i < s.len() && !(s[i] == ',' || s[i] == '}' || s[i] == ']' || is_ws(s[i])) {
        lemma_scalar_end_bounds(s, i + 1);
    }
}

fn scalar_end(s: &Vec<char>, i: usize) -> (r: usize)
    requires
        i <= s@.len(),
    ensures
        r == spec_scalar_end(s@, i as int),
        i <= r <= s@.len(),
{
    let mut j = i;
    while j < s.len() && !(s[j] == ',' || s[j] == '}' || s[j] == ']' || crate::text::is_ws_char(
        s[j],
    ))
        invariant
            i <= j <= s@.len(),
            spec_scalar_end(s@, i as int) == spec_scalar_end(s@, j as int),
        decreases s@.len() - j,
    {
        j += 1;
    }
    proof {
        lemma_scalar_end_bounds(s@, j as int);
    }
    j
}

/// Position just after the delimiter that closes `depth` still-open containers,
/// scanning from `i` and passing over strings. Delimiter kinds are not matched
/// against each other: the scan is a framing device, not a validator.
pub open spec fn spec_skip_depth(s: Seq<char>, i: int, depth: int) -> Option<int>
    decreases s.len() - i,
{
    if i < 0 || i >= s.len() || depth < 1 {
        None
    } else if s[i] == '"' {
        match spec_string_rest(s, i + 1) {
            None => None,
            Some((_t, j)) => if j <= i || j > s.len() {
                None
            } else {
                spec_skip_depth(s, j, depth)
            },
        }
    } else if s[i] == '{' || s[i] == '[' {
        spec_skip_depth(s, i + 1, depth + 1)
    } else if s[i] == '}' || s[i] == ']' {
        if depth == 1 {
            Some(i + 1)
        } else {
            spec_skip_depth(s, i + 1, depth - 1)
        }
    } else {
        spec_skip_depth(s, i + 1, depth)
    }
}

pub proof fn lemma_skip_depth_bounds(s: Seq<char>, i: int, depth: int)
    requires
        0 <= i,
    ensures
        spec_skip_depth(s, i, depth) matches Some(j) ==> i < j <= s.len(),
    decreases s.len() - i,
{
    if i < s.len() && depth >= 1 {
        if s[i] == '"' {
            match spec_string_rest(s, i + 1) {
                None => {},
                Some((_t, j)) => {
                    lemma_string_rest_bounds(s, i + 1);
                    if j > i {
                        lemma_skip_depth_bounds(s, j, depth);
                    }
                },
            }
        } else if s[i] == '{' || s[i] == '[' {
            lemma_skip_depth_bounds(s, i + 1, depth + 1);
        } else if s[i] == '}' || s[i] == ']' {
            if depth != 1 {
                lemma_skip_depth_bounds(s, i + 1, depth - 1);
            }
        } else {
            lemma_skip_depth_bounds(s, i + 1, depth);
        }
    }
}

fn skip_depth(s: &Vec<char>, i: usize, depth: usize) -> (r: Option<usize>)
    requires
        i <= s@.len(),
        depth >= 1,
    ensures
        match r {
            Some(j) => spec_skip_depth(s@, i as int, depth as int) == Some(j as int) && i < j
                <= s@.len(),
            None => spec_skip_depth(s@, i as int, depth as int) is None,
        },
{
    let mut j = i;
    let mut d: u128 = depth as u128;
    loop
        invariant
            i <= j <= s@.len(),
            d >= 1,
            d <= depth + (j - i),
            spec_skip_depth(s@, i as int, depth as int) == spec_skip_depth(s@, j as int, d as int),
        decreases s@.len() - j,
    {
        if j >= s.len() {
            return None;
        }
        let c = s[j];
        if c == '"' {
            match string_end(s, j + 1) {
                None => {
                    return None;
                },
                Some(e) => {
                    j = e;
                },
            }
        } else if c == '{' || c == '[' {
            d += 1;
            j += 1;
        } else if c == '}' || c == ']' {
            if d == 1 {
                proof {
                    lemma_skip_depth_bounds(s@, i as int, depth as int);
                }
                return Some(j + 1);
            }
            d -= 1;
            j += 1;
        } else {
            j += 1;
        }
    }
}

/// End position of the single value that starts at `i`.
pub open spec fn spec_skip_value(s: Seq<char>, i: int) -> Option<int> {
    if i < 0 || i >= s.len() {
        None
    } else if s[i] == '"' {
        match spec_string_rest(s, i + 1) {
            None => None,
            Some((_t, j)) => Some(j),
        }
    } else if s[i] == '{' || s[i] == '[' {
        spec_skip_depth(s, i + 1, 1)
    } else if s[i] == '}' || s[i] == ']' || s[i] == ',' {
        None
    } else {
        if spec_scalar_end(s, i) == i {
            None
        } else {
            Some(spec_scalar_end(s, i))
        }
    }
}

pub proof fn lemma_skip_value_bounds(s: Seq<char>, i: int)
    requires
        0 <= i,
    ensures
        spec_skip_value(s, i) matches Some(j) ==> i < j <= s.len(),
{
    if 0 <= i < s.len() {
        lemma_string_rest_bounds(s, i + 1);
        lemma_skip_depth_bounds(s, i + 1, 1);
        lemma_scalar_end_bounds(s, i);
    }
}

/// Advance past the single value that starts at `i`.
pub fn skip_value(s: &Vec<char>, i: usize) -> (r: Option<usize>)
    requires
        i <= s@.len(),
    ensures
        match r {
            Some(j) => spec_skip_value(s@, i as int) == Some(j as int) && i < j <= s@.len(),
            None => spec_skip_value(s@, i as int) is None,
        },
{
    if i >= s.len() {
        return None;
    }
    let c = s[i];
    if c == '"' {
        match string_end(s, i + 1) {
            None => None,
            Some(e) => Some(e),
        }
    } else if c == '{' || c == '[' {
        skip_depth(s, i + 1, 1)
    } else if c == '}' || c == ']' || c == ',' {
        None
    } else {
        let e = scalar_end(s, i);
        if e == i {
            None
        } else {
            Some(e)
        }
    }
}

/// Extent of the first complete top-level object in the buffer: the position
/// just after the `}` that closes the `{` that follows any leading whitespace.
/// `None` while the object is still incomplete or the buffer does not open one.
pub open spec fn spec_object_extent(s: Seq<char>) -> Option<int> {
    let w = spec_skip_ws(s, 0);
    if w < s.len() && s[w] == '{' {
        spec_skip_depth(s, w + 1, 1)
    } else {
        None
    }
}

pub proof fn lemma_object_extent_bounds(s: Seq<char>)
    ensures
        spec_object_extent(s) matches Some(j) ==> 0 < j <= s.len(),
{
    lemma_skip_ws_bounds(s, 0);
    if spec_skip_ws(s, 0) < s.len() && s[spec_skip_ws(s, 0)] == '{' {
        lemma_skip_depth_bounds(s, spec_skip_ws(s, 0) + 1, 1);
    }
}

/// Find the extent of the first complete top-level object in the buffer.
pub fn object_extent(s: &Vec<char>) -> (r: Option<usize>)
    ensures
        match r {
            Some(j) => spec_object_extent(s@) == Some(j as int) && 0 < j <= s@.len(),
            None => spec_object_extent(s@) is None,
        },
{
    let w = skip_ws(s, 0);
    if w < s.len() && s[w] == '{' {
        skip_depth(s, w + 1, 1)
    } else {
        None
    }
}

/// Value of a run of decimal digits starting at `i`, together with the
/// position after the run; `None` if no digit starts at `i` or the value
/// does not fit in `u64`.
pub open spec fn spec_digits_u64(s: Seq<char>, i: int, acc: u64) -> Option<(u64, int)>
    decreases s.len() - i,
{
    if i < 0 || i >= s.len() || !('0' <= s[i] && s[i] <= '9') {
        Some((acc, i))
    } else {
        let d = (s[i] as u32) - ('0' as u32);
        if acc > (0xFFFF_FFFF_FFFF_FFFF - d) / 10 {
            None
        } else {
            spec_digits_u64(s, i + 1, (acc * 10 + d) as u64)
        }
    }
}

pub open spec fn spec_scan_u64(s: Seq<char>, i: int) -> Option<(u64, int)> {
    if 0 <= i < s.len() && '0' <= s[i] && s[i] <= '9' {
        spec_digits_u64(s, i, 0)
    } else {
        None
    }
}

pub proof fn lemma_digits_u64_bounds(s: Seq<char>, i: int, acc: u64)
    requires
        0 <= i <= s.len(),
    ensures
        spec_digits_u64(s, i, acc) matches Some(p) ==> i <= p.1 <= s.len(),
    decreases s.len() - i,
{
    if 0 <= i < s.len() && '0' <= s[i] && s[i] <= '9' {
        let d = (s[i] as u32) - ('0' as u32);
        if !(acc > (0xFFFF_FFFF_FFFF_FFFF - d) / 10) {
            lemma_digits_u64_bounds(s, i + 1, (acc * 10 + d) as u64);
        }
    }
}

/// Read an unsigned decimal number starting at `i`.
pub fn scan_u64(s: &Vec<char>, i: usize) -> (r: Option<(u64, usize)>)
    requires
        i <= s@.len(),
    ensures
        match r {
            Some((v, j)) => spec_scan_u64(s@, i as int) == Some((v, j as int)) && i <= j
                <= s@.len(),
            None => spec_scan_u64(s@, i as int) is None,
        },
{
    if !(i < s.len() && '0' <= s[i] && s[i] <= '9') {
        return None;
    }
    let mut acc: u64 = 0;
    let mut j = i;
    loop
        invariant
            i <= j <= s@.len(),
            spec_scan_u64(s@, i as int) == spec_digits_u64(s@, i as int, 0),
            spec_digits_u64(s@, i as int, 0) == spec_digits_u64(s@, j as int, acc),
        decreases s@.len() - j,
    {
        if !(j < s.len() && '0' <= s[j] && s[j] <= '9') {
            return Some((acc, j));
        }
        let d: u32 = (s[j] as u32) - ('0' as u32);
        if acc > (0xFFFF_FFFF_FFFF_FFFFu64 - (d as u64)) / 10 {
            return None;
        }
        acc = acc * 10 + (d as u64);
        j += 1;
    }
}

/// Whether the literal `p` occurs at position `i` of `s`.
pub open spec fn spec_lit_at(s: Seq<char>, i: int, p: Seq<char>) -> bool {
    0 <= i && i + p.len() <= s.len() && s.subrange(i, i + p.len()) == p
}

/// Test whether the literal `p` occurs at position `i`.
pub fn lit_at(s: &Vec<char>, i: usize, p: &str) -> (r: bool)
    requires
        i <= s@.len(),
    ensures
        r == spec_lit_at(s@, i as int, p@),
{
    let plen = p.unicode_len();
    let n = s.len();
    if n - i < plen {
        return false;
    }
    let mut k: usize = 0;
    while k < plen
        invariant
            0 <= k <= plen,
            plen == p@.len(),
            n == s@.len(),
            i + plen <= n,
            forall|j: int| 0 <= j < k ==> s@[i + j] == p@[j],
        decreases plen - k,
    {
        if s[i + k] != p.get_char(k) {
            proof {
                assert(s@.subrange(i as int, i + p@.len())[k as int] != p@[k as int]);
            }
            return false;
        }
        k += 1;
    }
    proof {
        assert(s@.subrange(i as int, i + p@.len()) =~= p@);
    }
    true
}

/// One member of a JSON object: its decoded key and the extent of its value.
pub struct Field {
    pub key: Vec<char>,
    pub vstart: usize,
    pub vend: usize,
}

impl View for Field {
    type V = (Seq<char>, (int, int));

    open spec fn view(&self) -> (Seq<char>, (int, int)) {
        (self.key@, (self.vstart as int, self.vend as int))
    }
}

/// Members of an object from just after its `{`: the decoded key and value
/// extent of each member in order, and the position after the closing `}`.
pub open spec fn spec_members(s: Seq<char>, i: int) -> Option<(Seq<(Seq<char>, (int, int))>, int)>
    decreases s.len() - i,
{
    if i < 0 || i > s.len() {
        None
    } else {
        let w = spec_skip_ws(s, i);
        if w >= s.len() {
            None
        } else if s[w] == '}' {
            Some((Seq::empty(), w + 1))
        } else if s[w] != '"' {
            None
        } else {
            match spec_string_rest(s, w + 1) {
                None => None,
                Some((key, j)) => {
                    let w2 = spec_skip_ws(s, j);
                    if w2 >= s.len() || s[w2] != ':' {
                        None
                    } else {
                        let v = spec_skip_ws(s, w2 + 1);
                        match spec_skip_value(s, v) {
                            None => None,
                            Some(ve) => {
                                let w3 = spec_skip_ws(s, ve);
                                if w3 >= s.len() {
                                    None
                                } else if s[w3] == '}' {
                                    Some((seq![(key, (v, ve))], w3 + 1))
                                } else if s[w3] == ',' && w3 >= i {
                                    match spec_members(s, w3 + 1) {
                                        None => None,
                                        Some((rest, end)) => Some(
                                            (seq![(key, (v, ve))] + rest, end),
                                        ),
                                    }
                                } else {
                                    None
                                }
                            },
                        }
                    }
                },
            }
        }
    }
}

/// Members of the object that starts (after whitespace) at `i`, and the
/// position after its closing `}`.
pub open spec fn spec_obj_fields(s: Seq<char>, i: int) -> Option<
    (Seq<(Seq<char>, (int, int))>, int),
> {
    let w = spec_skip_ws(s, i);
    if 0 <= i && w < s.len() && s[w] == '{' {
        spec_members(s, w + 1)
    } else {
        None
    }
}

/// Walk the members of the object that starts at `i`.
pub fn obj_fields(s: &Vec<char>, i: usize) -> (r: Option<(Vec<Field>, usize)>)
    requires
        i <= s@.len(),
    ensures
        match r {
            Some((fs, end)) => {
                &&& spec_obj_fields(s@, i as int) == Some(
                    (fs@.map_values(|f: Field| f@), end as int),
                )
                &&& i < end <= s@.len()
                &&& forall|k: int|
                    0 <= k < fs@.len() ==> (#[trigger] fs@[k]).vstart <= fs@[k].vend <= s@.len()
            },
            None => spec_obj_fields(s@, i as int) is None,
        },
{
    let w = skip_ws(s, i);
    if !(w < s.len() && s[w] == '{') {
        return None;
    }
    let mut fields: Vec<Field> = Vec::new();
    let mut cur: usize = w + 1;
    loop
        invariant
            i < cur <= s@.len(),
            forall|k: int|
                0 <= k < fields@.len() ==> (#[trigger] fields@[k]).vstart <= fields@[k].vend
                    <= s@.len(),
            match spec_members(s@, cur as int) {
                Some(p) => spec_obj_fields(s@, i as int) == Some(
                    (fields@.map_values(|f: Field| f@) + p.0, p.1),
                ),
                None => spec_obj_fields(s@, i as int) is None,
            },
        decreases s@.len() - cur,
    {
        let w0 = skip_ws(s, cur);
        if w0 >= s.len() {
            return None;
        }
        if s[w0] == '}' {
            proof {
                assert(fields@.map_values(|f: Field| f@) + Seq::<(Seq<char>, (int, int))>::empty()
                    =~= fields@.map_values(|f: Field| f@));
            }
            return Some((fields, w0 + 1));
        }
        if s[w0] != '"' {
            return None;
        }
        let (key, j) = match string_rest(s, w0 + 1) {
            None => {
                return None;
            },
            Some(p) => p,
        };
        let w2 = skip_ws(s, j);
        if !(w2 < s.len() && s[w2] == ':') {
            return None;
        }
        let v = skip_ws(s, w2 + 1);
        let ve = match skip_value(s, v) {
            None => {
                return None;
            },
            Some(e) => e,
        };
        let w3 = skip_ws(s, ve);
        if w3 >= s.len() {
            return None;
        }
        let ghost old_fields = fields@;
        let fld = Field { key, vstart: v, vend: ve };
        fields.push(fld);
        if s[w3] == '}' {
            proof {
                assert(fields@.map_values(|f: Field| f@) =~= old_fields.map_values(|f: Field| f@)
                    + seq![(fld.key@, (v as int, ve as int))]);
            }
            return Some((fields, w3 + 1));
        }
        if s[w3] == ',' {
            proof {
                match spec_members(s@, w3 + 1) {
                    Some(p) => {
                        assert(old_fields.map_values(|f: Field| f@) + (seq![
                            (fld.key@, (v as int, ve as int)),
                        ] + p.0) =~= fields@.map_values(|f: Field| f@) + p.0);
                    },
                    None => {},
                }
            }
            cur = w3 + 1;
        } else {
            return None;
        }
    }
}

/// Element extents of an array from just after its `[`, and the position
/// after the closing `]`.
pub open spec fn spec_elems(s: Seq<char>, i: int) -> Option<(Seq<(int, int)>, int)>
    decreases s.len() - i,
{
    if i < 0 || i > s.len() {
        None
    } else {
        let w = spec_skip_ws(s, i);
        if w >= s.len() {
            None
        } else if s[w] == ']' {
            Some((Seq::empty(), w + 1))
        } else {
            match spec_skip_value(s, w) {
                None => None,
                Some(ve) => {
                    let w2 = spec_skip_ws(s, ve);
                    if w2 >= s.len() {
                        None
                    } else if s[w2] == ']' {
                        Some((seq![(w, ve)], w2 + 1))
                    } else if s[w2] == ',' && w2 >= i {
                        match spec_elems(s, w2 + 1) {
                            None => None,
                            Some((rest, end)) => Some((seq![(w, ve)] + rest, end)),
                        }
                    } else {
                        None
                    }
                },
            }
        }
    }
}

/// Element extents of the array that starts (after whitespace) at `i`.
pub open spec fn spec_arr_elems(s: Seq<char>, i: int) -> Option<(Seq<(int, int)>, int)> {
    let w = spec_skip_ws(s, i);
    if 0 <= i && w < s.len() && s[w] == '[' {
        spec_elems(s, w + 1)
    } else {
        None
    }
}

/// Walk the elements of the array that starts at `i`.
pub fn arr_elements(s: &Vec<char>, i: usize) -> (r: Option<(Vec<(usize, usize)>, usize)>)
    requires
        i <= s@.len(),
    ensures
        match r {
            Some((es, end)) => {
                &&& spec_arr_elems(s@, i as int) == Some(
                    (es@.map_values(|e: (usize, usize)| (e.0 as int, e.1 as int)), end as int),
                )
                &&& i < end <= s@.len()
                &&& forall|k: int|
                    0 <= k < es@.len() ==> (#[trigger] es@[k]).0 <= es@[k].1 <= s@.len()
            },
            None => spec_arr_elems(s@, i as int) is None,
        },
{
    let w = skip_ws(s, i);
    if !(w < s.len() && s[w] == '[') {
        return None;
    }
    let mut elems: Vec<(usize, usize)> = Vec::new();
    let mut cur: usize = w + 1;
    loop
        invariant
            i < cur <= s@.len(),
            forall|k: int|
                0 <= k < elems@.len() ==> (#[trigger] elems@[k]).0 <= elems@[k].1 <= s@.len(),
            match spec_elems(s@, cur as int) {
                Some(p) => spec_arr_elems(s@, i as int) == Some(
                    (elems@.map_values(|e: (usize, usize)| (e.0 as int, e.1 as int)) + p.0, p.1),
                ),
                None => spec_arr_elems(s@, i as int) is None,
            },
        decreases s@.len() - cur,
    {
        let w0 = skip_ws(s, cur);
        if w0 >= s.len() {
            return None;
        }
        if s[w0] == ']' {
            proof {
                assert(elems@.map_values(|e: (usize, usize)| (e.0 as int, e.1 as int))
                    + Seq::<(int, int)>::empty() =~= elems@.map_values(
                    |e: (usize, usize)| (e.0 as int, e.1 as int),
                ));
            }
            return Some((elems, w0 + 1));
        }
        let ve = match skip_value(s, w0) {
            None => {
                return None;
            },
            Some(e) => e,
        };
        let w2 = skip_ws(s, ve);
        if w2 >= s.len() {
            return None;
        }
        let ghost old_elems = elems@;
        elems.push((w0, ve));
        if s[w2] == ']' {
            proof {
                assert(elems@.map_values(|e: (usize, usize)| (e.0 as int, e.1 as int))
                    =~= old_elems.map_values(|e: (usize, usize)| (e.0 as int, e.1 as int)) + seq![
                    (w0 as int, ve as int),
                ]);
            }
            return Some((elems, w2 + 1));
        }
        if s[w2] == ',' {
            proof {
                match spec_elems(s@, w2 + 1) {
                    Some(p) => {
                        assert(old_elems.map_values(|e: (usize, usize)| (e.0 as int, e.1 as int))
                            + (seq![(w0 as int, ve as int)] + p.0) =~= elems@.map_values(
                            |e: (usize, usize)| (e.0 as int, e.1 as int),
                        ) + p.0);
                    },
                    None => {},
                }
            }
            cur = w2 + 1;
        } else {
            return None;
        }
    }
}

/// Value extent of the first member whose key is `name`.
pub open spec fn spec_lookup(fields: Seq<(Seq<char>, (int, int))>, name: Seq<char>) -> Option<
    (int, int),
>
    decreases fields.len(),
{
    if fields.len() == 0 {
        None
    } else if fields[0].0 == name {
        Some(fields[0].1)
    } else {
        spec_lookup(fields.drop_first(), name)
    }
}

/// Find the first member with the given key.
pub fn find_field(fields: &Vec<Field>, name: &str) -> (r: Option<(usize, usize)>)
    ensures
        match r {
            Some(p) => spec_lookup(fields@.map_values(|f: Field| f@), name@) == Some(
                (p.0 as int, p.1 as int),
            ) && exists|k: int|
                0 <= k < fields@.len() && (#[trigger] fields@[k])@.0 == name@ && fields@[k].vstart
                    == p.0 && fields@[k].vend == p.1,
            None => spec_lookup(fields@.map_values(|f: Field| f@), name@) is None,
        },
{
    let n = fields.len();
    let mut k: usize = 0;
    proof {
        assert(fields@.map_values(|f: Field| f@).skip(0) =~= fields@.map_values(|f: Field| f@));
    }
    while k < n
        invariant
            0 <= k <= n,
            n == fields@.len(),
            spec_lookup(fields@.map_values(|f: Field| f@), name@) == spec_lookup(
                fields@.map_values(|f: Field| f@).skip(k as int),
                name@,
            ),
            forall|j: int| 0 <= j < k ==> (#[trigger] fields@[j])@.0 != name@,
        decreases n - k,
    {
        proof {
            assert(fields@.map_values(|f: Field| f@).skip(k as int)[0] == fields@.map_values(
                |f: Field| f@,
            )[k as int]);
        }
        if crate::text::chars_eq_str(&fields[k].key, name) {
            return Some((fields[k].vstart, fields[k].vend));
        }
        proof {
            assert(fields@.map_values(|f: Field| f@).skip(k as int).drop_first()
                =~= fields@.map_values(|f: Field| f@).skip(k + 1));
        }
        k += 1;
    }
    proof {
        assert(fields@.map_values(|f: Field| f@).skip(n as int) =~= Seq::<
            (Seq<char>, (int, int)),
        >::empty());
    }
    None
}

} // verus!
