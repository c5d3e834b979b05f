//! Single-field extraction from possibly incomplete documents.
//!
//! The extractor locates the marker `"name":` (spaces allowed before the
//! value), then collects the string value that follows, resolving recognized
//! escapes, tracking bracket and brace nesting, and stopping at the first
//! unescaped quote at nesting depth zero. If the document ends first, the
//! partial value collected so far is returned rather than a failure: partial
//! documents are expected while the stream is still arriving.
use vstd::prelude::*;

use crate::json::spec_skip_ws;
use crate::json::skip_ws;
use crate::text::chars_to_string;
use crate::text::find_chars;
use crate::text::first_occurrence;
use crate::text::str_to_chars;

verus! {

/// Resolved value text from `i` (just after the opening quote) to the first
/// unescaped quote at depth zero, or to the end of the input.
pub open spec fn spec_value_from(s: Seq<char>, i: int, depth: int) -> Seq<char>
    decreases s.len() - i,
{
    if i < 0 || i >= s.len() {
        Seq::empty()
    } else if s[i] == '\\' {
        if i + 1 >= s.len() {
            Seq::empty()
        } else {
            let d = s[i + 1];
            let resolved: Seq<char> = if d == 'n' {
                seq!['\n']
            } else if d == '"' {
                seq!['"']
            } else if d == '\\' {
                seq!['\\']
            } else {
                seq!['\\', d]
            };
            resolved + spec_value_from(s, i + 2, depth)
        }
    } else if s[i] == '"' && depth == 0 {
        Seq::empty()
    } else if s[i] == '[' || s[i] == '{' {
        seq![s[i]] + spec_value_from(s, i + 1, depth + 1)
    } else if s[i] == ']' || s[i] == '}' {
        seq![s[i]] + spec_value_from(s, i + 1, if depth > 0 {
            depth - 1
        } else {
            0
        })
    } else {
        seq![s[i]] + spec_value_from(s, i + 1, depth)
    }
}

/// The marker that announces the field: quote, name, quote, colon.
pub open spec fn spec_field_marker(name: Seq<char>) -> Seq<char> {
    seq!['"'] + name + seq!['"', ':']
}

/// The extracted value of the named field: nothing when the marker is absent
/// or its opening quote has not arrived; otherwise the (possibly partial)
/// resolved value text.
pub open spec fn spec_extract_field(s: Seq<char>, name: Seq<char>) -> Option<Seq<char>> {
    let m = spec_field_marker(name);
    match first_occurrence(s, m) {
        None => None,
        Some(k) => {
            let v = spec_skip_ws(s, k + m.len());
            if v < s.len() && s[v] == '"' {
                Some(spec_value_from(s, v + 1, 0))
            } else {
                None
            }
        },
    }
}

/// Collect the (possibly partial) string value of the named field.
pub fn extract_field(text: &str, name: &str) -> (r: Option<String>)
    ensures
        match r {
            Some(t) => spec_extract_field(text@, name@) == Some(t@),
            None => spec_extract_field(text@, name@) is None,
        },
{
    let s = str_to_chars(text);
    let mut marker: Vec<char> = Vec::new();
    marker.push('"');
    let mut namev = str_to_chars(name);
    marker.append(&mut namev);
    marker.push('"');
    marker.push(':');
    proof {
        assert(marker@ =~= spec_field_marker(name@));
    }
    let n = s.len();
    let k = match find_chars(&s, &marker) {
        None => {
            return None;
        },
        Some(k) => k,
    };
    proof {
        assert(k + marker@.len() <= n);
    }
    let v = skip_ws(&s, k + marker.len());
    if !(v < s.len() && s[v] == '"') {
        return None;
    }
    let mut out: Vec<char> = Vec::new();
    let mut i: usize = v + 1;
    let mut depth: usize = 0;
    loop
        invariant
            v + 1 <= i <= n,
            n == s@.len(),
            s@ == text@,
            depth <= i,
            spec_extract_field(text@, name@) == Some(spec_value_from(s@, v + 1 as int, 0)),
            spec_value_from(s@, v + 1 as int, 0) == out@ + spec_value_from(
                s@,
                i as int,
                depth as int,
            ),
        decreases n - i,
    {
        if i >= n {
            proof {
                assert(out@ + Seq::<char>::empty() =~= out@);
            }
            return Some(chars_to_string(&out));
        }
        let c = s[i];
        if c == '\\' {
            if i + 1 >= n {
                proof {
                    assert(out@ + Seq::<char>::empty() =~= out@);
                }
                return Some(chars_to_string(&out));
            }
            let d = s[i + 1];
            let ghost pre = out@;
            if d == 'n' {
                out.push('\n');
            } else if d == '"' {
                out.push('"');
            } else if d == '\\' {
                out.push('\\');
            } else {
                out.push('\\');
                out.push(d);
            }
            proof {
                let resolved: Seq<char> = if d == 'n' {
                    seq!['\n']
                } else if d == '"' {
                    seq!['"']
                } else if d == '\\' {
                    seq!['\\']
                } else {
                    seq!['\\', d]
                };
                assert(out@ =~= pre + resolved);
                assert(pre + (resolved + spec_value_from(s@, i + 2, depth as int)) =~= out@
                    + spec_value_from(s@, i + 2, depth as int));
            }
            i += 2;
        } else if c == '"' && depth == 0 {
            proof {
                assert(out@ + Seq::<char>::empty() =~= out@);
            }
            return Some(chars_to_string(&out));
        } else {
            let ghost pre = out@;
            out.push(c);
            proof {
                assert(out@ =~= pre + seq![c]);
            }
            if c == '[' || c == '{' {
                depth += 1;
            } else if (c == ']' || c == '}') && depth > 0 {
                depth -= 1;
            }
            proof {
                assert(pre + (seq![c] + spec_value_from(s@, i + 1, depth as int)) =~= out@
                    + spec_value_from(s@, i + 1, depth as int));
            }
            i += 1;
        }
    }
}

/// Extract the response field from a possibly incomplete document.
pub fn extract_response(partial: &str) -> (r: Option<String>)
    ensures
        match r {
            Some(t) => spec_extract_field(partial@, "response"@) == Some(t@),
            None => spec_extract_field(partial@, "response"@) is None,
        },
{
    extract_field(partial, "response")
}

} // verus!
