//! Detection of control payloads embedded in generated text: a completion
//! marker or a named tool instruction carried as a small document, optionally
//! wrapped in a fenced code block. Absent or malformed payloads are treated as
//! "not present", never as errors. The document parsing itself is done by an
//! outside library behind trusted wrappers whose results are named, so each
//! public function states its result exactly over those names; the stripping
//! of the code-block wrapper and every decision on the extracted values are
//! verified.
use vstd::prelude::*;

use crate::text::chars_to_string;
use crate::text::has_prefix;
use crate::text::spec_trim;
use crate::text::starts_with_chars;
use crate::text::str_eq;
use crate::text::str_to_chars;
use crate::text::subvec;
use crate::text::trim_chars;
use crate::json::lit_at;
use crate::json::spec_lit_at;

verus! {

/// The trimmed text with a fenced code-block wrapper removed: when the
/// trimmed text opens with the fence-and-language marker and closes with a
/// fence, the content between them, trimmed again; otherwise the trimmed
/// text itself.
pub open spec fn spec_strip_code_blocks(s: Seq<char>) -> Seq<char> {
    let t = spec_trim(s);
    if t.len() >= "```json"@.len() + "```"@.len() && has_prefix(t, "```json"@) && spec_lit_at(
        t,
        t.len() - "```"@.len(),
        "```"@,
    ) {
        spec_trim(t.subrange("```json"@.len() as int, t.len() - "```"@.len()))
    } else {
        t
    }
}

/// Remove a fenced code-block wrapper around a document, if there is one.
pub fn strip_markdown_code_blocks(s: &str) -> (r: String)
    ensures
        r@ == spec_strip_code_blocks(s@),
{
    proof {
        reveal_strlit("```json");
        reveal_strlit("```");
    }
    let cs = str_to_chars(s);
    let t = trim_chars(&cs);
    let n = t.len();
    if n >= 10 && starts_with_chars(&t, "```json") && lit_at(&t, n - 3, "```") {
        let inner = subvec(&t, 7, n - 3);
        let inner_trimmed = trim_chars(&inner);
        chars_to_string(&inner_trimmed)
    } else {
        chars_to_string(&t)
    }
}

/// The boolean `finished` member of the document the text parses as: `None`
/// when the text is not a complete document, the member is absent, or it is
/// not a boolean. The parse result depends on the text alone.
pub uninterp spec fn finished_flag_of(s: Seq<char>) -> Option<bool>;

/// Relies on `serde_json::from_str::<Value>`, `Value::get` and
/// `Value::as_bool`: reads the boolean `finished` member of the document, if
/// the text parses as one and the member is a boolean.
#[verifier::external_body]
fn read_finished_flag(s: &str) -> (r: Option<bool>)
    ensures
        r == finished_flag_of(s@),
{
    match serde_json::from_str::<serde_json::Value>(s) {
        Ok(v) => match v.get("finished") {
            Some(f) => f.as_bool(),
            None => None,
        },
        Err(_) => None,
    }
}

/// The `name` and `content` string members of the document's non-null `tool`
/// member: `None` when the text is not a complete document, `tool` is absent
/// or null, or either member is absent or not a string. The parse result
/// depends on the text alone.
pub uninterp spec fn tool_call_of(s: Seq<char>) -> Option<(Seq<char>, Seq<char>)>;

/// Relies on `serde_json::from_str::<Value>`, `Value::get`, `Value::is_null`
/// and `Value::as_str`: reads the `name` and `content` strings of a non-null
/// `tool` member.
#[verifier::external_body]
fn read_tool_call(s: &str) -> (r: Option<(String, String)>)
    ensures
        match r {
            Some(p) => tool_call_of(s@) == Some((p.0@, p.1@)),
            None => tool_call_of(s@) is None,
        },
{
    let v = match serde_json::from_str::<serde_json::Value>(s) {
        Ok(v) => v,
        Err(_) => return None,
    };
    let tool = match v.get("tool") {
        Some(t) if !t.is_null() => t,
        _ => return None,
    };
    match (
        tool.get("name").and_then(serde_json::Value::as_str),
        tool.get("content").and_then(serde_json::Value::as_str),
    ) {
        (Some(n), Some(c)) => Some((n.to_owned(), c.to_owned())),
        _ => None,
    }
}

/// The `name` string member of the document's object-valued `tool` member:
/// `None` when the text is not a complete document, `tool` is absent or not
/// an object, or `name` is absent or not a string. Depends on the text alone.
pub uninterp spec fn tool_object_name_of(s: Seq<char>) -> Option<Seq<char>>;

/// The `content` string member of the document's object-valued `tool` member,
/// under the same conditions. Depends on the text alone.
pub uninterp spec fn tool_object_content_of(s: Seq<char>) -> Option<Seq<char>>;

/// Relies on `serde_json::from_str::<Value>`, `Value::get`, `Value::is_object`
/// and `Value::as_str`: reads the `name` and `content` strings of an
/// object-valued `tool` member.
#[verifier::external_body]
fn read_tool_object(s: &str) -> (r: (Option<String>, Option<String>))
    ensures
        match r.0 {
            Some(n) => tool_object_name_of(s@) == Some(n@),
            None => tool_object_name_of(s@) is None,
        },
        match r.1 {
            Some(c) => tool_object_content_of(s@) == Some(c@),
            None => tool_object_content_of(s@) is None,
        },
{
    let v = match serde_json::from_str::<serde_json::Value>(s) {
        Ok(v) => v,
        Err(_) => return (None, None),
    };
    let tool = match v.get("tool") {
        Some(t) if t.is_object() => t,
        _ => return (None, None),
    };
    (
        tool.get("name").and_then(serde_json::Value::as_str).map(str::to_owned),
        tool.get("content").and_then(serde_json::Value::as_str).map(str::to_owned),
    )
}

/// The decision a completion flag stands for: only an explicit true finishes.
pub fn end_tag_decision(flag: Option<bool>) -> (r: bool)
    ensures
        r == (flag == Some(true)),
{
    match flag {
        Some(b) => b,
        None => false,
    }
}

/// Whether the text carries an explicit completion marker: true exactly when
/// the text, with its code-block wrapper stripped, parses as a document whose
/// `finished` member is the boolean true. A missing or malformed document
/// never reports completion.
pub fn contains_end_tag(content: &str) -> (r: bool)
    ensures
        r == (finished_flag_of(spec_strip_code_blocks(content@)) == Some(true)),
{
    let clean = strip_markdown_code_blocks(content);
    let flag = read_finished_flag(clean.as_str());
    end_tag_decision(flag)
}

/// The tool call the text carries, if any: exactly the `name` and `content`
/// strings of a non-null `tool` member of the stripped text's document.
/// Absent or malformed payloads yield nothing, never an error.
pub fn contains_tool_call(content: &str) -> (r: Option<(String, String)>)
    ensures
        ({
            let d = spec_strip_code_blocks(content@);
            match r {
                Some(p) => tool_call_of(d) == Some((p.0@, p.1@)),
                None => tool_call_of(d) is None,
            }
        }),
{
    let clean = strip_markdown_code_blocks(content);
    read_tool_call(clean.as_str())
}

/// The content of a command-line tool call, if the text carries one: exactly
/// the `content` string of an object-valued `tool` member whose `name` is the
/// command-line tool, in the stripped text's document.
pub fn extract_tool_content(content: &str) -> (r: Option<String>)
    ensures
        ({
            let d = spec_strip_code_blocks(content@);
            match r {
                Some(c) => tool_object_name_of(d) == Some("cli"@) && tool_object_content_of(d)
                    == Some(c@),
                None => !(tool_object_name_of(d) == Some("cli"@) && tool_object_content_of(
                    d,
                ) is Some),
            }
        }),
{
    extract_tool_content_json(content)
}

fn extract_tool_content_json(content: &str) -> (r: Option<String>)
    ensures
        ({
            let d = spec_strip_code_blocks(content@);
            match r {
                Some(c) => tool_object_name_of(d) == Some("cli"@) && tool_object_content_of(d)
                    == Some(c@),
                None => !(tool_object_name_of(d) == Some("cli"@) && tool_object_content_of(
                    d,
                ) is Some),
            }
        }),
{
    let clean = strip_markdown_code_blocks(content);
    let (name, text) = read_tool_object(clean.as_str());
    match name {
        Some(n) => {
            if str_eq(n.as_str(), "cli") {
                text
            } else {
                None
            }
        },
        None => None,
    }
}

} // verus!
