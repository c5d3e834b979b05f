//! The decoded event surface and the incremental frame decoder.
//!
//! A streaming session delivers byte chunks split at arbitrary boundaries.
//! The decoder reassembles frames under one of two disciplines — line-delimited
//! event frames for the hosted backends, whole-object frames for the local
//! backend — and parses each complete frame into a [`StreamResponse`].
use vstd::prelude::*;

use crate::json::Field;
use crate::json::arr_elements;
use crate::json::find_field;
use crate::json::obj_fields;
use crate::json::scan_u64;
use crate::json::lit_at;
use crate::json::spec_arr_elems;
use crate::json::spec_lit_at;
use crate::json::spec_lookup;
use crate::json::spec_obj_fields;
use crate::json::spec_scan_u64;
use crate::json::spec_skip_ws;
use crate::json::spec_string_rest;
use crate::json::string_rest;
use crate::json::skip_ws;
use crate::json::spec_hex4;
use crate::json::spec_unicode_escape;
use crate::json::spec_skip_depth;
use crate::json::spec_object_extent;
use crate::json::object_extent;
use crate::json::lemma_skip_ws_bounds;
use crate::json::lemma_string_rest_bounds;
use crate::json::lemma_skip_depth_bounds;
use crate::json::lemma_object_extent_bounds;
use crate::text::chars_to_string;
use crate::text::chars_eq_str;
use crate::text::find_char;
use crate::text::starts_with_chars;
use crate::text::str_to_chars;
use crate::text::subvec;
use crate::text::trim_chars;
use crate::text::first_index_of;
use crate::text::lemma_first_index_of;
use crate::text::has_prefix;
use crate::text::spec_trim;
use crate::text::str_eq;
use crate::text::is_ws;

verus! {

/// The remote service a session talks to; selects the framing discipline and
/// the wire shape of each frame.
#[derive(Debug, Clone, PartialEq, Eq, Structural)]
pub enum Provider {
    OpenRouter,
    SambaNova,
    Groq,
    Ollama,
}

impl Provider {
    /// Endpoint the chat request is posted to.
    pub fn base_url(&self) -> (r: String)
        ensures
            r@ == self.spec_base_url(),
    {
        match self {
            Provider::OpenRouter => String::from_str("https://openrouter.ai/api/v1/chat/completions"),
            Provider::SambaNova => String::from_str("https://api.sambanova.ai/v1/chat/completions"),
            Provider::Groq => String::from_str("https://api.groq.com/openai/v1/chat/completions"),
            Provider::Ollama => String::from_str("http://localhost:11434/api/chat"),
        }
    }

    pub open spec fn spec_base_url(&self) -> Seq<char> {
        match self {
            Provider::OpenRouter => "https://openrouter.ai/api/v1/chat/completions"@,
            Provider::SambaNova => "https://api.sambanova.ai/v1/chat/completions"@,
            Provider::Groq => "https://api.groq.com/openai/v1/chat/completions"@,
            Provider::Ollama => "http://localhost:11434/api/chat"@,
        }
    }

    /// Model used when the caller configures none.
    pub fn default_model(&self) -> (r: String)
        ensures
            r@ == self.spec_default_model(),
    {
        match self {
            Provider::OpenRouter => String::from_str("google/gemini-2.0-flash-lite-001"),
            Provider::SambaNova => String::from_str("QwQ-32B"),
            Provider::Groq => String::from_str("qwen-qwq-32b"),
            Provider::Ollama => String::from_str("llama3"),
        }
    }

    pub open spec fn spec_default_model(&self) -> Seq<char> {
        match self {
            Provider::OpenRouter => "google/gemini-2.0-flash-lite-001"@,
            Provider::SambaNova => "QwQ-32B"@,
            Provider::Groq => "qwen-qwq-32b"@,
            Provider::Ollama => "llama3"@,
        }
    }

    /// Name of the environment variable that holds the provider's key; empty
    /// for the local backend, which needs none. The lookup itself is the
    /// caller's concern.
    pub fn api_key_env_var(&self) -> (r: String)
        ensures
            r@ == self.spec_api_key_env_var(),
    {
        match self {
            Provider::OpenRouter => String::from_str("OPENROUTER_API_KEY"),
            Provider::SambaNova => String::from_str("SAMBANOVA_API_KEY"),
            Provider::Groq => String::from_str("GROQ_API_KEY"),
            Provider::Ollama => String::from_str(""),
        }
    }

    pub open spec fn spec_api_key_env_var(&self) -> Seq<char> {
        match self {
            Provider::OpenRouter => "OPENROUTER_API_KEY"@,
            Provider::SambaNova => "SAMBANOVA_API_KEY"@,
            Provider::Groq => "GROQ_API_KEY"@,
            Provider::Ollama => ""@,
        }
    }
}

/// Token accounting reported by a frame.
#[derive(Debug, Clone, Copy)]
pub struct Usage {
    pub prompt_tokens: Option<u32>,
    pub completion_tokens: Option<u32>,
    pub total_tokens: Option<u32>,
}

/// Incremental message fragment of a line-delimited frame.
#[derive(Debug)]
pub struct Delta {
    pub role: Option<String>,
    pub content: Option<String>,
}

impl Default for Delta {
    fn default() -> (r: Self)
        ensures
            r@.role is None,
            r@.content is None,
    {
        Self { role: None, content: None }
    }
}

/// Mathematical image of a [`Delta`].
pub struct DeltaView {
    pub role: Option<Seq<char>>,
    pub content: Option<Seq<char>>,
}

impl View for Delta {
    type V = DeltaView;

    open spec fn view(&self) -> DeltaView {
        DeltaView { role: self.role.deep_view(), content: self.content.deep_view() }
    }
}

/// One alternative of a line-delimited frame.
#[derive(Debug)]
pub struct Choice {
    pub index: Option<u32>,
    pub delta: Delta,
    pub finish_reason: Option<String>,
    pub native_finish_reason: Option<String>,
}

/// Mathematical image of a [`Choice`].
pub struct ChoiceView {
    pub index: Option<u32>,
    pub delta: DeltaView,
    pub finish_reason: Option<Seq<char>>,
    pub native_finish_reason: Option<Seq<char>>,
}

impl View for Choice {
    type V = ChoiceView;

    open spec fn view(&self) -> ChoiceView {
        ChoiceView {
            index: self.index,
            delta: self.delta@,
            finish_reason: self.finish_reason.deep_view(),
            native_finish_reason: self.native_finish_reason.deep_view(),
        }
    }
}

/// Whole message carried by a whole-object frame.
#[derive(Debug)]
pub struct Message {
    pub role: String,
    pub content: String,
}

/// Mathematical image of a [`Message`].
pub struct MessageView {
    pub role: Seq<char>,
    pub content: Seq<char>,
}

impl View for Message {
    type V = MessageView;

    open spec fn view(&self) -> MessageView {
        MessageView { role: self.role@, content: self.content@ }
    }
}

/// One decoded frame, normalized from either wire shape.
#[derive(Debug)]
pub enum StreamResponse {
    OpenAIStyle {
        id: String,
        provider: Option<String>,
        model: String,
        choices: Vec<Choice>,
        usage: Option<Usage>,
    },
    OllamaStyle {
        model: String,
        created_at: String,
        message: Message,
        done: bool,
        done_reason: Option<String>,
        total_duration: Option<u64>,
        load_duration: Option<u64>,
        prompt_eval_count: Option<u64>,
        prompt_eval_duration: Option<u64>,
        eval_count: Option<u64>,
        eval_duration: Option<u64>,
    },
}

/// Mathematical image of a [`StreamResponse`].
pub enum StreamResponseView {
    OpenAIStyle {
        id: Seq<char>,
        provider: Option<Seq<char>>,
        model: Seq<char>,
        choices: Seq<ChoiceView>,
        usage: Option<Usage>,
    },
    OllamaStyle {
        model: Seq<char>,
        created_at: Seq<char>,
        message: MessageView,
        done: bool,
        done_reason: Option<Seq<char>>,
        total_duration: Option<u64>,
        load_duration: Option<u64>,
        prompt_eval_count: Option<u64>,
        prompt_eval_duration: Option<u64>,
        eval_count: Option<u64>,
        eval_duration: Option<u64>,
    },
}

impl View for StreamResponse {
    type V = StreamResponseView;

    open spec fn view(&self) -> StreamResponseView {
        match self {
            StreamResponse::OpenAIStyle { id, provider, model, choices, usage } => {
                StreamResponseView::OpenAIStyle {
                    id: id@,
                    provider: provider.deep_view(),
                    model: model@,
                    choices: choices@.map_values(|c: Choice| c@),
                    usage: *usage,
                }
            },
            StreamResponse::OllamaStyle {
                model,
                created_at,
                message,
                done,
                done_reason,
                total_duration,
                load_duration,
                prompt_eval_count,
                prompt_eval_duration,
                eval_count,
                eval_duration,
            } => {
                StreamResponseView::OllamaStyle {
                    model: model@,
                    created_at: created_at@,
                    message: message@,
                    done: *done,
                    done_reason: done_reason.deep_view(),
                    total_duration: *total_duration,
                    load_duration: *load_duration,
                    prompt_eval_count: *prompt_eval_count,
                    prompt_eval_duration: *prompt_eval_duration,
                    eval_count: *eval_count,
                    eval_duration: *eval_duration,
                }
            },
        }
    }
}

/// Sum of the two counters, wrapped to 32 bits, as the whole-object usage
/// estimate reports it.
pub open spec fn spec_wrap_add_u32(a: u64, b: u64) -> u32 {
    (((a + b) as u128) as u32)
}

impl StreamResponseView {
    /// The content fragment the frame carries, if any.
    pub open spec fn spec_content(self) -> Option<Seq<char>> {
        match self {
            StreamResponseView::OpenAIStyle { choices, .. } => {
                if choices.len() > 0 {
                    choices[0].delta.content
                } else {
                    None
                }
            },
            StreamResponseView::OllamaStyle { message, .. } => Some(message.content),
        }
    }

    /// The usage snapshot the frame carries, if any; whole-object counters are
    /// converted to a best-effort estimate.
    pub open spec fn spec_usage(self) -> Option<Usage> {
        match self {
            StreamResponseView::OpenAIStyle { usage, .. } => usage,
            StreamResponseView::OllamaStyle {
                prompt_eval_count,
                eval_count,
                total_duration,
                ..
            } => {
                if prompt_eval_count is Some || eval_count is Some {
                    Some(
                        Usage {
                            prompt_tokens: match prompt_eval_count {
                                Some(v) => Some(v as u32),
                                None => None,
                            },
                            completion_tokens: match eval_count {
                                Some(v) => Some(v as u32),
                                None => None,
                            },
                            total_tokens: match total_duration {
                                Some(_) => Some(
                                    spec_wrap_add_u32(
                                        match prompt_eval_count {
                                            Some(v) => v,
                                            None => 0,
                                        },
                                        match eval_count {
                                            Some(v) => v,
                                            None => 0,
                                        },
                                    ),
                                ),
                                None => None,
                            },
                        },
                    )
                } else {
                    None
                }
            },
        }
    }

    /// Whether the frame's own completion indicator reports the end of the
    /// response: an explicit finish reason equal to the stop sentinel, or the
    /// explicit done flag — never inferred from content.
    pub open spec fn spec_finished(self) -> bool {
        match self {
            StreamResponseView::OpenAIStyle { choices, .. } => {
                choices.len() > 0 && (choices[0].finish_reason matches Some(r) && r == "stop"@)
            },
            StreamResponseView::OllamaStyle { done, .. } => done,
        }
    }
}

impl StreamResponse {
    /// The content fragment this frame carries, if any.
    pub fn get_content(&self) -> (r: Option<String>)
        ensures
            r.deep_view() == self@.spec_content(),
    {
        match self {
            StreamResponse::OpenAIStyle { choices, .. } => {
                if choices.len() > 0 {
                    match &choices[0].delta.content {
                        Some(s) => Some(s.clone()),
                        None => None,
                    }
                } else {
                    None
                }
            },
            StreamResponse::OllamaStyle { message, .. } => Some(message.content.clone()),
        }
    }

    /// The usage snapshot this frame carries, if any.
    pub fn get_usage(&self) -> (r: Option<Usage>)
        ensures
            r == self@.spec_usage(),
    {
        match self {
            StreamResponse::OpenAIStyle { usage, .. } => *usage,
            StreamResponse::OllamaStyle { prompt_eval_count, eval_count, total_duration, .. } => {
                if prompt_eval_count.is_some() || eval_count.is_some() {
                    let pec = match prompt_eval_count {
                        Some(v) => *v,
                        None => 0,
                    };
                    let ec = match eval_count {
                        Some(v) => *v,
                        None => 0,
                    };
                    let total: u32 = #[verifier::truncate] (((pec as u128) + (ec as u128)) as u32);
                    Some(
                        Usage {
                            prompt_tokens: match prompt_eval_count {
                                Some(v) => Some(#[verifier::truncate] (*v as u32)),
                                None => None,
                            },
                            completion_tokens: match eval_count {
                                Some(v) => Some(#[verifier::truncate] (*v as u32)),
                                None => None,
                            },
                            total_tokens: match total_duration {
                                Some(_) => Some(total),
                                None => None,
                            },
                        },
                    )
                } else {
                    None
                }
            },
        }
    }

    /// Whether this frame's completion indicator reports the end.
    pub fn is_finished(&self) -> (r: bool)
        ensures
            r == self@.spec_finished(),
    {
        match self {
            StreamResponse::OpenAIStyle { choices, .. } => {
                if choices.len() > 0 {
                    match &choices[0].finish_reason {
                        Some(reason) => str_eq(reason.as_str(), "stop"),
                        None => false,
                    }
                } else {
                    false
                }
            },
            StreamResponse::OllamaStyle { done, .. } => *done,
        }
    }
}

/// One message of the conversation handed to the service.
#[derive(Debug, Clone)]
pub struct ChatMessage {
    pub role: String,
    pub content: String,
}

/// Why a complete frame failed to decode. A malformed frame never ends the
/// session: the decoder reports it and goes on with the next frame.
#[derive(Debug, Clone, Copy, PartialEq, Eq, Structural)]
pub enum DecodeError {
    /// The frame's characters do not form the wire shape the provider uses.
    Malformed,
}

/// Lift a decode result to its mathematical image.
pub open spec fn spec_result_view(r: Result<StreamResponse, DecodeError>) -> Result<
    StreamResponseView,
    DecodeError,
> {
    match r {
        Ok(v) => Ok(v@),
        Err(e) => Err(e),
    }
}

/// Whether the value extent holds the literal `null`.
pub open spec fn spec_is_null(s: Seq<char>, ext: (int, int)) -> bool {
    spec_lit_at(s, ext.0, "null"@) && ext.1 == ext.0 + 4
}

/// The decoded text of a string value filling the extent exactly.
pub open spec fn spec_val_str(s: Seq<char>, ext: (int, int)) -> Option<Seq<char>> {
    if 0 <= ext.0 < s.len() && s[ext.0] == '"' {
        match spec_string_rest(s, ext.0 + 1) {
            Some((t, e)) => if e == ext.1 {
                Some(t)
            } else {
                None
            },
            None => None,
        }
    } else {
        None
    }
}

/// A string-or-null value: `null` stands for no value.
pub open spec fn spec_val_opt_str(s: Seq<char>, ext: (int, int)) -> Option<Option<Seq<char>>> {
    if spec_is_null(s, ext) {
        Some(None)
    } else {
        match spec_val_str(s, ext) {
            Some(t) => Some(Some(t)),
            None => None,
        }
    }
}

/// An unsigned number filling the extent exactly.
pub open spec fn spec_val_u64(s: Seq<char>, ext: (int, int)) -> Option<u64> {
    match spec_scan_u64(s, ext.0) {
        Some((v, e)) => if e == ext.1 {
            Some(v)
        } else {
            None
        },
        None => None,
    }
}

pub open spec fn spec_val_opt_u64(s: Seq<char>, ext: (int, int)) -> Option<Option<u64>> {
    if spec_is_null(s, ext) {
        Some(None)
    } else {
        match spec_val_u64(s, ext) {
            Some(v) => Some(Some(v)),
            None => None,
        }
    }
}

pub open spec fn spec_val_opt_u32(s: Seq<char>, ext: (int, int)) -> Option<Option<u32>> {
    if spec_is_null(s, ext) {
        Some(None)
    } else {
        match spec_val_u64(s, ext) {
            Some(v) => if v <= 0xFFFF_FFFF {
                Some(Some(v as u32))
            } else {
                None
            },
            None => None,
        }
    }
}

/// A boolean literal filling the extent exactly.
pub open spec fn spec_val_bool(s: Seq<char>, ext: (int, int)) -> Option<bool> {
    if spec_lit_at(s, ext.0, "true"@) && ext.1 == ext.0 + 4 {
        Some(true)
    } else if spec_lit_at(s, ext.0, "false"@) && ext.1 == ext.0 + 5 {
        Some(false)
    } else {
        None
    }
}

/// A required string member: missing, null or non-string is malformed.
pub open spec fn spec_field_req_str(
    s: Seq<char>,
    fs: Seq<(Seq<char>, (int, int))>,
    name: Seq<char>,
) -> Option<Seq<char>> {
    match spec_lookup(fs, name) {
        None => None,
        Some(ext) => spec_val_str(s, ext),
    }
}

/// A string member that defaults to the empty text when missing.
pub open spec fn spec_field_str_or_empty(
    s: Seq<char>,
    fs: Seq<(Seq<char>, (int, int))>,
    name: Seq<char>,
) -> Option<Seq<char>> {
    match spec_lookup(fs, name) {
        None => Some(Seq::empty()),
        Some(ext) => spec_val_str(s, ext),
    }
}

/// An optional string member: missing or null is no value.
pub open spec fn spec_field_opt_str(
    s: Seq<char>,
    fs: Seq<(Seq<char>, (int, int))>,
    name: Seq<char>,
) -> Option<Option<Seq<char>>> {
    match spec_lookup(fs, name) {
        None => Some(None),
        Some(ext) => spec_val_opt_str(s, ext),
    }
}

pub open spec fn spec_field_opt_u32(
    s: Seq<char>,
    fs: Seq<(Seq<char>, (int, int))>,
    name: Seq<char>,
) -> Option<Option<u32>> {
    match spec_lookup(fs, name) {
        None => Some(None),
        Some(ext) => spec_val_opt_u32(s, ext),
    }
}

pub open spec fn spec_field_opt_u64(
    s: Seq<char>,
    fs: Seq<(Seq<char>, (int, int))>,
    name: Seq<char>,
) -> Option<Option<u64>> {
    match spec_lookup(fs, name) {
        None => Some(None),
        Some(ext) => spec_val_opt_u64(s, ext),
    }
}

/// A boolean member that defaults to false when missing.
pub open spec fn spec_field_bool_false(
    s: Seq<char>,
    fs: Seq<(Seq<char>, (int, int))>,
    name: Seq<char>,
) -> Option<bool> {
    match spec_lookup(fs, name) {
        None => Some(false),
        Some(ext) => spec_val_bool(s, ext),
    }
}

/// Well-formed extents: what [`obj_fields`] and [`arr_elements`] hand out.
pub open spec fn fields_wf(fields: Seq<Field>, s: Seq<char>) -> bool {
    forall|k: int| 0 <= k < fields.len() ==> (#[trigger] fields[k]).vstart <= fields[k].vend <= s.len()
}

fn val_str(s: &Vec<char>, vs: usize, ve: usize) -> (r: Option<String>)
    requires
        vs <= s@.len(),
    ensures
        match r {
            Some(t) => spec_val_str(s@, (vs as int, ve as int)) == Some(t@),
            None => spec_val_str(s@, (vs as int, ve as int)) is None,
        },
{
    if !(vs < s.len() && s[vs] == '"') {
        return None;
    }
    match string_rest(s, vs + 1) {
        Some((t, e)) => {
            if e == ve {
                Some(chars_to_string(&t))
            } else {
                None
            }
        },
        None => None,
    }
}

fn val_opt_str(s: &Vec<char>, vs: usize, ve: usize) -> (r: Option<Option<String>>)
    requires
        vs <= ve <= s@.len(),
    ensures
        match r {
            Some(t) => spec_val_opt_str(s@, (vs as int, ve as int)) == Some(t.deep_view()),
            None => spec_val_opt_str(s@, (vs as int, ve as int)) is None,
        },
{
    if lit_at(s, vs, "null") && ve - vs == 4 {
        return Some(None);
    }
    match val_str(s, vs, ve) {
        Some(t) => Some(Some(t)),
        None => None,
    }
}

fn val_opt_u64(s: &Vec<char>, vs: usize, ve: usize) -> (r: Option<Option<u64>>)
    requires
        vs <= ve <= s@.len(),
    ensures
        match r {
            Some(t) => spec_val_opt_u64(s@, (vs as int, ve as int)) == Some(t),
            None => spec_val_opt_u64(s@, (vs as int, ve as int)) is None,
        },
{
    if lit_at(s, vs, "null") && ve - vs == 4 {
        return Some(None);
    }
    match scan_u64(s, vs) {
        Some((v, e)) => {
            if e == ve {
                Some(Some(v))
            } else {
                None
            }
        },
        None => None,
    }
}

fn val_opt_u32(s: &Vec<char>, vs: usize, ve: usize) -> (r: Option<Option<u32>>)
    requires
        vs <= ve <= s@.len(),
    ensures
        match r {
            Some(t) => spec_val_opt_u32(s@, (vs as int, ve as int)) == Some(t),
            None => spec_val_opt_u32(s@, (vs as int, ve as int)) is None,
        },
{
    if lit_at(s, vs, "null") && ve - vs == 4 {
        return Some(None);
    }
    match scan_u64(s, vs) {
        Some((v, e)) => {
            if e == ve && v <= 0xFFFF_FFFF {
                Some(Some(#[verifier::truncate] (v as u32)))
            } else {
                None
            }
        },
        None => None,
    }
}

fn val_bool(s: &Vec<char>, vs: usize, ve: usize) -> (r: Option<bool>)
    requires
        vs <= ve <= s@.len(),
    ensures
        match r {
            Some(b) => spec_val_bool(s@, (vs as int, ve as int)) == Some(b),
            None => spec_val_bool(s@, (vs as int, ve as int)) is None,
        },
{
    if lit_at(s, vs, "true") && ve - vs == 4 {
        Some(true)
    } else if lit_at(s, vs, "false") && ve - vs == 5 {
        Some(false)
    } else {
        None
    }
}

fn field_req_str(s: &Vec<char>, fields: &Vec<Field>, name: &str) -> (r: Option<String>)
    requires
        fields_wf(fields@, s@),
    ensures
        match r {
            Some(t) => spec_field_req_str(s@, fields@.map_values(|f: Field| f@), name@) == Some(
                t@,
            ),
            None => spec_field_req_str(s@, fields@.map_values(|f: Field| f@), name@) is None,
        },
{
    match find_field(fields, name) {
        None => None,
        Some((a, b)) => val_str(s, a, b),
    }
}

fn field_str_or_empty(s: &Vec<char>, fields: &Vec<Field>, name: &str) -> (r: Option<String>)
    requires
        fields_wf(fields@, s@),
    ensures
        match r {
            Some(t) => spec_field_str_or_empty(s@, fields@.map_values(|f: Field| f@), name@)
                == Some(t@),
            None => spec_field_str_or_empty(
                s@,
                fields@.map_values(|f: Field| f@),
                name@,
            ) is None,
        },
{
    match find_field(fields, name) {
        None => Some(String::new()),
        Some((a, b)) => val_str(s, a, b),
    }
}

fn field_opt_str(s: &Vec<char>, fields: &Vec<Field>, name: &str) -> (r: Option<Option<String>>)
    requires
        fields_wf(fields@, s@),
    ensures
        match r {
            Some(t) => spec_field_opt_str(s@, fields@.map_values(|f: Field| f@), name@) == Some(
                t.deep_view(),
            ),
            None => spec_field_opt_str(s@, fields@.map_values(|f: Field| f@), name@) is None,
        },
{
    match find_field(fields, name) {
        None => Some(None),
        Some((a, b)) => val_opt_str(s, a, b),
    }
}

fn field_opt_u32(s: &Vec<char>, fields: &Vec<Field>, name: &str) -> (r: Option<Option<u32>>)
    requires
        fields_wf(fields@, s@),
    ensures
        match r {
            Some(t) => spec_field_opt_u32(s@, fields@.map_values(|f: Field| f@), name@) == Some(t),
            None => spec_field_opt_u32(s@, fields@.map_values(|f: Field| f@), name@) is None,
        },
{
    match find_field(fields, name) {
        None => Some(None),
        Some((a, b)) => val_opt_u32(s, a, b),
    }
}

fn field_opt_u64(s: &Vec<char>, fields: &Vec<Field>, name: &str) -> (r: Option<Option<u64>>)
    requires
        fields_wf(fields@, s@),
    ensures
        match r {
            Some(t) => spec_field_opt_u64(s@, fields@.map_values(|f: Field| f@), name@) == Some(t),
            None => spec_field_opt_u64(s@, fields@.map_values(|f: Field| f@), name@) is None,
        },
{
    match find_field(fields, name) {
        None => Some(None),
        Some((a, b)) => val_opt_u64(s, a, b),
    }
}

fn field_bool_false(s: &Vec<char>, fields: &Vec<Field>, name: &str) -> (r: Option<bool>)
    requires
        fields_wf(fields@, s@),
    ensures
        match r {
            Some(b) => spec_field_bool_false(s@, fields@.map_values(|f: Field| f@), name@) == Some(
                b,
            ),
            None => spec_field_bool_false(s@, fields@.map_values(|f: Field| f@), name@) is None,
        },
{
    match find_field(fields, name) {
        None => Some(false),
        Some((a, b)) => val_bool(s, a, b),
    }
}

/// The delta object of a choice.
#[verifier::opaque]
pub open spec fn spec_parse_delta(s: Seq<char>, ext: (int, int)) -> Option<DeltaView> {
    match spec_obj_fields(s, ext.0) {
        None => None,
        Some((fs, end)) => if end != ext.1 {
            None
        } else {
            match spec_field_opt_str(s, fs, "role"@) {
                None => None,
                Some(role) => match spec_field_opt_str(s, fs, "content"@) {
                    None => None,
                    Some(content) => Some(DeltaView { role, content }),
                },
            }
        },
    }
}

fn parse_delta(s: &Vec<char>, vs: usize, ve: usize) -> (r: Option<Delta>)
    requires
        vs <= ve <= s@.len(),
    ensures
        match r {
            Some(d) => spec_parse_delta(s@, (vs as int, ve as int)) == Some(d@),
            None => spec_parse_delta(s@, (vs as int, ve as int)) is None,
        },
{
    proof {
        reveal(spec_parse_delta);
    }
    match obj_fields(s, vs) {
        None => None,
        Some((fields, end)) => {
            if end != ve {
                return None;
            }
            let role = match field_opt_str(s, &fields, "role") {
                None => {
                    return None;
                },
                Some(x) => x,
            };
            let content = match field_opt_str(s, &fields, "content") {
                None => {
                    return None;
                },
                Some(x) => x,
            };
            Some(Delta { role, content })
        },
    }
}

/// The usage object of a line-delimited frame.
#[verifier::opaque]
pub open spec fn spec_parse_usage(s: Seq<char>, ext: (int, int)) -> Option<Usage> {
    match spec_obj_fields(s, ext.0) {
        None => None,
        Some((fs, end)) => if end != ext.1 {
            None
        } else {
            match spec_field_opt_u32(s, fs, "prompt_tokens"@) {
                None => None,
                Some(pt) => match spec_field_opt_u32(s, fs, "completion_tokens"@) {
                    None => None,
                    Some(ct) => match spec_field_opt_u32(s, fs, "total_tokens"@) {
                        None => None,
                        Some(tt) => Some(
                            Usage {
                                prompt_tokens: pt,
                                completion_tokens: ct,
                                total_tokens: tt,
                            },
                        ),
                    },
                },
            }
        },
    }
}

fn parse_usage(s: &Vec<char>, vs: usize, ve: usize) -> (r: Option<Usage>)
    requires
        vs <= ve <= s@.len(),
    ensures
        match r {
            Some(u) => spec_parse_usage(s@, (vs as int, ve as int)) == Some(u),
            None => spec_parse_usage(s@, (vs as int, ve as int)) is None,
        },
{
    proof {
        reveal(spec_parse_usage);
    }
    match obj_fields(s, vs) {
        None => None,
        Some((fields, end)) => {
            if end != ve {
                return None;
            }
            let pt = match field_opt_u32(s, &fields, "prompt_tokens") {
                None => {
                    return None;
                },
                Some(x) => x,
            };
            let ct = match field_opt_u32(s, &fields, "completion_tokens") {
                None => {
                    return None;
                },
                Some(x) => x,
            };
            let tt = match field_opt_u32(s, &fields, "total_tokens") {
                None => {
                    return None;
                },
                Some(x) => x,
            };
            Some(Usage { prompt_tokens: pt, completion_tokens: ct, total_tokens: tt })
        },
    }
}

/// The message object of a whole-object frame.
#[verifier::opaque]
pub open spec fn spec_parse_message(s: Seq<char>, ext: (int, int)) -> Option<MessageView> {
    match spec_obj_fields(s, ext.0) {
        None => None,
        Some((fs, end)) => if end != ext.1 {
            None
        } else {
            match spec_field_req_str(s, fs, "role"@) {
                None => None,
                Some(role) => match spec_field_req_str(s, fs, "content"@) {
                    None => None,
                    Some(content) => Some(MessageView { role, content }),
                },
            }
        },
    }
}

fn parse_message(s: &Vec<char>, vs: usize, ve: usize) -> (r: Option<Message>)
    requires
        vs <= ve <= s@.len(),
    ensures
        match r {
            Some(m) => spec_parse_message(s@, (vs as int, ve as int)) == Some(m@),
            None => spec_parse_message(s@, (vs as int, ve as int)) is None,
        },
{
    proof {
        reveal(spec_parse_message);
    }
    match obj_fields(s, vs) {
        None => None,
        Some((fields, end)) => {
            if end != ve {
                return None;
            }
            let role = match field_req_str(s, &fields, "role") {
                None => {
                    return None;
                },
                Some(x) => x,
            };
            let content = match field_req_str(s, &fields, "content") {
                None => {
                    return None;
                },
                Some(x) => x,
            };
            Some(Message { role, content })
        },
    }
}

/// One element of the choices array.
#[verifier::opaque]
pub open spec fn spec_parse_choice(s: Seq<char>, ext: (int, int)) -> Option<ChoiceView> {
    match spec_obj_fields(s, ext.0) {
        None => None,
        Some((fs, end)) => if end != ext.1 {
            None
        } else {
            match spec_field_opt_u32(s, fs, "index"@) {
                None => None,
                Some(index) => {
                    let delta = match spec_lookup(fs, "delta"@) {
                        None => Some(DeltaView { role: None, content: None }),
                        Some(dext) => spec_parse_delta(s, dext),
                    };
                    match delta {
                        None => None,
                        Some(delta) => match spec_field_opt_str(s, fs, "finish_reason"@) {
                            None => None,
                            Some(finish_reason) => match spec_field_opt_str(
                                s,
                                fs,
                                "native_finish_reason"@,
                            ) {
                                None => None,
                                Some(native_finish_reason) => Some(
                                    ChoiceView { index, delta, finish_reason, native_finish_reason },
                                ),
                            },
                        },
                    }
                },
            }
        },
    }
}

fn parse_choice(s: &Vec<char>, vs: usize, ve: usize) -> (r: Option<Choice>)
    requires
        vs <= ve <= s@.len(),
    ensures
        match r {
            Some(c) => spec_parse_choice(s@, (vs as int, ve as int)) == Some(c@),
            None => spec_parse_choice(s@, (vs as int, ve as int)) is None,
        },
{
    proof {
        reveal(spec_parse_choice);
    }
    match obj_fields(s, vs) {
        None => None,
        Some((fields, end)) => {
            if end != ve {
                return None;
            }
            let index = match field_opt_u32(s, &fields, "index") {
                None => {
                    return None;
                },
                Some(x) => x,
            };
            let delta = match find_field(&fields, "delta") {
                None => Delta { role: None, content: None },
                Some((a, b)) => match parse_delta(s, a, b) {
                    None => {
                        return None;
                    },
                    Some(d) => d,
                },
            };
            let finish_reason = match field_opt_str(s, &fields, "finish_reason") {
                None => {
                    return None;
                },
                Some(x) => x,
            };
            let native_finish_reason = match field_opt_str(s, &fields, "native_finish_reason") {
                None => {
                    return None;
                },
                Some(x) => x,
            };
            Some(Choice { index, delta, finish_reason, native_finish_reason })
        },
    }
}

/// The choices carried by the elements of the choices array, in order.
#[verifier::opaque]
pub open spec fn spec_choices_from(s: Seq<char>, elems: Seq<(int, int)>) -> Option<Seq<ChoiceView>>
    decreases elems.len(),
{
    if elems.len() == 0 {
        Some(Seq::empty())
    } else {
        match spec_parse_choice(s, elems[0]) {
            None => None,
            Some(c) => match spec_choices_from(s, elems.drop_first()) {
                None => None,
                Some(rest) => Some(seq![c] + rest),
            },
        }
    }
}

fn parse_choices(s: &Vec<char>, elems: &Vec<(usize, usize)>) -> (r: Option<Vec<Choice>>)
    requires
        forall|k: int| 0 <= k < elems@.len() ==> (#[trigger] elems@[k]).0 <= elems@[k].1 <= s@.len(),
    ensures
        match r {
            Some(cs) => spec_choices_from(
                s@,
                elems@.map_values(|e: (usize, usize)| (e.0 as int, e.1 as int)),
            ) == Some(cs@.map_values(|c: Choice| c@)),
            None => spec_choices_from(
                s@,
                elems@.map_values(|e: (usize, usize)| (e.0 as int, e.1 as int)),
            ) is None,
        },
{
    proof {
        reveal(spec_choices_from);
    }
    let ghost all = elems@.map_values(|e: (usize, usize)| (e.0 as int, e.1 as int));
    let n = elems.len();
    let mut out: Vec<Choice> = Vec::new();
    let mut k: usize = 0;
    proof {
        assert(all.skip(0) =~= all);
    }
    while k < n
        invariant
            0 <= k <= n,
            n == elems@.len(),
            all == elems@.map_values(|e: (usize, usize)| (e.0 as int, e.1 as int)),
            forall|j: int| 0 <= j < n ==> (#[trigger] elems@[j]).0 <= elems@[j].1 <= s@.len(),
            out@.len() == k,
            match spec_choices_from(s@, all.skip(k as int)) {
                Some(rest) => spec_choices_from(s@, all) == Some(
                    out@.map_values(|c: Choice| c@) + rest,
                ),
                None => spec_choices_from(s@, all) is None,
            },
        decreases n - k,
    {
        proof {
            reveal(spec_choices_from);
            assert(all.skip(k as int)[0] == all[k as int]);
            assert(all.skip(k as int).drop_first() =~= all.skip(k + 1));
        }
        let (a, b) = (elems[k].0, elems[k].1);
        match parse_choice(s, a, b) {
            None => {
                return None;
            },
            Some(c) => {
                proof {
                    match spec_choices_from(s@, all.skip(k + 1)) {
                        Some(rest) => {
                            assert(out@.map_values(|c0: Choice| c0@) + (seq![c@] + rest)
                                =~= out@.push(c).map_values(|c0: Choice| c0@) + rest);
                        },
                        None => {},
                    }
                }
                out.push(c);
            },
        }
        k += 1;
    }
    proof {
        reveal(spec_choices_from);
        assert(all.skip(n as int) =~= Seq::<(int, int)>::empty());
        assert(out@.map_values(|c: Choice| c@) + Seq::<ChoiceView>::empty() =~= out@.map_values(
            |c: Choice| c@,
        ));
    }
    Some(out)
}

/// A complete line-delimited frame: the OpenAI-style wire shape. The whole
/// text must be one object followed by nothing but whitespace. The
/// identification members (`id`, `model`, `provider`) and the `choices` array
/// are deliberately optional — backends differ in which of them a frame
/// carries, and a frame is useful without them — so an absent member defaults
/// (empty text, no choices) rather than rejecting the frame; a present member
/// of the wrong type still rejects it.
#[verifier::opaque]
pub open spec fn spec_parse_openai(s: Seq<char>) -> Option<StreamResponseView> {
    match spec_obj_fields(s, 0) {
        None => None,
        Some((fs, end)) => if spec_skip_ws(s, end) != s.len() {
            None
        } else {
            match spec_field_str_or_empty(s, fs, "id"@) {
                None => None,
                Some(id) => match spec_field_str_or_empty(s, fs, "model"@) {
                    None => None,
                    Some(model) => match spec_field_opt_str(s, fs, "provider"@) {
                        None => None,
                        Some(provider) => match spec_lookup(fs, "choices"@) {
                            None => {
                                let usage = match spec_lookup(fs, "usage"@) {
                                    None => Some(None),
                                    Some(uext) => if spec_is_null(s, uext) {
                                        Some(None)
                                    } else {
                                        match spec_parse_usage(s, uext) {
                                            None => None,
                                            Some(u) => Some(Some(u)),
                                        }
                                    },
                                };
                                match usage {
                                    None => None,
                                    Some(usage) => Some(
                                        StreamResponseView::OpenAIStyle {
                                            id,
                                            provider,
                                            model,
                                            choices: Seq::empty(),
                                            usage,
                                        },
                                    ),
                                }
                            },
                            Some(cext) => match spec_arr_elems(s, cext.0) {
                                None => None,
                                Some((elems, aend)) => if aend != cext.1 {
                                    None
                                } else {
                                    match spec_choices_from(s, elems) {
                                        None => None,
                                        Some(choices) => {
                                            let usage = match spec_lookup(fs, "usage"@) {
                                                None => Some(None),
                                                Some(uext) => if spec_is_null(s, uext) {
                                                    Some(None)
                                                } else {
                                                    match spec_parse_usage(s, uext) {
                                                        None => None,
                                                        Some(u) => Some(Some(u)),
                                                    }
                                                },
                                            };
                                            match usage {
                                                None => None,
                                                Some(usage) => Some(
                                                    StreamResponseView::OpenAIStyle {
                                                        id,
                                                        provider,
                                                        model,
                                                        choices,
                                                        usage,
                                                    },
                                                ),
                                            }
                                        },
                                    }
                                },
                            },
                        },
                    },
                },
            }
        },
    }
}

fn parse_openai(s: &Vec<char>) -> (r: Option<StreamResponse>)
    ensures
        match r {
            Some(v) => spec_parse_openai(s@) == Some(v@),
            None => spec_parse_openai(s@) is None,
        },
{
    proof {
        reveal(spec_parse_openai);
    }
    match obj_fields(s, 0) {
        None => None,
        Some((fields, end)) => {
            if skip_ws(s, end) != s.len() {
                return None;
            }
            let id = match field_str_or_empty(s, &fields, "id") {
                None => {
                    return None;
                },
                Some(x) => x,
            };
            let model = match field_str_or_empty(s, &fields, "model") {
                None => {
                    return None;
                },
                Some(x) => x,
            };
            let provider = match field_opt_str(s, &fields, "provider") {
                None => {
                    return None;
                },
                Some(x) => x,
            };
            let (celems, cend) = match find_field(&fields, "choices") {
                None => {
                    let usage = match find_field(&fields, "usage") {
                        None => None,
                        Some((a, b)) => {
                            if lit_at(s, a, "null") && b - a == 4 {
                                None
                            } else {
                                match parse_usage(s, a, b) {
                                    None => {
                                        return None;
                                    },
                                    Some(u) => Some(u),
                                }
                            }
                        },
                    };
                    let empty_choices: Vec<Choice> = Vec::new();
                    proof {
                        assert(empty_choices@.map_values(|c: Choice| c@) =~= Seq::<
                            ChoiceView,
                        >::empty());
                    }
                    return Some(
                        StreamResponse::OpenAIStyle {
                            id,
                            provider,
                            model,
                            choices: empty_choices,
                            usage,
                        },
                    );
                },
                Some((a, b)) => match arr_elements(s, a) {
                    None => {
                        return None;
                    },
                    Some((es, aend)) => {
                        if aend != b {
                            return None;
                        }
                        (es, aend)
                    },
                },
            };
            let choices = match parse_choices(s, &celems) {
                None => {
                    return None;
                },
                Some(cs) => cs,
            };
            let usage = match find_field(&fields, "usage") {
                None => None,
                Some((a, b)) => {
                    if lit_at(s, a, "null") && b - a == 4 {
                        None
                    } else {
                        match parse_usage(s, a, b) {
                            None => {
                                return None;
                            },
                            Some(u) => Some(u),
                        }
                    }
                },
            };
            Some(StreamResponse::OpenAIStyle { id, provider, model, choices, usage })
        },
    }
}

/// A complete whole-object frame: the single-object wire shape of the local
/// backend. The whole text must be one object followed by nothing but
/// whitespace. The identification members (`model`, `created_at`) are
/// deliberately optional, as in the line-delimited shape: the `message`
/// member is what the frame is for, and it alone is required.
#[verifier::opaque]
pub open spec fn spec_parse_ollama(s: Seq<char>) -> Option<StreamResponseView> {
    match spec_obj_fields(s, 0) {
        None => None,
        Some((fs, end)) => if spec_skip_ws(s, end) != s.len() {
            None
        } else {
            match spec_field_str_or_empty(s, fs, "model"@) {
                None => None,
                Some(model) => match spec_field_str_or_empty(s, fs, "created_at"@) {
                    None => None,
                    Some(created_at) => match spec_lookup(fs, "message"@) {
                        None => None,
                        Some(mext) => match spec_parse_message(s, mext) {
                            None => None,
                            Some(message) => match spec_field_bool_false(s, fs, "done"@) {
                                None => None,
                                Some(done) => match spec_field_opt_str(s, fs, "done_reason"@) {
                                    None => None,
                                    Some(done_reason) => match spec_field_opt_u64(
                                        s,
                                        fs,
                                        "total_duration"@,
                                    ) {
                                        None => None,
                                        Some(total_duration) => match spec_field_opt_u64(
                                            s,
                                            fs,
                                            "load_duration"@,
                                        ) {
                                            None => None,
                                            Some(load_duration) => match spec_field_opt_u64(
                                                s,
                                                fs,
                                                "prompt_eval_count"@,
                                            ) {
                                                None => None,
                                                Some(prompt_eval_count) => match spec_field_opt_u64(
                                                    s,
                                                    fs,
                                                    "prompt_eval_duration"@,
                                                ) {
                                                    None => None,
                                                    Some(prompt_eval_duration) => match spec_field_opt_u64(
                                                        s,
                                                        fs,
                                                        "eval_count"@,
                                                    ) {
                                                        None => None,
                                                        Some(eval_count) => match spec_field_opt_u64(
                                                            s,
                                                            fs,
                                                            "eval_duration"@,
                                                        ) {
                                                            None => None,
                                                            Some(eval_duration) => Some(
                                                                StreamResponseView::OllamaStyle {
                                                                    model,
                                                                    created_at,
                                                                    message,
                                                                    done,
                                                                    done_reason,
                                                                    total_duration,
                                                                    load_duration,
                                                                    prompt_eval_count,
                                                                    prompt_eval_duration,
                                                                    eval_count,
                                                                    eval_duration,
                                                                },
                                                            ),
                                                        },
                                                    },
                                                },
                                            },
                                        },
                                    },
                                },
                            },
                        },
                    },
                },
            }
        },
    }
}

fn parse_ollama(s: &Vec<char>) -> (r: Option<StreamResponse>)
    ensures
        match r {
            Some(v) => spec_parse_ollama(s@) == Some(v@),
            None => spec_parse_ollama(s@) is None,
        },
{
    proof {
        reveal(spec_parse_ollama);
    }
    match obj_fields(s, 0) {
        None => None,
        Some((fields, end)) => {
            if skip_ws(s, end) != s.len() {
                return None;
            }
            let model = match field_str_or_empty(s, &fields, "model") {
                None => {
                    return None;
                },
                Some(x) => x,
            };
            let created_at = match field_str_or_empty(s, &fields, "created_at") {
                None => {
                    return None;
                },
                Some(x) => x,
            };
            let message = match find_field(&fields, "message") {
                None => {
                    return None;
                },
                Some((a, b)) => match parse_message(s, a, b) {
                    None => {
                        return None;
                    },
                    Some(m) => m,
                },
            };
            let done = match field_bool_false(s, &fields, "done") {
                None => {
                    return None;
                },
                Some(x) => x,
            };
            let done_reason = match field_opt_str(s, &fields, "done_reason") {
                None => {
                    return None;
                },
                Some(x) => x,
            };
            let total_duration = match field_opt_u64(s, &fields, "total_duration") {
                None => {
                    return None;
                },
                Some(x) => x,
            };
            let load_duration = match field_opt_u64(s, &fields, "load_duration") {
                None => {
                    return None;
                },
                Some(x) => x,
            };
            let prompt_eval_count = match field_opt_u64(s, &fields, "prompt_eval_count") {
                None => {
                    return None;
                },
                Some(x) => x,
            };
            let prompt_eval_duration = match field_opt_u64(s, &fields, "prompt_eval_duration") {
                None => {
                    return None;
                },
                Some(x) => x,
            };
            let eval_count = match field_opt_u64(s, &fields, "eval_count") {
                None => {
                    return None;
                },
                Some(x) => x,
            };
            let eval_duration = match field_opt_u64(s, &fields, "eval_duration") {
                None => {
                    return None;
                },
                Some(x) => x,
            };
            Some(
                StreamResponse::OllamaStyle {
                    model,
                    created_at,
                    message,
                    done,
                    done_reason,
                    total_duration,
                    load_duration,
                    prompt_eval_count,
                    prompt_eval_duration,
                    eval_count,
                    eval_duration,
                },
            )
        },
    }
}

/// Decode one complete frame under the wire shape the provider kind selects.
#[verifier::opaque]
pub open spec fn spec_decode_frame(kind: Provider, s: Seq<char>) -> Result<
    StreamResponseView,
    DecodeError,
> {
    if kind is Ollama {
        match spec_parse_ollama(s) {
            Some(v) => Ok(v),
            None => Err(DecodeError::Malformed),
        }
    } else {
        match spec_parse_openai(s) {
            Some(v) => Ok(v),
            None => Err(DecodeError::Malformed),
        }
    }
}

/// Parse one complete frame's characters into a normalized event.
pub fn decode_frame(kind: &Provider, s: &Vec<char>) -> (r: Result<StreamResponse, DecodeError>)
    ensures
        spec_result_view(r) == spec_decode_frame(*kind, s@),
{
    proof {
        reveal(spec_decode_frame);
    }
    let is_ollama = match kind {
        Provider::Ollama => true,
        _ => false,
    };
    if is_ollama {
        match parse_ollama(s) {
            Some(v) => Ok(v),
            None => Err(DecodeError::Malformed),
        }
    } else {
        match parse_openai(s) {
            Some(v) => Ok(v),
            None => Err(DecodeError::Malformed),
        }
    }
}

/// What one complete line contributes: nothing for keep-alive lines and for
/// the terminal sentinel, one decode result for an event line.
pub open spec fn spec_line_event(kind: Provider, line: Seq<char>) -> Option<
    Result<StreamResponseView, DecodeError>,
> {
    let t = spec_trim(line);
    if has_prefix(t, "data: "@) && t != "data: [DONE]"@ {
        Some(spec_decode_frame(kind, t.skip("data: "@.len() as int)))
    } else {
        None
    }
}

/// Events of every complete (newline-terminated) line of the input, in order.
pub open spec fn spec_sse_events(kind: Provider, s: Seq<char>) -> Seq<
    Result<StreamResponseView, DecodeError>,
>
    decreases s.len(),
{
    match first_index_of(s, '\n') {
        None => Seq::empty(),
        Some(p) => if 0 <= p < s.len() {
            (match spec_line_event(kind, s.take(p)) {
                Some(e) => seq![e],
                None => Seq::empty(),
            }) + spec_sse_events(kind, s.skip(p + 1))
        } else {
            Seq::empty()
        },
    }
}

/// The unterminated text after the last newline: what stays buffered.
pub open spec fn spec_sse_tail(s: Seq<char>) -> Seq<char>
    decreases s.len(),
{
    match first_index_of(s, '\n') {
        None => s,
        Some(p) => if 0 <= p < s.len() {
            spec_sse_tail(s.skip(p + 1))
        } else {
            s
        },
    }
}

/// Events of every complete top-level object of the input, in order.
pub open spec fn spec_obj_events(kind: Provider, s: Seq<char>) -> Seq<
    Result<StreamResponseView, DecodeError>,
>
    decreases s.len(),
{
    match spec_object_extent(s) {
        None => Seq::empty(),
        Some(j) => if 0 < j <= s.len() {
            seq![spec_decode_frame(kind, s.take(j))] + spec_obj_events(kind, s.skip(j))
        } else {
            Seq::empty()
        },
    }
}

/// What stays buffered after every complete object has been consumed.
pub open spec fn spec_obj_tail(s: Seq<char>) -> Seq<char>
    decreases s.len(),
{
    match spec_object_extent(s) {
        None => s,
        Some(j) => if 0 < j <= s.len() {
            spec_obj_tail(s.skip(j))
        } else {
            s
        },
    }
}

/// Events the whole input has produced, under the provider's discipline.
pub open spec fn spec_events(kind: Provider, s: Seq<char>) -> Seq<
    Result<StreamResponseView, DecodeError>,
> {
    if kind is Ollama {
        spec_obj_events(kind, s)
    } else {
        spec_sse_events(kind, s)
    }
}

/// What the decoder's buffer holds after consuming the whole input.
pub open spec fn spec_stream_tail(kind: Provider, s: Seq<char>) -> Seq<char> {
    if kind is Ollama {
        spec_obj_tail(s)
    } else {
        spec_sse_tail(s)
    }
}

proof fn lemma_first_index_unique(s: Seq<char>, c: char, p: int)
    requires
        0 <= p < s.len(),
        s[p] == c,
        forall|j: int| 0 <= j < p ==> s[j] != c,
    ensures
        first_index_of(s, c) == Some(p),
{
    lemma_first_index_of(s, c);
    match first_index_of(s, c) {
        Some(q) => {
            if q < p {
                assert(s[q] != c);
            }
            if q > p {
                assert(s[p] != c);
            }
        },
        None => {
            assert(s[p] != c);
        },
    }
}

proof fn lemma_skip_ws_append(h: Seq<char>, c: Seq<char>, i: int)
    requires
        0 <= i <= h.len(),
    ensures
        spec_skip_ws(h, i) < h.len() ==> spec_skip_ws(h + c, i) == spec_skip_ws(h, i),
    decreases h.len() - i,
{
    if i < h.len() {
        assert((h + c)[i] == h[i]);
        if is_ws(h[i]) {
            lemma_skip_ws_append(h, c, i + 1);
        }
    }
}

proof fn lemma_hex4_append(h: Seq<char>, c: Seq<char>, i: int)
    requires
        0 <= i,
    ensures
        spec_hex4(h, i) matches Some(v) ==> spec_hex4(h + c, i) == Some(v),
{
    if spec_hex4(h, i) is Some {
        assert((h + c)[i] == h[i]);
        assert((h + c)[i + 1] == h[i + 1]);
        assert((h + c)[i + 2] == h[i + 2]);
        assert((h + c)[i + 3] == h[i + 3]);
    }
}

proof fn lemma_unicode_append(h: Seq<char>, c: Seq<char>, i: int)
    requires
        0 <= i,
    ensures
        spec_unicode_escape(h, i) matches Some(p) ==> spec_unicode_escape(h + c, i) == Some(p),
{
    lemma_hex4_append(h, c, i);
    match spec_hex4(h, i) {
        None => {},
        Some(hi) => {
            if 0xD800 <= hi < 0xDC00 {
                if i + 6 <= h.len() && h[i + 4] == '\\' && h[i + 5] == 'u' {
                    assert((h + c)[i + 4] == h[i + 4]);
                    assert((h + c)[i + 5] == h[i + 5]);
                    lemma_hex4_append(h, c, i + 6);
                }
            }
        },
    }
}

proof fn lemma_string_rest_append(h: Seq<char>, c: Seq<char>, i: int)
    requires
        0 <= i,
    ensures
        spec_string_rest(h, i) matches Some(p) ==> spec_string_rest(h + c, i) == Some(p),
    decreases h.len() - i,
{
    if 0 <= i < h.len() && spec_string_rest(h, i) is Some {
        assert((h + c)[i] == h[i]);
        if h[i] == '"' {
        } else if h[i] == '\\' {
            assert((h + c)[i + 1] == h[i + 1]);
            if h[i + 1] == 'u' {
                lemma_unicode_append(h, c, i + 2);
                match spec_unicode_escape(h, i + 2) {
                    None => {},
                    Some((d, j)) => {
                        if j > i {
                            lemma_string_rest_bounds(h, i);
                            lemma_string_rest_append(h, c, j);
                        }
                    },
                }
            } else {
                lemma_string_rest_append(h, c, i + 2);
            }
        } else {
            lemma_string_rest_append(h, c, i + 1);
        }
    }
}

proof fn lemma_skip_depth_append(h: Seq<char>, c: Seq<char>, i: int, depth: int)
    requires
        0 <= i,
    ensures
        spec_skip_depth(h, i, depth) matches Some(j) ==> spec_skip_depth(h + c, i, depth) == Some(
            j,
        ),
    decreases h.len() - i,
{
    if 0 <= i < h.len() && depth >= 1 && spec_skip_depth(h, i, depth) is Some {
        assert((h + c)[i] == h[i]);
        if h[i] == '"' {
            lemma_string_rest_append(h, c, i + 1);
            match spec_string_rest(h, i + 1) {
                None => {},
                Some((_t, j)) => {
                    lemma_string_rest_bounds(h, i + 1);
                    if i < j <= h.len() {
                        lemma_skip_depth_append(h, c, j, depth);
                        assert(j <= (h + c).len());
                    }
                },
            }
        } else if h[i] == '{' || h[i] == '[' {
            lemma_skip_depth_append(h, c, i + 1, depth + 1);
        } else if h[i] == '}' || h[i] == ']' {
            if depth != 1 {
                lemma_skip_depth_append(h, c, i + 1, depth - 1);
            }
        } else {
            lemma_skip_depth_append(h, c, i + 1, depth);
        }
    }
}

proof fn lemma_object_extent_append(h: Seq<char>, c: Seq<char>)
    ensures
        spec_object_extent(h) matches Some(j) ==> spec_object_extent(h + c) == Some(j),
{
    if spec_object_extent(h) is Some {
        lemma_skip_ws_bounds(h, 0);
        lemma_skip_ws_append(h, c, 0);
        let w = spec_skip_ws(h, 0);
        assert((h + c)[w] == h[w]);
        lemma_skip_depth_append(h, c, w + 1, 1);
    }
}

/// Growing the input only appends events: the events of `h + c` are the
/// events of `h` followed by the events that the still-buffered tail of `h`,
/// extended by `c`, yields; and the buffered tails agree. This is what makes
/// the decoder insensitive to where chunk boundaries fall.
#[verifier::spinoff_prover]
pub proof fn lemma_events_append(kind: Provider, h: Seq<char>, c: Seq<char>)
    ensures
        spec_events(kind, h + c) == spec_events(kind, h) + spec_events(
            kind,
            spec_stream_tail(kind, h) + c,
        ),
        spec_stream_tail(kind, h + c) == spec_stream_tail(kind, spec_stream_tail(kind, h) + c),
    decreases h.len(),
{
    if kind is Ollama {
        match spec_object_extent(h) {
            None => {
                assert(spec_obj_events(kind, h) == Seq::<
                    Result<StreamResponseView, DecodeError>,
                >::empty());
                assert(spec_obj_tail(h) == h);
                assert(spec_events(kind, h) + spec_events(kind, h + c) =~= spec_events(
                    kind,
                    h + c,
                ));
            },
            Some(j) => {
                lemma_object_extent_bounds(h);
                lemma_object_extent_append(h, c);
                assert((h + c).take(j) =~= h.take(j));
                assert((h + c).skip(j) =~= h.skip(j) + c);
                lemma_events_append(kind, h.skip(j), c);
                assert(spec_obj_tail(h) == spec_obj_tail(h.skip(j)));
                assert((seq![spec_decode_frame(kind, h.take(j))] + spec_obj_events(kind, h.skip(j)))
                    + spec_obj_events(kind, spec_obj_tail(h.skip(j)) + c) =~= seq![
                    spec_decode_frame(kind, h.take(j)),
                ] + (spec_obj_events(kind, h.skip(j)) + spec_obj_events(
                    kind,
                    spec_obj_tail(h.skip(j)) + c,
                )));
            },
        }
    } else {
        lemma_first_index_of(h, '\n');
        match first_index_of(h, '\n') {
            None => {
                assert(spec_sse_events(kind, h) == Seq::<
                    Result<StreamResponseView, DecodeError>,
                >::empty());
                assert(spec_sse_tail(h) == h);
                assert(spec_events(kind, h) + spec_events(kind, h + c) =~= spec_events(
                    kind,
                    h + c,
                ));
            },
            Some(p) => {
                assert forall|j: int| 0 <= j < p implies (h + c)[j] != '\n' by {
                    assert((h + c)[j] == h[j]);
                }
                assert((h + c)[p] == h[p]);
                lemma_first_index_unique(h + c, '\n', p);
                assert((h + c).take(p) =~= h.take(p));
                assert((h + c).skip(p + 1) =~= h.skip(p + 1) + c);
                lemma_events_append(kind, h.skip(p + 1), c);
                assert(spec_sse_tail(h) == spec_sse_tail(h.skip(p + 1)));
                let le = match spec_line_event(kind, h.take(p)) {
                    Some(e) => seq![e],
                    None => Seq::<Result<StreamResponseView, DecodeError>>::empty(),
                };
                assert((le + spec_sse_events(kind, h.skip(p + 1))) + spec_sse_events(
                    kind,
                    spec_sse_tail(h.skip(p + 1)) + c,
                ) =~= le + (spec_sse_events(kind, h.skip(p + 1)) + spec_sse_events(
                    kind,
                    spec_sse_tail(h.skip(p + 1)) + c,
                )));
            },
        }
    }
}

/// Events the line discipline emits for the buffered rest at end of input.
pub open spec fn spec_sse_finish(kind: Provider, b: Seq<char>) -> Seq<
    Result<StreamResponseView, DecodeError>,
> {
    if has_prefix(b, "data: "@) && b != "data: [DONE]"@ {
        seq![spec_decode_frame(kind, b.skip("data: "@.len() as int))]
    } else {
        Seq::empty()
    }
}

/// Events the whole-object discipline emits for the buffered rest at end of
/// input: one final parse unless only whitespace is left. A whitespace-only
/// residue is deliberately not flushed: the framing scan legitimately leaves
/// the newlines between complete frames buffered, so flushing them would end
/// every clean session in a spurious error — and whether such a residue
/// existed at all would then depend on where the chunk boundaries fell.
pub open spec fn spec_obj_finish(kind: Provider, b: Seq<char>) -> Seq<
    Result<StreamResponseView, DecodeError>,
> {
    if spec_skip_ws(b, 0) == b.len() {
        Seq::empty()
    } else {
        seq![spec_decode_frame(kind, b)]
    }
}

/// Events emitted for the buffered rest when the stream ends.
pub open spec fn spec_finish_events(kind: Provider, b: Seq<char>) -> Seq<
    Result<StreamResponseView, DecodeError>,
> {
    if kind is Ollama {
        spec_obj_finish(kind, b)
    } else {
        spec_sse_finish(kind, b)
    }
}

/// Everything a whole session emits for a complete input: the events of every
/// complete frame, then the events of the final flush.
pub open spec fn spec_session_events(kind: Provider, input: Seq<char>) -> Seq<
    Result<StreamResponseView, DecodeError>,
> {
    spec_events(kind, input) + spec_finish_events(kind, spec_stream_tail(kind, input))
}

/// The successfully decoded content fragments of an event sequence,
/// concatenated in order.
pub open spec fn spec_content_concat(
    events: Seq<Result<StreamResponseView, DecodeError>>,
) -> Seq<char>
    decreases events.len(),
{
    if events.len() == 0 {
        Seq::empty()
    } else {
        (match events[0] {
            Ok(v) => match v.spec_content() {
                Some(t) => t,
                None => Seq::empty(),
            },
            Err(_) => Seq::empty(),
        }) + spec_content_concat(events.drop_first())
    }
}

/// Lift a vector of decode results to their mathematical images.
pub open spec fn res_views(rs: Seq<Result<StreamResponse, DecodeError>>) -> Seq<
    Result<StreamResponseView, DecodeError>,
> {
    rs.map_values(|e: Result<StreamResponse, DecodeError>| spec_result_view(e))
}

proof fn lemma_res_views_push(rs: Seq<Result<StreamResponse, DecodeError>>, e: Result<
    StreamResponse,
    DecodeError,
>)
    ensures
        res_views(rs.push(e)) == res_views(rs).push(spec_result_view(e)),
{
    assert(res_views(rs.push(e)) =~= res_views(rs).push(spec_result_view(e)));
}

proof fn lemma_concat4<T>(a: Seq<T>, b: Seq<T>, d: T, c: Seq<T>)
    ensures
        a + b + (seq![d] + c) == a + b.push(d) + c,
{
    assert(a + b + (seq![d] + c) =~= a + b.push(d) + c);
}

proof fn lemma_concat_empty<T>(a: Seq<T>, b: Seq<T>, c: Seq<T>)
    requires
        b.len() == 0,
    ensures
        a + (b + c) == a + c,
        a + b == a,
{
    assert(a + (b + c) =~= a + c);
    assert(a + b =~= a);
}

/// Extract every complete object frame from the buffer, appending its decode
/// result, and leave only the incomplete rest buffered.
#[verifier::spinoff_prover]
fn drain_objects(
    provider: &Provider,
    buffer: &mut Vec<char>,
    out: &mut Vec<Result<StreamResponse, DecodeError>>,
)
    requires
        *provider is Ollama,
    ensures
        res_views(final(out)@) == res_views(old(out)@) + spec_obj_events(*provider, old(buffer)@),
        final(buffer)@ == spec_obj_tail(old(buffer)@),
{
    let ghost k = *provider;
    let ghost out0 = out@;
    let ghost buf0 = buffer@;
    proof {
        assert(res_views(out0) + spec_obj_events(k, buf0) =~= res_views(out0) + spec_obj_events(
            k,
            buf0,
        ));
    }
    loop
        invariant
            *provider == k,
            out0 == old(out)@,
            buf0 == old(buffer)@,
            res_views(out0) + spec_obj_events(k, buf0) == res_views(out@) + spec_obj_events(
                k,
                buffer@,
            ),
            spec_obj_tail(buf0) == spec_obj_tail(buffer@),
        decreases buffer@.len(),
    {
        match object_extent(buffer) {
            None => {
                proof {
                    assert(spec_obj_events(k, buffer@) =~= Seq::<
                        Result<StreamResponseView, DecodeError>,
                    >::empty());
                    assert(res_views(out@) + Seq::<
                        Result<StreamResponseView, DecodeError>,
                    >::empty() =~= res_views(out@));
                }
                return ;
            },
            Some(j) => {
                let seg = subvec(buffer, 0, j);
                let blen = buffer.len();
                let rest = subvec(buffer, j, blen);
                proof {
                    assert(seg@ =~= buffer@.take(j as int));
                    assert(rest@ =~= buffer@.skip(j as int));
                }
                let ev = decode_frame(provider, &seg);
                let ghost old_out = out@;
                let ghost old_buf = buffer@;
                out.push(ev);
                *buffer = rest;
                proof {
                    lemma_res_views_push(old_out, ev);
                    lemma_concat4(
                        res_views(out0),
                        Seq::<Result<StreamResponseView, DecodeError>>::empty(),
                        spec_result_view(ev),
                        spec_obj_events(k, buffer@),
                    );
                    assert(res_views(old_out) + (seq![spec_result_view(ev)] + spec_obj_events(
                        k,
                        buffer@,
                    )) =~= res_views(out@) + spec_obj_events(k, buffer@));
                }
            },
        }
    }
}

/// Extract every complete line from the buffer, appending the decode result
/// of each event line, and leave the unterminated rest buffered.
#[verifier::spinoff_prover]
fn drain_lines(
    provider: &Provider,
    buffer: &mut Vec<char>,
    out: &mut Vec<Result<StreamResponse, DecodeError>>,
)
    requires
        !(*provider is Ollama),
    ensures
        res_views(final(out)@) == res_views(old(out)@) + spec_sse_events(*provider, old(buffer)@),
        final(buffer)@ == spec_sse_tail(old(buffer)@),
{
    let ghost k = *provider;
    let ghost out0 = out@;
    let ghost buf0 = buffer@;
    loop
        invariant
            *provider == k,
            out0 == old(out)@,
            buf0 == old(buffer)@,
            res_views(out0) + spec_sse_events(k, buf0) == res_views(out@) + spec_sse_events(
                k,
                buffer@,
            ),
            spec_sse_tail(buf0) == spec_sse_tail(buffer@),
        decreases buffer@.len(),
    {
        match find_char(buffer, '\n') {
            None => {
                proof {
                    assert(spec_sse_events(k, buffer@) =~= Seq::<
                        Result<StreamResponseView, DecodeError>,
                    >::empty());
                    assert(res_views(out@) + Seq::<
                        Result<StreamResponseView, DecodeError>,
                    >::empty() =~= res_views(out@));
                }
                return ;
            },
            Some(p) => {
                let line = subvec(buffer, 0, p);
                let blen = buffer.len();
                let rest = subvec(buffer, p + 1, blen);
                proof {
                    assert(line@ =~= buffer@.take(p as int));
                    assert(rest@ =~= buffer@.skip(p + 1));
                }
                let t = trim_chars(&line);
                let ghost old_out = out@;
                let ghost old_buf = buffer@;
                if starts_with_chars(&t, "data: ") && !chars_eq_str(&t, "data: [DONE]") {
                    proof {
                        reveal_strlit("data: ");
                    }
                    let tlen = t.len();
                    let payload = subvec(&t, 6, tlen);
                    proof {
                        assert(payload@ =~= t@.skip("data: "@.len() as int));
                    }
                    let ev = decode_frame(provider, &payload);
                    out.push(ev);
                    proof {
                        assert(spec_line_event(k, old_buf.take(p as int)) == Some(
                            spec_result_view(ev),
                        ));
                        lemma_res_views_push(old_out, ev);
                        assert(res_views(old_out) + (seq![spec_result_view(ev)]
                            + spec_sse_events(k, old_buf.skip(p + 1))) =~= res_views(out@)
                            + spec_sse_events(k, old_buf.skip(p + 1)));
                    }
                } else {
                    proof {
                        assert(spec_line_event(k, old_buf.take(p as int)) is None);
                        lemma_concat_empty(
                            res_views(old_out),
                            Seq::<Result<StreamResponseView, DecodeError>>::empty(),
                            spec_sse_events(k, old_buf.skip(p + 1)),
                        );
                    }
                }
                *buffer = rest;
            },
        }
    }
}

/// Incremental frame decoder for one streaming session.
///
/// Chunks are handed to [`feed`](Self::feed) in delivery order; each call
/// returns the events completed by that chunk. The buffer holds input not yet
/// resolved into a complete frame and is never discarded mid-session. The
/// ghost history records every character fed, and the decoder's whole output
/// is a function of that history alone — not of how it was cut into chunks.
pub struct StreamDecoder {
    provider: Provider,
    buffer: Vec<char>,
    hist: Ghost<Seq<char>>,
}

impl StreamDecoder {
    /// Every character fed to this session so far.
    pub closed spec fn history(&self) -> Seq<char> {
        self.hist@
    }

    /// The provider kind this session decodes for.
    pub closed spec fn kind(&self) -> Provider {
        self.provider
    }

    /// All events this session has emitted through `feed`.
    pub open spec fn emitted(&self) -> Seq<Result<StreamResponseView, DecodeError>> {
        spec_events(self.kind(), self.history())
    }

    /// The buffer holds exactly the input not yet resolved into a frame.
    pub closed spec fn wf(&self) -> bool {
        self.buffer@ == spec_stream_tail(self.provider, self.hist@)
    }

    /// A fresh session for one stream of the given provider.
    pub fn new(provider: Provider) -> (r: Self)
        ensures
            r.wf(),
            r.kind() == provider,
            r.history() == Seq::<char>::empty(),
    {
        let d = StreamDecoder { provider, buffer: Vec::new(), hist: Ghost(Seq::empty()) };
        proof {
            assert(spec_stream_tail(provider, Seq::<char>::empty()) =~= Seq::<char>::empty());
        }
        d
    }

    /// Consume one delivered chunk and return the events of every frame it
    /// completed, in order; zero events if no frame became complete. The new
    /// history is the old history extended by the chunk, and the session's
    /// cumulative output is exactly the events of the new history.
    #[verifier::spinoff_prover]
    pub fn feed(&mut self, chunk: &str) -> (r: Vec<Result<StreamResponse, DecodeError>>)
        requires
            old(self).wf(),
        ensures
            final(self).wf(),
            final(self).kind() == old(self).kind(),
            final(self).history() == old(self).history() + chunk@,
            final(self).emitted() == old(self).emitted() + res_views(r@),
    {
        let ghost k = self.provider;
        let ghost h0 = self.hist@;
        let ghost h1 = h0 + chunk@;
        let mut add = str_to_chars(chunk);
        self.buffer.append(&mut add);
        proof {
            lemma_events_append(k, h0, chunk@);
        }
        self.hist = Ghost(h1);
        let mut out: Vec<Result<StreamResponse, DecodeError>> = Vec::new();
        let is_ollama = match &self.provider {
            Provider::Ollama => true,
            _ => false,
        };
        if is_ollama {
            drain_objects(&self.provider, &mut self.buffer, &mut out);
        } else {
            drain_lines(&self.provider, &mut self.buffer, &mut out);
        }
        proof {
            assert(res_views(Seq::<Result<StreamResponse, DecodeError>>::empty()) =~= Seq::<
                Result<StreamResponseView, DecodeError>,
            >::empty());
            lemma_concat_empty(
                Seq::<Result<StreamResponseView, DecodeError>>::empty(),
                res_views(Seq::<Result<StreamResponse, DecodeError>>::empty()),
                res_views(out@),
            );
        }
        out
    }

    /// End the stream: flush the buffered rest as the disciplines prescribe,
    /// and leave the decoder fresh for a new session. Together with what
    /// `feed` emitted, the returned events complete the session's output.
    #[verifier::spinoff_prover]
    pub fn finish(&mut self) -> (r: Vec<Result<StreamResponse, DecodeError>>)
        requires
            old(self).wf(),
        ensures
            final(self).wf(),
            final(self).kind() == old(self).kind(),
            final(self).history() == Seq::<char>::empty(),
            res_views(r@) == spec_finish_events(
                old(self).kind(),
                spec_stream_tail(old(self).kind(), old(self).history()),
            ),
            old(self).emitted() + res_views(r@) == spec_session_events(
                old(self).kind(),
                old(self).history(),
            ),
    {
        let ghost k = self.provider;
        let mut out: Vec<Result<StreamResponse, DecodeError>> = Vec::new();
        let is_ollama = match &self.provider {
            Provider::Ollama => true,
            _ => false,
        };
        if is_ollama {
            let w = skip_ws(&self.buffer, 0);
            if w != self.buffer.len() {
                let ev = decode_frame(&self.provider, &self.buffer);
                out.push(ev);
            }
        } else {
            if starts_with_chars(&self.buffer, "data: ") && !chars_eq_str(
                &self.buffer,
                "data: [DONE]",
            ) {
                proof {
                    reveal_strlit("data: ");
                }
                let blen = self.buffer.len();
                let payload = subvec(&self.buffer, 6, blen);
                proof {
                    assert(payload@ =~= self.buffer@.skip("data: "@.len() as int));
                }
                let ev = decode_frame(&self.provider, &payload);
                out.push(ev);
            }
        }
        proof {
            assert(res_views(out@) =~= spec_finish_events(k, spec_stream_tail(k, self.hist@)));
        }
        self.buffer = Vec::new();
        self.hist = Ghost(Seq::empty());
        proof {
            assert(spec_stream_tail(k, Seq::<char>::empty()) =~= Seq::<char>::empty());
        }
        out
    }
}

/// Chunk boundaries cannot change decoded output: two sessions of the same
/// provider kind that have consumed the same total input — however differently
/// it was cut into chunks — have emitted the same events, hold the same
/// buffered rest, and their successfully decoded content fragments,
/// concatenated in arrival order, are identical.
pub proof fn lemma_chunking_does_not_change_output(d1: StreamDecoder, d2: StreamDecoder)
    requires
        d1.wf(),
        d2.wf(),
        d1.kind() == d2.kind(),
        d1.history() == d2.history(),
    ensures
        d1.emitted() == d2.emitted(),
        spec_content_concat(d1.emitted()) == spec_content_concat(d2.emitted()),
        spec_session_events(d1.kind(), d1.history()) == spec_session_events(
            d2.kind(),
            d2.history(),
        ),
{
}

/// A session whose whole input is exactly one complete object frame emits
/// exactly one event — the decode of that frame — and nothing at the final
/// flush; with the chunking law above, this holds however the frame's bytes
/// were split across deliveries.
pub proof fn lemma_single_object_session(kind: Provider, payload: Seq<char>)
    requires
        kind is Ollama,
        spec_object_extent(payload) == Some(payload.len() as int),
        payload.len() > 0,
    ensures
        spec_session_events(kind, payload) == seq![spec_decode_frame(kind, payload)],
{
    assert(payload.take(payload.len() as int) =~= payload);
    let rest = payload.skip(payload.len() as int);
    assert(rest =~= Seq::<char>::empty());
    assert(spec_obj_events(kind, rest) =~= Seq::<Result<StreamResponseView, DecodeError>>::empty());
    assert(spec_obj_tail(rest) =~= Seq::<char>::empty());
    assert(spec_obj_finish(kind, Seq::<char>::empty()) =~= Seq::<
        Result<StreamResponseView, DecodeError>,
    >::empty());
    assert(spec_session_events(kind, payload) =~= seq![spec_decode_frame(kind, payload)]);
}

/// A line whose trimmed content is exactly the terminal sentinel produces no
/// event and no error: it only ends the session early.
pub proof fn lemma_sentinel_line_yields_nothing(kind: Provider, line: Seq<char>)
    requires
        spec_trim(line) == "data: [DONE]"@,
    ensures
        spec_line_event(kind, line) is None,
{
}

/// A line that does not begin with the event prefix — a keep-alive line, a
/// comment — is silently discarded: no event, no error.
pub proof fn lemma_non_event_line_yields_nothing(kind: Provider, line: Seq<char>)
    requires
        !has_prefix(spec_trim(line), "data: "@),
    ensures
        spec_line_event(kind, line) is None,
{
}

#[verifier::rlimit(60)]
#[verifier::spinoff_prover]
proof fn lemma_whole_object_frame_extent()
    ensures
        spec_object_extent(
            "{\"message\":{\"role\":\"assistant\",\"content\":\"Hi\"},\"done\":true}"@,
        ) == Some(59int),
{
    let p = "{\"message\":{\"role\":\"assistant\",\"content\":\"Hi\"},\"done\":true}";
    reveal_strlit("{\"message\":{\"role\":\"assistant\",\"content\":\"Hi\"},\"done\":true}");
    reveal_with_fuel(crate::json::spec_skip_ws, 2);
    reveal_with_fuel(crate::json::spec_string_rest, 12);
    reveal_with_fuel(crate::json::spec_skip_depth, 40);
    assert(p@.len() == 59);
    assert(spec_object_extent(p@) == Some(59int));
}

#[verifier::rlimit(100)]
#[verifier::spinoff_prover]
proof fn lemma_whole_object_frame_parse()
    ensures
        ({
            let v = spec_parse_ollama(
                "{\"message\":{\"role\":\"assistant\",\"content\":\"Hi\"},\"done\":true}"@,
            );
            &&& v is Some
            &&& v->Some_0.spec_content() == Some("Hi"@)
            &&& v->Some_0.spec_finished()
        }),
{
    let p = "{\"message\":{\"role\":\"assistant\",\"content\":\"Hi\"},\"done\":true}";
    reveal_strlit("{\"message\":{\"role\":\"assistant\",\"content\":\"Hi\"},\"done\":true}");
    reveal_strlit("message");
    reveal_strlit("done");
    reveal_strlit("role");
    reveal_strlit("content");
    reveal_strlit("assistant");
    reveal_strlit("Hi");
    reveal_strlit("true");
    reveal_strlit("model");
    reveal_strlit("created_at");
    reveal_strlit("done_reason");
    reveal_strlit("total_duration");
    reveal_strlit("load_duration");
    reveal_strlit("prompt_eval_count");
    reveal_strlit("prompt_eval_duration");
    reveal_strlit("eval_count");
    reveal_strlit("eval_duration");
    reveal(spec_parse_ollama);
    reveal(spec_parse_message);
    reveal_with_fuel(crate::json::spec_skip_ws, 3);
    reveal_with_fuel(crate::json::spec_string_rest, 12);
    reveal_with_fuel(crate::json::spec_skip_depth, 40);
    reveal_with_fuel(crate::json::spec_scalar_end, 6);
    reveal_with_fuel(crate::json::spec_members, 4);
    reveal_with_fuel(crate::json::spec_lookup, 4);
    assert(p@.len() == 59);
    let ofs = spec_obj_fields(p@, 0);
    assert(ofs is Some);
    let fs = ofs->Some_0.0;
    let end = ofs->Some_0.1;
    assert(fs.len() == 2);
    assert(fs[0].0 =~= "message"@);
    assert(fs[1].0 =~= "done"@);
    assert(end == 59);
    assert(spec_skip_ws(p@, 59) == 59);
    // the message member
    assert(spec_lookup(fs, "message"@) == Some(fs[0].1));
    let mext = fs[0].1;
    assert(mext == (11int, 46int));
    let mfs = spec_obj_fields(p@, 11)->Some_0.0;
    assert(spec_obj_fields(p@, 11) is Some);
    assert(mfs.len() == 2);
    assert(mfs[0].0 =~= "role"@);
    assert(mfs[1].0 =~= "content"@);
    assert(spec_obj_fields(p@, 11)->Some_0.1 == 46);
    assert(spec_lookup(mfs, "role"@) == Some(mfs[0].1));
    assert(spec_val_str(p@, mfs[0].1) matches Some(t) && t =~= "assistant"@);
    assert(spec_lookup(mfs, "content"@) == Some(mfs[1].1));
    assert(spec_val_str(p@, mfs[1].1) matches Some(t) && t =~= "Hi"@);
    assert(spec_parse_message(p@, mext) matches Some(m) && m.role == "assistant"@ && m.content
        == "Hi"@);
    // the done member
    assert(spec_lookup(fs, "done"@) == Some(fs[1].1));
    assert(fs[1].1 == (54int, 58int));
    assert(p@.subrange(54, 58) =~= "true"@);
    assert(spec_val_bool(p@, fs[1].1) == Some(true));
    // every other member is absent
    assert(spec_lookup(fs, "model"@) is None);
    assert(spec_lookup(fs, "created_at"@) is None);
    assert(spec_lookup(fs, "done_reason"@) is None);
    assert(spec_lookup(fs, "total_duration"@) is None);
    assert(spec_lookup(fs, "load_duration"@) is None);
    assert(spec_lookup(fs, "prompt_eval_count"@) is None);
    assert(spec_lookup(fs, "eval_count"@) is None);
    assert(spec_lookup(fs, "eval_duration"@) is None);
    assert(spec_lookup(fs, "prompt_eval_duration"@) is None);
    let v = spec_parse_ollama(p@);
    assert(v is Some);
    assert(v->Some_0.spec_content() == Some("Hi"@));
    assert(v->Some_0.spec_finished());
}

/// The whole-object payload that carries the message text `Hi` and the done
/// flag decodes, as a complete session, to exactly one successful event whose
/// content is `Hi` and whose completion flag is set. Together with
/// [`lemma_chunking_does_not_change_output`] this holds for every way of
/// splitting the payload's bytes across deliveries: the session's output is a
/// function of the total input alone.
#[verifier::spinoff_prover]
pub proof fn lemma_whole_object_frame_example()
    ensures
        ({
            let evs = spec_session_events(
                Provider::Ollama,
                "{\"message\":{\"role\":\"assistant\",\"content\":\"Hi\"},\"done\":true}"@,
            );
            &&& evs.len() == 1
            &&& evs[0] is Ok
            &&& evs[0]->Ok_0.spec_content() == Some("Hi"@)
            &&& evs[0]->Ok_0.spec_finished()
        }),
{
    let p = "{\"message\":{\"role\":\"assistant\",\"content\":\"Hi\"},\"done\":true}";
    lemma_whole_object_frame_parse();
    lemma_whole_object_frame_extent();
    assert(p@.len() == 59) by {
        reveal_strlit(
            "{\"message\":{\"role\":\"assistant\",\"content\":\"Hi\"},\"done\":true}",
        );
    }
    lemma_single_object_session(Provider::Ollama, p@);
    reveal(spec_decode_frame);
    let v = spec_parse_ollama(p@);
    assert(spec_decode_frame(Provider::Ollama, p@) == Ok::<StreamResponseView, DecodeError>(
        v->Some_0,
    ));
    assert(spec_session_events(Provider::Ollama, p@)[0] == spec_decode_frame(Provider::Ollama, p@));
}

} // verus!
