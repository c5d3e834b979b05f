use llmstream::extract::extract_field;
use llmstream::extract::extract_response;
use llmstream::groq::Groq;
use llmstream::model::base::Model;
use llmstream::model::base::Provider;
use llmstream::model::groq::GroqModel;
use llmstream::model::openrouter::OpenRouterModel;
use llmstream::model::sambanova::SambaNovaModel;
use llmstream::openrouter::OpenRouter;
use llmstream::tool::contains_end_tag;
use llmstream::tool::contains_tool_call;
use llmstream::tool::extract_tool_content;
use llmstream::tool::strip_markdown_code_blocks;

#[test]
fn extract_field_resolves_escapes() {
    let text = "{\"status\": \"ok\", \"response\": \"He said \\\"hi\\\"\", \"x\": 1}";
    assert_eq!(extract_field(text, "response"), Some("He said \"hi\"".to_string()));
}

#[test]
fn extract_field_returns_partial_prefix_when_truncated() {
    let text = "{\"status\": \"ok\", \"response\": \"He said \\\"hi";
    assert_eq!(extract_field(text, "response"), Some("He said \"hi".to_string()));
}

#[test]
fn extract_field_tracks_nesting_depth() {
    // an unescaped quote inside brackets does not end the value
    let text = "{\"response\": \"a[\"b\"]c\"}";
    assert_eq!(extract_field(text, "response"), Some("a[\"b\"]c".to_string()));
}

#[test]
fn extract_field_misses_are_no_value() {
    assert_eq!(extract_field("{\"other\": 1}", "response"), None);
    assert_eq!(extract_field("{\"response\":", "response"), None);
}

#[test]
fn extract_response_reads_the_response_field() {
    assert_eq!(
        extract_response("{\"response\": \"plain\"}"),
        Some("plain".to_string())
    );
}

#[test]
fn strip_code_blocks_unwraps_fenced_document() {
    assert_eq!(
        strip_markdown_code_blocks("```json\n{\"a\": 1}\n```"),
        "{\"a\": 1}"
    );
    assert_eq!(strip_markdown_code_blocks("  {\"a\": 1} \n"), "{\"a\": 1}");
    assert_eq!(strip_markdown_code_blocks("```json{}```"), "{}");
}

#[test]
fn end_tag_needs_explicit_true() {
    assert!(contains_end_tag("{\"finished\": true}"));
    assert!(contains_end_tag("```json\n{\"finished\": true}\n```"));
    assert!(!contains_end_tag("{\"finished\": false}"));
    assert!(!contains_end_tag("{\"finished\": \"true\"}"));
    assert!(!contains_end_tag("{\"done\": true}"));
    assert!(!contains_end_tag("not a document"));
}

#[test]
fn tool_calls_are_detected() {
    assert_eq!(
        contains_tool_call("{\"tool\": {\"name\": \"cli\", \"content\": \"ls\"}}"),
        Some(("cli".to_string(), "ls".to_string()))
    );
    assert_eq!(contains_tool_call("{\"tool\": null}"), None);
    assert_eq!(contains_tool_call("{\"tool\": {\"name\": \"cli\"}}"), None);
    assert_eq!(contains_tool_call("{}"), None);
    assert_eq!(contains_tool_call("garbage"), None);
}

#[test]
fn tool_content_requires_the_cli_tool() {
    assert_eq!(
        extract_tool_content("{\"tool\": {\"name\": \"cli\", \"content\": \"ls -l\"}}"),
        Some("ls -l".to_string())
    );
    assert_eq!(
        extract_tool_content("```json\n{\"tool\": {\"name\": \"cli\", \"content\": \"pwd\"}}\n```"),
        Some("pwd".to_string())
    );
    assert_eq!(
        extract_tool_content("{\"tool\": {\"name\": \"web\", \"content\": \"x\"}}"),
        None
    );
}

#[test]
fn catalog_model_identifiers() {
    assert_eq!(Groq::Llama3_70b8192.model_id(), "llama3-70b-8192");
    assert_eq!(Groq::QwenQwq32bPreview.model_id(), "qwen-qwq-32b");
    assert_eq!(OpenRouter::DeepSeekChatFree.model_id(), "deepseek/deepseek-chat:free");
    assert_eq!(
        OpenRouter::GoogleGemini20FlashLite.model_id(),
        "google/gemini-2.0-flash-lite-001"
    );
}

#[test]
fn provider_traits_name_models_and_providers() {
    assert_eq!(GroqModel::Gemma2_9bIt.model_id(), "gemma2-9b-it");
    assert_eq!(OpenRouterModel::GPT4Turbo.model_id(), "openai/gpt-4-turbo");
    assert_eq!(SambaNovaModel::DeepSeekR1.model_id(), "DeepSeek-R1");
    assert_eq!(llmstream::model::groq::Groq::provider_name(), "groq");
    assert_eq!(llmstream::model::openrouter::OpenRouter::provider_name(), "openrouter");
    assert_eq!(llmstream::model::sambanova::SambaNova::provider_name(), "sambanova");
}
