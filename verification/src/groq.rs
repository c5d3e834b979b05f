//! Model catalog of the Groq service.
use vstd::prelude::*;

verus! {

/// Model catalog of the Groq service.
#[derive(Debug, Clone, Copy, PartialEq, Eq, Structural)]
pub enum Groq {
    DistilWhisperLargeV3En,
    Gemma2_9bIt,
    Llama33_70bVersatile,
    Llama31_8bInstant,
    LlamaGuard3_8b,
    Llama3_70b8192,
    Llama3_8b8192,
    Mixtral8x7b32768,
    WhisperLargeV3,
    WhisperLargeV3Turbo,
    QwenQwq32bPreview,
    MistralSaba24bPreview,
    Qwen25Coder32bPreview,
    Qwen2532bPreview,
    DeepseekR1DistillQwen32bPreview,
    DeepseekR1DistillLlama70bSpecdecPreview,
    DeepseekR1DistillLlama70bPreview,
    Llama3370bSpecdecPreview,
    Llama321bPreview,
    Llama323bPreview,
    Llama3211bVisionPreview,
    Llama3290bVisionPreview,
}

impl Groq {
    /// The identifier the service knows this model by.
    pub open spec fn spec_model_id(&self) -> Seq<char> {
        match self {
            Groq::DistilWhisperLargeV3En => "distil-whisper-large-v3-en"@,
            Groq::Gemma2_9bIt => "gemma2-9b-it"@,
            Groq::Llama33_70bVersatile => "llama-3.3-70b-versatile"@,
            Groq::Llama31_8bInstant => "llama-3.1-8b-instant"@,
            Groq::LlamaGuard3_8b => "llama-guard-3-8b"@,
            Groq::Llama3_70b8192 => "llama3-70b-8192"@,
            Groq::Llama3_8b8192 => "llama3-8b-8192"@,
            Groq::Mixtral8x7b32768 => "mixtral-8x7b-32768"@,
            Groq::WhisperLargeV3 => "whisper-large-v3"@,
            Groq::WhisperLargeV3Turbo => "whisper-large-v3-turbo"@,
            Groq::QwenQwq32bPreview => "qwen-qwq-32b"@,
            Groq::MistralSaba24bPreview => "mistral-saba-24b"@,
            Groq::Qwen25Coder32bPreview => "qwen-2.5-coder-32b"@,
            Groq::Qwen2532bPreview => "qwen-2.5-32b"@,
            Groq::DeepseekR1DistillQwen32bPreview => "deepseek-r1-distill-qwen-32b"@,
            Groq::DeepseekR1DistillLlama70bSpecdecPreview => "deepseek-r1-distill-llama-70b-specdec"@,
            Groq::DeepseekR1DistillLlama70bPreview => "deepseek-r1-distill-llama-70b"@,
            Groq::Llama3370bSpecdecPreview => "llama-3.3-70b-specdec"@,
            Groq::Llama321bPreview => "llama-3.2-1b-preview"@,
            Groq::Llama323bPreview => "llama-3.2-3b-preview"@,
            Groq::Llama3211bVisionPreview => "llama-3.2-11b-vision-preview"@,
            Groq::Llama3290bVisionPreview => "llama-3.2-90b-vision-preview"@,
        }
    }

    /// The identifier the service knows this model by.
    pub fn model_id(&self) -> (r: &'static str)
        ensures
            r@ == self.spec_model_id(),
    {
        match self {
            Groq::DistilWhisperLargeV3En => "distil-whisper-large-v3-en",
            Groq::Gemma2_9bIt => "gemma2-9b-it",
            Groq::Llama33_70bVersatile => "llama-3.3-70b-versatile",
            Groq::Llama31_8bInstant => "llama-3.1-8b-instant",
            Groq::LlamaGuard3_8b => "llama-guard-3-8b",
            Groq::Llama3_70b8192 => "llama3-70b-8192",
            Groq::Llama3_8b8192 => "llama3-8b-8192",
            Groq::Mixtral8x7b32768 => "mixtral-8x7b-32768",
            Groq::WhisperLargeV3 => "whisper-large-v3",
            Groq::WhisperLargeV3Turbo => "whisper-large-v3-turbo",
            Groq::QwenQwq32bPreview => "qwen-qwq-32b",
            Groq::MistralSaba24bPreview => "mistral-saba-24b",
            Groq::Qwen25Coder32bPreview => "qwen-2.5-coder-32b",
            Groq::Qwen2532bPreview => "qwen-2.5-32b",
            Groq::DeepseekR1DistillQwen32bPreview => "deepseek-r1-distill-qwen-32b",
            Groq::DeepseekR1DistillLlama70bSpecdecPreview => "deepseek-r1-distill-llama-70b-specdec",
            Groq::DeepseekR1DistillLlama70bPreview => "deepseek-r1-distill-llama-70b",
            Groq::Llama3370bSpecdecPreview => "llama-3.3-70b-specdec",
            Groq::Llama321bPreview => "llama-3.2-1b-preview",
            Groq::Llama323bPreview => "llama-3.2-3b-preview",
            Groq::Llama3211bVisionPreview => "llama-3.2-11b-vision-preview",
            Groq::Llama3290bVisionPreview => "llama-3.2-90b-vision-preview",
        }
    }
}

} // verus!
