//! The Groq provider and its models.
use vstd::prelude::*;

use crate::model::base::Model;
use crate::model::base::Provider;

verus! {

/// The Groq provider and its models.
#[derive(Debug)]
pub struct Groq;

impl Provider for Groq {
    type ModelType = GroqModel;

    fn provider_name() -> &'static str {
        "groq"
    }
}

/// The models the provider offers.
#[derive(Debug, Clone, Copy, PartialEq, Eq, Structural)]
pub enum GroqModel {
    DistilWhisperLargeV3En,
    Gemma2_9bIt,
    Llama33_70bVersatile,
    Llama31_8bInstant,
    LlamaGuard3_8b,
    Llama3_70b8192,
    Llama3_8b8192,
    Mixtral8x7b32768,
    WhisperLargeV3,
    WhisperLargeV3Turbo,
    QwenQwq32bPreview,
    MistralSaba24bPreview,
    Qwen25Coder32bPreview,
    Qwen2532bPreview,
    DeepseekR1DistillQwen32bPreview,
    DeepseekR1DistillLlama70bSpecdecPreview,
    DeepseekR1DistillLlama70bPreview,
    Llama3370bSpecdecPreview,
    Llama321bPreview,
    Llama323bPreview,
    Llama3211bVisionPreview,
    Llama3290bVisionPreview,
}

impl Model for GroqModel {
    fn model_id(&self) -> &'static str {
        match self {
            GroqModel::DistilWhisperLargeV3En => "distil-whisper-large-v3-en",
            GroqModel::Gemma2_9bIt => "gemma2-9b-it",
            GroqModel::Llama33_70bVersatile => "llama-3.3-70b-versatile",
            GroqModel::Llama31_8bInstant => "llama-3.1-8b-instant",
            GroqModel::LlamaGuard3_8b => "llama-guard-3-8b",
            GroqModel::Llama3_70b8192 => "llama3-70b-8192",
            GroqModel::Llama3_8b8192 => "llama3-8b-8192",
            GroqModel::Mixtral8x7b32768 => "mixtral-8x7b-32768",
            GroqModel::WhisperLargeV3 => "whisper-large-v3",
            GroqModel::WhisperLargeV3Turbo => "whisper-large-v3-turbo",
            GroqModel::QwenQwq32bPreview => "qwen-qwq-32b",
            GroqModel::MistralSaba24bPreview => "mistral-saba-24b",
            GroqModel::Qwen25Coder32bPreview => "qwen-2.5-coder-32b",
            GroqModel::Qwen2532bPreview => "qwen-2.5-32b",
            GroqModel::DeepseekR1DistillQwen32bPreview => "deepseek-r1-distill-qwen-32b",
            GroqModel::DeepseekR1DistillLlama70bSpecdecPreview => "deepseek-r1-distill-llama-70b-specdec",
            GroqModel::DeepseekR1DistillLlama70bPreview => "deepseek-r1-distill-llama-70b",
            GroqModel::Llama3370bSpecdecPreview => "llama-3.3-70b-specdec",
            GroqModel::Llama321bPreview => "llama-3.2-1b-preview",
            GroqModel::Llama323bPreview => "llama-3.2-3b-preview",
            GroqModel::Llama3211bVisionPreview => "llama-3.2-11b-vision-preview",
            GroqModel::Llama3290bVisionPreview => "llama-3.2-90b-vision-preview",
        }
    }
}

} // verus!
