//! The OpenRouter provider and its models.
use vstd::prelude::*;

use crate::model::base::Model;
use crate::model::base::Provider;

verus! {

/// The OpenRouter provider and its models.
#[derive(Debug)]
pub struct OpenRouter;

impl Provider for OpenRouter {
    type ModelType = OpenRouterModel;

    fn provider_name() -> &'static str {
        "openrouter"
    }
}

/// The models the provider offers.
#[derive(Debug, Clone, Copy, PartialEq, Eq, Structural)]
pub enum OpenRouterModel {
    GPT4Turbo,
    GoogleGemini20Flash,
    DeepSeekR1Free,
    MetaLlama3370BInstruct,
    OpenAIGPT4oMini,
    GoogleGeminiFlash158B,
    GoogleGeminiFlash15,
    GoogleGeminiPro20ExpFree,
    GoogleGemini20FlashLite,
    DeepSeekR1,
    MistralNemo,
    GoogleGemini20FlashExpFree,
    DeepSeekR1DistillLlama70B,
    MetaLlama3170BInstruct,
    Qwen25Coder32BInstruct,
    MetaLlama31405BInstruct,
    MistralMistral7BInstruct,
    WizardLM28x22B,
    MistralSmall3,
    MetaLlama318BInstruct,
    MythoMax13B,
    Qwen257BInstruct,
    NousHermes3405BInstruct,
    OpenAIGPT4oMini20240718,
    OpenAIGPT4o,
    GoogleGeminiFlashLite20PreviewFree,
    GoogleGemma327B,
    CohereCommandR082024,
    MetaLlama321BInstruct,
    QwenQwen25VL72BInstruct,
    QwenQwQ32BFree,
    MiniMaxMiniMax01,
    Qwen2572BInstruct,
    GoogleGeminiPro15,
    MistralTiny,
    GoogleGemma327BFree,
    QwenQwQ32B,
    OpenAIGPT4o20241120,
    MetaLlama323BInstruct,
    NeverSleepLlama3Lumimaid8BExtended,
    LiquidLFM7B,
    DeepSeekChat,
    DeepSeekChatFree,
}

impl Model for OpenRouterModel {
    fn model_id(&self) -> &'static str {
        match self {
            OpenRouterModel::GPT4Turbo => "openai/gpt-4-turbo",
            OpenRouterModel::GoogleGemini20Flash => "google/gemini-2.0-flash-001",
            OpenRouterModel::DeepSeekR1Free => "deepseek/deepseek-r1:free",
            OpenRouterModel::MetaLlama3370BInstruct => "meta-llama/llama-3.3-70b-instruct",
            OpenRouterModel::OpenAIGPT4oMini => "openai/gpt-4o-mini",
            OpenRouterModel::GoogleGeminiFlash158B => "google/gemini-flash-1.5-8b",
            OpenRouterModel::GoogleGeminiFlash15 => "google/gemini-flash-1.5",
            OpenRouterModel::GoogleGeminiPro20ExpFree => "google/gemini-2.0-pro-exp-02-05:free",
            OpenRouterModel::GoogleGemini20FlashLite => "google/gemini-2.0-flash-lite-001",
            OpenRouterModel::DeepSeekR1 => "deepseek/deepseek-r1",
            OpenRouterModel::MistralNemo => "mistralai/mistral-nemo",
            OpenRouterModel::GoogleGemini20FlashExpFree => "google/gemini-2.0-flash-exp:free",
            OpenRouterModel::DeepSeekR1DistillLlama70B => "deepseek/deepseek-r1-distill-llama-70b",
            OpenRouterModel::MetaLlama3170BInstruct => "meta-llama/llama-3.1-70b-instruct",
            OpenRouterModel::Qwen25Coder32BInstruct => "qwen/qwen-2.5-coder-32b-instruct",
            OpenRouterModel::MetaLlama31405BInstruct => "meta-llama/llama-3.1-405b-instruct",
            OpenRouterModel::MistralMistral7BInstruct => "mistralai/mistral-7b-instruct",
            OpenRouterModel::WizardLM28x22B => "microsoft/wizardlm-2-8x22b",
            OpenRouterModel::MistralSmall3 => "mistralai/mistral-small-24b-instruct-2501",
            OpenRouterModel::MetaLlama318BInstruct => "meta-llama/llama-3.1-8b-instruct",
            OpenRouterModel::MythoMax13B => "gryphe/mythomax-l2-13b",
            OpenRouterModel::Qwen257BInstruct => "qwen/qwen-2.5-7b-instruct",
            OpenRouterModel::NousHermes3405BInstruct => "nousresearch/hermes-3-llama-3.1-405b",
            OpenRouterModel::OpenAIGPT4oMini20240718 => "openai/gpt-4o-mini-2024-07-18",
            OpenRouterModel::OpenAIGPT4o => "openai/gpt-4o",
            OpenRouterModel::GoogleGeminiFlashLite20PreviewFree => "google/gemini-2.0-flash-lite-preview-02-05:free",
            OpenRouterModel::GoogleGemma327B => "google/gemma-3-27b-it",
            OpenRouterModel::CohereCommandR082024 => "cohere/command-r-08-2024",
            OpenRouterModel::MetaLlama321BInstruct => "meta-llama/llama-3.2-1b-instruct",
            OpenRouterModel::QwenQwen25VL72BInstruct => "qwen/qwen2.5-vl-72b-instruct",
            OpenRouterModel::QwenQwQ32BFree => "qwen/qwq-32b:free",
            OpenRouterModel::MiniMaxMiniMax01 => "minimax/minimax-01",
            OpenRouterModel::Qwen2572BInstruct => "qwen/qwen-2.5-72b-instruct",
            OpenRouterModel::GoogleGeminiPro15 => "google/gemini-pro-1.5",
            OpenRouterModel::MistralTiny => "mistralai/mistral-tiny",
            OpenRouterModel::GoogleGemma327BFree => "google/gemma-3-27b-it:free",
            OpenRouterModel::QwenQwQ32B => "qwen/qwq-32b",
            OpenRouterModel::OpenAIGPT4o20241120 => "openai/gpt-4o-2024-11-20",
            OpenRouterModel::MetaLlama323BInstruct => "meta-llama/llama-3.2-3b-instruct",
            OpenRouterModel::NeverSleepLlama3Lumimaid8BExtended => "neversleep/llama-3-lumimaid-8b:extended",
            OpenRouterModel::LiquidLFM7B => "liquid/lfm-7b",
            OpenRouterModel::DeepSeekChat => "deepseek/deepseek-chat",
            OpenRouterModel::DeepSeekChatFree => "deepseek/deepseek-chat:free",
        }
    }
}

} // verus!
