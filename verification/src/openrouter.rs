//! Model catalog of the OpenRouter service.
use vstd::prelude::*;

verus! {

/// Model catalog of the OpenRouter service.
#[derive(Debug, Clone, Copy, PartialEq, Eq, Structural)]
pub enum OpenRouter {
    GoogleGemini20Flash,
    DeepSeekR1Free,
    MetaLlama3370BInstruct,
    OpenAIGPT4oMini,
    GoogleGeminiFlash158B,
    GoogleGeminiFlash15,
    GoogleGeminiPro20ExpFree,
    GoogleGemini20FlashLite,
    DeepSeekR1,
    MistralNemo,
    GoogleGemini20FlashExpFree,
    DeepSeekR1DistillLlama70B,
    MetaLlama3170BInstruct,
    Qwen25Coder32BInstruct,
    MetaLlama31405BInstruct,
    MistralMistral7BInstruct,
    WizardLM28x22B,
    MistralSmall3,
    MetaLlama318BInstruct,
    MythoMax13B,
    Qwen257BInstruct,
    NousHermes3405BInstruct,
    OpenAIGPT4oMini20240718,
    OpenAIGPT4o,
    GoogleGeminiFlashLite20PreviewFree,
    GoogleGemma327B,
    CohereCommandR082024,
    MetaLlama321BInstruct,
    QwenQwen25VL72BInstruct,
    QwenQwQ32BFree,
    MiniMaxMiniMax01,
    Qwen2572BInstruct,
    GoogleGeminiPro15,
    MistralTiny,
    GoogleGemma327BFree,
    QwenQwQ32B,
    OpenAIGPT4o20241120,
    MetaLlama323BInstruct,
    NeverSleepLlama3Lumimaid8BExtended,
    LiquidLFM7B,
    DeepSeekChat,
    DeepSeekChatFree,
}

impl OpenRouter {
    /// The identifier the service knows this model by.
    pub open spec fn spec_model_id(&self) -> Seq<char> {
        match self {
            OpenRouter::GoogleGemini20Flash => "google/gemini-2.0-flash-001"@,
            OpenRouter::DeepSeekR1Free => "deepseek/deepseek-r1:free"@,
            OpenRouter::MetaLlama3370BInstruct => "meta-llama/llama-3.3-70b-instruct"@,
            OpenRouter::OpenAIGPT4oMini => "openai/gpt-4o-mini"@,
            OpenRouter::GoogleGeminiFlash158B => "google/gemini-flash-1.5-8b"@,
            OpenRouter::GoogleGeminiFlash15 => "google/gemini-flash-1.5"@,
            OpenRouter::GoogleGeminiPro20ExpFree => "google/gemini-2.0-pro-exp-02-05:free"@,
            OpenRouter::GoogleGemini20FlashLite => "google/gemini-2.0-flash-lite-001"@,
            OpenRouter::DeepSeekR1 => "deepseek/deepseek-r1"@,
            OpenRouter::MistralNemo => "mistralai/mistral-nemo"@,
            OpenRouter::GoogleGemini20FlashExpFree => "google/gemini-2.0-flash-exp:free"@,
            OpenRouter::DeepSeekR1DistillLlama70B => "deepseek/deepseek-r1-distill-llama-70b"@,
            OpenRouter::MetaLlama3170BInstruct => "meta-llama/llama-3.1-70b-instruct"@,
            OpenRouter::Qwen25Coder32BInstruct => "qwen/qwen-2.5-coder-32b-instruct"@,
            OpenRouter::MetaLlama31405BInstruct => "meta-llama/llama-3.1-405b-instruct"@,
            OpenRouter::MistralMistral7BInstruct => "mistralai/mistral-7b-instruct"@,
            OpenRouter::WizardLM28x22B => "microsoft/wizardlm-2-8x22b"@,
            OpenRouter::MistralSmall3 => "mistralai/mistral-small-24b-instruct-2501"@,
            OpenRouter::MetaLlama318BInstruct => "meta-llama/llama-3.1-8b-instruct"@,
            OpenRouter::MythoMax13B => "gryphe/mythomax-l2-13b"@,
            OpenRouter::Qwen257BInstruct => "qwen/qwen-2.5-7b-instruct"@,
            OpenRouter::NousHermes3405BInstruct => "nousresearch/hermes-3-llama-3.1-405b"@,
            OpenRouter::OpenAIGPT4oMini20240718 => "openai/gpt-4o-mini-2024-07-18"@,
            OpenRouter::OpenAIGPT4o => "openai/gpt-4o"@,
            OpenRouter::GoogleGeminiFlashLite20PreviewFree => "google/gemini-2.0-flash-lite-preview-02-05:free"@,
            OpenRouter::GoogleGemma327B => "google/gemma-3-27b-it"@,
            OpenRouter::CohereCommandR082024 => "cohere/command-r-08-2024"@,
            OpenRouter::MetaLlama321BInstruct => "meta-llama/llama-3.2-1b-instruct"@,
            OpenRouter::QwenQwen25VL72BInstruct => "qwen/qwen2.5-vl-72b-instruct"@,
            OpenRouter::QwenQwQ32BFree => "qwen/qwq-32b:free"@,
            OpenRouter::MiniMaxMiniMax01 => "minimax/minimax-01"@,
            OpenRouter::Qwen2572BInstruct => "qwen/qwen-2.5-72b-instruct"@,
            OpenRouter::GoogleGeminiPro15 => "google/gemini-pro-1.5"@,
            OpenRouter::MistralTiny => "mistralai/mistral-tiny"@,
            OpenRouter::GoogleGemma327BFree => "google/gemma-3-27b-it:free"@,
            OpenRouter::QwenQwQ32B => "qwen/qwq-32b"@,
            OpenRouter::OpenAIGPT4o20241120 => "openai/gpt-4o-2024-11-20"@,
            OpenRouter::MetaLlama323BInstruct => "meta-llama/llama-3.2-3b-instruct"@,
            OpenRouter::NeverSleepLlama3Lumimaid8BExtended => "neversleep/llama-3-lumimaid-8b:extended"@,
            OpenRouter::LiquidLFM7B => "liquid/lfm-7b"@,
            OpenRouter::DeepSeekChat => "deepseek/deepseek-chat"@,
            OpenRouter::DeepSeekChatFree => "deepseek/deepseek-chat:free"@,
        }
    }

    /// The identifier the service knows this model by.
    pub fn model_id(&self) -> (r: &'static str)
        ensures
            r@ == self.spec_model_id(),
    {
        match self {
            OpenRouter::GoogleGemini20Flash => "google/gemini-2.0-flash-001",
            OpenRouter::DeepSeekR1Free => "deepseek/deepseek-r1:free",
            OpenRouter::MetaLlama3370BInstruct => "meta-llama/llama-3.3-70b-instruct",
            OpenRouter::OpenAIGPT4oMini => "openai/gpt-4o-mini",
            OpenRouter::GoogleGeminiFlash158B => "google/gemini-flash-1.5-8b",
            OpenRouter::GoogleGeminiFlash15 => "google/gemini-flash-1.5",
            OpenRouter::GoogleGeminiPro20ExpFree => "google/gemini-2.0-pro-exp-02-05:free",
            OpenRouter::GoogleGemini20FlashLite => "google/gemini-2.0-flash-lite-001",
            OpenRouter::DeepSeekR1 => "deepseek/deepseek-r1",
            OpenRouter::MistralNemo => "mistralai/mistral-nemo",
            OpenRouter::GoogleGemini20FlashExpFree => "google/gemini-2.0-flash-exp:free",
            OpenRouter::DeepSeekR1DistillLlama70B => "deepseek/deepseek-r1-distill-llama-70b",
            OpenRouter::MetaLlama3170BInstruct => "meta-llama/llama-3.1-70b-instruct",
            OpenRouter::Qwen25Coder32BInstruct => "qwen/qwen-2.5-coder-32b-instruct",
            OpenRouter::MetaLlama31405BInstruct => "meta-llama/llama-3.1-405b-instruct",
            OpenRouter::MistralMistral7BInstruct => "mistralai/mistral-7b-instruct",
            OpenRouter::WizardLM28x22B => "microsoft/wizardlm-2-8x22b",
            OpenRouter::MistralSmall3 => "mistralai/mistral-small-24b-instruct-2501",
            OpenRouter::MetaLlama318BInstruct => "meta-llama/llama-3.1-8b-instruct",
            OpenRouter::MythoMax13B => "gryphe/mythomax-l2-13b",
            OpenRouter::Qwen257BInstruct => "qwen/qwen-2.5-7b-instruct",
            OpenRouter::NousHermes3405BInstruct => "nousresearch/hermes-3-llama-3.1-405b",
            OpenRouter::OpenAIGPT4oMini20240718 => "openai/gpt-4o-mini-2024-07-18",
            OpenRouter::OpenAIGPT4o => "openai/gpt-4o",
            OpenRouter::GoogleGeminiFlashLite20PreviewFree => "google/gemini-2.0-flash-lite-preview-02-05:free",
            OpenRouter::GoogleGemma327B => "google/gemma-3-27b-it",
            OpenRouter::CohereCommandR082024 => "cohere/command-r-08-2024",
            OpenRouter::MetaLlama321BInstruct => "meta-llama/llama-3.2-1b-instruct",
            OpenRouter::QwenQwen25VL72BInstruct => "qwen/qwen2.5-vl-72b-instruct",
            OpenRouter::QwenQwQ32BFree => "qwen/qwq-32b:free",
            OpenRouter::MiniMaxMiniMax01 => "minimax/minimax-01",
            OpenRouter::Qwen2572BInstruct => "qwen/qwen-2.5-72b-instruct",
            OpenRouter::GoogleGeminiPro15 => "google/gemini-pro-1.5",
            OpenRouter::MistralTiny => "mistralai/mistral-tiny",
            OpenRouter::GoogleGemma327BFree => "google/gemma-3-27b-it:free",
            OpenRouter::QwenQwQ32B => "qwen/qwq-32b",
            OpenRouter::OpenAIGPT4o20241120 => "openai/gpt-4o-2024-11-20",
            OpenRouter::MetaLlama323BInstruct => "meta-llama/llama-3.2-3b-instruct",
            OpenRouter::NeverSleepLlama3Lumimaid8BExtended => "neversleep/llama-3-lumimaid-8b:extended",
            OpenRouter::LiquidLFM7B => "liquid/lfm-7b",
            OpenRouter::DeepSeekChat => "deepseek/deepseek-chat",
            OpenRouter::DeepSeekChatFree => "deepseek/deepseek-chat:free",
        }
    }
}

} // verus!
