//! Model selection helpers: which model the current provider selection uses.
use vstd::prelude::*;
use vstd::string::*;

verus! {

/// LLM provider.
#[derive(Debug, Clone, Copy, PartialEq, Eq, Structural)]
pub enum LlmProvider {
    /// Anthropic API.
    Anthropic,
    /// The Anthropic command-line client, on a subscription.
    ClaudeCode,
    /// The Anthropic command-line client, with an API key.
    ClaudeCodeApiKey,
    /// xAI Grok.
    Grok,
    /// Groq.
    Groq,
    /// DeepSeek.
    DeepSeek,
    /// MiniMax.
    MiniMax,
}

/// What the application reads of a selected model.
pub struct ModelInfo {
    /// Model string sent to the provider's API.
    pub api_name: String,
    /// Maximum number of output tokens.
    pub max_output_tokens: u32,
    /// Context window in tokens.
    pub context_window: usize,
}

/// Provider and model selection.
pub struct State {
    /// Provider of the main model.
    pub llm_provider: LlmProvider,
    /// Provider of the secondary model.
    pub secondary_provider: LlmProvider,
    /// Selected Anthropic model (also used by both command-line client providers).
    pub anthropic_model: ModelInfo,
    /// Selected Grok model.
    pub grok_model: ModelInfo,
    /// Selected Groq model.
    pub groq_model: ModelInfo,
    /// Selected DeepSeek model.
    pub deepseek_model: ModelInfo,
    /// Selected MiniMax model.
    pub minimax_model: ModelInfo,
    /// Secondary Anthropic model.
    pub secondary_anthropic_model: ModelInfo,
    /// Secondary Grok model.
    pub secondary_grok_model: ModelInfo,
    /// Secondary Groq model.
    pub secondary_groq_model: ModelInfo,
    /// Secondary DeepSeek model.
    pub secondary_deepseek_model: ModelInfo,
    /// Secondary MiniMax model.
    pub secondary_minimax_model: ModelInfo,
    /// Custom context budget in tokens, if set.
    pub context_budget: Option<usize>,
}

/// The main model selected for the current provider.
pub open spec fn current_info(s: State) -> ModelInfo {
    match s.llm_provider {
        LlmProvider::Anthropic | LlmProvider::ClaudeCode | LlmProvider::ClaudeCodeApiKey => s.anthropic_model,
        LlmProvider::Grok => s.grok_model,
        LlmProvider::Groq => s.groq_model,
        LlmProvider::DeepSeek => s.deepseek_model,
        LlmProvider::MiniMax => s.minimax_model,
    }
}

/// The secondary model selected for the secondary provider.
pub open spec fn secondary_info(s: State) -> ModelInfo {
    match s.secondary_provider {
        LlmProvider::Anthropic | LlmProvider::ClaudeCode | LlmProvider::ClaudeCodeApiKey => s.secondary_anthropic_model,
        LlmProvider::Grok => s.secondary_grok_model,
        LlmProvider::Groq => s.secondary_groq_model,
        LlmProvider::DeepSeek => s.secondary_deepseek_model,
        LlmProvider::MiniMax => s.secondary_minimax_model,
    }
}

/// The context budget: the custom one if set, else the current model's window.
pub open spec fn budget_of(s: State) -> usize {
    match s.context_budget {
        Some(b) => b,
        None => current_info(s).context_window,
    }
}

impl State {
    /// The main model for the current provider.
    fn current(&self) -> (r: &ModelInfo)
        ensures
            *r == current_info(*self),
    {
        match self.llm_provider {
            LlmProvider::Anthropic | LlmProvider::ClaudeCode | LlmProvider::ClaudeCodeApiKey => &self.anthropic_model,
            LlmProvider::Grok => &self.grok_model,
            LlmProvider::Groq => &self.groq_model,
            LlmProvider::DeepSeek => &self.deepseek_model,
            LlmProvider::MiniMax => &self.minimax_model,
        }
    }

    /// Get the API model string for the current provider/model selection.
    pub fn current_model(&self) -> (r: String)
        ensures
            r@ == current_info(*self).api_name@,
    {
        self.current().api_name.clone()
    }

    /// Get the max output tokens for the current provider/model selection.
    pub fn current_max_output_tokens(&self) -> (r: u32)
        ensures
            r == current_info(*self).max_output_tokens,
    {
        self.current().max_output_tokens
    }

    /// Get the max output tokens for the secondary provider/model selection.
    pub fn secondary_max_output_tokens(&self) -> (r: u32)
        ensures
            r == secondary_info(*self).max_output_tokens,
    {
        match self.secondary_provider {
            LlmProvider::Anthropic | LlmProvider::ClaudeCode | LlmProvider::ClaudeCodeApiKey => {
                self.secondary_anthropic_model.max_output_tokens
            },
            LlmProvider::Grok => self.secondary_grok_model.max_output_tokens,
            LlmProvider::Groq => self.secondary_groq_model.max_output_tokens,
            LlmProvider::DeepSeek => self.secondary_deepseek_model.max_output_tokens,
            LlmProvider::MiniMax => self.secondary_minimax_model.max_output_tokens,
        }
    }

    /// Get the current model's context window.
    pub fn model_context_window(&self) -> (r: usize)
        ensures
            r == current_info(*self).context_window,
    {
        self.current().context_window
    }

    /// Get the effective context budget (custom, or the model's full context).
    pub fn effective_context_budget(&self) -> (r: usize)
        ensures
            r == budget_of(*self),
    {
        match self.context_budget {
            Some(b) => b,
            None => self.model_context_window(),
        }
    }
}

/// Law: the three Anthropic-family providers share one model selection.
pub proof fn law_anthropic_family_shares_model(s: State, t: State)
    requires
        s.anthropic_model == t.anthropic_model,
        s.llm_provider == LlmProvider::Anthropic || s.llm_provider == LlmProvider::ClaudeCode
            || s.llm_provider == LlmProvider::ClaudeCodeApiKey,
        t.llm_provider == LlmProvider::Anthropic || t.llm_provider == LlmProvider::ClaudeCode
            || t.llm_provider == LlmProvider::ClaudeCodeApiKey,
    ensures
        current_info(s) == current_info(t),
{
}

} // verus!
