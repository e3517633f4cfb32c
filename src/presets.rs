//! The model presets offered in the model menu.

use vstd::prelude::*;

verus! {

#[derive(Debug, Clone, Copy, PartialEq, Eq, Structural)]
pub enum ReasoningEffort {
    Minimal,
    Low,
    Medium,
    High,
}

/// How the user is signed in.
#[derive(Debug, Clone, Copy, PartialEq, Eq, Structural)]
pub enum AuthMode {
    ApiKey,
    ChatGPT,
}

/// A preset pairing a model slug with a reasoning effort.
#[derive(Debug, Clone, Copy)]
pub struct ModelPreset {
    /// Stable identifier for the preset.
    pub id: &'static str,
    /// Display label shown in menus.
    pub label: &'static str,
    /// Short description shown next to the label.
    pub description: &'static str,
    /// Model slug.
    pub model: &'static str,
    /// Reasoning effort to apply for this preset.
    pub effort: Option<ReasoningEffort>,
}

pub open spec fn preset_ids() -> Seq<Seq<char>> {
    seq!["gpt-5-codex-low"@, "gpt-5-codex-medium"@, "gpt-5-codex-high"@, "gpt-5-minimal"@, "gpt-5-low"@, "gpt-5-medium"@, "gpt-5-high"@]
}

pub open spec fn preset_models() -> Seq<Seq<char>> {
    seq!["gpt-5-codex"@, "gpt-5-codex"@, "gpt-5-codex"@, "gpt-5"@, "gpt-5"@, "gpt-5"@, "gpt-5"@]
}

pub open spec fn preset_efforts() -> Seq<Option<ReasoningEffort>> {
    seq![Some(ReasoningEffort::Low), Some(ReasoningEffort::Medium), Some(ReasoningEffort::High), Some(ReasoningEffort::Minimal), Some(ReasoningEffort::Low), Some(ReasoningEffort::Medium), Some(ReasoningEffort::High)]
}

/// The presets, in menu order; the same for every way of signing in.
pub fn builtin_model_presets(_auth_mode: Option<AuthMode>) -> (r: Vec<ModelPreset>)
    ensures
        r@.len() == 7,
        forall|i: int| 0 <= i < 7 ==> (#[trigger] r@[i]).id@ == preset_ids()[i]
            && r@[i].model@ == preset_models()[i]
            && r@[i].effort == preset_efforts()[i]
            && r@[i].description@.len() > 0
            && r@[i].description@[0] == '—',
{
    proof {
        reveal_strlit("— optimized for coding tasks with some reasoning; balances speed and code quality for straightforward development work");
        reveal_strlit("— default coding model; provides strong reasoning for code generation, refactoring, and debugging tasks");
        reveal_strlit("— maximizes code reasoning depth for complex architectures, system design, and advanced problem-solving");
        reveal_strlit("— fastest responses with limited reasoning; ideal for coding, instructions, or lightweight tasks");
        reveal_strlit("— balances speed with some reasoning; useful for straightforward queries and short explanations");
        reveal_strlit("— default setting; provides a solid balance of reasoning depth and latency for general-purpose tasks");
        reveal_strlit("— maximizes reasoning depth for complex or ambiguous problems");
    }
    let r = vec![
        ModelPreset {
            id: "gpt-5-codex-low",
            label: "gpt-5-codex low",
            description: "— optimized for coding tasks with some reasoning; balances speed and code quality for straightforward development work",
            model: "gpt-5-codex",
            effort: Some(ReasoningEffort::Low),
        },
        ModelPreset {
            id: "gpt-5-codex-medium",
            label: "gpt-5-codex medium",
            description: "— default coding model; provides strong reasoning for code generation, refactoring, and debugging tasks",
            model: "gpt-5-codex",
            effort: Some(ReasoningEffort::Medium),
        },
        ModelPreset {
            id: "gpt-5-codex-high",
            label: "gpt-5-codex high",
            description: "— maximizes code reasoning depth for complex architectures, system design, and advanced problem-solving",
            model: "gpt-5-codex",
            effort: Some(ReasoningEffort::High),
        },
        ModelPreset {
            id: "gpt-5-minimal",
            label: "gpt-5 minimal",
            description: "— fastest responses with limited reasoning; ideal for coding, instructions, or lightweight tasks",
            model: "gpt-5",
            effort: Some(ReasoningEffort::Minimal),
        },
        ModelPreset {
            id: "gpt-5-low",
            label: "gpt-5 low",
            description: "— balances speed with some reasoning; useful for straightforward queries and short explanations",
            model: "gpt-5",
            effort: Some(ReasoningEffort::Low),
        },
        ModelPreset {
            id: "gpt-5-medium",
            label: "gpt-5 medium",
            description: "— default setting; provides a solid balance of reasoning depth and latency for general-purpose tasks",
            model: "gpt-5",
            effort: Some(ReasoningEffort::Medium),
        },
        ModelPreset {
            id: "gpt-5-high",
            label: "gpt-5 high",
            description: "— maximizes reasoning depth for complex or ambiguous problems",
            model: "gpt-5",
            effort: Some(ReasoningEffort::High),
        },
    ];
    r
}

} // verus!
