//! Model pricing table and the cost of one usage record.
//!
//! All money amounts in the library are integers in picodollars
//! (10^-12 USD), so that cost arithmetic is exact. A rate of one dollar per
//! million tokens is 1_000_000 picodollars per token.

use vstd::prelude::*;

use crate::parser::TokenUsage;
use crate::text::{contains_sub, spec_contains};

verus! {

/// Per-token rates in picodollars for the four usage categories.
#[derive(Debug, Clone, Copy, PartialEq, Eq, Structural)]
pub struct ModelPricing {
    pub input_pico_per_token: u64,
    pub output_pico_per_token: u64,
    pub cache_read_pico_per_token: u64,
    pub cache_creation_pico_per_token: u64,
}

/// Largest per-token rate in the table, used for overflow bounds.
pub open spec fn max_rate() -> int {
    75_000_000
}

pub open spec fn opus_pricing() -> ModelPricing {
    ModelPricing {
        input_pico_per_token: 15_000_000,
        output_pico_per_token: 75_000_000,
        cache_read_pico_per_token: 1_500_000,
        cache_creation_pico_per_token: 18_750_000,
    }
}

pub open spec fn sonnet_pricing() -> ModelPricing {
    ModelPricing {
        input_pico_per_token: 3_000_000,
        output_pico_per_token: 15_000_000,
        cache_read_pico_per_token: 300_000,
        cache_creation_pico_per_token: 3_750_000,
    }
}

pub open spec fn haiku_pricing() -> ModelPricing {
    ModelPricing {
        input_pico_per_token: 250_000,
        output_pico_per_token: 1_250_000,
        cache_read_pico_per_token: 25_000,
        cache_creation_pico_per_token: 312_500,
    }
}

/// First matching entry by substring test in priority order
/// opus, sonnet, haiku; unknown names fall back to the sonnet rates.
pub open spec fn spec_pricing(model: Seq<char>) -> ModelPricing {
    if spec_contains(model, "opus"@) {
        opus_pricing()
    } else if spec_contains(model, "sonnet"@) {
        sonnet_pricing()
    } else if spec_contains(model, "haiku"@) {
        haiku_pricing()
    } else {
        sonnet_pricing()
    }
}

pub proof fn lemma_pricing_bounded(model: Seq<char>)
    ensures
        0 < spec_pricing(model).input_pico_per_token <= max_rate(),
        0 < spec_pricing(model).output_pico_per_token <= max_rate(),
        0 < spec_pricing(model).cache_read_pico_per_token <= max_rate(),
        0 < spec_pricing(model).cache_creation_pico_per_token <= max_rate(),
{
}

pub fn get_pricing(model: &str) -> (r: ModelPricing)
    ensures
        r == spec_pricing(model@),
{
    if contains_sub(model, "opus") {
        ModelPricing {
            input_pico_per_token: 15_000_000,
            output_pico_per_token: 75_000_000,
            cache_read_pico_per_token: 1_500_000,
            cache_creation_pico_per_token: 18_750_000,
        }
    } else if contains_sub(model, "sonnet") {
        ModelPricing {
            input_pico_per_token: 3_000_000,
            output_pico_per_token: 15_000_000,
            cache_read_pico_per_token: 300_000,
            cache_creation_pico_per_token: 3_750_000,
        }
    } else if contains_sub(model, "haiku") {
        ModelPricing {
            input_pico_per_token: 250_000,
            output_pico_per_token: 1_250_000,
            cache_read_pico_per_token: 25_000,
            cache_creation_pico_per_token: 312_500,
        }
    } else {
        ModelPricing {
            input_pico_per_token: 3_000_000,
            output_pico_per_token: 15_000_000,
            cache_read_pico_per_token: 300_000,
            cache_creation_pico_per_token: 3_750_000,
        }
    }
}

/// Cost of one usage record in picodollars: the sum of the four products
/// count times per-token rate under the rates the model name selects.
pub open spec fn spec_cost(usage: TokenUsage, model: Seq<char>) -> int {
    let p = spec_pricing(model);
    usage.input_tokens * p.input_pico_per_token + usage.output_tokens * p.output_pico_per_token
        + usage.cache_read_input_tokens * p.cache_read_pico_per_token
        + usage.cache_creation_input_tokens * p.cache_creation_pico_per_token
}

/// The cost of any usage record fits comfortably in a `u128`.
pub proof fn lemma_cost_bounded(usage: TokenUsage, model: Seq<char>)
    ensures
        0 <= spec_cost(usage, model) < u128::MAX,
{
    let p = spec_pricing(model);
    lemma_pricing_bounded(model);
    assert(0 <= usage.input_tokens * p.input_pico_per_token <= 0xFFFF_FFFF_FFFF_FFFFu64
        * 75_000_000) by (nonlinear_arith)
        requires
            usage.input_tokens <= 0xFFFF_FFFF_FFFF_FFFFu64,
            0 < p.input_pico_per_token <= 75_000_000,
    ;
    assert(0 <= usage.output_tokens * p.output_pico_per_token <= 0xFFFF_FFFF_FFFF_FFFFu64
        * 75_000_000) by (nonlinear_arith)
        requires
            usage.output_tokens <= 0xFFFF_FFFF_FFFF_FFFFu64,
            0 < p.output_pico_per_token <= 75_000_000,
    ;
    assert(0 <= usage.cache_read_input_tokens * p.cache_read_pico_per_token
        <= 0xFFFF_FFFF_FFFF_FFFFu64 * 75_000_000) by (nonlinear_arith)
        requires
            usage.cache_read_input_tokens <= 0xFFFF_FFFF_FFFF_FFFFu64,
            0 < p.cache_read_pico_per_token <= 75_000_000,
    ;
    assert(0 <= usage.cache_creation_input_tokens * p.cache_creation_pico_per_token
        <= 0xFFFF_FFFF_FFFF_FFFFu64 * 75_000_000) by (nonlinear_arith)
        requires
            usage.cache_creation_input_tokens <= 0xFFFF_FFFF_FFFF_FFFFu64,
            0 < p.cache_creation_pico_per_token <= 75_000_000,
    ;
}

/// Pure and total: every usage record under every model name has a cost.
pub fn calculate_cost(usage: &TokenUsage, model: &str) -> (r: u128)
    ensures
        r == spec_cost(*usage, model@),
{
    let p = get_pricing(model);
    proof {
        lemma_cost_bounded(*usage, model@);
        lemma_pricing_bounded(model@);
    }
    let input_cost: u128 = (usage.input_tokens as u128) * (p.input_pico_per_token as u128);
    let output_cost: u128 = (usage.output_tokens as u128) * (p.output_pico_per_token as u128);
    let cache_read_cost: u128 = (usage.cache_read_input_tokens as u128)
        * (p.cache_read_pico_per_token as u128);
    let cache_creation_cost: u128 = (usage.cache_creation_input_tokens as u128)
        * (p.cache_creation_pico_per_token as u128);
    input_cost + output_cost + cache_read_cost + cache_creation_cost
}

/// Cost is linear: splitting a usage record component-wise splits its cost
/// exactly, whatever the model.
pub proof fn lemma_cost_linear(a: TokenUsage, b: TokenUsage, whole: TokenUsage, model: Seq<char>)
    requires
        whole.input_tokens == a.input_tokens + b.input_tokens,
        whole.output_tokens == a.output_tokens + b.output_tokens,
        whole.cache_read_input_tokens == a.cache_read_input_tokens + b.cache_read_input_tokens,
        whole.cache_creation_input_tokens == a.cache_creation_input_tokens
            + b.cache_creation_input_tokens,
    ensures
        spec_cost(whole, model) == spec_cost(a, model) + spec_cost(b, model),
{
    let p = spec_pricing(model);
    assert(whole.input_tokens * p.input_pico_per_token == a.input_tokens * p.input_pico_per_token
        + b.input_tokens * p.input_pico_per_token) by (nonlinear_arith)
        requires
            whole.input_tokens == a.input_tokens + b.input_tokens,
    ;
    assert(whole.output_tokens * p.output_pico_per_token == a.output_tokens
        * p.output_pico_per_token + b.output_tokens * p.output_pico_per_token)
        by (nonlinear_arith)
        requires
            whole.output_tokens == a.output_tokens + b.output_tokens,
    ;
    assert(whole.cache_read_input_tokens * p.cache_read_pico_per_token
        == a.cache_read_input_tokens * p.cache_read_pico_per_token + b.cache_read_input_tokens
        * p.cache_read_pico_per_token) by (nonlinear_arith)
        requires
            whole.cache_read_input_tokens == a.cache_read_input_tokens
                + b.cache_read_input_tokens,
    ;
    assert(whole.cache_creation_input_tokens * p.cache_creation_pico_per_token
        == a.cache_creation_input_tokens * p.cache_creation_pico_per_token
        + b.cache_creation_input_tokens * p.cache_creation_pico_per_token) by (nonlinear_arith)
        requires
            whole.cache_creation_input_tokens == a.cache_creation_input_tokens
                + b.cache_creation_input_tokens,
    ;
}

} // verus!
