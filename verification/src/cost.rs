//! Token accounting for model calls.
//!
//! One chat exchange is billed as two usages: the input characters and
//! the output characters. Characters are converted to token estimates
//! at a fixed ratio of 3.6 characters per token, and tokens to
//! micro-dollars at fixed prices per million tokens (15 for input, 60
//! for output, in dollar-cents times ten thousand). Both conversions
//! round up. These constants define what one dollar of usage means in
//! this system.

use vstd::prelude::*;

verus! {

/// Ceiling on character counts accepted by the token math; keeps all
/// intermediate products inside `usize` even on 32-bit targets.
pub const MAX_BILLABLE_CHARS: usize = 100_000_000;

#[derive(Debug, Clone, PartialEq, Eq)]
pub enum AiUsage {
    InputToken(usize),
    OutputToken(usize),
}

/// Token estimate for a text of `characters` characters:
/// the ceiling of `characters / 3.6`, computed exactly as
/// `ceil(5 * characters / 18)`.
pub open spec fn spec_tokens(characters: nat) -> nat {
    ((5 * characters + 17) / 18) as nat
}

impl AiUsage {
    pub open spec fn token_count(self) -> nat {
        match self {
            AiUsage::InputToken(t) => t as nat,
            AiUsage::OutputToken(t) => t as nat,
        }
    }

    pub open spec fn is_input(self) -> bool {
        self is InputToken
    }

    /// Micro-dollar price of this usage: `ceil(tokens / 10^6 * price *
    /// 10^4)` with price 15 for input tokens and 60 for output tokens,
    /// i.e. `ceil(3 t / 20)` and `ceil(3 t / 5)`.
    pub open spec fn spec_cost_micro(self) -> nat {
        match self {
            AiUsage::InputToken(t) => ((3 * t + 19) / 20) as nat,
            AiUsage::OutputToken(t) => ((3 * t + 4) / 5) as nat,
        }
    }

    pub fn input_token(characters: usize) -> (r: Self)
        requires
            characters <= MAX_BILLABLE_CHARS,
        ensures
            r == AiUsage::InputToken(spec_tokens(characters as nat) as usize),
    {
        let token: usize = (5 * characters + 17) / 18;
        Self::InputToken(token)
    }

    pub fn output_token(characters: usize) -> (r: Self)
        requires
            characters <= MAX_BILLABLE_CHARS,
        ensures
            r == AiUsage::OutputToken(spec_tokens(characters as nat) as usize),
    {
        let token: usize = (5 * characters + 17) / 18;
        Self::OutputToken(token)
    }

    pub fn costs_in_micro_dollar(&self) -> (r: usize)
        requires
            self.token_count() <= MAX_BILLABLE_CHARS,
        ensures
            r == self.spec_cost_micro(),
    {
        match self {
            Self::InputToken(token) => (3 * *token + 19) / 20,
            Self::OutputToken(token) => (3 * *token + 4) / 5,
        }
    }
}

/// The token estimate is exactly the ceiling of `5 c / 18`.
pub proof fn lemma_tokens_is_ceiling(c: nat)
    ensures
        18 * spec_tokens(c) >= 5 * c,
        18 * spec_tokens(c) < 5 * c + 18,
{
    let x = 5 * c + 17;
    vstd::arithmetic::div_mod::lemma_fundamental_div_mod(x as int, 18);
}

} // verus!
