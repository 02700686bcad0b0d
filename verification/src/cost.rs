//! The cost estimator: pure integer arithmetic from a model's billing
//! unit to a cost in whole cents.
//!
//! Money is kept in integer thousandths of a cent per unit
//! (`cost_per_unit_millicents`), and every result is rounded up to whole
//! cents, so billable work never rounds to a zero quote. Token counts
//! are an approximation — one token per four characters of prompt,
//! rounded up — not a tokenizer. A cost that would exceed `u32::MAX`
//! cents saturates there.

use vstd::arithmetic::div_mod::lemma_div_is_ordered;
use vstd::arithmetic::div_mod::lemma_div_multiples_vanish;
use vstd::arithmetic::mul::lemma_mul_inequality;
use vstd::prelude::*;

use crate::job::{JobInput, JobOutput};
use crate::registry::{ModelInfo, UnitType};

verus! {

/// Placeholder estimate, in cents, for per-second billing, where the
/// real duration is unknown before execution.
pub const SECOND_ESTIMATE_CENTS: u32 = 10;

/// Placeholder estimate, in cents, for per-video-second billing.
pub const VIDEO_SECOND_ESTIMATE_CENTS: u32 = 50;

/// Approximate token count of a prompt of `len` characters: one token
/// per four characters, rounded up, so any non-empty prompt counts at
/// least one token.
pub open spec fn spec_estimated_tokens(len: nat) -> nat {
    (len + 3) / 4
}

/// `units * millicents`, rounded up to whole cents, saturating at
/// `u32::MAX`.
pub open spec fn spec_unit_cost_cents(units: nat, millicents: nat) -> nat {
    let cents = (units * millicents + 999) / 1000;
    if cents > u32::MAX {
        u32::MAX as nat
    } else {
        cents
    }
}

/// `duration_ms` milliseconds at `millicents` per second, rounded up
/// to whole cents, saturating at `u32::MAX`.
pub open spec fn spec_duration_cost_cents(duration_ms: nat, millicents: nat) -> nat {
    let cents = (duration_ms * millicents + 999999) / 1000000;
    if cents > u32::MAX {
        u32::MAX as nat
    } else {
        cents
    }
}

/// The estimated cost, in cents, of running an input against a model
/// billed by `unit_type` at `millicents` per unit: token billing prices
/// the approximate token count of the prompt; image billing is flat per
/// image; time billing is a fixed placeholder until the real duration is
/// known.
pub open spec fn spec_estimate_cents(unit_type: UnitType, millicents: nat, prompt_len: nat) -> nat {
    match unit_type {
        UnitType::Token => spec_unit_cost_cents(spec_estimated_tokens(prompt_len), millicents),
        UnitType::Image => spec_unit_cost_cents(1, millicents),
        UnitType::Second => SECOND_ESTIMATE_CENTS as nat,
        UnitType::VideoSecond => VIDEO_SECOND_ESTIMATE_CENTS as nat,
    }
}

/// The reconciled cost, in cents, after the backend call finished:
/// token billing prices the reported `tokens_generated` (zero when the
/// backend reported none); image billing stays flat; time billing
/// prices the measured wall-clock duration. Always a whole, non-negative
/// number of cents.
pub open spec fn spec_actual_cents(
    unit_type: UnitType,
    millicents: nat,
    tokens_generated: nat,
    duration_ms: nat,
) -> nat {
    match unit_type {
        UnitType::Token => spec_unit_cost_cents(tokens_generated, millicents),
        UnitType::Image => spec_unit_cost_cents(1, millicents),
        UnitType::Second => spec_duration_cost_cents(duration_ms, millicents),
        UnitType::VideoSecond => spec_duration_cost_cents(duration_ms, millicents),
    }
}

/// When the raw product already exceeds what `u32::MAX` cents stand
/// for, the rounded quotient exceeds `u32::MAX` too, so saturating is
/// the specified answer.
proof fn lemma_saturated_div(a: nat, half: nat, div: nat)
    requires
        0 < div,
        half < div,
        a + half >= (u32::MAX + 1) * div,
    ensures
        (a + half) / div > u32::MAX,
{
    let bound = (u32::MAX + 1) * div;
    assert((u32::MAX + 1) * div == div * (u32::MAX as int + 1)) by (nonlinear_arith);
    lemma_div_multiples_vanish(u32::MAX as int + 1, div as int);
    assert(bound / (div as int) == u32::MAX as int + 1);
    lemma_div_is_ordered(bound as int, (a + half) as int, div as int);
}

/// `units * millicents` rounded up to cents, saturating at `u32::MAX`
/// cents.
pub fn unit_cost_cents(units: u64, millicents: u32) -> (r: u32)
    ensures
        r as nat == spec_unit_cost_cents(units as nat, millicents as nat),
{
    proof {
        assert((u32::MAX + 1) * 1000 < u64::MAX as int);
    }
    match units.checked_mul(millicents as u64) {
        Some(product) => {
            match product.checked_add(999) {
                Some(raised) => {
                    let cents = raised / 1000;
                    if cents > 0xffff_ffffu64 {
                        u32::MAX
                    } else {
                        cents as u32
                    }
                },
                None => {
                    proof {
                        lemma_saturated_div((units * millicents) as nat, 999, 1000);
                    }
                    u32::MAX
                },
            }
        },
        None => {
            proof {
                lemma_saturated_div((units * millicents) as nat, 999, 1000);
            }
            u32::MAX
        },
    }
}

/// `duration_ms * millicents / 1_000_000` rounded up, saturating at
/// `u32::MAX` cents.
pub fn duration_cost_cents(duration_ms: u64, millicents: u32) -> (r: u32)
    ensures
        r as nat == spec_duration_cost_cents(duration_ms as nat, millicents as nat),
{
    proof {
        assert((u32::MAX + 1) * 1000000 < u64::MAX as int);
    }
    match duration_ms.checked_mul(millicents as u64) {
        Some(product) => {
            match product.checked_add(999999) {
                Some(raised) => {
                    let cents = raised / 1000000;
                    if cents > 0xffff_ffffu64 {
                        u32::MAX
                    } else {
                        cents as u32
                    }
                },
                None => {
                    proof {
                        lemma_saturated_div((duration_ms * millicents) as nat, 999999, 1000000);
                    }
                    u32::MAX
                },
            }
        },
        None => {
            proof {
                lemma_saturated_div((duration_ms * millicents) as nat, 999999, 1000000);
            }
            u32::MAX
        },
    }
}

/// Character count of the prompt the estimator prices.
pub open spec fn spec_prompt_len(input: JobInput) -> nat {
    match input {
        JobInput::Text(t) => t.prompt@.len(),
        JobInput::Image(im) => im.prompt@.len(),
    }
}

/// Approximate token count of a prompt: character length divided by
/// four, rounded up.
pub fn estimated_tokens(prompt: &str) -> (r: u64)
    ensures
        r as nat == spec_estimated_tokens(prompt@.len()),
{
    let chars = prompt.unicode_len();
    let chars64: u64 = chars as u64;
    if chars64 % 4 == 0 {
        proof {
            assert(chars64 as int / 4 == (chars64 as int + 3) / 4) by (nonlinear_arith)
                requires
                    chars64 as int % 4 == 0,
            ;
        }
        chars64 / 4
    } else {
        proof {
            assert(chars64 as int / 4 + 1 == (chars64 as int + 3) / 4) by (nonlinear_arith)
                requires
                    chars64 as int % 4 != 0,
                    chars64 >= 0,
            ;
        }
        chars64 / 4 + 1
    }
}

/// The estimate the gateway quotes at submission time, before any
/// backend call happens.
pub fn estimate_cost_cents(model: &ModelInfo, input: &JobInput) -> (r: u32)
    ensures
        r as nat == spec_estimate_cents(
            model.unit_type,
            model.cost_per_unit_millicents as nat,
            spec_prompt_len(*input),
        ),
{
    match model.unit_type {
        UnitType::Token => {
            let tokens = match input {
                JobInput::Text(t) => estimated_tokens(t.prompt.as_str()),
                JobInput::Image(im) => estimated_tokens(im.prompt.as_str()),
            };
            unit_cost_cents(tokens, model.cost_per_unit_millicents)
        },
        UnitType::Image => unit_cost_cents(1, model.cost_per_unit_millicents),
        UnitType::Second => SECOND_ESTIMATE_CENTS,
        UnitType::VideoSecond => VIDEO_SECOND_ESTIMATE_CENTS,
    }
}

/// The reconciled cost once the backend call finished: token billing
/// reads the backend's `tokens_generated` metadata (zero when absent);
/// time billing reads the measured duration in milliseconds. The
/// billing parameters are those of the model the job was dispatched
/// against.
pub fn actual_cost_cents(
    unit_type: UnitType,
    millicents: u32,
    output: &JobOutput,
    duration_ms: u64,
) -> (r: u32)
    ensures
        r as nat == spec_actual_cents(
            unit_type,
            millicents as nat,
            match output.tokens_generated {
                Some(t) => t as nat,
                None => 0,
            },
            duration_ms as nat,
        ),
{
    match unit_type {
        UnitType::Token => {
            let tokens = match output.tokens_generated {
                Some(t) => t,
                None => 0,
            };
            unit_cost_cents(tokens, millicents)
        },
        UnitType::Image => unit_cost_cents(1, millicents),
        UnitType::Second => duration_cost_cents(duration_ms, millicents),
        UnitType::VideoSecond => duration_cost_cents(duration_ms, millicents),
    }
}

/// Cost monotonicity: a token-billed estimate never decreases when the
/// prompt grows — in particular, doubling the prompt length never
/// lowers the estimate.
pub proof fn lemma_token_cost_monotonic(millicents: nat, len1: nat, len2: nat)
    requires
        len1 <= len2,
    ensures
        spec_estimate_cents(UnitType::Token, millicents, len1) <= spec_estimate_cents(
            UnitType::Token,
            millicents,
            len2,
        ),
{
    let t1 = spec_estimated_tokens(len1);
    let t2 = spec_estimated_tokens(len2);
    lemma_div_is_ordered(len1 as int + 3, len2 as int + 3, 4);
    assert(t1 <= t2);
    lemma_mul_inequality(t1 as int, t2 as int, millicents as int);
    lemma_div_is_ordered((t1 * millicents + 999) as int, (t2 * millicents + 999) as int, 1000);
}

} // verus!
