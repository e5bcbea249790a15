//! Escape-time encodings for the two fractal variants.
//!
//! The orbit arithmetic itself runs with the caller; what reaches this module
//! is, per pixel, the step at which the orbit was first observed outside the
//! escape region (`None` when it stayed inside through the whole cap). The two
//! variants turn that observation into a reported count in structurally
//! different but equally valid ways, and each encoding is kept exactly as its
//! own variant: Mandelbrot reports the last loop index reached before the
//! escape test fired, Julia reports a counter that starts at the cap and is
//! decremented once per orbit step.

use vstd::prelude::*;

verus! {

/// The fixed iteration cap shared by both variants.
pub const MAX_ITERATIONS: u16 = 32;

/// The two supported fractal fields. Each keeps its own escape-time encoding;
/// the reported counts are not numerically interchangeable.
#[derive(Clone, Copy, PartialEq, Eq, Structural, Debug)]
pub enum FractalVariant {
    Mandelbrot,
    Julia,
}

/// Mandelbrot encoding: the loop index assigned last before the escape test
/// fired. An orbit already outside after its first step reports 0; an orbit
/// that never escapes within the cap reports the highest reachable index,
/// `MAX_ITERATIONS - 1` — the same value an orbit escaping on the final test
/// reports, by design ("last index wins").
pub open spec fn mandelbrot_index_spec(first_escape: Option<u16>) -> u16 {
    match first_escape {
        Option::Some(t) => if t == 0 {
            0u16
        } else if t < MAX_ITERATIONS {
            (t - 1) as u16
        } else {
            (MAX_ITERATIONS - 1) as u16
        },
        Option::None => (MAX_ITERATIONS - 1) as u16,
    }
}

/// Julia encoding: a counter starts at `MAX_ITERATIONS` and drops by one per
/// orbit step; stepping stops when the orbit is outside the escape region or
/// the counter reaches 1. An orbit already outside before any step reports
/// the full `MAX_ITERATIONS`; one that stays inside runs the counter down
/// to 1.
pub open spec fn julia_count_spec(first_escape: Option<u16>) -> u16 {
    match first_escape {
        Option::Some(s) => if s < MAX_ITERATIONS - 1 {
            (MAX_ITERATIONS - s) as u16
        } else {
            1u16
        },
        Option::None => 1u16,
    }
}

/// The count a pixel of the given variant reports for its first observed
/// escape step.
pub open spec fn escape_count_spec(variant: FractalVariant, first_escape: Option<u16>) -> u16 {
    match variant {
        FractalVariant::Mandelbrot => mandelbrot_index_spec(first_escape),
        FractalVariant::Julia => julia_count_spec(first_escape),
    }
}

/// Turn a per-pixel escape observation into the variant's reported count.
pub fn escape_count(variant: FractalVariant, first_escape: Option<u16>) -> (count: u16)
    ensures
        count == escape_count_spec(variant, first_escape),
{
    match variant {
        FractalVariant::Mandelbrot => match first_escape {
            Option::Some(t) => if t == 0 {
                0
            } else if t < MAX_ITERATIONS {
                t - 1
            } else {
                MAX_ITERATIONS - 1
            },
            Option::None => MAX_ITERATIONS - 1,
        },
        FractalVariant::Julia => match first_escape {
            Option::Some(s) => if s < MAX_ITERATIONS - 1 {
                MAX_ITERATIONS - s
            } else {
                1
            },
            Option::None => 1,
        },
    }
}

/// Every reported count lies in its variant's band, whatever escape data the
/// orbit produced: Mandelbrot's ascending index stays in
/// [0, MAX_ITERATIONS - 1], Julia's descending counter in
/// [1, MAX_ITERATIONS].
pub proof fn lemma_iteration_result_bands()
    ensures
        forall|e: Option<u16>| #[trigger] mandelbrot_index_spec(e) <= MAX_ITERATIONS - 1,
        forall|e: Option<u16>| 1 <= #[trigger] julia_count_spec(e),
        forall|e: Option<u16>| #[trigger] julia_count_spec(e) <= MAX_ITERATIONS,
{
}

} // verus!
