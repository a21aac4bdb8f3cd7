//! Power and energy figures for RAPL-style energy counters.
//!
//! A power domain exposes a monotonically increasing energy counter, in
//! microjoules, that wraps at a declared maximum. [`IntelRapl`] tracks one
//! such counter across samples and derives instantaneous, average and peak
//! power and cumulative energy from it, in exact integer arithmetic.
//! Reading the counter files and the clock is left to the caller, which hands
//! each reading and its timestamp (in nanoseconds) to the tracker.

mod power;
mod text;
mod tracker;
mod laws;

pub use laws::{
    lemma_average_after_two_samples, lemma_non_wrapping_run, lemma_non_wrapping_sample,
    lemma_not_exceeds_transitive, lemma_run_is_monotone, lemma_sample_is_monotone, non_wrapping, run,
};
pub use power::{Power, WattHours};
pub use text::{
    decimal_u64, digits_value, display_name, display_name_of, is_ascii_digit, is_ascii_space,
    is_space_encoding, is_space_triple, leading_space_len, trailing_space_len,
    parse_decimal_u64, trim_end, trim_start, trimmed, unsigned_part,
};
pub use tracker::{
    average_of, energy_delta, sample_result, sample_state, sample_step, saturating_sum, IntelRapl, RaplError,
    TrackerView,
};
