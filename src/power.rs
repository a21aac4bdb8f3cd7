use vstd::prelude::*;

verus! {

/// A power figure held exactly, as an amount of energy over a span of time:
/// `energy_uj` microjoules over `elapsed_ns` nanoseconds.
///
/// In watts this is `energy_uj * 1e-6 / (elapsed_ns * 1e-9)`, that is
/// `1000 * energy_uj / elapsed_ns`. Two figures with the same ratio are the
/// same power; compare them with [`Power::exceeds`] rather than by fields.
#[derive(Clone, Copy, Debug, PartialEq, Eq, Structural)]
pub struct Power {
    pub energy_uj: u64,
    pub elapsed_ns: u64,
}

impl Power {
    /// A power figure is defined over a positive span of time only.
    pub open spec fn wf(self) -> bool {
        self.elapsed_ns > 0
    }

    /// `self` is a strictly higher power than `other`.
    pub open spec fn spec_exceeds(self, other: Power) -> bool {
        self.energy_uj * other.elapsed_ns > other.energy_uj * self.elapsed_ns
    }

    /// The power that no energy over one nanosecond stands for: zero watts.
    pub fn zero() -> (r: Power)
        ensures
            r.wf(),
            r == (Power { energy_uj: 0, elapsed_ns: 1 }),
    {
        Power { energy_uj: 0, elapsed_ns: 1 }
    }

    /// Whether `self` is a strictly higher power than `other`, compared by
    /// cross-multiplication so that no precision is lost.
    pub fn exceeds(&self, other: &Power) -> (r: bool)
        ensures
            r == self.spec_exceeds(*other),
    {
        let a = self.energy_uj as u128;
        let b = other.elapsed_ns as u128;
        let c = other.energy_uj as u128;
        let d = self.elapsed_ns as u128;
        proof {
            lemma_u64_product_fits(a as int, b as int);
            lemma_u64_product_fits(c as int, d as int);
        }
        a * b > c * d
    }

    /// The power in microwatts, rounded down.
    pub fn microwatts(&self) -> (r: u128)
        requires
            self.wf(),
        ensures
            r == self.energy_uj * 1_000_000_000 / self.elapsed_ns as int,
    {
        let scaled = (self.energy_uj as u128) * 1_000_000_000u128;
        scaled / (self.elapsed_ns as u128)
    }
}

/// The product of two values of `u64` fits in `u128`.
proof fn lemma_u64_product_fits(a: int, b: int)
    requires
        0 <= a <= u64::MAX,
        0 <= b <= u64::MAX,
    ensures
        0 <= a * b <= u128::MAX,
{
    assert(a * b <= u64::MAX * u64::MAX) by (nonlinear_arith)
        requires
            0 <= a <= u64::MAX,
            0 <= b <= u64::MAX,
    ;
    assert(0 <= a * b) by (nonlinear_arith)
        requires
            0 <= a,
            0 <= b,
    ;
}

/// An amount of energy in millionths of a watt-hour.
#[derive(Clone, Copy, Debug, PartialEq, Eq, Structural)]
pub struct WattHours {
    pub micro_wh: u64,
}

impl WattHours {
    /// The energy that `energy_uj` microjoules make, rounded down to the
    /// millionth of a watt-hour: one watt-hour is 3600 joules, so one
    /// millionth of it is 3600 microjoules.
    pub fn from_microjoules(energy_uj: u64) -> (r: WattHours)
        ensures
            r.micro_wh == energy_uj / 3600,
    {
        WattHours { micro_wh: energy_uj / 3600 }
    }
}

} // verus!
