use vstd::prelude::*;

use crate::power::{Power, WattHours};
use crate::text::{decimal_u64, display_name, display_name_of, parse_decimal_u64};

verus! {

/// Why a tracker could not be built, or a sample could not be taken.
#[derive(Clone, Copy, Debug, PartialEq, Eq, Structural)]
pub enum RaplError {
    /// The domain's name or maximum range could not be read or parsed.
    MetadataUnreadable,
    /// The live counter could not be read or parsed.
    CounterUnreadable,
    /// The counter reads above the domain's declared maximum.
    CounterOutOfRange,
    /// The sample's timestamp is not later than the previous sample's.
    ZeroElapsedTime,
}

/// The state of a tracker as the contracts speak of it.
///
/// A `last_counter` of zero means that no sample has been taken yet: the
/// next sample only seeds the state.
pub struct TrackerView {
    /// The domain's display name.
    pub name: Seq<u8>,
    /// The value at which the counter wraps, in microjoules.
    pub max_counter: u64,
    /// The counter as last read.
    pub last_counter: u64,
    /// When the counter was last read, in nanoseconds.
    pub last_time: u64,
    /// Energy accounted since tracking began, in microjoules.
    pub cumulative_uj: u64,
    /// When cumulative accounting began, in nanoseconds.
    pub start_time: u64,
    /// The highest instantaneous power reported so far.
    pub peak: Power,
}

impl TrackerView {
    /// The last reading lies within the counter's range, accounting began no
    /// later than the last sample, and the peak is a defined power.
    pub open spec fn wf(self) -> bool {
        &&& self.last_counter <= self.max_counter
        &&& self.start_time <= self.last_time
        &&& self.peak.wf()
    }
}

/// The energy consumed between a reading of `last` and a reading of
/// `counter` of a counter that wraps at `max`. The counter is taken to have
/// wrapped exactly once where it went down: several wraps between two
/// samples cannot be told from one.
pub open spec fn energy_delta(max: u64, last: u64, counter: u64) -> int {
    if counter >= last {
        counter - last
    } else {
        counter + (max - last)
    }
}

/// `a + b`, held at `u64::MAX` where it would pass it.
pub open spec fn saturating_sum(a: u64, b: int) -> u64 {
    if a + b > u64::MAX {
        u64::MAX
    } else {
        (a + b) as u64
    }
}

/// What one sample of reading `counter` at time `time` does to state `v`:
/// the new state and the power reported, or the error, in which case the
/// state stays as it was.
pub open spec fn sample_step(v: TrackerView, counter: u64, time: u64) -> Result<
    (TrackerView, Power),
    RaplError,
> {
    if counter > v.max_counter {
        Err(RaplError::CounterOutOfRange)
    } else if v.last_counter == 0 {
        Ok(
            (
                TrackerView { last_counter: counter, last_time: time, start_time: time, ..v },
                Power { energy_uj: 0, elapsed_ns: 1 },
            ),
        )
    } else if time <= v.last_time {
        Err(RaplError::ZeroElapsedTime)
    } else {
        let delta = energy_delta(v.max_counter, v.last_counter, counter);
        let power = Power { energy_uj: delta as u64, elapsed_ns: (time - v.last_time) as u64 };
        Ok(
            (
                TrackerView {
                    last_counter: counter,
                    last_time: time,
                    cumulative_uj: saturating_sum(v.cumulative_uj, delta),
                    peak: if power.spec_exceeds(v.peak) {
                        power
                    } else {
                        v.peak
                    },
                    ..v
                },
                power,
            ),
        )
    }
}

/// The result of [`sample_step`] as an exec function returns it.
pub open spec fn sample_result(v: TrackerView, counter: u64, time: u64) -> Result<Power, RaplError> {
    match sample_step(v, counter, time) {
        Ok((_, p)) => Ok(p),
        Err(e) => Err(e),
    }
}

/// The state after [`sample_step`]: unchanged on an error.
pub open spec fn sample_state(v: TrackerView, counter: u64, time: u64) -> TrackerView {
    match sample_step(v, counter, time) {
        Ok((w, _)) => w,
        Err(_) => v,
    }
}

/// The average power of state `v`: its cumulative energy over the time from
/// the start of accounting to the last sample, while that time is positive.
pub open spec fn average_of(v: TrackerView) -> Option<Power> {
    if v.last_time > v.start_time {
        Some(
            Power {
                energy_uj: v.cumulative_uj,
                elapsed_ns: (v.last_time - v.start_time) as u64,
            },
        )
    } else {
        None
    }
}

/// Tracks one power domain's wrapping energy counter across samples.
pub struct IntelRapl {
    name: Vec<u8>,
    last_energy: u64,
    max_energy_range_uj: u64,
    last_time_ns: u64,
    cumulative_energy_uj: u64,
    cumulative_energy_start_ns: u64,
    max_power: Power,
}

impl View for IntelRapl {
    type V = TrackerView;

    closed spec fn view(&self) -> TrackerView {
        TrackerView {
            name: self.name@,
            max_counter: self.max_energy_range_uj,
            last_counter: self.last_energy,
            last_time: self.last_time_ns,
            cumulative_uj: self.cumulative_energy_uj,
            start_time: self.cumulative_energy_start_ns,
            peak: self.max_power,
        }
    }
}

impl IntelRapl {
    /// Every tracker that the constructors build, and every sample keeps,
    /// is well formed.
    pub open spec fn wf(&self) -> bool {
        self@.wf()
    }

    /// A tracker for a domain named `name` whose counter wraps at
    /// `max_energy_range_uj`, built at time `now_ns`. No sample is taken yet.
    pub fn new(name: Vec<u8>, max_energy_range_uj: u64, now_ns: u64) -> (r: IntelRapl)
        ensures
            r.wf(),
            r@ == (TrackerView {
                name: name@,
                max_counter: max_energy_range_uj,
                last_counter: 0,
                last_time: now_ns,
                cumulative_uj: 0,
                start_time: now_ns,
                peak: Power { energy_uj: 0, elapsed_ns: 1 },
            }),
    {
        IntelRapl {
            name,
            last_energy: 0,
            max_energy_range_uj,
            last_time_ns: now_ns,
            cumulative_energy_uj: 0,
            cumulative_energy_start_ns: now_ns,
            max_power: Power::zero(),
        }
    }

    /// A tracker built from a domain's metadata as read at time `now_ns`:
    /// the name of its directory, the text of its name field and the text of
    /// its maximum range field. The display name is the directory name, a
    /// slash and the trimmed name. A maximum range that is not an unsigned
    /// decimal number fitting in `u64` is an error.
    pub fn from_metadata(dir_name: &[u8], name_text: &[u8], max_range_text: &[u8], now_ns: u64) -> (r:
        Result<IntelRapl, RaplError>)
        ensures
            match decimal_u64(max_range_text@) {
                Some(max) => r matches Ok(t) && t.wf() && t@ == (TrackerView {
                    name: display_name_of(dir_name@, name_text@),
                    max_counter: max,
                    last_counter: 0,
                    last_time: now_ns,
                    cumulative_uj: 0,
                    start_time: now_ns,
                    peak: Power { energy_uj: 0, elapsed_ns: 1 },
                }),
                None => r matches Err(e) && e == RaplError::MetadataUnreadable,
            },
    {
        let name = display_name(dir_name, name_text);
        match parse_decimal_u64(max_range_text) {
            Some(max) => Ok(IntelRapl::new(name, max, now_ns)),
            None => Err(RaplError::MetadataUnreadable),
        }
    }

    /// The domain's display name.
    pub fn name(&self) -> (r: &Vec<u8>)
        ensures
            r@ == self@.name,
    {
        &self.name
    }

    /// Takes a sample: the counter read `energy_uj` at time `time_ns`.
    ///
    /// The first sample only seeds the state and reports zero power. Later
    /// samples report the energy since the previous one over the time since
    /// it, and add that energy to the cumulative total. A counter above the
    /// declared maximum, or a timestamp that is not later than the previous
    /// one, is an error that leaves the state as it was.
    pub fn read_power(&mut self, energy_uj: u64, time_ns: u64) -> (r: Result<Power, RaplError>)
        requires
            old(self).wf(),
        ensures
            final(self).wf(),
            r == sample_result(old(self)@, energy_uj, time_ns),
            final(self)@ == sample_state(old(self)@, energy_uj, time_ns),
            r matches Ok(p) ==> p.wf(),
            (r == Err::<Power, RaplError>(RaplError::CounterOutOfRange)) <==> energy_uj
                > old(self)@.max_counter,
            r is Err ==> final(self)@ == old(self)@,
            old(self)@.last_counter == 0 && energy_uj <= old(self)@.max_counter ==> r == Ok::<
                Power,
                RaplError,
            >(Power { energy_uj: 0, elapsed_ns: 1 }),
            old(self)@.last_counter != 0 && old(self)@.last_counter <= energy_uj
                <= old(self)@.max_counter && time_ns > old(self)@.last_time ==> r == Ok::<
                Power,
                RaplError,
            >(
                Power {
                    energy_uj: (energy_uj - old(self)@.last_counter) as u64,
                    elapsed_ns: (time_ns - old(self)@.last_time) as u64,
                },
            ),
            final(self)@.cumulative_uj >= old(self)@.cumulative_uj,
            !old(self)@.peak.spec_exceeds(final(self)@.peak),
    {
        if energy_uj > self.max_energy_range_uj {
            return Err(RaplError::CounterOutOfRange);
        }
        if self.last_energy == 0 {
            self.cumulative_energy_start_ns = time_ns;
            self.last_energy = energy_uj;
            self.last_time_ns = time_ns;
            return Ok(Power::zero());
        }
        if time_ns <= self.last_time_ns {
            return Err(RaplError::ZeroElapsedTime);
        }
        let delta_energy: u64 = if energy_uj >= self.last_energy {
            energy_uj - self.last_energy
        } else {
            energy_uj + (self.max_energy_range_uj - self.last_energy)
        };
        let power = Power { energy_uj: delta_energy, elapsed_ns: time_ns - self.last_time_ns };
        self.cumulative_energy_uj = self.cumulative_energy_uj.saturating_add(delta_energy);
        self.last_energy = energy_uj;
        self.last_time_ns = time_ns;
        if power.exceeds(&self.max_power) {
            self.max_power = power;
        }
        Ok(power)
    }

    /// Takes a sample from the text of the counter file, read at `time_ns`.
    /// Text that is not an unsigned decimal number fitting in `u64` is an
    /// error that leaves the state as it was; a number is sampled as by
    /// [`IntelRapl::read_power`].
    pub fn read_power_from_text(&mut self, counter_text: &[u8], time_ns: u64) -> (r: Result<
        Power,
        RaplError,
    >)
        requires
            old(self).wf(),
        ensures
            final(self).wf(),
            match decimal_u64(counter_text@) {
                Some(c) => r == sample_result(old(self)@, c, time_ns) && final(self)@
                    == sample_state(old(self)@, c, time_ns),
                None => r == Err::<Power, RaplError>(RaplError::CounterUnreadable) && final(self)@
                    == old(self)@,
            },
    {
        match parse_decimal_u64(counter_text) {
            Some(c) => self.read_power(c, time_ns),
            None => Err(RaplError::CounterUnreadable),
        }
    }

    /// The average power since cumulative accounting began: the cumulative
    /// energy over the time from the start of accounting to the last sample.
    /// `None` while that span is empty, that is before two samples.
    pub fn average_power(&self) -> (r: Option<Power>)
        requires
            self.wf(),
        ensures
            r == average_of(self@),
            r matches Some(p) ==> p.wf(),
    {
        if self.last_time_ns > self.cumulative_energy_start_ns {
            Some(
                Power {
                    energy_uj: self.cumulative_energy_uj,
                    elapsed_ns: self.last_time_ns - self.cumulative_energy_start_ns,
                },
            )
        } else {
            None
        }
    }

    /// The cumulative energy in watt-hours, to the millionth.
    pub fn cumulative_energy_wh(&self) -> (r: WattHours)
        ensures
            r.micro_wh == self@.cumulative_uj / 3600,
    {
        WattHours::from_microjoules(self.cumulative_energy_uj)
    }

    /// The highest instantaneous power reported so far.
    pub fn max_power(&self) -> (r: Power)
        ensures
            r == self@.peak,
    {
        self.max_power
    }

    /// The cumulative energy in microjoules.
    pub fn cumulative_energy_uj(&self) -> (r: u64)
        ensures
            r == self@.cumulative_uj,
    {
        self.cumulative_energy_uj
    }

    /// The counter as last read; zero before the first sample.
    pub fn last_energy(&self) -> (r: u64)
        ensures
            r == self@.last_counter,
    {
        self.last_energy
    }

    /// The value at which the counter wraps.
    pub fn max_energy_range_uj(&self) -> (r: u64)
        ensures
            r == self@.max_counter,
    {
        self.max_energy_range_uj
    }
}

} // verus!
