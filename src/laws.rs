use vstd::prelude::*;

use crate::power::Power;
use crate::tracker::{average_of, energy_delta, sample_result, sample_state, TrackerView};

verus! {

/// The state after sampling each `(counter, time)` reading of `readings` in
/// turn, starting from `v`. A sample that fails leaves the state as it was.
pub open spec fn run(v: TrackerView, readings: Seq<(u64, u64)>) -> TrackerView
    decreases readings.len(),
{
    if readings.len() == 0 {
        v
    } else {
        let (counter, time) = readings.last();
        sample_state(run(v, readings.drop_last()), counter, time)
    }
}

/// One sample keeps a state well formed, never lowers its cumulative energy
/// and never lowers its peak power.
pub proof fn lemma_sample_is_monotone(v: TrackerView, counter: u64, time: u64)
    requires
        v.wf(),
    ensures
        sample_state(v, counter, time).wf(),
        sample_state(v, counter, time).cumulative_uj >= v.cumulative_uj,
        !v.peak.spec_exceeds(sample_state(v, counter, time).peak),
{
}

/// Of three powers over positive spans of time, none of which exceeds the
/// next, the first does not exceed the last.
pub proof fn lemma_not_exceeds_transitive(a: Power, b: Power, c: Power)
    requires
        a.wf(),
        b.wf(),
        c.wf(),
        !a.spec_exceeds(b),
        !b.spec_exceeds(c),
    ensures
        !a.spec_exceeds(c),
{
    let (ae, at, be, bt, ce, ct) = (
        a.energy_uj as int,
        a.elapsed_ns as int,
        b.energy_uj as int,
        b.elapsed_ns as int,
        c.energy_uj as int,
        c.elapsed_ns as int,
    );
    assert(ae * ct <= ce * at) by (nonlinear_arith)
        requires
            ae >= 0,
            be >= 0,
            ce >= 0,
            at > 0,
            bt > 0,
            ct > 0,
            ae * bt <= be * at,
            be * ct <= ce * bt,
    {
        assert(ae * bt * ct <= be * at * ct);
        assert(be * ct * at <= ce * bt * at);
        assert(ae * ct * bt <= ce * at * bt);
    }
}

/// Over any sequence of samples, the cumulative energy and the peak power
/// after the first `i` readings are at most what they are after the first
/// `j`, for every `i <= j`: neither ever goes down.
pub proof fn lemma_run_is_monotone(v: TrackerView, readings: Seq<(u64, u64)>, i: int, j: int)
    requires
        v.wf(),
        0 <= i <= j <= readings.len(),
    ensures
        run(v, readings.take(j)).wf(),
        run(v, readings.take(i)).cumulative_uj <= run(v, readings.take(j)).cumulative_uj,
        !run(v, readings.take(i)).peak.spec_exceeds(run(v, readings.take(j)).peak),
    decreases j,
{
    if j == 0 {
        assert(readings.take(i) =~= readings.take(0));
    } else if i == j {
        lemma_run_is_monotone(v, readings, 0, j - 1);
        let w = run(v, readings.take(j - 1));
        let (counter, time) = readings[j - 1];
        assert(readings.take(j).drop_last() =~= readings.take(j - 1));
        lemma_sample_is_monotone(w, counter, time);
        assert(!run(v, readings.take(j)).peak.spec_exceeds(run(v, readings.take(j)).peak));
    } else {
        lemma_run_is_monotone(v, readings, i, j - 1);
        let w = run(v, readings.take(j - 1));
        let (counter, time) = readings[j - 1];
        assert(readings.take(j).drop_last() =~= readings.take(j - 1));
        lemma_sample_is_monotone(w, counter, time);
        lemma_run_is_monotone(v, readings, 0, j - 1);
        lemma_run_is_monotone(v, readings, 0, i);
        lemma_not_exceeds_transitive(
            run(v, readings.take(i)).peak,
            w.peak,
            run(v, readings.take(j)).peak,
        );
    }
}

/// A tracker that has not been sampled and has accounted no energy, sampled
/// at `t1` and then at a later `t2`, averages the energy between the two
/// readings over the time between them.
pub proof fn lemma_average_after_two_samples(
    v: TrackerView,
    c1: u64,
    t1: u64,
    c2: u64,
    t2: u64,
)
    requires
        v.wf(),
        v.last_counter == 0,
        v.cumulative_uj == 0,
        0 < c1 <= v.max_counter,
        c2 <= v.max_counter,
        t1 < t2,
    ensures
        average_of(sample_state(sample_state(v, c1, t1), c2, t2)) == Some(
            Power {
                energy_uj: energy_delta(v.max_counter, c1, c2) as u64,
                elapsed_ns: (t2 - t1) as u64,
            },
        ),
{
}

/// Each reading of `readings`, taken after state `v`, has a counter no lower
/// than the one before it and within the counter's range, and a time later
/// than the one before it: the counter never wraps.
pub open spec fn non_wrapping(v: TrackerView, readings: Seq<(u64, u64)>) -> bool {
    forall|i: int|
        0 <= i < readings.len() ==> {
            &&& (#[trigger] readings[i]).0 <= v.max_counter
            &&& i == 0 ==> v.last_counter <= readings[0].0 && v.last_time < readings[0].1
            &&& i > 0 ==> readings[i - 1].0 <= readings[i].0 && readings[i - 1].1 < readings[i].1
        }
}

/// On a tracker that has been seeded, a sample of a counter that has not
/// wrapped reports the counter's advance over the time since the last
/// sample, and adds that advance to the cumulative total, provided the total
/// stays within `u64`.
pub proof fn lemma_non_wrapping_sample(v: TrackerView, counter: u64, time: u64)
    requires
        v.wf(),
        v.last_counter != 0,
        v.last_counter <= counter <= v.max_counter,
        v.last_time < time,
        v.cumulative_uj + (counter - v.last_counter) <= u64::MAX,
    ensures
        sample_result(v, counter, time) == Ok::<Power, crate::tracker::RaplError>(
            Power {
                energy_uj: (counter - v.last_counter) as u64,
                elapsed_ns: (time - v.last_time) as u64,
            },
        ),
        sample_state(v, counter, time).last_counter == counter,
        sample_state(v, counter, time).last_time == time,
        sample_state(v, counter, time).start_time == v.start_time,
        sample_state(v, counter, time).cumulative_uj == v.cumulative_uj + (counter
            - v.last_counter),
{
}

/// Over a sequence of non-wrapping readings on a seeded tracker, every sample
/// succeeds, and the cumulative total grows by exactly the counter's advance
/// from the seed to the last reading, provided that total stays within `u64`.
pub proof fn lemma_non_wrapping_run(v: TrackerView, readings: Seq<(u64, u64)>)
    requires
        v.wf(),
        v.last_counter != 0,
        readings.len() > 0,
        non_wrapping(v, readings),
        v.cumulative_uj + (readings.last().0 - v.last_counter) <= u64::MAX,
    ensures
        run(v, readings).wf(),
        run(v, readings).max_counter == v.max_counter,
        run(v, readings).last_counter == readings.last().0,
        run(v, readings).last_time == readings.last().1,
        run(v, readings).start_time == v.start_time,
        run(v, readings).cumulative_uj == v.cumulative_uj + (readings.last().0 - v.last_counter),
    decreases readings.len(),
{
    let n = readings.len() as int;
    let (counter, time) = readings.last();
    let prefix = readings.drop_last();
    assert(readings[n - 1] == readings.last());
    if n == 1 {
        assert(prefix =~= Seq::<(u64, u64)>::empty());
        assert(run(v, prefix) == v);
        lemma_non_wrapping_sample(v, counter, time);
    } else {
        assert forall|i: int| 0 <= i < prefix.len() implies {
            &&& (#[trigger] prefix[i]).0 <= v.max_counter
            &&& i == 0 ==> v.last_counter <= prefix[0].0 && v.last_time < prefix[0].1
            &&& i > 0 ==> prefix[i - 1].0 <= prefix[i].0 && prefix[i - 1].1 < prefix[i].1
        } by {
            assert(prefix[i] == readings[i]);
            if i > 0 {
                assert(prefix[i - 1] == readings[i - 1]);
            }
        }
        assert(prefix.last() == readings[n - 2]);
        assert(readings[n - 2].0 <= readings[n - 1].0);
        lemma_non_wrapping_monotone_counter(v, readings, n - 2);
        lemma_non_wrapping_run(v, prefix);
        let w = run(v, prefix);
        lemma_non_wrapping_sample(w, counter, time);
    }
}

/// In a non-wrapping sequence no reading's counter is below the seed's.
proof fn lemma_non_wrapping_monotone_counter(v: TrackerView, readings: Seq<(u64, u64)>, k: int)
    requires
        non_wrapping(v, readings),
        0 <= k < readings.len(),
    ensures
        v.last_counter <= readings[k].0,
    decreases k,
{
    assert(readings[k] == readings[k]);
    if k > 0 {
        lemma_non_wrapping_monotone_counter(v, readings, k - 1);
    }
}

} // verus!
