//! Properties of the telemetry state that hold of every input, proved once.

use vstd::prelude::*;
use crate::clock::Timestamp;
use crate::ieee::{billionths_encoding, lift_of, whole_encoding, Double, Single};
use crate::interpolation::{
    bracket_of, interpolation_of, lemma_bracket_indices, Interpolation,
};
use crate::hardware_detection::{HardwareInfo, HardwareMonitor};
use crate::logger::LogLevel;
use crate::model::{below, AppState, Channel, MetricView, Sample, ToF64};
use crate::monitors::generic::generic_channels;
use crate::monitors::nvidia::nvidia_channels;
use crate::monitors::{update_failures, MonitorRegistry, Probe};
use crate::rounding::{
    in_range_at, lemma_scale_at_exists, lemma_scale_at_monotone, scale_at, lemma_at_least, lemma_nearest_even_in_range, lemma_nearest_even_monotone,
    lemma_scale_bound, lemma_scale_exists, lemma_scale_monotone, scale_of, significand_of,
};
use crate::sensors::{first_named, SensorClass};

verus! {

/// Whether no sample of `samples` is below `value`, and some sample is `value`.
pub open spec fn is_minimum_of<T: Sample>(value: T, samples: Seq<(Timestamp, T)>) -> bool {
    &&& exists|i: int| 0 <= i < samples.len() && #[trigger] samples[i].1 == value
    &&& forall|i: int| 0 <= i < samples.len() ==> !below(#[trigger] samples[i].1, value)
}

/// Whether `value` is below no sample of `samples`, and some sample is `value`.
pub open spec fn is_maximum_of<T: Sample>(value: T, samples: Seq<(Timestamp, T)>) -> bool {
    &&& exists|i: int| 0 <= i < samples.len() && #[trigger] samples[i].1 == value
    &&& forall|i: int| 0 <= i < samples.len() ==> !below(value, #[trigger] samples[i].1)
}

/// Whether the times of `samples` never go backwards.
pub open spec fn chronological<T>(samples: Seq<(Timestamp, T)>) -> bool {
    forall|i: int, j: int|
        0 <= i <= j < samples.len() ==> (#[trigger] samples[i]).0.not_after(
            (#[trigger] samples[j]).0,
        )
}

/// After recording any samples in order, the history is exactly those
/// samples, as long as they are, and the current value is the last of them;
/// with no samples, nothing is present.
pub proof fn law_replay_history<T: Sample>(samples: Seq<(Timestamp, T)>)
    ensures
        MetricView::replay(samples).history == samples,
        MetricView::replay(samples).history.len() == samples.len(),
        samples.len() > 0 ==> MetricView::replay(samples).current == Some(samples.last().1),
        samples.len() == 0 ==> MetricView::replay(samples) == MetricView::<T>::empty(),
        samples.len() > 0 ==> MetricView::replay(samples).session_min is Some
            && MetricView::replay(samples).session_max is Some,
    decreases samples.len(),
{
    if samples.len() > 0 {
        law_replay_history(samples.drop_last());
        assert(samples.drop_last().push(samples.last()) =~= samples);
    }
}

/// After recording any samples that all take part in the order, the session
/// minimum is the least of them and the session maximum the greatest.
pub proof fn law_replay_bounds<T: Sample>(samples: Seq<(Timestamp, T)>)
    requires
        samples.len() > 0,
        forall|i: int| 0 <= i < samples.len() ==> (#[trigger] samples[i]).1.ordered(),
    ensures
        MetricView::replay(samples).session_min is Some,
        MetricView::replay(samples).session_max is Some,
        is_minimum_of(MetricView::replay(samples).session_min->0, samples),
        is_maximum_of(MetricView::replay(samples).session_max->0, samples),
    decreases samples.len(),
{
    let earlier = samples.drop_last();
    let value = samples.last().1;
    let after = MetricView::replay(samples);
    if earlier.len() == 0 {
        assert(MetricView::replay(earlier) == MetricView::<T>::empty());
        assert(after.session_min == Some(value));
        assert(after.session_max == Some(value));
        assert(samples[0].1 == value);
    } else {
        law_replay_bounds(earlier);
        let before = MetricView::replay(earlier);
        let min = before.session_min->0;
        let max = before.session_max->0;
        let i_min = choose|i: int| 0 <= i < earlier.len() && #[trigger] earlier[i].1 == min;
        let i_max = choose|i: int| 0 <= i < earlier.len() && #[trigger] earlier[i].1 == max;
        assert(samples[i_min].1 == min);
        assert(samples[i_max].1 == max);
        assert(samples[samples.len() - 1].1 == value);
        assert forall|i: int| 0 <= i < samples.len() implies !below(
            #[trigger] samples[i].1,
            after.session_min->0,
        ) by {
            if i < earlier.len() {
                assert(earlier[i].1 == samples[i].1);
                assert(!below(earlier[i].1, min));
            }
        }
        assert forall|i: int| 0 <= i < samples.len() implies !below(
            after.session_max->0,
            #[trigger] samples[i].1,
        ) by {
            if i < earlier.len() {
                assert(earlier[i].1 == samples[i].1);
                assert(!below(max, earlier[i].1));
            }
        }
    }
}

/// An empty series is consistent, and recording a sample keeps a consistent
/// series consistent: the maximum is never below the minimum and the current
/// value never outside them, whatever is recorded.
pub proof fn law_record_keeps_consistent<T: Sample>(series: MetricView<T>, at: Timestamp, value: T)
    requires
        series.consistent(),
    ensures
        MetricView::<T>::empty().consistent(),
        series.record(at, value).consistent(),
{
}

/// Every series that results from recording samples is consistent.
pub proof fn law_replay_consistent<T: Sample>(samples: Seq<(Timestamp, T)>)
    ensures
        MetricView::replay(samples).consistent(),
    decreases samples.len(),
{
    if samples.len() > 0 {
        law_replay_consistent(samples.drop_last());
        law_record_keeps_consistent(
            MetricView::replay(samples.drop_last()),
            samples.last().0,
            samples.last().1,
        );
    }
}

/// A series that is an update of another, at whatever time, is that other
/// series with one sample recorded.
pub proof fn law_update_is_record<T: Sample>(after: MetricView<T>, before: MetricView<T>, value: T)
    requires
        after.is_update_of(before, value),
    ensures
        after == before.record(after.history.last().0, value),
{
    assert(after.history =~= before.history.push((after.history.last().0, value)));
}

/// A series is itself with no samples recorded, and one more update after
/// some samples is those samples and one more.
pub proof fn law_updates_extend<T: Sample>(
    before: MetricView<T>,
    middle: MetricView<T>,
    after: MetricView<T>,
    values: Seq<T>,
    value: T,
)
    requires
        middle.is_updates_of(before, values),
        after.is_update_of(middle, value),
    ensures
        before.is_updates_of(before, Seq::empty()),
        after.is_updates_of(before, values.push(value)),
{
    assert(before.history.subrange(0, before.history.len() as int) =~= before.history);
    let more = values.push(value);
    assert(more.drop_last() =~= values);
    assert(after.history.drop_last() == middle.history);
    assert(after.history.subrange(0, before.history.len() as int) =~= before.history) by {
        assert forall|k: int| 0 <= k < before.history.len() implies after.history[k]
            == before.history[k] by {
            assert(after.history.drop_last()[k] == middle.history[k]);
            assert(middle.history.subrange(0, before.history.len() as int)[k] == before.history[k]);
        }
    }
    assert forall|k: int| 0 <= k < more.len() implies (#[trigger] after.history[before.history.len()
        + k]).1 == more[k] by {
        if k < values.len() {
            assert(after.history.drop_last()[before.history.len() + k] == middle.history[
                before.history.len() + k]);
        }
    }
}

/// A state that no sample has reached has data in no domain.
pub proof fn law_untouched_state_has_no_data(state: AppState)
    requires
        state.untouched(),
    ensures
        !state.cpu.has_data(),
        !state.gpu.has_data(),
        !state.memory.has_data(),
        !state.storage.has_data(),
        !state.motherboard.has_data(),
{
}

/// A channel has a current value right after an update, whatever it held
/// before, and keeps one through any number of further updates or none.
pub proof fn law_updates_keep_present<T: Sample>(
    after: MetricView<T>,
    before: MetricView<T>,
    value: T,
    sample: Option<T>,
    values: Seq<T>,
)
    ensures
        after.is_update_of(before, value) ==> after.current is Some,
        after.is_update_if(before, sample) && before.current is Some ==> after.current is Some,
        after.is_updates_of(before, values) && before.current is Some ==> after.current is Some,
        after.is_updates_of(before, values) && values.len() > 0 ==> after.current is Some,
{
}

/// A domain that had data still has data in every state that retains the
/// current values: once a channel has been written, later cycles that miss it
/// do not take its domain's data away.
pub proof fn law_retained_data(after: AppState, before: AppState)
    requires
        after.retains(&before),
    ensures
        before.cpu.has_data() ==> after.cpu.has_data(),
        before.gpu.has_data() ==> after.gpu.has_data(),
        before.memory.has_data() ==> after.memory.has_data(),
        before.storage.has_data() ==> after.storage.has_data(),
        before.motherboard.has_data() ==> after.motherboard.has_data(),
{
}

/// Retaining is transitive and holds of a state with itself, so it holds
/// across any number of cycles.
pub proof fn law_retains_composes(first: AppState, second: AppState, third: AppState)
    requires
        second.retains(&first),
        third.retains(&second),
    ensures
        first.retains(&first),
        third.retains(&first),
{
}

/// Whether the times of `data` are numbers that never decrease.
pub open spec fn ascending(data: Seq<(Double, Double)>) -> bool {
    forall|i: int, j: int|
        0 <= i <= j < data.len() ==> (#[trigger] data[i]).0.le_spec((#[trigger] data[j]).0)
}

/// A query has no answer exactly when no sample lies at or before its time
/// and none at or after it; over times that are numbers, and for a time that
/// is a number, that is exactly when there are no samples.
pub proof fn law_no_answer(data: Seq<(Double, Double)>, t: Double)
    ensures
        interpolation_of(data, t) is None <==> forall|i: int|
            0 <= i < data.len() ==> !(#[trigger] data[i]).0.le_spec(t) && !data[i].0.ge_spec(t),
        data.len() == 0 ==> interpolation_of(data, t) is None,
        ascending(data) && !t.is_nan() ==> (interpolation_of(data, t) is None <==> data.len() == 0),
{
    lemma_bracket_indices(data, t, data.len() as int);
    if ascending(data) && !t.is_nan() && data.len() > 0 {
        assert(data[0].0.le_spec(data[0].0));
        assert(data[0].0.le_spec(t) || data[0].0.ge_spec(t));
    }
}

/// Over ascending times, a blend is always between two neighbouring samples
/// whose times enclose the query time strictly: the divisor of the blend is
/// not zero and the weight lies strictly between zero and one.
pub proof fn law_blend_is_between_neighbours(data: Seq<(Double, Double)>, t: Double)
    requires
        ascending(data),
    ensures
        interpolation_of(data, t) matches Some(Interpolation::Blend { t1, v1, t2, v2 }) ==> exists|
            b: int,
        |
            0 <= b && b + 1 < data.len() && #[trigger] data[b] == (t1, v1) && data[b + 1] == (
                t2,
                v2,
            ) && t1.rank() < t.rank() < t2.rank(),
{
    lemma_bracket_indices(data, t, data.len() as int);
    if let Some(Interpolation::Blend { t1, v1, t2, v2 }) = interpolation_of(data, t) {
        let b = bracket_of(data, t).0->0;
        let a = bracket_of(data, t).1->0;
        assert(data[b].0.le_spec(t));
        assert(data[a].0.ge_spec(t));
        if a < b {
            assert(data[a].0.le_spec(data[b].0));
            assert(data[a].0.eq_spec(data[b].0));
        }
        assert(b < a);
        if b + 1 < a {
            assert(data[b + 1].0.le_spec(data[b + 1].0));
            assert(!data[b + 1].0.le_spec(t));
            assert(!data[b + 1].0.ge_spec(t));
        }
        assert(a == b + 1);
        if t1.rank() == t.rank() {
            assert(data[b].0.ge_spec(t));
        }
        if t2.rank() == t.rank() {
            assert(data[a].0.le_spec(t));
        }
        assert(data[b] == (t1, v1));
    }
}

/// Over ascending times, a query at the time of a sample is answered by the
/// value of a sample of that very time, and a query beyond either end by the
/// value of the sample at that end.
pub proof fn law_hits_and_ends(data: Seq<(Double, Double)>, t: Double, k: int)
    requires
        ascending(data),
        0 <= k < data.len(),
    ensures
        data[k].0.eq_spec(t) ==> exists|j: int|
            0 <= j < data.len() && (#[trigger] data[j]).0.eq_spec(t) && interpolation_of(data, t)
                == Some(Interpolation::Sample(data[j].1)),
        !t.is_nan() && t.rank() < data[0].0.rank() ==> interpolation_of(data, t) == Some(
            Interpolation::Sample(data[0].1),
        ),
        !t.is_nan() && data.last().0.rank() < t.rank() ==> interpolation_of(data, t) == Some(
            Interpolation::Sample(data.last().1),
        ),
{
    lemma_bracket_indices(data, t, data.len() as int);
    let last = data.len() - 1;
    assert(data[0].0.le_spec(data[0].0));
    assert(data[last].0.le_spec(data[last].0));
    if data[k].0.eq_spec(t) {
        assert(data[k].0.le_spec(t) && data[k].0.ge_spec(t));
        let b = bracket_of(data, t).0->0;
        let a = bracket_of(data, t).1->0;
        assert(a <= k <= b);
        assert(data[k].0.le_spec(data[b].0));
        assert(data[a].0.le_spec(data[k].0));
        assert(data[b].0.eq_spec(t));
        assert(data[a].0.eq_spec(data[b].0));
    }
    if !t.is_nan() && t.rank() < data[0].0.rank() {
        assert forall|j: int| 0 <= j < data.len() implies !(#[trigger] data[j]).0.le_spec(t) by {
            assert(data[0].0.le_spec(data[j].0));
        }
        assert(data[0].0.ge_spec(t));
    }
    if !t.is_nan() && data[last].0.rank() < t.rank() {
        assert forall|j: int| 0 <= j < data.len() implies !(#[trigger] data[j]).0.ge_spec(t) by {
            assert(data[j].0.le_spec(data[last].0));
        }
        assert(data[last].0.le_spec(t));
    }
}

/// The first sensor named by a class, among the first `n`, is a sensor that
/// the class names and before which it names none; none is found only where
/// the class names none of them.
pub proof fn law_first_named(sensors: Seq<(Seq<char>, Single)>, class: SensorClass, n: int)
    requires
        0 <= n <= sensors.len(),
    ensures
        match first_named(sensors, class, n) {
            Some(i) => 0 <= i < n && class.names(sensors[i].0) && forall|j: int|
                0 <= j < i ==> !class.names((#[trigger] sensors[j]).0),
            None => forall|j: int| 0 <= j < n ==> !class.names((#[trigger] sensors[j]).0),
        },
    decreases n,
{
    if n > 0 {
        law_first_named(sensors, class, n - 1);
    }
}

/// An integer of no more binary digits than a significand has is converted
/// exactly: the significand at its scale is the integer itself. With `low`
/// two to the 23 that is every integer below two to the 24 in single
/// precision, and with two to the 52 every integer below two to the 53 in
/// double precision.
pub proof fn law_short_integers_are_exact(n: int, low_digits: nat)
    requires
        low_digits <= 63,
        0 < n < 2 * vstd::arithmetic::power2::pow2(low_digits),
    ensures
        significand_of(n, 1, vstd::arithmetic::power2::pow2(low_digits) as int) * (
        vstd::arithmetic::power2::pow2(
            scale_of(n, 1, vstd::arithmetic::power2::pow2(low_digits) as int),
        )) == n * 0x1_0000_0000_0000_0000,
{
    let low = vstd::arithmetic::power2::pow2(low_digits) as int;
    let whole: int = 0x1_0000_0000_0000_0000;
    vstd::arithmetic::power2::lemma2_to64();
    vstd::arithmetic::power2::lemma_pow2_pos(low_digits);
    if low_digits < 63 {
        vstd::arithmetic::power2::lemma_pow2_strictly_increases(low_digits, 63);
    }
    vstd::arithmetic::power2::lemma2_to64_rest();
    lemma_at_least(n, 1, whole);
    lemma_scale_exists(n, 1, low);
    let s = scale_of(n, 1, low);
    let unit = vstd::arithmetic::power2::pow2(s) as int;
    vstd::arithmetic::power2::lemma_pow2_pos(s);
    assert(1int * vstd::arithmetic::power2::pow2(s) == unit);
    if s > 64 {
        vstd::arithmetic::power2::lemma_pow2_unfold(65);
        if s > 65 {
            vstd::arithmetic::power2::lemma_pow2_strictly_increases(65, s);
        }
        lemma_at_least(unit, 2 * whole, low);
        lemma_at_least(2 * low, n + 1, whole);
        assert((2 * whole) * low == (2 * low) * whole) by (nonlinear_arith);
        assert(unit * low == low * unit) by (nonlinear_arith);
    }
    vstd::arithmetic::power2::lemma_pow2_adds(s, (64 - s) as nat);
    let rest = vstd::arithmetic::power2::pow2((64 - s) as nat) as int;
    assert(n * whole == unit * (n * rest)) by (nonlinear_arith)
        requires
            whole == unit * rest,
    ;
    assert(n * whole == (n * rest) * unit) by (nonlinear_arith)
        requires
            whole == unit * rest,
    ;
    vstd::arithmetic::div_mod::lemma_div_multiples_vanish(n * rest, unit);
    vstd::arithmetic::div_mod::lemma_mod_multiples_basic(n * rest, unit);
}

/// The encodings of the doubles nearest to integers that are not negative
/// keep the order of the integers, and none of them is an infinity or "not a
/// number".
pub proof fn law_whole_encoding_monotone(m: int, n: int)
    requires
        0 <= m <= n < 0x1_0000_0000_0000_0000,
    ensures
        0 <= whole_encoding(m) <= whole_encoding(n) < 0x7ff0_0000_0000_0000,
{
    let low: int = 0x10_0000_0000_0000;
    vstd::arithmetic::power2::lemma2_to64();
    vstd::arithmetic::power2::lemma2_to64_rest();
    if n > 0 {
        lemma_scale_exists(n, 1, low);
        let b = scale_of(n, 1, low);
        let unit_b: int = 1int * vstd::arithmetic::power2::pow2(b);
        lemma_scale_bound(n, 1, 52, b);
        lemma_nearest_even_in_range(n * 0x1_0000_0000_0000_0000, unit_b, low);
        if m > 0 {
            lemma_scale_exists(m, 1, low);
            let a = scale_of(m, 1, low);
            let unit_a: int = 1int * vstd::arithmetic::power2::pow2(a);
            lemma_scale_monotone(m, n, 1, low, a, b);
            lemma_nearest_even_in_range(m * 0x1_0000_0000_0000_0000, unit_a, low);
            if a == b {
                lemma_nearest_even_monotone(
                    m * 0x1_0000_0000_0000_0000,
                    n * 0x1_0000_0000_0000_0000,
                    unit_b,
                );
            } else {
                lemma_at_least(b as int + 1011, a as int + 1012, low);
            }
        }
        lemma_at_least(1087, b as int + 1011, low);
    }
}

/// The doubles nearest to integers keep the order of the integers.
pub proof fn law_nearest_double_monotone(a: int, b: int)
    requires
        -0x8000_0000_0000_0000 <= a <= b <= 0x8000_0000_0000_0000,
    ensures
        Double::nearest_to_int(a).le_spec(Double::nearest_to_int(b)),
        !Double::nearest_to_int(a).is_nan(),
{
    if a >= 0 {
        law_whole_encoding_monotone(a, b);
    } else if b >= 0 {
        law_whole_encoding_monotone(0, -a);
        law_whole_encoding_monotone(0, b);
    } else {
        law_whole_encoding_monotone(-b, -a);
    }
}

/// A later time is never fewer whole seconds from an origin than an earlier
/// one.
pub proof fn law_elapsed_seconds_ascending(earlier: Timestamp, later: Timestamp, origin: Timestamp)
    requires
        earlier.not_after(later),
    ensures
        earlier.elapsed_since(origin) <= later.elapsed_since(origin),
        earlier.nanos_since(origin) <= later.nanos_since(origin),
{
}

/// A scale at which a numerator below two to the 256 lies in the range of
/// two to the 52 over one thousand million is below 256.
proof fn lemma_billionths_scale_bound(n: int, scale: nat)
    requires
        0 < n < 0x1_0000_0000_0000_0000_0000_0000_0000_0000_0000_0000_0000_0000_0000_0000_0000_0000int,
        in_range_at(n, 1_000_000_000, scale, 0x10_0000_0000_0000),
    ensures
        scale < 256,
{
    let pow2 = |e: nat| vstd::arithmetic::power2::pow2(e);
    crate::rounding::lemma_pow2_128();
    vstd::arithmetic::power2::lemma_pow2_adds(128, 128);
    if scale >= 256 {
        if scale > 256 {
            vstd::arithmetic::power2::lemma_pow2_strictly_increases(256, scale);
        }
        assert(pow2(256) == 0x1_0000_0000_0000_0000_0000_0000_0000_0000_0000_0000_0000_0000_0000_0000_0000_0000int);
        assert(pow2(scale) >= pow2(256));
        assert(0x10_0000_0000_0000 * (1_000_000_000 * pow2(scale)) >= pow2(scale));
    }
}

/// The encodings of the doubles nearest to billionths that are not negative
/// keep the order of the billionths, and none of them is an infinity or "not
/// a number".
pub proof fn law_billionths_encoding_monotone(m: int, n: int)
    requires
        0 <= m <= n <= 0x8000_0000_0000_0000_0000_0000_0000_0000,
    ensures
        0 <= billionths_encoding(m) <= billionths_encoding(n) < 0x7ff0_0000_0000_0000,
{
    let low: int = 0x10_0000_0000_0000;
    let unit: int = 1_000_000_000;
    let wide: int = 0x1_0000_0000_0000_0000_0000_0000_0000_0000int;
    vstd::arithmetic::power2::lemma2_to64();
    if n > 0 {
        lemma_scale_at_exists(n * wide, unit, low);
        let b = scale_at(n * wide, unit, low);
        let unit_b: int = unit * vstd::arithmetic::power2::pow2(b);
        lemma_billionths_scale_bound(n * wide, b);
        assert(2 * low * unit_b == 2 * (low * unit_b)) by (nonlinear_arith);
        vstd::arithmetic::power2::lemma_pow2_pos(b);
        lemma_nearest_even_in_range(n * wide, unit_b, low);
        if m > 0 {
            lemma_scale_at_exists(m * wide, unit, low);
            let a = scale_at(m * wide, unit, low);
            let unit_a: int = unit * vstd::arithmetic::power2::pow2(a);
            lemma_scale_at_monotone(m * wide, n * wide, unit, low, a, b);
            vstd::arithmetic::power2::lemma_pow2_pos(a);
            lemma_nearest_even_in_range(m * wide, unit_a, low);
            if a == b {
                lemma_nearest_even_monotone(m * wide, n * wide, unit_b);
            } else {
                lemma_at_least(b as int + 947, a as int + 948, low);
            }
        }
        lemma_at_least(1203, b as int + 947, low);
    }
}

/// The doubles nearest to billionths keep the order of the billionths.
pub proof fn law_nearest_billionths_monotone(a: int, b: int)
    requires
        -0x8000_0000_0000_0000_0000_0000_0000_0000 <= a <= b
            <= 0x8000_0000_0000_0000_0000_0000_0000_0000,
    ensures
        Double::nearest_to_billionths(a).le_spec(Double::nearest_to_billionths(b)),
        !Double::nearest_to_billionths(a).is_nan(),
{
    if a >= 0 {
        law_billionths_encoding_monotone(a, b);
    } else if b >= 0 {
        law_billionths_encoding_monotone(0, -a);
        law_billionths_encoding_monotone(0, b);
    } else {
        law_billionths_encoding_monotone(-b, -a);
    }
}

/// The plot points are as many as the history entries, and their seconds
/// never decrease when the history is chronological.
pub proof fn law_plot_points_ascending<T: Sample + ToF64>(series: MetricView<T>, origin: Timestamp)
    requires
        chronological(series.history),
        origin.valid(),
        forall|i: int| 0 <= i < series.history.len() ==> (#[trigger] series.history[i]).0.valid(),
    ensures
        series.plot_points(origin).len() == series.history.len(),
        forall|i: int, j: int|
            0 <= i <= j < series.history.len() ==> (#[trigger] series.plot_points(origin)[i]).0.le_spec(
                (#[trigger] series.plot_points(origin)[j]).0,
            ),
{
    assert forall|i: int, j: int| 0 <= i <= j < series.history.len() implies (
    #[trigger] series.plot_points(origin)[i]).0.le_spec(
        (#[trigger] series.plot_points(origin)[j]).0,
    ) by {
        assert(series.history[i].0.not_after(series.history[j].0));
        crate::clock::lemma_valid_distance(series.history[i].0, origin);
        crate::clock::lemma_valid_distance(series.history[j].0, origin);
        law_nearest_billionths_monotone(
            series.history[i].0.nanos_since(origin),
            series.history[j].0.nanos_since(origin),
        );
    }
}

/// The lift of a subnormal fraction is from 1 to 23 digits, and brings the
/// fraction to 24 digits exactly.
proof fn lemma_lift_of(fraction: int, from: nat)
    requires
        1 <= fraction < 0x80_0000,
        1 <= from <= 23,
        fraction * vstd::arithmetic::power2::pow2((from - 1) as nat) < 0x80_0000,
    ensures
        from <= lift_of(fraction, from) <= 23,
        0x80_0000 <= fraction * vstd::arithmetic::power2::pow2(lift_of(fraction, from))
            < 0x100_0000,
    decreases 24 - from,
{
    let pow2 = |e: nat| vstd::arithmetic::power2::pow2(e);
    vstd::arithmetic::power2::lemma_pow2_unfold(from);
    assert(fraction * (2 * pow2((from - 1) as nat)) == 2 * (fraction * pow2((from - 1) as nat)))
        by (nonlinear_arith);
    if fraction * pow2(from) < 0x80_0000 {
        if from == 23 {
            vstd::arithmetic::power2::lemma2_to64();
            lemma_at_least(fraction, 1, 0x80_0000);
        }
        lemma_lift_of(fraction, from + 1);
    }
}

/// The lift of a subnormal fraction, counted from one digit.
proof fn lemma_lift(fraction: int)
    requires
        1 <= fraction < 0x80_0000,
    ensures
        1 <= lift_of(fraction, 1) <= 23,
        0x80_0000 <= fraction * vstd::arithmetic::power2::pow2(lift_of(fraction, 1)) < 0x100_0000,
{
    vstd::arithmetic::power2::lemma2_to64();
    assert(fraction * vstd::arithmetic::power2::pow2(0) == fraction) by (nonlinear_arith)
        requires
            vstd::arithmetic::power2::pow2(0) == 1,
    ;
    lemma_lift_of(fraction, 1);
}

/// Widening a single-precision number keeps what it is and where it stands:
/// "not a number" stays one, and of two numbers the lower stays the lower.
pub proof fn law_widening_keeps_order(a: Single, b: Single)
    ensures
        Double::widened(a).is_nan() == a.is_nan(),
        !a.is_nan() && !b.is_nan() ==> (a.rank() < b.rank() <==> Double::widened(a).rank()
            < Double::widened(b).rank()),
{
    lemma_widened_magnitude(a);
    lemma_widened_magnitude(b);
    if !a.is_nan() && !b.is_nan() {
        if a.magnitude() < b.magnitude() {
            lemma_widened_ascends(a, b);
        } else if b.magnitude() < a.magnitude() {
            lemma_widened_ascends(b, a);
        }
    }
}

/// The magnitude of a widened number: below two to the 63, zero exactly for
/// a zero, and above that of the infinity exactly for "not a number"; the
/// sign bit is kept.
proof fn lemma_widened_magnitude(a: Single)
    ensures
        Double::widened(a).negative() == a.negative(),
        Double::widened(a).is_nan() == a.is_nan(),
        0 <= Double::widened(a).magnitude() < 0x8000_0000_0000_0000,
        Double::widened(a).magnitude() == 0 <==> a.magnitude() == 0,
        a.magnitude() == 0x7f80_0000 ==> Double::widened(a).magnitude() == 0x7ff0_0000_0000_0000,
        0 < a.magnitude() < 0x80_0000 ==> Double::widened(a).magnitude() == (897 - lift_of(
            a.magnitude(),
            1,
        )) * 0x10_0000_0000_0000 + (a.magnitude() * vstd::arithmetic::power2::pow2(
            lift_of(a.magnitude(), 1),
        ) - 0x80_0000) * 0x2000_0000,
        0x80_0000 <= a.magnitude() < 0x7f80_0000 ==> Double::widened(a).magnitude()
            == a.magnitude() * 0x2000_0000 + 896 * 0x10_0000_0000_0000,
{
    let field = a.magnitude() / 0x80_0000;
    let fraction = a.magnitude() % 0x80_0000;
    vstd::arithmetic::power2::lemma2_to64();
    if field == 0 && fraction != 0 {
        lemma_lift(fraction);
    }
}

/// Of two numbers that are not "not a number", the one with the lower
/// magnitude has the lower widened magnitude.
proof fn lemma_widened_ascends(a: Single, b: Single)
    requires
        !a.is_nan(),
        !b.is_nan(),
        a.magnitude() < b.magnitude(),
    ensures
        Double::widened(a).magnitude() < Double::widened(b).magnitude(),
{
    let pow2 = |e: nat| vstd::arithmetic::power2::pow2(e);
    lemma_widened_magnitude(a);
    lemma_widened_magnitude(b);
    vstd::arithmetic::power2::lemma2_to64();
    let x = a.magnitude();
    let y = b.magnitude();
    if 0 < x && y < 0x80_0000 {
        lemma_lift(x);
        lemma_lift(y);
        let i = lift_of(x, 1);
        let j = lift_of(y, 1);
        if i < j {
            vstd::arithmetic::power2::lemma_pow2_unfold(i + 1);
            if i + 1 < j {
                vstd::arithmetic::power2::lemma_pow2_strictly_increases(i + 1, j);
            }
            lemma_at_least(pow2(j) as int, (2 * pow2(i)) as int, y);
            lemma_at_least(y, x, (2 * pow2(i)) as int);
            assert(x * (2 * pow2(i)) == 2 * (x * pow2(i))) by (nonlinear_arith);
            assert(pow2(j) * y == y * pow2(j)) by (nonlinear_arith);
            assert((2 * pow2(i)) * y == y * (2 * pow2(i))) by (nonlinear_arith);
        } else if i == j {
            lemma_at_least(y, x + 1, pow2(i) as int);
            assert((x + 1) * pow2(i) == x * pow2(i) + pow2(i)) by (nonlinear_arith);
            vstd::arithmetic::power2::lemma_pow2_pos(i);
        }
    } else if 0 < x && x < 0x80_0000 {
        lemma_lift(x);
    } else if x == 0 && y < 0x80_0000 {
        lemma_lift(y);
    }
}

/// Whether `monitors` are one monitor of every kind in the order in which
/// the library registers them: for NVIDIA, AMD, Intel and Apple hardware,
/// and the fallback last.
pub open spec fn standard_monitors(monitors: Seq<Probe>) -> bool {
    &&& monitors.len() == 5
    &&& monitors[0] is Nvidia
    &&& monitors[1] is Amd
    &&& monitors[2] is Intel
    &&& monitors[3] is Apple
    &&& monitors[4] is Generic
}

/// Initializing the standard monitors, for whatever hardware, leaves them
/// the standard monitors with the fallback initialized: it applies to every
/// hardware, and its initialization always succeeds.
pub proof fn law_fallback_is_initialized(
    after: Seq<Probe>,
    before: Seq<Probe>,
    info: &HardwareInfo,
    log_before: Seq<(LogLevel, Seq<char>)>,
    log_after: Seq<(LogLevel, Seq<char>)>,
)
    requires
        standard_monitors(before),
        MonitorRegistry::<Probe>::initialization_of(after, before, info, log_before, log_after),
    ensures
        standard_monitors(after),
        after[4].is_initialized(),
{
    let (outcomes, logs, own) = choose|
        outcomes: Seq<Result<(), crate::hardware::HardwareError>>,
        logs: Seq<Seq<(LogLevel, Seq<char>)>>,
        own: Seq<Seq<(LogLevel, Seq<char>)>>,
    |
        {
            &&& #[trigger] MonitorRegistry::<Probe>::initialized_as(
                after,
                before,
                info,
                outcomes,
                logs,
                own,
            )
            &&& logs[0] == log_before
            &&& logs[before.len() as int] == log_after
        };
    assert(before[0].supports(info) || after[0] == before[0]);
    assert(before[1].supports(info) || after[1] == before[1]);
    assert(before[2].supports(info) || after[2] == before[2]);
    assert(before[3].supports(info) || after[3] == before[3]);
    assert(before[4].supports(info));
    assert(after[4].initializes(&before[4], outcomes[4], logs[4], own[4]));
}

/// One cycle of the standard monitors with the fallback initialized gives
/// the processor load and the memory in use one sample each, changes
/// nothing outside the channels of the NVIDIA monitor and of the fallback,
/// and logs nothing.
pub proof fn law_standard_cycle_samples(
    after: Seq<Probe>,
    before: Seq<Probe>,
    state_before: AppState,
    state_after: AppState,
    log_before: Seq<(LogLevel, Seq<char>)>,
    log_after: Seq<(LogLevel, Seq<char>)>,
)
    requires
        standard_monitors(before),
        before[4].is_initialized(),
        MonitorRegistry::<Probe>::cycle_of(
            after,
            before,
            state_before,
            state_after,
            log_before,
            log_after,
        ),
    ensures
        standard_monitors(after),
        after[4].is_initialized(),
        state_after.cpu.utilization@.history.len() == state_before.cpu.utilization@.history.len()
            + 1,
        state_after.memory.utilization_mb@.history.len()
            == state_before.memory.utilization_mb@.history.len() + 1,
        state_after.cpu.utilization.present(),
        state_after.memory.utilization_mb.present(),
        state_after.same_except(&state_before, nvidia_channels().union(generic_channels())),
        log_after == log_before,
{
    let (states, outcomes) = choose|
        states: Seq<AppState>,
        outcomes: Seq<Result<(), crate::hardware::HardwareError>>,
    |
        {
            &&& #[trigger] MonitorRegistry::<Probe>::updated_as(after, before, states, outcomes)
            &&& states[0] == state_before
            &&& states[before.len() as int] == state_after
            &&& log_after == log_before + update_failures(outcomes, before.len() as int)
        };
    assert(after[0].updates(&before[0], states[0], states[1], outcomes[0]));
    assert(after[1].updates(&before[1], states[1], states[2], outcomes[1]));
    assert(after[2].updates(&before[2], states[2], states[3], outcomes[2]));
    assert(after[3].updates(&before[3], states[3], states[4], outcomes[3]));
    assert(after[4].updates(&before[4], states[4], states[5], outcomes[4]));
    assert(states[2] == states[1]);
    assert(states[3] == states[1]);
    assert(states[4] == states[1]);
    let touched = nvidia_channels().union(generic_channels());
    assert(states[1].same_except(&states[0], nvidia_channels()));
    assert forall|channel: Channel| !touched.contains(channel) implies #[trigger] state_after.series(
        channel,
    ) == state_before.series(channel) by {
        assert(states[1].series(channel) == states[0].series(channel));
        assert(states[5].series(channel) == states[4].series(channel));
    }
    assert(states[1].series(Channel::CpuUtilization) == states[0].series(Channel::CpuUtilization));
    assert(states[1].series(Channel::MemoryUtilization) == states[0].series(
        Channel::MemoryUtilization,
    ));
    assert(update_failures(outcomes, 5) =~= Seq::empty()) by {
        assert(update_failures(outcomes, 0) =~= Seq::empty());
        assert(update_failures(outcomes, 1) == update_failures(outcomes, 0));
        assert(update_failures(outcomes, 2) == update_failures(outcomes, 1));
        assert(update_failures(outcomes, 3) == update_failures(outcomes, 2));
        assert(update_failures(outcomes, 4) == update_failures(outcomes, 3));
        assert(update_failures(outcomes, 5) == update_failures(outcomes, 4));
    }
    assert(log_after =~= log_before);
}

} // verus!
