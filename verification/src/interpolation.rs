//! Looking up the value of a sparse series at an arbitrary time.
//!
//! A series is a list of `(time, value)` samples. A query time is bracketed by
//! the last sample at or before it and the first sample at or after it; the
//! bracket decides whether one sample answers the query or two are blended.
//! The blend itself is floating-point arithmetic and is left to the caller.

use vstd::prelude::*;
use crate::ieee::Double;

verus! {

/// The last index below `n` whose time is at or before `t`, if there is one.
pub open spec fn last_at_or_before(data: Seq<(Double, Double)>, t: Double, n: int) -> Option<int>
    decreases n,
{
    if n <= 0 {
        None
    } else if data[n - 1].0.le_spec(t) {
        Some(n - 1)
    } else {
        last_at_or_before(data, t, n - 1)
    }
}

/// The first index below `n` whose time is at or after `t`, if there is one.
pub open spec fn first_at_or_after(data: Seq<(Double, Double)>, t: Double, n: int) -> Option<int>
    decreases n,
{
    if n <= 0 {
        None
    } else {
        match first_at_or_after(data, t, n - 1) {
            Some(i) => Some(i),
            None => if data[n - 1].0.ge_spec(t) {
                Some(n - 1)
            } else {
                None
            },
        }
    }
}

/// The samples around a query time, by index.
#[derive(Clone, Copy, Debug, PartialEq, Eq, Structural)]
pub struct Bracket {
    /// The last sample at or before the query time.
    pub before: Option<usize>,
    /// The first sample at or after the query time.
    pub after: Option<usize>,
}

/// How a query is answered.
#[derive(Clone, Copy, Debug, PartialEq, Eq, Structural)]
pub enum Interpolation {
    /// By the value of one sample, as it is.
    Sample(Double),
    /// By the line through two samples `(t1, v1)` and `(t2, v2)`, at the query
    /// time `t`: `v1 + (t - t1) / (t2 - t1) * (v2 - v1)`.
    Blend { t1: Double, v1: Double, t2: Double, v2: Double },
}

/// The bracket of `t` in `data`, as a mathematical value.
pub open spec fn bracket_of(data: Seq<(Double, Double)>, t: Double) -> (Option<int>, Option<int>) {
    (last_at_or_before(data, t, data.len() as int), first_at_or_after(data, t, data.len() as int))
}

/// The answer to a query at `t` over `data`:
/// - nothing, when no sample is at or before `t` and none at or after it
///   (always so for an empty series);
/// - the sample's value, when the same sample is both, or only one side has a
///   sample (the series is extended flat beyond its ends);
/// - the earlier value, when the two samples differ but their times are equal;
/// - otherwise the blend of the two samples.
pub open spec fn interpolation_of(data: Seq<(Double, Double)>, t: Double) -> Option<Interpolation> {
    match bracket_of(data, t) {
        (Some(b), Some(a)) => if b == a || data[a].0.eq_spec(data[b].0) {
            Some(Interpolation::Sample(data[b].1))
        } else {
            Some(
                Interpolation::Blend {
                    t1: data[b].0,
                    v1: data[b].1,
                    t2: data[a].0,
                    v2: data[a].1,
                },
            )
        },
        (Some(b), None) => Some(Interpolation::Sample(data[b].1)),
        (None, Some(a)) => Some(Interpolation::Sample(data[a].1)),
        (None, None) => None,
    }
}

/// An index found below `n` is below `n`, holds a time on the right side of
/// `t`, and no index beyond it (for the last) or before it (for the first)
/// does.
pub proof fn lemma_bracket_indices(data: Seq<(Double, Double)>, t: Double, n: int)
    requires
        0 <= n <= data.len(),
    ensures
        match last_at_or_before(data, t, n) {
            Some(b) => 0 <= b < n && data[b].0.le_spec(t) && forall|j: int|
                b < j < n ==> !(#[trigger] data[j]).0.le_spec(t),
            None => forall|j: int| 0 <= j < n ==> !(#[trigger] data[j]).0.le_spec(t),
        },
        match first_at_or_after(data, t, n) {
            Some(a) => 0 <= a < n && data[a].0.ge_spec(t) && forall|j: int|
                0 <= j < a ==> !(#[trigger] data[j]).0.ge_spec(t),
            None => forall|j: int| 0 <= j < n ==> !(#[trigger] data[j]).0.ge_spec(t),
        },
    decreases n,
{
    if n > 0 {
        lemma_bracket_indices(data, t, n - 1);
    }
}

/// Finds the samples around `target_time`: the last one whose time is at or
/// before it and the first one whose time is at or after it.
pub fn locate(data: &[(Double, Double)], target_time: Double) -> (bracket: Bracket)
    ensures
        (match bracket.before {
            Some(b) => Some(b as int),
            None => None,
        }) == bracket_of(data@, target_time).0,
        (match bracket.after {
            Some(a) => Some(a as int),
            None => None,
        }) == bracket_of(data@, target_time).1,
        bracket.before matches Some(b) ==> b < data@.len(),
        bracket.after matches Some(a) ==> a < data@.len(),
{
    let mut before: Option<usize> = None;
    let mut after: Option<usize> = None;
    let mut i: usize = 0;
    while i < data.len()
        invariant
            i <= data@.len(),
            (match before {
                Some(b) => Some(b as int),
                None => None,
            }) == last_at_or_before(data@, target_time, i as int),
            (match after {
                Some(a) => Some(a as int),
                None => None,
            }) == first_at_or_after(data@, target_time, i as int),
            before matches Some(b) ==> b < i,
            after matches Some(a) ==> a < i,
        decreases data.len() - i,
    {
        let time = data[i].0;
        if time.le(target_time) {
            before = Some(i);
        }
        if after.is_none() && time.ge(target_time) {
            after = Some(i);
        }
        i += 1;
    }
    Bracket { before, after }
}

/// Answers a query at `target_time` over `data`.
pub fn interpolate_data_value(data: &[(Double, Double)], target_time: Double) -> (answer: Option<
    Interpolation,
>)
    ensures
        answer == interpolation_of(data@, target_time),
        data@.len() == 0 ==> answer is None,
{
    let bracket = locate(data, target_time);
    match (bracket.before, bracket.after) {
        (Some(before), Some(after)) => {
            let (t1, v1) = data[before];
            let (t2, v2) = data[after];
            if before == after || t2.eq_value(t1) {
                Some(Interpolation::Sample(v1))
            } else {
                Some(Interpolation::Blend { t1, v1, t2, v2 })
            }
        },
        (Some(before), None) => Some(Interpolation::Sample(data[before].1)),
        (None, Some(after)) => Some(Interpolation::Sample(data[after].1)),
        (None, None) => None,
    }
}

} // verus!
