//! The metrics as they are shown.
use crate::app::AppView;
use crate::series::{
    a_sample_comes_behind_the_others, the_newest_is_the_last, SeriesView, TimeSeries,
};
use crate::text::{
    decimal, nearest, numeral, numerals_are_plain, rounded, rounding_is_determined, rounds_to, writes,
};
use vstd::prelude::*;

verus! {

/// What a metric is measured against.
#[derive(Clone, Copy, PartialEq, Eq, Debug)]
pub enum Bound {
    /// Nothing.
    Open,
    /// A limit of its own.
    Limit(u64),
    /// The end of its scale.
    Scale,
}

/// The six metrics in the order in which they are shown, with their bounds.
pub open spec fn metrics(a: AppView) -> Seq<(SeriesView, Bound)> {
    seq![
        (a.gpu_util, Bound::Open),
        (a.fb_used, Bound::Scale),
        (a.gpu_temp, Bound::Open),
        (a.power, Bound::Limit(a.max_power_w)),
        (a.fan_speed, Bound::Open),
        (a.mem_util, Bound::Open),
    ]
}

/// The newest value of a metric, in whole units.
pub open spec fn current_text(s: SeriesView) -> Seq<char> {
    numeral(nearest(s.newest() as nat, s.scale as nat))
}

pub(crate) fn current_value(series: &TimeSeries) -> (s: String)
    requires
        series.scale > 0,
    ensures
        s@ == current_text(series@),
{
    decimal(rounded(series.current(), series.scale))
}

/// There are six metrics: the use of the GPU, its memory, its temperature, its power, the
/// speed of its fan and the use of its memory bandwidth. Power is measured against its limit,
/// and memory against the end of its scale.
pub proof fn metrics_stand_in_order(a: AppView)
    ensures
        metrics(a).len() == 6,
        metrics(a)[0] == (a.gpu_util, Bound::Open),
        metrics(a)[1] == (a.fb_used, Bound::Scale),
        metrics(a)[2] == (a.gpu_temp, Bound::Open),
        metrics(a)[3] == (a.power, Bound::Limit(a.max_power_w)),
        metrics(a)[4] == (a.fan_speed, Bound::Open),
        metrics(a)[5] == (a.mem_util, Bound::Open),
{
}

/// After a sample, the value that is shown reads as the sample in whole units, to the nearest,
/// whatever samples came before.
pub proof fn the_last_sample_is_shown(s: SeriesView, val: u64, r: nat, now: Seq<char>)
    requires
        s.wf(),
        s.capacity > 0,
        rounds_to(val as int, s.scale as int, r as int),
        writes(now, r as int),
    ensures
        current_text(s.pushed(val)) == now,
{
    a_sample_comes_behind_the_others(s, val);
    rounding_is_determined(val as nat, s.scale as nat, r);
    numerals_are_plain(r, now);
}

/// What is shown of a series is its last sample in whole units, to the nearest, and 0 before
/// the first.
pub proof fn the_value_is_that_of_the_last_sample(s: SeriesView, r: nat, now: Seq<char>)
    requires
        s.scale > 0,
        rounds_to(
            if s.data.len() > 0 {
                s.data[s.data.len() - 1] as int
            } else {
                0
            },
            s.scale as int,
            r as int,
        ),
        writes(now, r as int),
    ensures
        current_text(s) == now,
{
    the_newest_is_the_last(s);
    rounding_is_determined(s.newest() as nat, s.scale as nat, r);
    numerals_are_plain(r, now);
}

} // verus!
