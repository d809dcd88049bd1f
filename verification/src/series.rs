//! The recent history of one metric.
use crate::style::Color;
use vstd::prelude::*;

verus! {

/// The bytes of one sample.
pub const SAMPLE_BYTES: usize = 8;

/// The bytes of one point of a chart.
pub const POINT_BYTES: usize = 16;

/// The largest number up to which a double represents every whole number exactly.
pub const MAX_EXACT: u64 = 0x20_0000_0000_0000;

/// The last samples of a metric, oldest first. A sample counts `1 / scale` of the unit.
#[derive(Debug)]
pub struct TimeSeries {
    pub label: &'static str,
    pub unit: &'static str,
    pub data: Vec<u64>,
    pub scale: u64,
    pub max_val: u64,
    pub color: Color,
    pub capacity: usize,
}

/// The model of a [`TimeSeries`].
#[verifier::ext_equal]
pub struct SeriesView {
    pub label: Seq<char>,
    pub unit: Seq<char>,
    pub data: Seq<u64>,
    pub scale: u64,
    pub max_val: u64,
    pub color: Color,
    pub capacity: usize,
}

impl View for TimeSeries {
    type V = SeriesView;

    open spec fn view(&self) -> SeriesView {
        SeriesView {
            label: self.label@,
            unit: self.unit@,
            data: self.data@,
            scale: self.scale,
            max_val: self.max_val,
            color: self.color,
            capacity: self.capacity,
        }
    }
}

impl SeriesView {
    /// The series holds no more samples than its capacity, and its chart can be held in memory.
    pub open spec fn wf(self) -> bool {
        &&& self.data.len() <= self.capacity
        &&& self.capacity * POINT_BYTES <= isize::MAX
        &&& self.scale > 0
    }

    /// Every sample and the maximum are exact as doubles.
    pub open spec fn exact(self) -> bool {
        &&& self.max_val <= MAX_EXACT
        &&& forall|i: int| 0 <= i < self.data.len() ==> #[trigger] self.data[i] <= MAX_EXACT
    }

    /// The series after a further sample: the oldest one leaves when there is no room.
    pub open spec fn pushed(self, val: u64) -> SeriesView {
        let longer = self.data.push(val);
        SeriesView {
            data: if longer.len() > self.capacity { longer.drop_first() } else { longer },
            ..self
        }
    }

    /// The newest sample, 0 before the first.
    pub open spec fn newest(self) -> u64 {
        if self.data.len() > 0 {
            self.data.last()
        } else {
            0
        }
    }

    /// What stands at each slot of the chart: the samples end at the right edge, zeros fill
    /// the slots before them.
    pub open spec fn chart(self) -> Seq<(usize, u64)> {
        Seq::new(
            self.capacity as nat,
            |i: int|
                {
                    let first = self.capacity - self.data.len();
                    (
                        i as usize,
                        if i < first {
                            0u64
                        } else {
                            self.data[i - first]
                        },
                    )
                },
        )
    }

    /// The series after several further samples.
    pub open spec fn pushed_all(self, vals: Seq<u64>) -> SeriesView
        decreases vals.len(),
    {
        if vals.len() == 0 {
            self
        } else {
            self.pushed_all(vals.drop_last()).pushed(vals.last())
        }
    }
}

impl TimeSeries {
    /// A series without samples.
    pub fn new(
        label: &'static str,
        unit: &'static str,
        scale: u64,
        max_val: u64,
        color: Color,
        capacity: usize,
    ) -> (series: TimeSeries)
        requires
            scale > 0,
            capacity * SAMPLE_BYTES <= isize::MAX,
        ensures
            capacity * POINT_BYTES <= isize::MAX ==> series@.wf(),
            series@ == (SeriesView {
                label: label@,
                unit: unit@,
                data: Seq::empty(),
                scale,
                max_val,
                color,
                capacity,
            }),
    {
        TimeSeries {
            label,
            unit,
            data: Vec::with_capacity(capacity),
            scale,
            max_val,
            color,
            capacity,
        }
    }

    /// Adds the newest sample; the oldest leaves when the series is full.
    pub fn push(&mut self, val: u64)
        ensures
            final(self)@ == old(self)@.pushed(val),
            old(self)@.wf() ==> final(self)@.wf(),
            old(self)@.exact() && val <= MAX_EXACT ==> final(self)@.exact(),
    {
        self.data.push(val);
        if self.data.len() > self.capacity {
            self.data.remove(0);
        }
        proof {
            let longer = old(self)@.data.push(val);
            assert(longer.remove(0) =~= longer.drop_first());
        }
    }

    /// The newest sample, 0 before the first.
    pub fn current(&self) -> (val: u64)
        ensures
            val == self@.newest(),
    {
        if self.data.len() > 0 {
            self.data[self.data.len() - 1]
        } else {
            0
        }
    }

    /// One point for each slot, with the samples at the right.
    pub fn chart_data(&self) -> (points: Vec<(usize, u64)>)
        requires
            self@.wf(),
        ensures
            points@ == self@.chart(),
    {
        let padding: usize = self.capacity.saturating_sub(self.data.len());
        let mut points: Vec<(usize, u64)> = Vec::new();
        let mut i: usize = 0;
        while i < self.capacity
            invariant
                i <= self.capacity,
                padding == self.capacity - self.data.len(),
                self.data.len() <= self.capacity,
                points@ == self@.chart().take(i as int),
            decreases self.capacity - i,
        {
            let val: u64 = if i < padding {
                0
            } else {
                self.data[i - padding]
            };
            points.push((i, val));
            i = i + 1;
        }
        proof {
            assert(self@.chart().take(self.capacity as int) =~= self@.chart());
        }
        points
    }
}

/// After any number of samples a series holds the newest ones, in order, as many as fit.
pub proof fn history_keeps_the_newest(s: SeriesView, vals: Seq<u64>)
    requires
        s.wf(),
    ensures
        s.pushed_all(vals).wf(),
        s.pushed_all(vals) == (SeriesView {
            data: {
                let all = s.data + vals;
                all.skip(if all.len() > s.capacity { all.len() - s.capacity } else { 0 })
            },
            ..s
        }),
    decreases vals.len(),
{
    let all = s.data + vals;
    if vals.len() == 0 {
        assert(all =~= s.data);
        assert(all.skip(0) =~= all);
    } else {
        let rest = vals.drop_last();
        history_keeps_the_newest(s, rest);
        let before = s.data + rest;
        assert(all =~= before.push(vals.last()));
        let kept = s.pushed_all(rest);
        let drop = if before.len() > s.capacity { before.len() - s.capacity } else { 0 };
        assert(kept.data == before.skip(drop));
        assert(kept.data.push(vals.last()) =~= all.skip(drop));
        if all.len() > s.capacity {
            assert(all.skip(drop).drop_first() =~= all.skip(drop + 1));
        }
        assert(kept.pushed(vals.last()).data =~= all.skip(
            if all.len() > s.capacity { all.len() - s.capacity } else { 0 },
        ));
    }
}

/// A chart has a point for every slot, and the one at the right edge is the newest sample.
pub proof fn chart_ends_with_the_newest(s: SeriesView)
    requires
        s.wf(),
    ensures
        s.chart().len() == s.capacity,
        s.capacity > 0 ==> s.chart().last().1 == s.newest(),
        forall|i: int| 0 <= i < s.capacity ==> (#[trigger] s.chart()[i]).0 == i,
{
}

/// A sample moves every point of the chart one slot to the left.
pub proof fn chart_scrolls(s: SeriesView, val: u64)
    requires
        s.wf(),
    ensures
        forall|i: int|
            0 <= i < s.capacity - 1 ==> (#[trigger] s.pushed(val).chart()[i]).1 == s.chart()[i
                + 1].1,
        s.capacity > 0 ==> s.pushed(val).chart().last().1 == val,
{
}

/// The newest value of a series is its last sample, and 0 before the first.
pub proof fn the_newest_is_the_last(s: SeriesView)
    ensures
        s.data.len() > 0 ==> s.newest() == s.data[s.data.len() - 1],
        s.data.len() == 0 ==> s.newest() == 0,
{
}

/// A sample becomes the newest one, whatever came before. The earlier ones keep their order
/// behind it; only the oldest can leave, and only from a full series. Nothing else changes.
pub proof fn a_sample_comes_behind_the_others(s: SeriesView, val: u64)
    requires
        s.wf(),
        s.capacity > 0,
    ensures
        ({
            let t = s.pushed(val);
            let (before, after) = (s.data.len(), t.data.len());
            &&& t.newest() == val
            &&& after == (if before < s.capacity { before + 1 } else { before })
            &&& t.data[after - 1] == val
            &&& forall|k: int|
                1 <= k < after ==> #[trigger] t.data[after - 1 - k] == s.data[before - k]
            &&& t.label == s.label && t.unit == s.unit && t.color == s.color
            &&& t.scale == s.scale && t.max_val == s.max_val && t.capacity == s.capacity
        }),
{
}

/// The chart holds every sample in order at its right end, and zeros before them.
pub proof fn the_chart_holds_the_history(s: SeriesView, i: int)
    requires
        s.wf(),
        0 <= i < s.capacity,
    ensures
        s.chart().len() == s.capacity,
        s.chart()[i].0 == i,
        i < s.capacity - s.data.len() ==> s.chart()[i].1 == 0,
        i >= s.capacity - s.data.len() ==> s.chart()[i].1 == s.data[i - s.capacity
            + s.data.len()],
{
}

/// Whether one history is another with a further sample: the sample is the last, the earlier
/// ones stand before it in their order, and only the oldest can be missing, where there was
/// no room for it.
pub open spec fn follows(after: SeriesView, before: SeriesView, val: int) -> bool {
    let (m, n) = (before.data.len(), after.data.len());
    &&& n == (if m < before.capacity { m + 1 } else { m })
    &&& n > 0 ==> after.data[n - 1] == val
    &&& forall|k: int| 1 <= k < n ==> #[trigger] after.data[n - 1 - k] == before.data[m - k]
    &&& after.label == before.label && after.unit == before.unit && after.color == before.color
    &&& after.scale == before.scale && after.capacity == before.capacity
}

} // verus!
