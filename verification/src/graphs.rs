//! The graphs of the metrics.
use crate::app::App;
use crate::layout::{
    graph_slots, in_range, lies_in, plan_graphs, shared, spans_across, split_outcome, Area, Axis,
};
use crate::metrics::{current_text, current_value, metrics, the_last_sample_is_shown, Bound};
use crate::picture::{Graph, GraphView};
use crate::series::{the_chart_holds_the_history, SeriesView, TimeSeries};
use crate::sort::text_views;
use crate::style::{bold, ink, Color};
use crate::text::{
    align_right, blank, decimal, larger_numbers_are_no_shorter, missing, nearest, numeral,
    numerals_are_plain, rounded, rounding_is_determined, rounds_to, writes,
};
use vstd::prelude::*;
use vstd::string::StrSliceExecFns;
use vstd::string::StringExecFns;

verus! {

/// The title of a graph.
pub open spec fn graph_title(s: SeriesView, bound: Bound) -> Seq<char> {
    let start = " "@ + s.label + ": "@ + current_text(s);
    match bound {
        Bound::Open => start + " "@ + s.unit + " "@,
        Bound::Limit(limit) => start + " "@ + s.unit + " / "@ + numeral(limit as nat) + " "@
            + s.unit + " "@,
        Bound::Scale => start + " / "@ + numeral(s.max_val as nat) + " "@ + s.unit + " "@,
    }
}

/// The marks at the bottom, the middle and the top of a graph, aligned to the right.
pub open spec fn scale_labels(max_val: u64) -> Seq<Seq<char>> {
    let top = numeral(max_val as nat);
    let middle = numeral(nearest(max_val as nat, 2));
    seq![
        blank(missing(1, top.len())) + numeral(0),
        blank(missing(middle.len(), top.len())) + middle,
        top,
    ]
}

/// The graph of a metric.
pub open spec fn graph_of(s: SeriesView, bound: Bound, area: Area) -> GraphView {
    GraphView {
        area,
        title: graph_title(s, bound),
        title_style: bold(s.color),
        border_style: ink(Color::DarkGray),
        line_style: ink(s.color),
        points: s.chart(),
        scale: s.scale,
        x_max: if s.capacity > 1 {
            (s.capacity - 1) as usize
        } else {
            1
        },
        y_max: s.max_val,
        y_labels: scale_labels(s.max_val),
    }
}

fn draw_graph_title(series: &TimeSeries, bound: Bound) -> (s: String)
    requires
        series.scale > 0,
    ensures
        s@ == graph_title(series@, bound),
{
    let current = current_value(series);
    let start = " ".to_owned().concat(series.label).concat(": ").concat(current.as_str());
    match bound {
        Bound::Open => start.concat(" ").concat(series.unit).concat(" "),
        Bound::Limit(limit) => {
            let limit = decimal(limit);
            start.concat(" ").concat(series.unit).concat(" / ").concat(limit.as_str()).concat(
                " ",
            ).concat(series.unit).concat(" ")
        },
        Bound::Scale => {
            let max = decimal(series.max_val);
            start.concat(" / ").concat(max.as_str()).concat(" ").concat(series.unit).concat(" ")
        },
    }
}

/// Draws the graph of a metric.
pub fn draw_graph(series: &TimeSeries, bound: Bound, area: Area) -> (graph: Graph)
    requires
        series@.wf(),
    ensures
        graph@ == graph_of(series@, bound, area),
{
    let top = decimal(series.max_val);
    let width: usize = top.as_str().unicode_len();
    let bottom = align_right(decimal(0).as_str(), width);
    let middle = align_right(decimal(rounded(series.max_val, 2)).as_str(), width);
    let mut y_labels: Vec<String> = Vec::new();
    y_labels.push(bottom);
    y_labels.push(middle);
    y_labels.push(top);
    proof {
        assert(numeral(0).len() == 1);
        assert(text_views(y_labels@) =~= scale_labels(series.max_val));
    }
    Graph {
        area,
        title: draw_graph_title(series, bound),
        title_style: bold(series.color),
        border_style: ink(Color::DarkGray),
        line_style: ink(series.color),
        points: series.chart_data(),
        scale: series.scale,
        x_max: if series.capacity > 1 {
            series.capacity - 1
        } else {
            1
        },
        y_max: series.max_val,
        y_labels,
    }
}

/// Draws the six graphs, each in its part of the area.
pub fn draw_graphs(app: &App, area: Area) -> (graphs: Vec<Graph>)
    requires
        app@.wf(),
    ensures
        graphs.len() == 6,
        forall|i: int|
            0 <= i < 6 ==> #[trigger] graphs@[i]@ == graph_of(
                metrics(app@)[i].0,
                metrics(app@)[i].1,
                graphs@[i].area,
            ),
        split_outcome(
            Axis::Vertical,
            graph_slots(),
            area,
            Seq::new(6, |i: int| graphs@[i].area),
        ),
        forall|i: int|
            0 <= i < 6 ==> spans_across(Axis::Vertical, area, #[trigger] graphs@[i].area),
        forall|i: int| 0 <= i < 6 ==> lies_in(#[trigger] graphs@[i].area, area),
        in_range(area) ==> forall|i: int|
            0 <= i < 6 ==> #[trigger] graphs@[i].area == shared(area)[i],
{
    let parts = plan_graphs(area);
    let mut graphs: Vec<Graph> = Vec::new();
    graphs.push(draw_graph(&app.gpu_util, Bound::Open, parts[0]));
    graphs.push(draw_graph(&app.fb_used, Bound::Scale, parts[1]));
    graphs.push(draw_graph(&app.gpu_temp, Bound::Open, parts[2]));
    graphs.push(draw_graph(&app.power, Bound::Limit(app.max_power_w), parts[3]));
    graphs.push(draw_graph(&app.fan_speed, Bound::Open, parts[4]));
    graphs.push(draw_graph(&app.mem_util, Bound::Open, parts[5]));
    proof {
        assert forall|i: int| 0 <= i < 6 implies #[trigger] graphs@[i].area == parts@[i] by {
            assert(graphs@[i]@.area == parts@[i]);
        }
        assert(Seq::new(6, |i: int| graphs@[i].area) =~= parts@);
    }
    graphs
}

/// After a sample, the title of a graph holds the label, the sample in whole units, to the
/// nearest, and the unit; and the limit or the end of the scale where the metric has one.
pub proof fn titles_show_the_last_sample(
    s: SeriesView,
    val: u64,
    limit: u64,
    r: nat,
    now: Seq<char>,
    most: Seq<char>,
    end: Seq<char>,
)
    requires
        s.wf(),
        s.capacity > 0,
        rounds_to(val as int, s.scale as int, r as int),
        writes(now, r as int),
        writes(most, limit as int),
        writes(end, s.max_val as int),
    ensures
        ({
            let t = s.pushed(val);
            let start = " "@ + s.label + ": "@ + now;
            &&& graph_title(t, Bound::Open) == start + " "@ + s.unit + " "@
            &&& graph_title(t, Bound::Limit(limit)) == start + " "@ + s.unit + " / "@ + most + " "@
                + s.unit + " "@
            &&& graph_title(t, Bound::Scale) == start + " / "@ + end + " "@ + s.unit + " "@
        }),
{
    the_last_sample_is_shown(s, val, r, now);
    numerals_are_plain(limit as nat, most);
    numerals_are_plain(s.max_val as nat, end);
}

/// The marks of a graph are 0, the middle of the scale to the nearest whole number, and the
/// end of the scale, padded with blanks to the same length.
pub proof fn marks_are_aligned(max_val: u64, half: nat, middle: Seq<char>, top: Seq<char>)
    requires
        rounds_to(max_val as int, 2, half as int),
        writes(middle, half as int),
        writes(top, max_val as int),
    ensures
        ({
            let marks = scale_labels(max_val);
            &&& marks.len() == 3
            &&& marks[2] == top
            &&& marks[0].len() == top.len() && marks[1].len() == top.len()
            &&& marks[0][top.len() - 1] == '0'
            &&& forall|i: int| 0 <= i < top.len() - 1 ==> #[trigger] marks[0][i] == ' '
            &&& marks[1].skip(top.len() - middle.len()) == middle
            &&& forall|i: int| 0 <= i < top.len() - middle.len() ==> #[trigger] marks[1][i] == ' '
        }),
{
    rounding_is_determined(max_val as nat, 2, half);
    numerals_are_plain(half, middle);
    numerals_are_plain(max_val as nat, top);
    larger_numbers_are_no_shorter(half, max_val as nat);
    larger_numbers_are_no_shorter(0, max_val as nat);
    let marks = scale_labels(max_val);
    assert(numeral(0).len() == 1);
    assert(numeral(0)[0] == '0');
    assert(marks[1].skip(top.len() - middle.len()) =~= middle);
}

/// A graph shows every sample of its metric, in order, at the right end of its slots, and
/// zeros before them. Its axes go to the last slot and to the end of the scale, and it has
/// the colour of the metric.
pub proof fn graphs_plot_the_history(s: SeriesView, bound: Bound, area: Area, i: int)
    requires
        s.wf(),
    ensures
        ({
            let g = graph_of(s, bound, area);
            let first = s.capacity - s.data.len();
            &&& g.area == area
            &&& g.points.len() == s.capacity
            &&& 0 <= i < s.capacity ==> g.points[i].0 == i
            &&& 0 <= i < first ==> g.points[i].1 == 0
            &&& first <= i < s.capacity ==> g.points[i].1 == s.data[i - first]
            &&& g.scale == s.scale && g.y_max == s.max_val
            &&& s.capacity > 1 ==> g.x_max == s.capacity - 1
            &&& s.capacity <= 1 ==> g.x_max == 1
            &&& g.title == graph_title(s, bound) && g.y_labels == scale_labels(s.max_val)
            &&& g.title_style.fg == Some(s.color) && g.title_style.bold
            &&& g.line_style.fg == Some(s.color) && !g.line_style.bold
            &&& g.border_style.fg == Some(Color::DarkGray) && !g.border_style.bold
            &&& g.title_style.bg is None && g.line_style.bg is None && g.border_style.bg is None
        }),
{
    if 0 <= i < s.capacity {
        the_chart_holds_the_history(s, i);
    }
}

} // verus!
