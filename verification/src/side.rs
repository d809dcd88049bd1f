//! The panels in the column at the side.
use crate::app::{App, AppView};
use crate::layout::Area;
use crate::metrics::{current_text, current_value, metrics, the_last_sample_is_shown, Bound};
use crate::picture::{Panel, PanelView};
use crate::readings::{counter_views, Counter, CounterView};
use crate::series::{SeriesView, TimeSeries};
use crate::style::{bold, ink, line_views, piece, raw, Color, Line, SpanView, Style};
use crate::text::{
    blank, columns, decimal, missing, numeral, numerals_are_plain, padding_fills_the_column, repeated,
    rounds_to, text_columns, writes,
};
use vstd::prelude::*;
use vstd::string::StringExecFns;

verus! {

/// The columns between the borders of the side panel.
pub const SIDE_COLUMNS: usize = 26;

/// A line with a text at the left and a text at the right, given the columns that they take.
pub open spec fn spread(
    left: Seq<char>,
    left_style: Style,
    right: Seq<char>,
    left_columns: usize,
    right_columns: usize,
) -> Seq<SpanView> {
    seq![
        piece(left, left_style),
        piece(blank(missing((left_columns + right_columns) as nat, SIDE_COLUMNS as nat)), raw()),
        piece(right, bold(Color::White)),
    ]
}

/// A line of the side panel.
pub open spec fn side_line(left: Seq<char>, left_style: Style, right: Seq<char>) -> Seq<SpanView> {
    spread(left, left_style, right, columns(left), columns(right))
}

/// The value of a counter, with its unit where it has one.
pub open spec fn counter_value(c: CounterView) -> Seq<char> {
    if c.unit.len() == 0 {
        c.value
    } else {
        c.value + " "@ + c.unit
    }
}

/// The line of a counter.
pub open spec fn counter_line(c: CounterView) -> Seq<SpanView> {
    side_line(c.label, ink(Color::DarkGray), counter_value(c))
}

/// The lines of the counters.
pub open spec fn counter_lines(counters: Seq<CounterView>) -> Seq<Seq<SpanView>> {
    Seq::new(counters.len(), |i: int| counter_line(counters[i]))
}

/// The value of a metric, as the side panel shows it.
pub open spec fn metric_value(s: SeriesView, bound: Bound) -> Seq<char> {
    match bound {
        Bound::Open => current_text(s) + " "@ + s.unit,
        Bound::Limit(limit) => current_text(s) + "/"@ + numeral(limit as nat) + " "@ + s.unit,
        Bound::Scale => current_text(s) + "/"@ + numeral(s.max_val as nat) + " "@ + s.unit,
    }
}

/// The line of a metric.
pub open spec fn metric_line(s: SeriesView, bound: Bound) -> Seq<SpanView> {
    side_line(s.label, ink(s.color), metric_value(s, bound))
}

/// A panel in the side column.
pub open spec fn side_panel(area: Area, title: Seq<char>, lines: Seq<Seq<SpanView>>) -> PanelView {
    PanelView {
        area,
        title,
        title_style: bold(Color::White),
        border_style: ink(Color::DarkGray),
        lines,
    }
}

/// The lines of the GPU panel: the metrics, an empty line, and the counters.
pub open spec fn info_lines(a: AppView) -> Seq<Seq<SpanView>> {
    Seq::new(6, |i: int| metric_line(metrics(a)[i].0, metrics(a)[i].1)) + seq![
        Seq::<SpanView>::empty(),
    ] + counter_lines(a.counters)
}

/// What a line of the side panel leaves between its texts makes it as wide as the panel,
/// where the texts fit.
pub proof fn side_lines_fill_the_panel(left: Seq<char>, left_style: Style, right: Seq<char>)
    ensures
        columns(left) + columns(right) <= SIDE_COLUMNS ==> ({
            let line = side_line(left, left_style, right);
            columns(line[0].text) + line[1].text.len() + columns(line[2].text) == SIDE_COLUMNS
        }),
{
}

/// Sets a text at the left and a text at the right of a line, given the columns they take.
pub fn spread_line(
    left: &str,
    left_style: Style,
    right: &str,
    left_columns: usize,
    right_columns: usize,
) -> (line: Line)
    ensures
        line@ == spread(left@, left_style, right@, left_columns, right_columns),
{
    let gap: usize = SIDE_COLUMNS.saturating_sub(left_columns.saturating_add(right_columns));
    let mut line = Line::empty();
    line.push(left.to_owned(), left_style);
    line.push(repeated(' ', gap), raw());
    line.push(right.to_owned(), bold(Color::White));
    proof {
        assert(line@ =~= spread(left@, left_style, right@, left_columns, right_columns));
    }
    line
}

/// Draws a line of the side panel.
pub fn draw_side_line(left: &str, left_style: Style, right: &str) -> (line: Line)
    ensures
        line@ == side_line(left@, left_style, right@),
{
    spread_line(left, left_style, right, text_columns(left), text_columns(right))
}

fn draw_counter(counter: &Counter) -> (line: Line)
    ensures
        line@ == counter_line(counter@),
{
    let value = if counter.unit.is_empty() {
        counter.value.clone()
    } else {
        counter.value.clone().concat(" ").concat(counter.unit)
    };
    draw_side_line(counter.label, ink(Color::DarkGray), value.as_str())
}

pub(crate) fn add_line(lines: &mut Vec<Line>, line: Line)
    ensures
        line_views(final(lines)@) == line_views(old(lines)@).push(line@),
{
    let ghost before = lines@;
    lines.push(line);
    proof {
        assert(line_views(lines@) =~= line_views(before).push(line@));
    }
}

fn add_counters(lines: &mut Vec<Line>, counters: &Vec<Counter>)
    ensures
        line_views(final(lines)@) == line_views(old(lines)@) + counter_lines(
            counter_views(counters@),
        ),
{
    let ghost before = line_views(lines@);
    let ghost all = counter_lines(counter_views(counters@));
    let mut i: usize = 0;
    proof {
        assert(before + all.take(0) =~= before);
    }
    while i < counters.len()
        invariant
            i <= counters.len(),
            all == counter_lines(counter_views(counters@)),
            line_views(lines@) == before + all.take(i as int),
        decreases counters.len() - i,
    {
        add_line(lines, draw_counter(&counters[i]));
        proof {
            assert(before + all.take(i + 1) =~= (before + all.take(i as int)).push(all[i as int]));
        }
        i = i + 1;
    }
    proof {
        assert(all.take(i as int) =~= all);
    }
}

/// Draws the panel of the counters.
pub fn draw_counters(app: &App, area: Area) -> (panel: Panel)
    ensures
        panel@ == side_panel(area, " Counters "@, counter_lines(app@.counters)),
{
    let mut lines: Vec<Line> = Vec::new();
    add_counters(&mut lines, &app.counters);
    proof {
        assert(line_views(Seq::<Line>::empty()) =~= Seq::<Seq<SpanView>>::empty());
        assert(line_views(lines@) =~= counter_lines(app@.counters));
    }
    Panel {
        area,
        title: " Counters ".to_owned(),
        title_style: bold(Color::White),
        border_style: ink(Color::DarkGray),
        lines,
    }
}

fn draw_metric(series: &TimeSeries, bound: Bound) -> (line: Line)
    requires
        series.scale > 0,
    ensures
        line@ == metric_line(series@, bound),
{
    let current = current_value(series);
    let value = match bound {
        Bound::Open => current.concat(" ").concat(series.unit),
        Bound::Limit(limit) => current.concat("/").concat(decimal(limit).as_str()).concat(
            " ",
        ).concat(series.unit),
        Bound::Scale => current.concat("/").concat(decimal(series.max_val).as_str()).concat(
            " ",
        ).concat(series.unit),
    };
    draw_side_line(series.label, ink(series.color), value.as_str())
}

/// Draws the panel of the metrics and the counters.
pub fn draw_gpu_info(app: &App, area: Area) -> (panel: Panel)
    requires
        app@.wf(),
    ensures
        panel@ == side_panel(area, " GPU Info "@, info_lines(app@)),
{
    let mut lines: Vec<Line> = Vec::new();
    add_line(&mut lines, draw_metric(&app.gpu_util, Bound::Open));
    add_line(&mut lines, draw_metric(&app.fb_used, Bound::Scale));
    add_line(&mut lines, draw_metric(&app.gpu_temp, Bound::Open));
    add_line(&mut lines, draw_metric(&app.power, Bound::Limit(app.max_power_w)));
    add_line(&mut lines, draw_metric(&app.fan_speed, Bound::Open));
    add_line(&mut lines, draw_metric(&app.mem_util, Bound::Open));
    add_line(&mut lines, Line::empty());
    proof {
        assert(line_views(lines@) =~= Seq::new(
            6,
            |i: int| metric_line(metrics(app@)[i].0, metrics(app@)[i].1),
        ) + seq![Seq::<SpanView>::empty()]);
    }
    add_counters(&mut lines, &app.counters);
    Panel {
        area,
        title: " GPU Info ".to_owned(),
        title_style: bold(Color::White),
        border_style: ink(Color::DarkGray),
        lines,
    }
}

/// After a sample, the value of a metric in the panel is the sample in whole units, to the
/// nearest, and the unit; with the limit or the end of the scale where the metric has one.
pub proof fn the_panel_shows_the_last_sample(
    s: SeriesView,
    val: u64,
    limit: u64,
    r: nat,
    now: Seq<char>,
    most: Seq<char>,
    end: Seq<char>,
)
    requires
        s.wf(),
        s.capacity > 0,
        rounds_to(val as int, s.scale as int, r as int),
        writes(now, r as int),
        writes(most, limit as int),
        writes(end, s.max_val as int),
    ensures
        ({
            let t = s.pushed(val);
            &&& metric_value(t, Bound::Open) == now + " "@ + s.unit
            &&& metric_value(t, Bound::Limit(limit)) == now + "/"@ + most + " "@ + s.unit
            &&& metric_value(t, Bound::Scale) == now + "/"@ + end + " "@ + s.unit
        }),
{
    the_last_sample_is_shown(s, val, r, now);
    numerals_are_plain(limit as nat, most);
    numerals_are_plain(s.max_val as nat, end);
}

/// A line of the side panel is made of the text at the left in its style, blanks that fill up
/// 26 columns, and the text at the right in bold white.
pub proof fn side_lines_hold_both_texts(
    left: Seq<char>,
    left_style: Style,
    right: Seq<char>,
    left_columns: usize,
    right_columns: usize,
)
    ensures
        ({
            let line = spread(left, left_style, right, left_columns, right_columns);
            let taken = left_columns + right_columns;
            &&& line.len() == 3
            &&& line[0].text == left && line[0].style == left_style
            &&& line[2].text == right
            &&& line[2].style == (Style { fg: Some(Color::White), bg: None, bold: true })
            &&& taken <= 26 ==> taken + line[1].text.len() == 26
            &&& taken >= 26 ==> line[1].text.len() == 0
            &&& forall|i: int| 0 <= i < line[1].text.len() ==> #[trigger] line[1].text[i] == ' '
            &&& line[1].style == (Style { fg: None, bg: None, bold: false })
            &&& left_columns == columns(left) && right_columns == columns(right) ==> line
                == side_line(left, left_style, right)
        }),
{
    padding_fills_the_column(
        (left_columns + right_columns) as nat,
        SIDE_COLUMNS as nat,
    );
}

/// Every counter has a line, in order: its label in grey at the left, and at the right its
/// value, with the unit behind a blank where there is one.
pub proof fn counters_have_their_lines(counters: Seq<CounterView>, i: int)
    requires
        0 <= i < counters.len(),
    ensures
        ({
            let line = counter_lines(counters)[i];
            let c = counters[i];
            &&& counter_lines(counters).len() == counters.len()
            &&& line.len() == 3
            &&& line[0].text == c.label
            &&& line[0].style == (Style { fg: Some(Color::DarkGray), bg: None, bold: false })
            &&& c.unit.len() == 0 ==> line[2].text == c.value
            &&& c.unit.len() > 0 ==> line[2].text == c.value + seq![' '] + c.unit
        }),
{
    reveal_strlit(" ");
    assert(" "@ =~= seq![' ']);
}

/// The GPU panel has a line for each metric, in order, with the label of the metric in its
/// colour and its value; then an empty line; then the lines of the counters.
pub proof fn the_gpu_panel_lists_everything(a: AppView, i: int)
    ensures
        info_lines(a).len() == 7 + a.counters.len(),
        0 <= i < 6 ==> ({
            let line = info_lines(a)[i];
            let (s, bound) = metrics(a)[i];
            &&& line[0].text == s.label
            &&& line[0].style == (Style { fg: Some(s.color), bg: None, bold: false })
            &&& line[2].text == metric_value(s, bound)
        }),
        info_lines(a)[6].len() == 0,
        0 <= i < a.counters.len() ==> info_lines(a)[7 + i] == counter_lines(a.counters)[i],
{
}

} // verus!
