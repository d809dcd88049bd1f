//! The whole screen.
use crate::app::{App, AppScreen, AppView};
use crate::graphs::{draw_graphs, graph_of};
use crate::layout::{
    graph_slots, in_range, is_plan, lies_in, plan_screen, shared, spans_across, split_outcome, Area,
    Axis, Plan,
};
use crate::metrics::metrics;
use crate::picture::{Body, Graph, Picture};
use crate::side::{counter_lines, draw_counters, draw_gpu_info, info_lines, side_panel};
use crate::style::{bold_on, ink, piece, raw, Color, Line, SpanView, Style};
use crate::text::{
    decimal, describe_span, ends_with, lemma_occurs_at, lemma_occurs_in_sum, numeral, numerals_are_plain,
    occurs, span_text, writes,
};
use crate::top::{draw_top, list_panel, names_fit, settled};
use vstd::prelude::*;
use vstd::string::StringExecFns;

verus! {

/// Which GPU is shown, out of how many.
pub open spec fn gpu_text(a: AppView, device_count: u32) -> Seq<char> {
    let start = " GPU "@ + numeral(a.gpu_idx as nat);
    if device_count > 1 {
        start + "/"@ + numeral((device_count - 1) as nat) + ": "@ + a.gpu_name + " "@
    } else {
        start + ": "@ + a.gpu_name + " "@
    }
}

/// The filter, where there is one.
pub open spec fn filter_text(a: AppView) -> Seq<char> {
    if a.filter.len() == 0 {
        ""@
    } else {
        ", filter: "@ + a.filter
    }
}

/// The keys that only the title of this screen names. `rate` is the text of the sample rate.
pub open spec fn screen_keys(a: AppView, rate: Seq<char>) -> Seq<char> {
    match a.screen {
        AppScreen::Graphs => ", [+][=][−] change sample rate (current: "@ + rate + ")"@,
        AppScreen::Top => {
            ", [↑][↓] scroll, [k] kill, [s][S] sort col, [o] order, [f] filter | sort: "@
                + a.sort_column.heading() + " "@ + (if a.sort_ascending {
                "asc"@
            } else {
                "desc"@
            }) + filter_text(a)
        },
    }
}

/// The keys that the title names: those on the titles of both screens, then those of this one.
pub open spec fn help_text(a: AppView, device_count: u32, rate: Seq<char>) -> Seq<char> {
    "[q] quit"@ + (if device_count > 1 {
        ", [←][→] change gpu"@
    } else {
        ""@
    }) + ", [tab] switch to "@ + (match a.screen {
        AppScreen::Graphs => "processes"@,
        AppScreen::Top => "graphs"@,
    }) + ", [Esc][Ctrl-C] quit"@ + screen_keys(a, rate)
}

/// The title of the screen.
pub open spec fn title(a: AppView, device_count: u32, rate: Seq<char>) -> Seq<SpanView> {
    seq![
        piece(" nvmon "@, bold_on(Color::Black, Color::Green)),
        piece(gpu_text(a, device_count), raw()),
        piece(help_text(a, device_count, rate), ink(Color::DarkGray)),
    ]
}

fn draw_gpu_text(app: &App, device_count: u32) -> (s: String)
    ensures
        s@ == gpu_text(app@, device_count),
{
    let start = " GPU ".to_owned().concat(decimal(app.gpu_idx as u64).as_str());
    if device_count > 1 {
        let last = decimal((device_count - 1) as u64);
        start.concat("/").concat(last.as_str()).concat(": ").concat(app.gpu_name.as_str()).concat(
            " ",
        )
    } else {
        start.concat(": ").concat(app.gpu_name.as_str()).concat(" ")
    }
}

fn draw_screen_keys(app: &App, rate: &str) -> (s: String)
    ensures
        s@ == screen_keys(app@, rate@),
{
    match app.screen {
        AppScreen::Graphs => {
            ", [+][=][−] change sample rate (current: ".to_owned().concat(rate).concat(")")
        },
        AppScreen::Top => {
            let filter = if app.filter.as_str().is_empty() {
                "".to_owned()
            } else {
                ", filter: ".to_owned().concat(app.filter.as_str())
            };
            let direction = if app.sort_ascending {
                "asc"
            } else {
                "desc"
            };
            ", [↑][↓] scroll, [k] kill, [s][S] sort col, [o] order, [f] filter | sort: ".to_owned().concat(
            app.sort_column.label()).concat(" ").concat(direction).concat(filter.as_str())
        },
    }
}

/// Draws the title, given the text of the sample rate.
pub fn draw_title(app: &App, device_count: u32, rate: &str) -> (line: Line)
    ensures
        line@ == title(app@, device_count, rate@),
{
    let change = if device_count > 1 {
        ", [←][→] change gpu"
    } else {
        ""
    };
    let other = match app.screen {
        AppScreen::Graphs => "processes",
        AppScreen::Top => "graphs",
    };
    let help = "[q] quit".to_owned().concat(change).concat(", [tab] switch to ").concat(
        other,
    ).concat(", [Esc][Ctrl-C] quit").concat(draw_screen_keys(app, rate).as_str());
    let mut line = Line::empty();
    line.push(" nvmon ".to_owned(), bold_on(Color::Black, Color::Green));
    line.push(draw_gpu_text(app, device_count), raw());
    line.push(help, ink(Color::DarkGray));
    proof {
        assert(line@ =~= title(app@, device_count, rate@));
    }
    line
}

/// Whether the graphs show the six metrics, each in its part of the area.
pub open spec fn shows_graphs(a: AppView, area: Area, graphs: Seq<Graph>) -> bool {
    &&& graphs.len() == 6
    &&& split_outcome(
        Axis::Vertical,
        graph_slots(),
        area,
        Seq::new(6, |i: int| graphs[i].area),
    )
    &&& forall|i: int|
        0 <= i < 6 ==> #[trigger] graphs[i]@ == graph_of(
            metrics(a)[i].0,
            metrics(a)[i].1,
            graphs[i].area,
        )
    &&& forall|i: int| 0 <= i < 6 ==> spans_across(Axis::Vertical, area, #[trigger] graphs[i].area)
    &&& forall|i: int| 0 <= i < 6 ==> lies_in(#[trigger] graphs[i].area, area)
    &&& in_range(area) ==> forall|i: int|
        0 <= i < 6 ==> #[trigger] graphs[i].area == shared(area)[i]
}

/// Whether a picture shows the state.
pub open spec fn shows(
    picture: Picture,
    a: AppView,
    rows: Seq<usize>,
    device_count: u32,
    rate: Seq<char>,
    plan: Plan,
) -> bool {
    &&& picture.plan == plan
    &&& picture.title@ == title(a, device_count, rate)
    &&& match (a.screen, picture.body) {
        (AppScreen::Graphs, Body::Graphs { graphs, counters }) => {
            &&& shows_graphs(a, plan.main, graphs@)
            &&& counters@ == side_panel(plan.side, " Counters "@, counter_lines(a.counters))
        },
        (AppScreen::Top, Body::Top { processes, info }) => {
            &&& processes@ == list_panel(a, rows, plan.main)
            &&& info@ == side_panel(plan.side, " GPU Info "@, info_lines(a))
        },
        _ => false,
    }
}

/// Whether every name on the screen can be cut to the width of its column. There are names
/// on the screen of the process list alone.
pub open spec fn drawable(a: AppView, rows: Seq<usize>, plan: Plan) -> bool {
    a.screen == AppScreen::Top ==> names_fit(a, rows, plan.main)
}

/// The state after it has been shown: the process list keeps the selection in view.
pub open spec fn after_drawing(a: AppView, rows: Seq<usize>, plan: Plan) -> AppView {
    match a.screen {
        AppScreen::Graphs => a,
        AppScreen::Top => settled(a, rows, plan.main),
    }
}

/// Draws the screen. There is no picture where a name on the process list cannot be cut to
/// the width of its column; the state then stays as it is.
pub fn draw(app: &mut App, device_count: u32, tick_ms: u64, area: Area) -> (r: (
    Plan,
    Option<Picture>,
))
    requires
        old(app)@.wf(),
    ensures
        is_plan(area, r.0),
        r.1 is Some <==> drawable(old(app)@, old(app)@.rows(), r.0),
        r.1 matches Some(picture) ==> {
            &&& shows(
                picture,
                old(app)@,
                old(app)@.rows(),
                device_count,
                span_text(tick_ms),
                r.0,
            )
            &&& final(app)@ == after_drawing(old(app)@, old(app)@.rows(), r.0)
        },
        r.1 is None ==> final(app)@ == old(app)@,
        final(app)@.wf(),
        old(app)@.exact() ==> final(app)@.exact(),
{
    let plan = plan_screen(area);
    let rate = describe_span(tick_ms);
    let title = draw_title(app, device_count, rate.as_str());
    let body = match app.screen {
        AppScreen::Graphs => {
            let graphs = draw_graphs(app, plan.main);
            let counters = draw_counters(app, plan.side);
            Body::Graphs { graphs, counters }
        },
        AppScreen::Top => {
            let processes = match draw_top(app, plan.main) {
                Some(panel) => panel,
                None => {
                    return (plan, None);
                },
            };
            let info = draw_gpu_info(app, plan.side);
            Body::Top { processes, info }
        },
    };
    (plan, Some(Picture { plan, title, body }))
}

/// The help of the graphs.
pub open spec fn graphs_help(a: AppView, device_count: u32, rate: Seq<char>) -> Seq<char> {
    help_text(AppView { screen: AppScreen::Graphs, ..a }, device_count, rate)
}

/// The help of the process list.
pub open spec fn list_help(a: AppView, device_count: u32, rate: Seq<char>) -> Seq<char> {
    help_text(AppView { screen: AppScreen::Top, ..a }, device_count, rate)
}

/// Both titles name the keys of the whole program; those that change the GPU, where there
/// is more than one.
pub proof fn titles_name_the_common_keys(a: AppView, device_count: u32, rate: Seq<char>)
    ensures
        occurs(help_text(a, device_count, rate), "[q]"@),
        occurs(help_text(a, device_count, rate), "[tab]"@),
        occurs(help_text(a, device_count, rate), "[Esc]"@),
        occurs(help_text(a, device_count, rate), "[Ctrl-C]"@),
        device_count > 1 ==> occurs(help_text(a, device_count, rate), "[←]"@),
        device_count > 1 ==> occurs(help_text(a, device_count, rate), "[→]"@),
{
    let quit = "[q] quit"@;
    let change = if device_count > 1 {
        ", [←][→] change gpu"@
    } else {
        ""@
    };
    let tab = ", [tab] switch to "@;
    let other = match a.screen {
        AppScreen::Graphs => "processes"@,
        AppScreen::Top => "graphs"@,
    };
    let more = ", [Esc][Ctrl-C] quit"@;
    let keys = screen_keys(a, rate);
    reveal_strlit("[q] quit");
    reveal_strlit(", [←][→] change gpu");
    reveal_strlit(", [tab] switch to ");
    reveal_strlit(", [Esc][Ctrl-C] quit");
    reveal_strlit("[q]");
    reveal_strlit("[tab]");
    reveal_strlit("[Esc]");
    reveal_strlit("[Ctrl-C]");
    reveal_strlit("[←]");
    reveal_strlit("[→]");
    lemma_occurs_at(quit, "[q]"@, 0);
    lemma_occurs_in_sum(quit, change, "[q]"@);
    lemma_occurs_in_sum(quit + change, tab, "[q]"@);
    lemma_occurs_in_sum(quit + change + tab, other, "[q]"@);
    lemma_occurs_in_sum(quit + change + tab + other, more, "[q]"@);
    lemma_occurs_in_sum(quit + change + tab + other + more, keys, "[q]"@);
    lemma_occurs_at(tab, "[tab]"@, 2);
    lemma_occurs_in_sum(quit + change, tab, "[tab]"@);
    lemma_occurs_in_sum(quit + change + tab, other, "[tab]"@);
    lemma_occurs_in_sum(quit + change + tab + other, more, "[tab]"@);
    lemma_occurs_in_sum(quit + change + tab + other + more, keys, "[tab]"@);
    lemma_occurs_at(more, "[Esc]"@, 2);
    lemma_occurs_in_sum(quit + change + tab + other, more, "[Esc]"@);
    lemma_occurs_in_sum(quit + change + tab + other + more, keys, "[Esc]"@);
    lemma_occurs_at(more, "[Ctrl-C]"@, 7);
    lemma_occurs_in_sum(quit + change + tab + other, more, "[Ctrl-C]"@);
    lemma_occurs_in_sum(quit + change + tab + other + more, keys, "[Ctrl-C]"@);
    if device_count > 1 {
        lemma_occurs_at(change, "[←]"@, 2);
        lemma_occurs_in_sum(quit, change, "[←]"@);
        lemma_occurs_in_sum(quit + change, tab, "[←]"@);
        lemma_occurs_in_sum(quit + change + tab, other, "[←]"@);
        lemma_occurs_in_sum(quit + change + tab + other, more, "[←]"@);
        lemma_occurs_in_sum(quit + change + tab + other + more, keys, "[←]"@);
        lemma_occurs_at(change, "[→]"@, 5);
        lemma_occurs_in_sum(quit, change, "[→]"@);
        lemma_occurs_in_sum(quit + change, tab, "[→]"@);
        lemma_occurs_in_sum(quit + change + tab, other, "[→]"@);
        lemma_occurs_in_sum(quit + change + tab + other, more, "[→]"@);
        lemma_occurs_in_sum(quit + change + tab + other + more, keys, "[→]"@);
    }
}

/// What the screen's own keys name, the help names.
proof fn lemma_help_holds_screen_keys(
    a: AppView,
    device_count: u32,
    rate: Seq<char>,
    name: Seq<char>,
)
    requires
        occurs(screen_keys(a, rate), name),
    ensures
        occurs(help_text(a, device_count, rate), name),
{
    let start = "[q] quit"@ + (if device_count > 1 {
        ", [←][→] change gpu"@
    } else {
        ""@
    }) + ", [tab] switch to "@ + (match a.screen {
        AppScreen::Graphs => "processes"@,
        AppScreen::Top => "graphs"@,
    }) + ", [Esc][Ctrl-C] quit"@;
    lemma_occurs_in_sum(start, screen_keys(a, rate), name);
}

/// The title of the graphs names the keys of the sample rate.
pub proof fn graphs_title_names_the_rate_keys(a: AppView, device_count: u32, rate: Seq<char>)
    ensures
        occurs(graphs_help(a, device_count, rate), "[+]"@),
        occurs(graphs_help(a, device_count, rate), "[=]"@),
        occurs(graphs_help(a, device_count, rate), "[−]"@),
{
    let g = AppView { screen: AppScreen::Graphs, ..a };
    let start = ", [+][=][−] change sample rate (current: "@;
    reveal_strlit(", [+][=][−] change sample rate (current: ");
    reveal_strlit("[+]");
    reveal_strlit("[=]");
    reveal_strlit("[−]");
    lemma_occurs_at(start, "[+]"@, 2);
    lemma_occurs_at(start, "[=]"@, 5);
    lemma_occurs_at(start, "[−]"@, 8);
    assert forall|name: Seq<char>| #[trigger] occurs(start, name) implies occurs(
        graphs_help(a, device_count, rate),
        name,
    ) by {
        lemma_occurs_in_sum(start, rate, name);
        lemma_occurs_in_sum(start + rate, ")"@, name);
        lemma_help_holds_screen_keys(g, device_count, rate, name);
    }
}

/// The title of the process list names the keys of the list.
pub proof fn list_title_names_the_list_keys(a: AppView, device_count: u32, rate: Seq<char>)
    ensures
        occurs(list_help(a, device_count, rate), "[↑]"@),
        occurs(list_help(a, device_count, rate), "[↓]"@),
        occurs(list_help(a, device_count, rate), "[k]"@),
        occurs(list_help(a, device_count, rate), "[s]"@),
        occurs(list_help(a, device_count, rate), "[S]"@),
        occurs(list_help(a, device_count, rate), "[o]"@),
        occurs(list_help(a, device_count, rate), "[f]"@),
{
    let t = AppView { screen: AppScreen::Top, ..a };
    let start = ", [↑][↓] scroll, [k] kill, [s][S] sort col, [o] order, [f] filter | sort: "@;
    let direction = if a.sort_ascending {
        "asc"@
    } else {
        "desc"@
    };
    reveal_strlit(", [↑][↓] scroll, [k] kill, [s][S] sort col, [o] order, [f] filter | sort: ");
    reveal_strlit("[↑]");
    reveal_strlit("[↓]");
    reveal_strlit("[k]");
    reveal_strlit("[s]");
    reveal_strlit("[S]");
    reveal_strlit("[o]");
    reveal_strlit("[f]");
    lemma_occurs_at(start, "[↑]"@, 2);
    lemma_occurs_at(start, "[↓]"@, 5);
    lemma_occurs_at(start, "[k]"@, 17);
    lemma_occurs_at(start, "[s]"@, 27);
    lemma_occurs_at(start, "[S]"@, 30);
    lemma_occurs_at(start, "[o]"@, 44);
    lemma_occurs_at(start, "[f]"@, 55);
    assert forall|name: Seq<char>| #[trigger] occurs(start, name) implies occurs(
        list_help(a, device_count, rate),
        name,
    ) by {
        let heading = a.sort_column.heading();
        lemma_occurs_in_sum(start, heading, name);
        lemma_occurs_in_sum(start + heading, " "@, name);
        lemma_occurs_in_sum(start + heading + " "@, direction, name);
        lemma_occurs_in_sum(start + heading + " "@ + direction, filter_text(t), name);
        lemma_help_holds_screen_keys(t, device_count, rate, name);
    }
}

/// Everything that is drawn lies on the screen.
pub proof fn pictures_lie_on_the_screen(
    area: Area,
    picture: Picture,
    a: AppView,
    rows: Seq<usize>,
    device_count: u32,
    rate: Seq<char>,
    plan: Plan,
)
    requires
        is_plan(area, plan),
        shows(picture, a, rows, device_count, rate, plan),
    ensures
        lies_in(picture.plan.title, area),
        match picture.body {
            Body::Graphs { graphs, counters } => {
                &&& forall|i: int| 0 <= i < graphs.len() ==> lies_in(#[trigger] graphs@[i].area, area)
                &&& lies_in(counters.area, area)
            },
            Body::Top { processes, info } => {
                lies_in(processes.area, area) && lies_in(info.area, area)
            },
        },
{
    match picture.body {
        Body::Graphs { graphs, counters } => {
            assert(counters@.area == plan.side);
        },
        Body::Top { processes, info } => {
            assert(processes@.area == plan.main);
            assert(info@.area == plan.side);
        },
    }
}

/// The title says which GPU is shown, by its index and its name, and the largest index where
/// there is more than one GPU.
pub proof fn the_title_tells_the_gpu(
    a: AppView,
    device_count: u32,
    rate: Seq<char>,
    index: Seq<char>,
    last: Seq<char>,
)
    requires
        writes(index, a.gpu_idx as int),
        device_count > 1 ==> writes(last, device_count - 1),
    ensures
        ({
            let line = title(a, device_count, rate);
            &&& line.len() == 3
            &&& line[0] == piece(" nvmon "@, bold_on(Color::Black, Color::Green))
            &&& device_count > 1 ==> line[1].text == " GPU "@ + index + "/"@ + last + ": "@
                + a.gpu_name + " "@
            &&& device_count <= 1 ==> line[1].text == " GPU "@ + index + ": "@ + a.gpu_name + " "@
            &&& line[2].text == help_text(a, device_count, rate)
            &&& line[1].style == raw() && line[2].style == ink(Color::DarkGray)
        }),
{
    numerals_are_plain(a.gpu_idx as nat, index);
    if device_count > 1 {
        numerals_are_plain((device_count - 1) as nat, last);
    }
}

/// The title of the graphs ends with the time between samples.
pub proof fn the_title_tells_the_rate(a: AppView, device_count: u32, rate: Seq<char>)
    ensures
        ends_with(
            graphs_help(a, device_count, rate),
            " change sample rate (current: "@ + rate + ")"@,
        ),
{
    let begin = "[q] quit"@ + (if device_count > 1 {
        ", [←][→] change gpu"@
    } else {
        ""@
    }) + ", [tab] switch to "@ + "processes"@ + ", [Esc][Ctrl-C] quit"@;
    reveal_strlit(", [+][=][−] change sample rate (current: ");
    reveal_strlit(" change sample rate (current: ");
    let keys = ", [+][=][−]"@;
    reveal_strlit(", [+][=][−]");
    assert(", [+][=][−] change sample rate (current: "@ =~= keys
        + " change sample rate (current: "@);
    let end = " change sample rate (current: "@ + rate + ")"@;
    let help = graphs_help(a, device_count, rate);
    assert(help =~= (begin + keys) + end);
    assert(help.skip(help.len() - end.len()) =~= end);
}

/// The title of the process list ends with the column and the direction of the order, and with
/// the filter where there is one.
pub proof fn the_title_tells_the_order_and_the_filter(
    a: AppView,
    device_count: u32,
    rate: Seq<char>,
)
    ensures
        ends_with(
            list_help(a, device_count, rate),
            " sort: "@ + a.sort_column.heading() + (if a.sort_ascending {
                " asc"@
            } else {
                " desc"@
            }) + (if a.filter.len() > 0 {
                ", filter: "@ + a.filter
            } else {
                Seq::empty()
            }),
        ),
{
    let begin = "[q] quit"@ + (if device_count > 1 {
        ", [←][→] change gpu"@
    } else {
        ""@
    }) + ", [tab] switch to "@ + "graphs"@ + ", [Esc][Ctrl-C] quit"@;
    let keys = ", [↑][↓] scroll, [k] kill, [s][S] sort col, [o] order, [f] filter |"@;
    reveal_strlit(", [↑][↓] scroll, [k] kill, [s][S] sort col, [o] order, [f] filter |");
    reveal_strlit(", [↑][↓] scroll, [k] kill, [s][S] sort col, [o] order, [f] filter | sort: ");
    reveal_strlit(" sort: ");
    reveal_strlit(" ");
    reveal_strlit("");
    reveal_strlit("asc");
    reveal_strlit("desc");
    reveal_strlit(" asc");
    reveal_strlit(" desc");
    let sort = ", [↑][↓] scroll, [k] kill, [s][S] sort col, [o] order, [f] filter | sort: "@;
    assert(sort =~= keys + " sort: "@);
    assert(" asc"@ =~= " "@ + "asc"@);
    assert(" desc"@ =~= " "@ + "desc"@);
    let direction = if a.sort_ascending { " asc"@ } else { " desc"@ };
    let filter = if a.filter.len() > 0 {
        ", filter: "@ + a.filter
    } else {
        Seq::empty()
    };
    assert(filter_text(a) =~= filter);
    let end = " sort: "@ + a.sort_column.heading() + direction + filter;
    let help = list_help(a, device_count, rate);
    assert(help =~= (begin + keys) + end);
    assert(help.skip(help.len() - end.len()) =~= end);
}

/// Each title names the other screen, to which tab goes.
pub proof fn the_title_tells_the_other_screen(a: AppView, device_count: u32, rate: Seq<char>)
    ensures
        occurs(graphs_help(a, device_count, rate), "switch to processes"@),
        occurs(list_help(a, device_count, rate), "switch to graphs"@),
{
    let start = "[q] quit"@ + (if device_count > 1 {
        ", [←][→] change gpu"@
    } else {
        ""@
    });
    let (g, t) = (
        AppView { screen: AppScreen::Graphs, ..a },
        AppView { screen: AppScreen::Top, ..a },
    );
    reveal_strlit(", [tab] switch to ");
    reveal_strlit("processes");
    reveal_strlit("graphs");
    reveal_strlit("switch to processes");
    reveal_strlit("switch to graphs");
    let (x, y) = (", [tab] switch to "@ + "processes"@, ", [tab] switch to "@ + "graphs"@);
    lemma_occurs_at(x, "switch to processes"@, 8);
    lemma_occurs_at(y, "switch to graphs"@, 8);
    let more = ", [Esc][Ctrl-C] quit"@;
    lemma_occurs_in_sum(start, x, "switch to processes"@);
    lemma_occurs_in_sum(start + x, more, "switch to processes"@);
    lemma_occurs_in_sum(start + x + more, screen_keys(g, rate), "switch to processes"@);
    lemma_occurs_in_sum(start, y, "switch to graphs"@);
    lemma_occurs_in_sum(start + y, more, "switch to graphs"@);
    lemma_occurs_in_sum(start + y + more, screen_keys(t, rate), "switch to graphs"@);
    assert(graphs_help(a, device_count, rate) =~= start + x + more + screen_keys(g, rate));
    assert(list_help(a, device_count, rate) =~= start + y + more + screen_keys(t, rate));
}

/// The help depends on the number of GPUs only by whether there is more than one: then, and
/// only then, it has the words on changing the GPU, behind the first ones.
pub proof fn changing_the_gpu_is_offered_where_it_can_be_done(
    a: AppView,
    one: u32,
    many: u32,
    rate: Seq<char>,
)
    requires
        one <= 1,
        many > 1,
    ensures
        ({
            let (short, long) = (help_text(a, one, rate), help_text(a, many, rate));
            &&& short.take(8) == "[q] quit"@
            &&& long == short.take(8) + ", [←][→] change gpu"@ + short.skip(8)
        }),
{
    reveal_strlit("[q] quit");
    reveal_strlit("");
    reveal_strlit(", [←][→] change gpu");
    let (short, long) = (help_text(a, one, rate), help_text(a, many, rate));
    assert(short.take(8) =~= "[q] quit"@);
    assert(long =~= short.take(8) + ", [←][→] change gpu"@ + short.skip(8));
}

/// On each screen stands what belongs there, in its place: the six graphs or the process list
/// in the main part, the counters or the GPU panel at the side, and the title at the top.
pub proof fn each_panel_has_its_place(
    picture: Picture,
    a: AppView,
    rows: Seq<usize>,
    device_count: u32,
    rate: Seq<char>,
    plan: Plan,
)
    requires
        shows(picture, a, rows, device_count, rate, plan),
    ensures
        picture.plan == plan,
        picture.title@ == title(a, device_count, rate),
        a.screen == AppScreen::Graphs ==> ({
            &&& picture.body matches Body::Graphs { graphs, counters }
            &&& graphs.len() == 6
            &&& forall|i: int|
                #![trigger graphs@[i]]
                0 <= i < 6 ==> graphs@[i]@ == graph_of(
                    metrics(a)[i].0,
                    metrics(a)[i].1,
                    graphs@[i].area,
                ) && lies_in(graphs@[i].area, plan.main)
            &&& counters@.area == plan.side && counters@.title == " Counters "@
            &&& counters@.title_style == (Style { fg: Some(Color::White), bg: None, bold: true })
            &&& counters@.border_style == (Style {
                fg: Some(Color::DarkGray),
                bg: None,
                bold: false,
            })
            &&& counters@.lines == counter_lines(a.counters)
        }),
        a.screen == AppScreen::Top ==> ({
            &&& picture.body matches Body::Top { processes, info }
            &&& processes@.area == plan.main && processes@ == list_panel(a, rows, plan.main)
            &&& info@.area == plan.side && info@.title == " GPU Info "@
            &&& info@.title_style == (Style { fg: Some(Color::White), bg: None, bold: true })
            &&& info@.border_style == (Style { fg: Some(Color::DarkGray), bg: None, bold: false })
            &&& info@.lines == info_lines(a)
        }),
{
}

/// Drawing changes at most which row is selected and which is the first in view, and on the
/// graphs nothing. The graphs can always be drawn.
pub proof fn drawing_changes_the_position_alone(a: AppView, rows: Seq<usize>, plan: Plan)
    ensures
        ({
            let b = after_drawing(a, rows, plan);
            &&& b == (AppView {
                selected_index: b.selected_index,
                viewport_offset: b.viewport_offset,
                ..a
            })
            &&& a.screen == AppScreen::Graphs ==> b == a && drawable(a, rows, plan)
            &&& a.screen == AppScreen::Top ==> b == settled(a, rows, plan.main)
            &&& a.screen == AppScreen::Top ==> (drawable(a, rows, plan) <==> names_fit(
                a,
                rows,
                plan.main,
            ))
        }),
{
}

} // verus!
