//! Where things stand on the screen.
use ratatui::layout::{Constraint, Direction, Layout, Rect};
use vstd::prelude::*;

verus! {

/// A rectangle of the terminal.
#[derive(Clone, Copy, PartialEq, Eq, Debug)]
pub struct Area {
    pub x: u16,
    pub y: u16,
    pub width: u16,
    pub height: u16,
}

/// The direction in which an area is split.
#[derive(Clone, Copy, PartialEq, Eq, Debug)]
pub enum Axis {
    Vertical,
    Horizontal,
}

/// The wish for the size of a part: a length, a least length, or a share of the whole.
#[derive(Clone, Copy, PartialEq, Eq, Debug)]
pub enum Slot {
    Length(u16),
    Min(u16),
    Ratio(u32, u32),
}

/// Whether `parts` is an outcome of splitting `area` along `axis` by the wishes in `slots`.
pub uninterp spec fn split_outcome(
    axis: Axis,
    slots: Seq<Slot>,
    area: Area,
    parts: Seq<Area>,
) -> bool;

/// Whether a part has the extent of the area across the axis.
pub open spec fn spans_across(axis: Axis, area: Area, part: Area) -> bool {
    match axis {
        Axis::Vertical => part.x == area.x && part.width == area.width,
        Axis::Horizontal => part.y == area.y && part.height == area.height,
    }
}

/// Whether a part lies in an area.
pub open spec fn lies_in(part: Area, area: Area) -> bool {
    &&& area.x <= part.x && part.x + part.width <= area.x + area.width
    &&& area.y <= part.y && part.y + part.height <= area.y + area.height
}

/// Where an area begins along an axis.
pub open spec fn start(axis: Axis, area: Area) -> int {
    match axis {
        Axis::Vertical => area.y as int,
        Axis::Horizontal => area.x as int,
    }
}

/// The size of an area along an axis.
pub open spec fn extent(axis: Axis, area: Area) -> int {
    match axis {
        Axis::Vertical => area.height as int,
        Axis::Horizontal => area.width as int,
    }
}

/// Whether an area ends within the range of a coordinate, as every terminal does.
pub open spec fn in_range(area: Area) -> bool {
    area.x + area.width <= u16::MAX && area.y + area.height <= u16::MAX
}

/// Whether the parts follow one another along the axis, from one end of the area to the other.
pub open spec fn tiles(axis: Axis, area: Area, parts: Seq<Area>) -> bool {
    &&& parts.len() > 0
    &&& start(axis, parts[0]) == start(axis, area)
    &&& forall|i: int|
        0 <= i < parts.len() - 1 ==> start(axis, parts[i + 1]) == start(axis, #[trigger] parts[i])
            + extent(axis, parts[i])
    &&& start(axis, parts.last()) + extent(axis, parts.last()) == start(axis, area) + extent(
        axis,
        area,
    )
}

/// The size of a part that is to have at least `min`, beside one that is to have `length`: all
/// that the other one leaves. Where not both can have their wish, the other one gives way.
pub open spec fn remaining(whole: int, min: int, length: int) -> int {
    if whole - length >= min {
        whole - length
    } else if whole >= min {
        min
    } else {
        whole
    }
}

/// The boundary after `i` of six equal shares of a whole, to the nearest line or column; of two
/// that are equally near, the farther one.
pub open spec fn sixths(whole: int, i: int) -> int {
    (i * whole + 3) / 6
}

/// What the wishes decide: the sizes beside each other of a part of a given length and a part
/// of a least length, in either order, and those of six equal shares.
pub open spec fn settles(axis: Axis, slots: Seq<Slot>, area: Area, parts: Seq<Area>) -> bool {
    let whole = extent(axis, area);
    &&& slots.len() == 2 && slots[0] is Length && slots[1] is Min ==> {
        &&& tiles(axis, area, parts)
        &&& extent(axis, parts[1]) == remaining(
            whole,
            slots[1]->Min_0 as int,
            slots[0]->Length_0 as int,
        )
    }
    &&& slots.len() == 2 && slots[0] is Min && slots[1] is Length ==> {
        &&& tiles(axis, area, parts)
        &&& extent(axis, parts[0]) == remaining(
            whole,
            slots[0]->Min_0 as int,
            slots[1]->Length_0 as int,
        )
    }
    &&& slots == graph_slots() ==> {
        &&& tiles(axis, area, parts)
        &&& forall|i: int|
            0 <= i < 6 ==> start(axis, #[trigger] parts[i]) == start(axis, area) + sixths(whole, i)
    }
}

/// `ratatui::layout::Layout::split` gives one part for each wish. Each part lies in the area,
/// as the crate requires of both its ends, and has the extent of the area across the axis.
/// The sizes along the axis minimise the violation of the wishes, weighted by strengths that
/// the crate gives them: the parts stay together before anything else, then a least length is
/// kept, then a length, then a share, and a part with a least length takes what is left. This
/// decides the cases in `settles`, where the crate rounds every boundary to the nearest
/// position. For other wishes, and for an area that ends beyond the range of a coordinate,
/// the sizes are left open: wishes of equal strength may conflict, and the numerical solver
/// of the crate may then settle them in more than one way. All that is said of those is that
/// they are an outcome of this call. A share is at most the whole, and a least length is at
/// most what the crate can hold.
#[verifier::external_body]
pub(crate) fn split(axis: Axis, slots: &Vec<Slot>, area: Area) -> (parts: Vec<Area>)
    requires
        forall|i: int|
            0 <= i < slots.len() ==> (#[trigger] slots@[i] matches Slot::Ratio(n, d) ==> n <= d),
        forall|i: int|
            0 <= i < slots.len() ==> (#[trigger] slots@[i] matches Slot::Min(n) ==> n <= i16::MAX),
    ensures
        parts.len() == slots.len(),
        forall|i: int|
            0 <= i < parts.len() ==> spans_across(axis, area, #[trigger] parts@[i]),
        forall|i: int| 0 <= i < parts.len() ==> lies_in(#[trigger] parts@[i], area),
        split_outcome(axis, slots@, area, parts@),
        in_range(area) ==> settles(axis, slots@, area, parts@),
{
    let direction = match axis {
        Axis::Vertical => Direction::Vertical,
        Axis::Horizontal => Direction::Horizontal,
    };
    let wishes = slots.iter().map(|slot| match *slot {
        Slot::Length(n) => Constraint::Length(n),
        Slot::Min(n) => Constraint::Min(n),
        Slot::Ratio(n, d) => Constraint::Ratio(n, d),
    });
    let whole = Rect { x: area.x, y: area.y, width: area.width, height: area.height };
    let parts = Layout::new(direction, wishes).split(whole);
    parts.iter().map(|p| Area { x: p.x, y: p.y, width: p.width, height: p.height }).collect()
}

/// The parts of the screen: a title line, the main part, and a column beside it.
#[derive(Clone, Copy, PartialEq, Eq, Debug)]
pub struct Plan {
    pub title: Area,
    pub body: Area,
    pub main: Area,
    pub side: Area,
}

/// One line for the title, the rest for the body.
pub open spec fn title_slots() -> Seq<Slot> {
    seq![Slot::Length(1), Slot::Min(0)]
}

/// 28 columns at the side, the rest, at least 40, for the main part.
pub open spec fn body_slots() -> Seq<Slot> {
    seq![Slot::Min(40), Slot::Length(28)]
}

/// Equal shares for six graphs.
pub open spec fn graph_slots() -> Seq<Slot> {
    seq![
        Slot::Ratio(1, 6),
        Slot::Ratio(1, 6),
        Slot::Ratio(1, 6),
        Slot::Ratio(1, 6),
        Slot::Ratio(1, 6),
        Slot::Ratio(1, 6),
    ]
}

/// The division of a screen: a title of one line, where there is any, and below it a side
/// column of 28, beside a main part that has the rest. The side column gives way where the
/// main part would have less than 40.
pub open spec fn planned(area: Area) -> Plan {
    let line = if area.height > 0 {
        1int
    } else {
        0
    };
    let title = Area { height: line as u16, ..area };
    let body = Area { y: (area.y + line) as u16, height: (area.height - line) as u16, ..area };
    let width = remaining(area.width as int, 40, 28);
    Plan {
        title,
        body,
        main: Area { width: width as u16, ..body },
        side: Area { x: (area.x + width) as u16, width: (area.width - width) as u16, ..body },
    }
}

/// The areas of the six graphs: one below the other, with equal shares of the height.
pub open spec fn shared(area: Area) -> Seq<Area> {
    Seq::new(
        6,
        |i: int|
            Area {
                y: (area.y + sixths(area.height as int, i)) as u16,
                height: (sixths(area.height as int, i + 1) - sixths(area.height as int, i)) as u16,
                ..area
            },
    )
}

/// Whether a plan is made of the parts that splitting the screen gives. Within the range of a
/// coordinate there is at most one such plan.
pub open spec fn is_plan(area: Area, plan: Plan) -> bool {
    &&& split_outcome(Axis::Vertical, title_slots(), area, seq![plan.title, plan.body])
    &&& split_outcome(Axis::Horizontal, body_slots(), plan.body, seq![plan.main, plan.side])
    &&& spans_across(Axis::Vertical, area, plan.title)
    &&& spans_across(Axis::Vertical, area, plan.body)
    &&& spans_across(Axis::Horizontal, plan.body, plan.main)
    &&& spans_across(Axis::Horizontal, plan.body, plan.side)
    &&& lies_in(plan.title, area)
    &&& lies_in(plan.body, area)
    &&& lies_in(plan.main, plan.body)
    &&& lies_in(plan.side, plan.body)
    &&& in_range(area) ==> plan == planned(area)
}

/// Divides the screen.
pub fn plan_screen(area: Area) -> (plan: Plan)
    ensures
        is_plan(area, plan),
{
    let rows = split(Axis::Vertical, &vec![Slot::Length(1), Slot::Min(0)], area);
    let columns = split(Axis::Horizontal, &vec![Slot::Min(40), Slot::Length(28)], rows[1]);
    let plan = Plan { title: rows[0], body: rows[1], main: columns[0], side: columns[1] };
    proof {
        assert(rows@ =~= seq![plan.title, plan.body]);
        assert(columns@ =~= seq![plan.main, plan.side]);
        if in_range(area) {
            assert(tiles(Axis::Vertical, area, rows@));
            assert(start(Axis::Vertical, rows@[1]) == start(Axis::Vertical, rows@[0]) + extent(
                Axis::Vertical,
                rows@[0],
            ));
            assert(start(Axis::Horizontal, columns@[1]) == start(Axis::Horizontal, columns@[0])
                + extent(Axis::Horizontal, columns@[0]));
        }
    }
    plan
}

/// Divides an area among the six graphs.
pub fn plan_graphs(area: Area) -> (parts: Vec<Area>)
    ensures
        parts.len() == 6,
        split_outcome(Axis::Vertical, graph_slots(), area, parts@),
        forall|i: int|
            0 <= i < parts.len() ==> spans_across(Axis::Vertical, area, #[trigger] parts@[i]),
        forall|i: int| 0 <= i < parts.len() ==> lies_in(#[trigger] parts@[i], area),
        in_range(area) ==> parts@ == shared(area),
{
    let mut slots: Vec<Slot> = Vec::new();
    let mut i: usize = 0;
    while i < 6
        invariant
            i <= 6,
            slots@ == graph_slots().take(i as int),
        decreases 6 - i,
    {
        slots.push(Slot::Ratio(1, 6));
        proof {
            assert(graph_slots().take(i + 1) =~= graph_slots().take(i as int).push(
                Slot::Ratio(1, 6),
            ));
        }
        i = i + 1;
    }
    proof {
        assert(graph_slots().take(6) =~= graph_slots());
    }
    let parts = split(Axis::Vertical, &slots, area);
    proof {
        if in_range(area) {
            let whole = area.height as int;
            assert(tiles(Axis::Vertical, area, parts@));
            assert forall|i: int| 0 <= i < 6 implies #[trigger] parts@[i] == shared(area)[i] by {
                lemma_sixths(whole, i);
                assert(spans_across(Axis::Vertical, area, parts@[i]));
                assert(start(Axis::Vertical, parts@[i]) == area.y + sixths(whole, i));
                if i < 5 {
                    assert(start(Axis::Vertical, parts@[i + 1]) == area.y + sixths(whole, i + 1));
                }
            }
            assert(parts@ =~= shared(area));
        }
    }
    parts
}

/// The boundaries of equal shares lie in the whole, and each share is as near to a sixth of
/// it as whole lines allow.
proof fn lemma_sixths(whole: int, i: int)
    requires
        0 <= whole,
        0 <= i < 6,
    ensures
        0 <= sixths(whole, i) <= sixths(whole, i + 1) <= whole,
        sixths(whole, 0) == 0,
        sixths(whole, 6) == whole,
        whole / 6 <= sixths(whole, i + 1) - sixths(whole, i) <= whole / 6 + 1,
{
    let k = i * whole;
    assert((i + 1) * whole == k + whole) by (nonlinear_arith)
        requires
            k == i * whole,
    ;
    assert(0 <= k <= 5 * whole) by (nonlinear_arith)
        requires
            k == i * whole,
            0 <= whole,
            0 <= i < 6,
    ;
}

/// On a screen with at least one line and 68 columns, the title is one line at the top, the
/// side column is 28 wide at the right, and the main part is the rest.
pub proof fn parts_have_their_sizes(area: Area, plan: Plan)
    requires
        is_plan(area, plan),
        in_range(area),
        area.height >= 1,
        area.width >= 68,
    ensures
        plan.title == (Area { height: 1, ..area }),
        plan.side.width == 28,
        plan.side.x + plan.side.width == area.x + area.width,
        plan.main.x == area.x,
        plan.main.width == area.width - 28,
        plan.main.y == area.y + 1 && plan.main.height == area.height - 1,
        plan.side.y == area.y + 1 && plan.side.height == area.height - 1,
{
}

/// The graphs follow one another from the top of their area to its bottom, and their heights
/// differ by at most one.
pub proof fn graphs_share_evenly(area: Area, i: int, j: int)
    requires
        in_range(area),
        0 <= i < 6,
        0 <= j < 6,
    ensures
        shared(area)[0].y == area.y,
        i < 5 ==> shared(area)[i + 1].y == shared(area)[i].y + shared(area)[i].height,
        shared(area)[5].y + shared(area)[5].height == area.y + area.height,
        shared(area)[i].height <= shared(area)[j].height + 1,
{
    let whole = area.height as int;
    lemma_sixths(whole, 0);
    lemma_sixths(whole, 5);
    lemma_sixths(whole, i);
    lemma_sixths(whole, j);
    if i < 5 {
        lemma_sixths(whole, i + 1);
    }
}

/// A selection within a list of `count` rows: the last row if the list has become shorter.
pub open spec fn clamped(selected: int, count: int) -> int {
    if count == 0 {
        0
    } else if selected < count {
        selected
    } else {
        count - 1
    }
}

/// The first row in view, moved no further than needed to bring the selected row into view.
pub open spec fn scrolled(first: int, selected: int, height: int) -> int {
    if selected < first {
        selected
    } else if selected >= first + height {
        selected + 1 - height
    } else {
        first
    }
}

/// Clamps the selection to the list.
pub fn clamp_selection(selected: usize, count: usize) -> (r: usize)
    ensures
        r == clamped(selected as int, count as int),
{
    if count == 0 {
        0
    } else if selected < count {
        selected
    } else {
        count - 1
    }
}

/// Scrolls the selected row into view.
pub fn scroll(first: usize, selected: usize, height: usize) -> (r: usize)
    requires
        selected < usize::MAX,
    ensures
        r == scrolled(first as int, selected as int, height as int),
{
    if selected < first {
        selected
    } else if selected - first >= height {
        selected + 1 - height
    } else {
        first
    }
}

/// The clamped selection is a row of the list, unless the list is empty.
pub proof fn selection_is_in_the_list(selected: int, count: int)
    requires
        selected >= 0,
        count > 0,
    ensures
        0 <= clamped(selected, count) < count,
        clamped(clamped(selected, count), count) == clamped(selected, count),
{
}

/// The selected row is in view after scrolling, where at least one row can be shown; and
/// scrolling again moves nothing.
pub proof fn selection_is_in_view(first: int, selected: int, height: int)
    requires
        first >= 0,
        selected >= 0,
        height > 0,
    ensures
        ({
            let now = scrolled(first, selected, height);
            &&& 0 <= now <= selected < now + height
            &&& scrolled(now, selected, height) == now
        }),
{
}

/// A selection in the list stays where it is; one beyond it goes to the last row.
pub proof fn only_a_selection_beyond_the_list_moves(selected: int, count: int)
    requires
        selected >= 0,
        count >= 0,
    ensures
        selected < count ==> clamped(selected, count) == selected,
        selected >= count && count > 0 ==> clamped(selected, count) == count - 1,
        count == 0 ==> clamped(selected, count) == 0,
{
}

/// Of all positions at which the selected row is in view, scrolling takes the one that is
/// nearest to where the list was.
pub proof fn scrolling_moves_no_further_than_needed(
    first: int,
    selected: int,
    height: int,
    other: int,
)
    requires
        first >= 0,
        height > 0,
        other <= selected < other + height,
    ensures
        ({
            let now = scrolled(first, selected, height);
            &&& now <= selected < now + height
            &&& now < first ==> first - now <= first - other
            &&& now > first ==> now - first <= other - first
        }),
{
}

/// On a narrow screen the side column gives way: the main part keeps 40 columns as long as
/// there are so many, and then has them all.
pub proof fn the_side_column_gives_way(area: Area, plan: Plan)
    requires
        is_plan(area, plan),
        in_range(area),
        area.width < 68,
    ensures
        area.width >= 40 ==> plan.main.width == 40,
        area.width < 40 ==> plan.main.width == area.width,
        plan.main.width + plan.side.width == area.width,
        plan.main.x == area.x,
        plan.side.x == area.x + plan.main.width,
{
}

} // verus!
