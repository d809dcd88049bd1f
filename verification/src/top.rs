//! The process list.
use crate::app::{App, AppView};
use crate::layout::{
    clamp_selection, clamped, scroll, scrolled, selection_is_in_the_list, selection_is_in_view, Area,
};
use crate::picture::{Panel, PanelView};
use crate::process::{GpuProcess, ProcessView};
use crate::side::add_line;
use crate::sort::{SortColumn, COLUMN_COUNT};
use crate::style::{bold, bold_on, ink, line_views, piece, Color, Line, SpanView, Style};
use crate::text::{
    align_left, align_right, blank, can_cut, cut, cuts_cleanly, decimal, lemma_occurs_at,
    lemma_occurs_in_sum, missing, numeral, numerals_are_plain, occurs, repeated, shown_part,
    shown_part_is_short, writes,
};
use vstd::prelude::*;
use vstd::string::StringExecFns;

verus! {

/// A text at the right of a column.
pub open spec fn at_right(s: Seq<char>, width: nat) -> Seq<char> {
    blank(missing(s.len(), width)) + s
}

/// A text at the left of a column.
pub open spec fn at_left(s: Seq<char>, width: nat) -> Seq<char> {
    s + blank(missing(s.len(), width))
}

/// The mark of the column by which the list is sorted.
pub open spec fn arrow(a: AppView, column: SortColumn) -> Seq<char> {
    if column != a.sort_column {
        ""@
    } else if a.sort_ascending {
        " ▲"@
    } else {
        " ▼"@
    }
}

/// The heading of a column, with its mark, in the width of the column.
pub open spec fn heading(a: AppView, column: SortColumn) -> Seq<char> {
    let label = arrow(a, column) + " "@ + column.heading();
    match column {
        SortColumn::Name => at_left(label, 32),
        _ => at_right(label, 8),
    }
}

/// The column by which the list is sorted stands out.
pub open spec fn heading_style(a: AppView, column: SortColumn) -> Style {
    if column == a.sort_column {
        bold(Color::Green)
    } else {
        bold(Color::DarkGray)
    }
}

/// The headings with a rule between each two.
pub open spec fn headings(a: AppView) -> Seq<SpanView> {
    Seq::new(
        13,
        |i: int|
            if i % 2 == 0 {
                piece(heading(a, SortColumn::at(i / 2)), heading_style(a, SortColumn::at(i / 2)))
            } else {
                piece(" │ "@, ink(Color::DarkGray))
            },
    )
}

/// The first line of the list.
pub open spec fn header(a: AppView) -> Seq<SpanView> {
    headings(a).push(piece(" | Type"@, bold(Color::DarkGray)))
}

/// The rule below the headings.
pub open spec fn ruler(area: Area) -> Seq<SpanView> {
    seq![piece(Seq::new(missing(2, area.width as nat), |_i: int| '─'), ink(Color::DarkGray))]
}

/// The text of a percentage.
pub open spec fn percent(n: u32) -> Seq<char> {
    numeral(n as nat) + "%"@
}

/// The text of a row.
pub open spec fn row_text(p: ProcessView) -> Seq<char> {
    at_right(numeral(p.pid as nat), 8) + " │ "@ + at_left(shown_part(p.name), 32) + " │ "@
        + at_right(numeral(p.mem_mb as nat) + " MB"@, 8) + " │ "@ + at_right(percent(p.sm_util), 8)
        + " │ "@ + at_right(percent(p.mem_util), 8) + " │ "@ + at_right(percent(p.enc_util), 8)
        + " │ "@ + at_right(percent(p.dec_util), 8) + " │ "@
}

/// Whether the numbers of a row fit their columns.
pub open spec fn entries_fit(p: ProcessView) -> bool {
    &&& numeral(p.pid as nat).len() <= 8
    &&& (numeral(p.mem_mb as nat) + " MB"@).len() <= 8
    &&& percent(p.sm_util).len() <= 8
    &&& percent(p.mem_util).len() <= 8
    &&& percent(p.enc_util).len() <= 8
    &&& percent(p.dec_util).len() <= 8
}

/// The style of a piece of a row: a process about to be killed is shown on red, the
/// selected one on white.
pub open spec fn row_style(target: bool, selected: bool, selected_fg: Color, fg: Color) -> Style {
    if target {
        bold_on(Color::White, Color::Red)
    } else if selected {
        bold_on(selected_fg, Color::White)
    } else {
        ink(fg)
    }
}

/// The kinds of use that a process makes of the GPU.
pub open spec fn type_pieces(p: ProcessView, target: bool, selected: bool) -> Seq<SpanView> {
    let base = row_style(target, selected, Color::Black, Color::Gray);
    let graphics = row_style(target, selected, Color::Green, Color::Green);
    let compute = row_style(target, selected, Color::Magenta, Color::Magenta);
    if p.is_graphics && p.is_compute {
        seq![piece("GRAPHICS"@, graphics), piece(" | "@, base), piece("COMPUTE "@, compute)]
    } else if p.is_graphics {
        seq![piece("GRAPHICS "@, graphics)]
    } else if p.is_compute {
        seq![piece("COMPUTE "@, compute)]
    } else {
        seq![piece("?"@, base)]
    }
}

/// The line of a process.
pub open spec fn row_line(p: ProcessView, target: bool, selected: bool) -> Seq<SpanView> {
    seq![piece(row_text(p), row_style(target, selected, Color::Black, Color::Gray))] + type_pieces(
        p,
        target,
        selected,
    )
}

/// The number of rows that fit between the borders, below the headings.
pub open spec fn list_height(area: Area) -> int {
    missing(4, area.height as nat) as int
}

/// The selected row of a list.
pub open spec fn selected_row(a: AppView, rows: Seq<usize>) -> int {
    clamped(a.selected_index, rows.len() as int)
}

/// The first row that is shown.
pub open spec fn first_row(a: AppView, rows: Seq<usize>, area: Area) -> int {
    scrolled(a.viewport_offset, selected_row(a, rows), list_height(area))
}

/// The number of rows that are shown.
pub open spec fn shown_count(a: AppView, rows: Seq<usize>, area: Area) -> int {
    let left = rows.len() - first_row(a, rows, area);
    if left < 0 {
        0
    } else if left < list_height(area) {
        left
    } else {
        list_height(area)
    }
}

/// The process in a row.
pub open spec fn process_in(a: AppView, rows: Seq<usize>, row: int) -> ProcessView {
    a.processes[rows[row] as int]
}

/// Whether every name that is shown can be cut to the width of its column.
pub open spec fn names_fit(a: AppView, rows: Seq<usize>, area: Area) -> bool {
    forall|i: int|
        0 <= i < shown_count(a, rows, area) ==> cuts_cleanly(
            #[trigger] process_in(a, rows, first_row(a, rows, area) + i).name,
        )
}

/// The line of a row of the list.
pub open spec fn list_line(a: AppView, rows: Seq<usize>, row: int) -> Seq<SpanView> {
    let p = process_in(a, rows, row);
    row_line(p, a.kill_confirm == Some(p.pid), row == selected_row(a, rows))
}

/// The lines of the rows that are shown.
pub open spec fn row_lines(a: AppView, rows: Seq<usize>, area: Area) -> Seq<Seq<SpanView>> {
    Seq::new(
        shown_count(a, rows, area) as nat,
        |i: int| list_line(a, rows, first_row(a, rows, area) + i),
    )
}

/// What an empty list says.
pub open spec fn empty_note(rows: Seq<usize>) -> Seq<Seq<SpanView>> {
    if rows.len() == 0 {
        seq![seq![piece("  No GPU processes found"@, ink(Color::DarkGray))]]
    } else {
        Seq::empty()
    }
}

/// The title of the list: the filter while it is typed, else the question whether to kill,
/// else the number of processes.
pub open spec fn list_title(a: AppView, rows: Seq<usize>) -> Seq<char> {
    if a.filter_editing {
        " Filter: "@ + a.filter + "▏"@
    } else {
        match a.kill_confirm {
            Some(pid) => " Kill PID "@ + numeral(pid as nat) + "? [y]es / [n]o "@,
            None => " Processes ("@ + numeral(rows.len()) + ") "@,
        }
    }
}

/// The colour of the frame: a question stands out, and so does typing.
pub open spec fn frame_color(a: AppView, calm: Color) -> Color {
    if a.kill_confirm is Some {
        Color::Red
    } else if a.filter_editing {
        Color::Yellow
    } else {
        calm
    }
}

/// The panel of the process list.
pub open spec fn list_panel(a: AppView, rows: Seq<usize>, area: Area) -> PanelView {
    PanelView {
        area,
        title: list_title(a, rows),
        title_style: bold(frame_color(a, Color::White)),
        border_style: ink(frame_color(a, Color::DarkGray)),
        lines: seq![header(a), ruler(area)] + row_lines(a, rows, area) + empty_note(rows),
    }
}

/// The state after the list has been shown: the selection is in the list, and in view.
pub open spec fn settled(a: AppView, rows: Seq<usize>, area: Area) -> AppView {
    AppView {
        selected_index: selected_row(a, rows),
        viewport_offset: first_row(a, rows, area),
        ..a
    }
}

fn draw_heading(app: &App, column: SortColumn) -> (r: (String, Style))
    ensures
        r.0@ == heading(app@, column),
        r.1 == heading_style(app@, column),
{
    let sorted = column == app.sort_column;
    let arrow = if !sorted {
        ""
    } else if app.sort_ascending {
        " ▲"
    } else {
        " ▼"
    };
    let label = arrow.to_owned().concat(" ").concat(column.label());
    let text = match column {
        SortColumn::Name => align_left(label.as_str(), 32),
        _ => align_right(label.as_str(), 8),
    };
    let style = if sorted {
        bold(Color::Green)
    } else {
        bold(Color::DarkGray)
    };
    (text, style)
}

/// Draws the headings.
pub fn draw_header(app: &App) -> (line: Line)
    ensures
        line@ == header(app@),
{
    let mut line = Line::empty();
    let (text, style) = draw_heading(app, SortColumn::Pid);
    line.push(text, style);
    proof {
        assert(line@ =~= headings(app@).take(1));
    }
    let mut place: usize = 1;
    while place < COLUMN_COUNT
        invariant
            1 <= place <= COLUMN_COUNT,
            line@ == headings(app@).take(2 * place - 1),
        decreases COLUMN_COUNT - place,
    {
        let (text, style) = draw_heading(app, SortColumn::from_place(place));
        let ghost before = line@;
        line.push(" │ ".to_owned(), ink(Color::DarkGray));
        line.push(text, style);
        proof {
            let all = headings(app@);
            assert((2 * place) / 2 == place as int);
            assert(all.take(2 * (place + 1) - 1) =~= before.push(all[2 * place - 1]).push(
                all[2 * place as int],
            ));
        }
        place = place + 1;
    }
    line.push(" | Type".to_owned(), bold(Color::DarkGray));
    proof {
        assert(headings(app@).take(13) =~= headings(app@));
    }
    line
}

fn percent_text(n: u32) -> (s: String)
    ensures
        s@ == percent(n),
{
    decimal(n as u64).concat("%")
}

/// Writes the text of a row.
pub fn draw_row_text(p: &GpuProcess) -> (s: String)
    requires
        cuts_cleanly(p.name@),
    ensures
        s@ == row_text(p@),
{
    let rule = " │ ";
    let pid = align_right(decimal(p.pid as u64).as_str(), 8);
    let name = align_left(cut(p.name.as_str()), 32);
    let mem = align_right(decimal(p.mem_mb).concat(" MB").as_str(), 8);
    let sm = align_right(percent_text(p.sm_util).as_str(), 8);
    let mem_util = align_right(percent_text(p.mem_util).as_str(), 8);
    let enc = align_right(percent_text(p.enc_util).as_str(), 8);
    let dec = align_right(percent_text(p.dec_util).as_str(), 8);
    let s = pid.concat(rule).concat(name.as_str()).concat(rule).concat(mem.as_str());
    let s = s.concat(rule).concat(sm.as_str()).concat(rule).concat(mem_util.as_str());
    s.concat(rule).concat(enc.as_str()).concat(rule).concat(dec.as_str()).concat(rule)
}

fn choose_style(target: bool, selected: bool, selected_fg: Color, fg: Color) -> (style: Style)
    ensures
        style == row_style(target, selected, selected_fg, fg),
{
    if target {
        bold_on(Color::White, Color::Red)
    } else if selected {
        bold_on(selected_fg, Color::White)
    } else {
        ink(fg)
    }
}

/// Draws the line of a process.
pub fn draw_row(p: &GpuProcess, target: bool, selected: bool) -> (line: Line)
    requires
        cuts_cleanly(p.name@),
    ensures
        line@ == row_line(p@, target, selected),
{
    let base = choose_style(target, selected, Color::Black, Color::Gray);
    let graphics = choose_style(target, selected, Color::Green, Color::Green);
    let compute = choose_style(target, selected, Color::Magenta, Color::Magenta);
    let mut line = Line::empty();
    line.push(draw_row_text(p), base);
    if p.is_graphics && p.is_compute {
        line.push("GRAPHICS".to_owned(), graphics);
        line.push(" | ".to_owned(), base);
        line.push("COMPUTE ".to_owned(), compute);
    } else if p.is_graphics {
        line.push("GRAPHICS ".to_owned(), graphics);
    } else if p.is_compute {
        line.push("COMPUTE ".to_owned(), compute);
    } else {
        line.push("?".to_owned(), base);
    }
    proof {
        assert(line@ =~= row_line(p@, target, selected));
    }
    line
}

/// The scroll position of a list: the selected row, the first row shown, and the row after
/// the last one shown.
fn settle(app: &App, rows: &Vec<usize>, area: Area) -> (r: (usize, usize, usize))
    ensures
        r.0 == selected_row(app@, rows@),
        r.1 == first_row(app@, rows@, area),
        r.2 == r.1 + shown_count(app@, rows@, area),
        r.2 > r.1 ==> r.2 <= rows.len(),
{
    let count: usize = rows.len();
    let height: usize = (area.height as usize).saturating_sub(4);
    let selected: usize = clamp_selection(app.selected_index, count);
    let first: usize = scroll(app.viewport_offset, selected, height);
    let end: usize = if first >= count {
        first
    } else if count - first < height {
        count
    } else {
        first + height
    };
    (selected, first, end)
}

/// Tests whether every name that is shown can be cut to the width of its column.
pub fn check_names(app: &App, rows: &Vec<usize>, area: Area) -> (fit: bool)
    requires
        forall|i: int| 0 <= i < rows.len() ==> #[trigger] rows@[i] < app.processes.len(),
    ensures
        fit == names_fit(app@, rows@, area),
{
    let (_selected, first, end) = settle(app, rows, area);
    let mut row: usize = first;
    while row < end
        invariant
            first <= row <= end,
            first == first_row(app@, rows@, area),
            end == first + shown_count(app@, rows@, area),
            end > first ==> end <= rows.len(),
            forall|i: int| 0 <= i < rows.len() ==> #[trigger] rows@[i] < app.processes.len(),
            forall|i: int|
                0 <= i < row - first ==> cuts_cleanly(
                    #[trigger] process_in(app@, rows@, first + i).name,
                ),
        decreases end - row,
    {
        if !can_cut(app.processes[rows[row]].name.as_str()) {
            proof {
                assert(!cuts_cleanly(
                    process_in(
                        app@,
                        rows@,
                        first_row(app@, rows@, area) + (row - first),
                    ).name,
                ));
            }
            return false;
        }
        row = row + 1;
    }
    true
}

/// Draws the title of the list.
pub fn draw_list_title(app: &App, rows: &Vec<usize>) -> (s: String)
    ensures
        s@ == list_title(app@, rows@),
{
    if app.filter_editing {
        " Filter: ".to_owned().concat(app.filter.as_str()).concat("▏")
    } else {
        match app.kill_confirm {
            Some(pid) => " Kill PID ".to_owned().concat(decimal(pid as u64).as_str()).concat(
                "? [y]es / [n]o ",
            ),
            None => " Processes (".to_owned().concat(decimal(rows.len() as u64).as_str()).concat(") "),
        }
    }
}

fn choose_frame_color(app: &App, calm: Color) -> (color: Color)
    ensures
        color == frame_color(app@, calm),
{
    if app.kill_confirm.is_some() {
        Color::Red
    } else if app.filter_editing {
        Color::Yellow
    } else {
        calm
    }
}

/// Draws the process list for the given rows, and scrolls the selection into view.
pub fn draw_list(app: &mut App, rows: &Vec<usize>, area: Area) -> (panel: Panel)
    requires
        forall|i: int| 0 <= i < rows.len() ==> #[trigger] rows@[i] < old(app).processes.len(),
        names_fit(old(app)@, rows@, area),
    ensures
        panel@ == list_panel(old(app)@, rows@, area),
        final(app)@ == settled(old(app)@, rows@, area),
{
    let ghost a = app@;
    let (selected, first, end) = settle(app, rows, area);
    let mut lines: Vec<Line> = Vec::new();
    proof {
        assert(line_views(lines@) =~= Seq::<Seq<SpanView>>::empty());
    }
    add_line(&mut lines, draw_header(app));
    let mut rule = Line::empty();
    rule.push(repeated('─', (area.width as usize).saturating_sub(2)), ink(Color::DarkGray));
    add_line(&mut lines, rule);
    let ghost top = seq![header(a), ruler(area)];
    proof {
        assert(rule@ =~= ruler(area));
        assert(line_views(lines@) =~= top + row_lines(a, rows@, area).take(0));
    }
    let mut row: usize = first;
    while row < end
        invariant
            app@ == a,
            first <= row <= end,
            selected == selected_row(a, rows@),
            first == first_row(a, rows@, area),
            end == first + shown_count(a, rows@, area),
            end > first ==> end <= rows.len(),
            forall|i: int| 0 <= i < rows.len() ==> #[trigger] rows@[i] < app.processes.len(),
            names_fit(a, rows@, area),
            line_views(lines@) == top + row_lines(a, rows@, area).take(row - first),
        decreases end - row,
    {
        proof {
            let i = row - first;
            assert(cuts_cleanly(process_in(a, rows@, first_row(a, rows@, area) + i).name));
            assert(top + row_lines(a, rows@, area).take(i + 1) =~= (top + row_lines(
                a,
                rows@,
                area,
            ).take(i)).push(row_lines(a, rows@, area)[i]));
        }
        let p = &app.processes[rows[row]];
        let target = match app.kill_confirm {
            Some(pid) => pid == p.pid,
            None => false,
        };
        add_line(&mut lines, draw_row(p, target, row == selected));
        row = row + 1;
    }
    proof {
        assert(row_lines(a, rows@, area).take(row - first) =~= row_lines(a, rows@, area));
    }
    if rows.len() == 0 {
        let mut note = Line::empty();
        note.push("  No GPU processes found".to_owned(), ink(Color::DarkGray));
        add_line(&mut lines, note);
        proof {
            assert(note@ =~= empty_note(rows@)[0]);
        }
    }
    proof {
        assert(line_views(lines@) =~= list_panel(a, rows@, area).lines);
    }
    let title = draw_list_title(app, rows);
    let title_style = bold(choose_frame_color(app, Color::White));
    let border_style = ink(choose_frame_color(app, Color::DarkGray));
    app.viewport_offset = first;
    app.selected_index = selected;
    Panel { area, title, title_style, border_style, lines }
}

/// Draws the process list, filtered and sorted. There is no panel where a name that is to
/// be shown cannot be cut to the width of its column, as the cut would lie inside a
/// character; the state then stays as it is.
pub fn draw_top(app: &mut App, area: Area) -> (panel: Option<Panel>)
    ensures
        panel is Some <==> names_fit(old(app)@, old(app)@.rows(), area),
        panel matches Some(panel) ==> {
            &&& panel@ == list_panel(old(app)@, old(app)@.rows(), area)
            &&& final(app)@ == settled(old(app)@, old(app)@.rows(), area)
        },
        panel is None ==> final(app)@ == old(app)@,
{
    let rows = app.display_rows();
    if check_names(app, &rows, area) {
        Some(draw_list(app, &rows, area))
    } else {
        None
    }
}

/// Every heading fills its column, whatever the order.
pub proof fn headings_fill_their_columns(a: AppView, column: SortColumn)
    ensures
        heading(a, column).len() == (if column == SortColumn::Name {
            32
        } else {
            8int
        }),
{
    reveal_strlit("");
    reveal_strlit(" ");
    reveal_strlit(" ▲");
    reveal_strlit(" ▼");
    reveal_strlit("PID");
    reveal_strlit("Command");
    reveal_strlit("Mem");
    reveal_strlit("SM%");
    reveal_strlit("Mem%");
    reveal_strlit("Enc%");
    reveal_strlit("Dec%");
}

/// Two rows are equally long, so that their columns stand below one another, where every
/// number fits its column; names always do.
pub proof fn rows_are_equally_long(p: ProcessView, q: ProcessView)
    requires
        cuts_cleanly(p.name),
        cuts_cleanly(q.name),
        entries_fit(p),
        entries_fit(q),
    ensures
        row_text(p).len() == row_text(q).len(),
{
    shown_part_is_short(p.name);
    shown_part_is_short(q.name);
}

/// The lines of the list fit between the borders, where at least one row does.
pub proof fn list_fits_its_frame(a: AppView, rows: Seq<usize>, area: Area)
    requires
        list_height(area) > 0,
    ensures
        list_panel(a, rows, area).lines.len() + 2 <= area.height,
{
}

/// While there is a question, the title of the list names its answers.
pub proof fn questions_name_their_answers(a: AppView, rows: Seq<usize>)
    requires
        a.kill_confirm is Some,
        !a.filter_editing,
    ensures
        occurs(list_title(a, rows), "[y]"@),
        occurs(list_title(a, rows), "[n]"@),
{
    let start = " Kill PID "@ + numeral(a.kill_confirm->0 as nat);
    let answers = "? [y]es / [n]o "@;
    reveal_strlit("? [y]es / [n]o ");
    reveal_strlit("[y]");
    reveal_strlit("[n]");
    lemma_occurs_at(answers, "[y]"@, 2);
    lemma_occurs_at(answers, "[n]"@, 10);
    lemma_occurs_in_sum(start, answers, "[y]"@);
    lemma_occurs_in_sum(start, answers, "[n]"@);
}

/// Drawing the list does not change which processes are on it.
pub proof fn drawn_list_keeps_its_rows(a: AppView, rows: Seq<usize>, area: Area)
    ensures
        settled(a, rows, area).rows() == a.rows(),
{
    let b = settled(a, rows, area);
    assert(a.listing().lowered =~= b.listing().lowered);
    assert(a.listing() == b.listing());
}

/// Drawing the list again shows the same and changes nothing, where at least one row is in
/// view.
pub proof fn drawing_again_changes_nothing(a: AppView, area: Area)
    requires
        a.selected_index >= 0,
        a.viewport_offset >= 0,
        list_height(area) > 0,
    ensures
        ({
            let b = settled(a, a.rows(), area);
            &&& b.rows() == a.rows()
            &&& settled(b, b.rows(), area) == b
            &&& list_panel(b, b.rows(), area) == list_panel(a, a.rows(), area)
        }),
{
    let rows = a.rows();
    let b = settled(a, rows, area);
    drawn_list_keeps_its_rows(a, rows, area);
    if rows.len() > 0 {
        selection_is_in_the_list(a.selected_index, rows.len() as int);
    }
    selection_is_in_view(a.viewport_offset, selected_row(a, rows), list_height(area));
    assert(row_lines(a, rows, area) =~= row_lines(b, rows, area));
    assert(headings(a) =~= headings(b));
}

/// A cell holds its text at the right or at the left, and is filled up with blanks.
pub proof fn cells_hold_their_texts(s: Seq<char>, width: nat)
    ensures
        ({
            let gap = if s.len() < width { width - s.len() } else { 0 };
            let (r, l) = (at_right(s, width), at_left(s, width));
            &&& r.len() == s.len() + gap && l.len() == s.len() + gap
            &&& r.skip(gap) == s && l.take(s.len() as int) == s
            &&& forall|i: int| 0 <= i < gap ==> #[trigger] r[i] == ' '
            &&& forall|i: int| s.len() <= i < s.len() + gap ==> #[trigger] l[i] == ' '
        }),
{
    let gap = if s.len() < width { width - s.len() } else { 0 };
    assert(at_right(s, width).skip(gap) =~= s);
    assert(at_left(s, width).take(s.len() as int) =~= s);
}

/// A row holds the number of its process, its name as far as it is shown, its memory, and its
/// four utilizations, each in its own column and as it is.
pub proof fn rows_hold_the_entries_of_their_process(
    p: ProcessView,
    pid: Seq<char>,
    mem: Seq<char>,
    sm: Seq<char>,
    mem_util: Seq<char>,
    enc: Seq<char>,
    dec: Seq<char>,
)
    requires
        writes(pid, p.pid as int),
        writes(mem, p.mem_mb as int),
        writes(sm, p.sm_util as int),
        writes(mem_util, p.mem_util as int),
        writes(enc, p.enc_util as int),
        writes(dec, p.dec_util as int),
    ensures
        ({
            let rule = " │ "@;
            row_text(p) == at_right(pid, 8) + rule + at_left(shown_part(p.name), 32) + rule
                + at_right(mem + " MB"@, 8) + rule + at_right(sm + "%"@, 8) + rule + at_right(
                mem_util + "%"@,
                8,
            ) + rule + at_right(enc + "%"@, 8) + rule + at_right(dec + "%"@, 8) + rule
        }),
{
    numerals_are_plain(p.pid as nat, pid);
    numerals_are_plain(p.mem_mb as nat, mem);
    numerals_are_plain(p.sm_util as nat, sm);
    numerals_are_plain(p.mem_util as nat, mem_util);
    numerals_are_plain(p.enc_util as nat, enc);
    numerals_are_plain(p.dec_util as nat, dec);
}

/// A row stands on red where its process is about to be killed, else on white where it is
/// selected, and else on the ground of the terminal. Behind it stands what the process uses
/// the GPU for.
pub proof fn rows_stand_out(p: ProcessView, target: bool, selected: bool)
    ensures
        ({
            let line = row_line(p, target, selected);
            let last = line.len() - 1;
            &&& line[0].text == row_text(p)
            &&& forall|i: int|
                #![trigger line[i]]
                0 <= i < line.len() ==> {
                    &&& target ==> line[i].style == bold_on(Color::White, Color::Red)
                    &&& !target && selected ==> line[i].style.bg == Some(Color::White)
                        && line[i].style.bold
                    &&& !target && !selected ==> line[i].style.bg is None && !line[i].style.bold
                }
            &&& !target && selected ==> line[0].style.fg == Some(Color::Black)
            &&& !target && !selected ==> line[0].style.fg == Some(Color::Gray)
            &&& p.is_graphics && p.is_compute ==> {
                &&& line.len() == 4
                &&& line[1].text == "GRAPHICS"@ && line[2].text == " | "@
                &&& line[3].text == "COMPUTE "@
                &&& !target ==> line[1].style.fg == Some(Color::Green)
                &&& !target ==> line[2].style == line[0].style
                &&& !target ==> line[3].style.fg == Some(Color::Magenta)
            }
            &&& p.is_graphics && !p.is_compute ==> {
                &&& line.len() == 2 && line[1].text == "GRAPHICS "@
                &&& !target ==> line[1].style.fg == Some(Color::Green)
            }
            &&& !p.is_graphics && p.is_compute ==> {
                &&& line.len() == 2 && line[1].text == "COMPUTE "@
                &&& !target ==> line[1].style.fg == Some(Color::Magenta)
            }
            &&& !p.is_graphics && !p.is_compute ==> {
                &&& line.len() == 2 && line[1].text == "?"@
                &&& line[1].style == line[0].style
            }
        }),
{
}

/// The column by which the list is sorted, and no other, is marked: by an arrow that points up
/// where the list ascends and down where it descends, and by its colour.
pub proof fn only_the_sorted_column_is_marked(a: AppView, column: SortColumn)
    ensures
        ({
            let sorted = column == a.sort_column;
            let label = column.heading();
            let text = if !sorted {
                " "@ + label
            } else if a.sort_ascending {
                " ▲ "@ + label
            } else {
                " ▼ "@ + label
            };
            &&& heading(a, column) == (if column == SortColumn::Name {
                at_left(text, 32)
            } else {
                at_right(text, 8)
            })
            &&& sorted ==> heading_style(a, column) == bold(Color::Green)
            &&& !sorted ==> heading_style(a, column) == bold(Color::DarkGray)
        }),
{
    reveal_strlit("");
    reveal_strlit(" ");
    reveal_strlit(" ▲");
    reveal_strlit(" ▼");
    reveal_strlit(" ▲ ");
    reveal_strlit(" ▼ ");
    let label = column.heading();
    assert(""@ + " "@ + label =~= " "@ + label);
    assert(" ▲"@ + " "@ + label =~= " ▲ "@ + label);
    assert(" ▼"@ + " "@ + label =~= " ▼ "@ + label);
}

/// The headings of the seven columns stand in order, with a rule between each two and the
/// heading of the use behind them.
pub proof fn the_header_has_every_column(a: AppView, column: SortColumn)
    ensures
        ({
            let place = if column == SortColumn::Pid {
                0int
            } else if column == SortColumn::Name {
                1
            } else if column == SortColumn::Mem {
                2
            } else if column == SortColumn::SmUtil {
                3
            } else if column == SortColumn::MemUtil {
                4
            } else if column == SortColumn::EncUtil {
                5
            } else {
                6
            };
            &&& header(a).len() == 14
            &&& header(a)[2 * place].text == heading(a, column)
            &&& header(a)[2 * place].style == heading_style(a, column)
            &&& place < 6 ==> header(a)[2 * place + 1] == piece(" │ "@, ink(Color::DarkGray))
            &&& header(a)[13] == piece(" | Type"@, bold(Color::DarkGray))
        }),
{
    let place = column.place();
    assert((2 * place) / 2 == place && (2 * place) % 2 == 0);
    assert((2 * place + 1) % 2 == 1);
}

/// Drawing the list moves the selection and the first row in view, and nothing else. A
/// selection in the list stays; one beyond it goes to the last row. The list is scrolled only
/// where the selection would be out of view, and no further than to bring it in.
pub proof fn drawing_settles_the_selection(a: AppView, rows: Seq<usize>, area: Area)
    requires
        a.selected_index >= 0,
        a.viewport_offset >= 0,
    ensures
        ({
            let b = settled(a, rows, area);
            let height = if area.height > 4 { area.height - 4 } else { 0 };
            let (was, now) = (a.viewport_offset, b.viewport_offset);
            &&& b == (AppView { selected_index: b.selected_index, viewport_offset: now, ..a })
            &&& a.selected_index < rows.len() ==> b.selected_index == a.selected_index
            &&& a.selected_index >= rows.len() && rows.len() > 0 ==> b.selected_index == rows.len()
                - 1
            &&& rows.len() == 0 ==> b.selected_index == 0
            &&& was <= b.selected_index < was + height ==> now == was
            &&& b.selected_index < was ==> now == b.selected_index
            &&& b.selected_index >= was + height ==> now + height == b.selected_index + 1
        }),
{
}

/// Below the headings and a rule, the list shows the processes in the rows from the first one
/// in view on, as many as there are and as fit, in order. The selected row is highlighted, and
/// so is the process that a question is about. An empty list says that it is empty.
pub proof fn the_list_shows_the_rows_in_view(a: AppView, rows: Seq<usize>, area: Area, i: int)
    requires
        a.selected_index >= 0,
        a.viewport_offset >= 0,
    ensures
        ({
            let b = settled(a, rows, area);
            let panel = list_panel(a, rows, area);
            let lines = panel.lines;
            let height = if area.height > 4 { area.height - 4 } else { 0 };
            let left = if rows.len() > b.viewport_offset {
                rows.len() - b.viewport_offset
            } else {
                0
            };
            let count = if left < height { left } else { height };
            let width = if area.width > 2 { area.width - 2 } else { 0 };
            &&& panel.area == area
            &&& lines.len() == 2 + count + (if rows.len() == 0 { 1int } else { 0 })
            &&& lines[0] == header(a)
            &&& lines[1].len() == 1 && lines[1][0].text.len() == width
            &&& forall|k: int| 0 <= k < width ==> #[trigger] lines[1][0].text[k] == '─'
            &&& 0 <= i < count ==> {
                let row = b.viewport_offset + i;
                let p = a.processes[rows[row] as int];
                lines[2 + i] == row_line(p, a.kill_confirm == Some(p.pid), row == b.selected_index)
            }
            &&& rows.len() == 0 ==> lines[2] == seq![
                piece("  No GPU processes found"@, ink(Color::DarkGray)),
            ]
        }),
{
    let top = seq![header(a), ruler(area)];
    let shown = row_lines(a, rows, area);
    let lines = list_panel(a, rows, area).lines;
    assert(lines[0] == top[0] && lines[1] == top[1]);
    if 0 <= i < shown.len() {
        assert(lines[2 + i] == shown[i]);
    }
}

/// The frame of the list tells its mode. While the filter is typed it is yellow and shows the
/// filter; while there is a question it is red and names the process; else it is grey and
/// tells how many rows there are.
pub proof fn the_frame_tells_the_mode(
    a: AppView,
    rows: Seq<usize>,
    area: Area,
    count: Seq<char>,
    asked: Seq<char>,
)
    requires
        a.one_mode(),
        writes(count, rows.len() as int),
        a.kill_confirm is Some ==> writes(asked, a.kill_confirm->0 as int),
    ensures
        ({
            let panel = list_panel(a, rows, area);
            let (typing, question) = (a.filter_editing, a.kill_confirm is Some);
            &&& typing ==> panel.title == " Filter: "@ + a.filter + "▏"@
            &&& typing ==> panel.border_style == ink(Color::Yellow)
            &&& typing ==> panel.title_style == bold(Color::Yellow)
            &&& question ==> panel.title == " Kill PID "@ + asked + "? [y]es / [n]o "@
            &&& question ==> panel.border_style == ink(Color::Red)
            &&& question ==> panel.title_style == bold(Color::Red)
            &&& !typing && !question ==> panel.title == " Processes ("@ + count + ") "@
            &&& !typing && !question ==> panel.border_style == ink(Color::DarkGray)
            &&& !typing && !question ==> panel.title_style == bold(Color::White)
        }),
{
    numerals_are_plain(rows.len(), count);
    if let Some(pid) = a.kill_confirm {
        numerals_are_plain(pid as nat, asked);
    }
}

/// The list can be shown exactly where every name in view can be cut. Names of at most 32
/// bytes never stand in the way.
pub proof fn only_names_in_view_matter(a: AppView, rows: Seq<usize>, area: Area)
    requires
        a.selected_index >= 0,
        a.viewport_offset >= 0,
    ensures
        ({
            let first = settled(a, rows, area).viewport_offset;
            let height = if area.height > 4 { area.height - 4 } else { 0 };
            &&& names_fit(a, rows, area) <==> forall|row: int|
                #![trigger rows[row]]
                first <= row < first + height && row < rows.len() ==> cuts_cleanly(
                    a.processes[rows[row] as int].name,
                )
            &&& (forall|k: int|
                0 <= k < a.processes.len() ==> vstd::utf8::encode_utf8(
                    (#[trigger] a.processes[k]).name,
                ).len() <= 32) && (forall|row: int|
                0 <= row < rows.len() ==> (#[trigger] rows[row]) < a.processes.len())
                ==> names_fit(a, rows, area)
        }),
{
    let first = first_row(a, rows, area);
    let count = shown_count(a, rows, area);
    let height = list_height(area);
    assert(first >= 0);
    if names_fit(a, rows, area) {
        assert forall|row: int|
            #![trigger rows[row]]
            first <= row < first + height && row < rows.len() implies cuts_cleanly(
            a.processes[rows[row] as int].name,
        ) by {
            assert(cuts_cleanly(process_in(a, rows, first + (row - first)).name));
        }
    }
    if forall|row: int|
        #![trigger rows[row]]
        first <= row < first + height && row < rows.len() ==> cuts_cleanly(
            a.processes[rows[row] as int].name,
        ) {
        assert forall|i: int| 0 <= i < count implies cuts_cleanly(
            #[trigger] process_in(a, rows, first + i).name,
        ) by {
            assert(cuts_cleanly(a.processes[rows[first + i] as int].name));
        }
    }
}

} // verus!
