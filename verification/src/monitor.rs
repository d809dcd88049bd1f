//! The monitor of all GPUs.
use crate::app::{other_screen, App, AppScreen, AppView};
use crate::draw::{
    after_drawing, draw, drawable, graphs_help, graphs_title_names_the_rate_keys, list_help,
    list_title_names_the_list_keys, shows, titles_name_the_common_keys,
};
use crate::keys::{Action, Key, KeyEvent};
use crate::layout::{is_plan, selection_is_in_the_list, selection_is_in_view, Area, Plan};
use crate::picture::Picture;
use crate::rate::{faster, slow_down, slower, speed_up};
use crate::readings::Readings;
use crate::series::POINT_BYTES;
use crate::text::{decimal, numeral, numerals_are_plain, occurs, span_text, writes};
use crate::top::{
    drawn_list_keeps_its_rows, first_row, list_height, list_title, process_in,
    questions_name_their_answers, row_line, row_lines, selected_row, settled,
};
use vstd::prelude::*;
use vstd::string::StringExecFns;

verus! {

proof fn lemma_left(current: int, count: int)
    requires
        0 <= current < count,
    ensures
        (current + count - 1) % count == (if current == 0 {
            count - 1
        } else {
            current - 1
        }),
{
    if current == 0 {
        vstd::arithmetic::div_mod::lemma_small_mod((count - 1) as nat, count as nat);
    } else {
        vstd::arithmetic::div_mod::lemma_mod_add_multiples_vanish(current - 1, count);
        vstd::arithmetic::div_mod::lemma_small_mod((current - 1) as nat, count as nat);
    }
}

proof fn lemma_right(current: int, count: int)
    requires
        0 <= current < count,
    ensures
        (current + 1) % count == (if current == count - 1 {
            0
        } else {
            current + 1
        }),
{
    if current == count - 1 {
        vstd::arithmetic::div_mod::lemma_mod_self_0(count);
    } else {
        vstd::arithmetic::div_mod::lemma_small_mod((current + 1) as nat, count as nat);
    }
}

/// The monitor of all GPUs, of which one is shown.
#[derive(Debug)]
pub struct Monitor {
    pub apps: Vec<App>,
    pub current_gpu: usize,
    pub tick_ms: u64,
}

/// The model of a [`Monitor`].
#[verifier::ext_equal]
pub struct MonitorView {
    pub apps: Seq<AppView>,
    pub current_gpu: int,
    pub tick_ms: int,
}

/// The models of some states.
pub open spec fn app_views(apps: Seq<App>) -> Seq<AppView> {
    Seq::new(apps.len(), |i: int| apps[i]@)
}

impl View for Monitor {
    type V = MonitorView;

    open spec fn view(&self) -> MonitorView {
        MonitorView {
            apps: app_views(self.apps@),
            current_gpu: self.current_gpu as int,
            tick_ms: self.tick_ms as int,
        }
    }
}

/// The name of a GPU that the driver cannot name.
pub open spec fn gpu_name_or_unknown(name: Option<String>) -> Seq<char> {
    match name {
        Some(name) => name@,
        None => "Unknown"@,
    }
}

impl MonitorView {
    /// There is a GPU, the one that is shown is one of them, and every state is well formed.
    pub open spec fn wf(self) -> bool {
        &&& 0 <= self.current_gpu < self.apps.len()
        &&& self.apps.len() <= u32::MAX
        &&& forall|i: int| 0 <= i < self.apps.len() ==> (#[trigger] self.apps[i]).wf()
    }

    /// Every state is exact as doubles.
    pub open spec fn exact(self) -> bool {
        forall|i: int| 0 <= i < self.apps.len() ==> (#[trigger] self.apps[i]).exact()
    }

    /// On no GPU do a question and typing coincide.
    pub open spec fn one_mode(self) -> bool {
        forall|i: int| 0 <= i < self.apps.len() ==> (#[trigger] self.apps[i]).one_mode()
    }

    /// The state of the GPU that is shown.
    pub open spec fn shown(self) -> AppView {
        self.apps[self.current_gpu]
    }

    /// The monitor before the first samples.
    pub open spec fn started(
        names: Seq<Option<String>>,
        gpu: int,
        tick_ms: int,
        history: usize,
    ) -> MonitorView {
        MonitorView {
            apps: Seq::new(
                names.len(),
                |i: int| AppView::fresh(gpu_name_or_unknown(names[i]), i as u32, history),
            ),
            current_gpu: gpu,
            tick_ms,
        }
    }

    /// After a round of readings of one GPU.
    pub open spec fn with_readings(self, gpu: int, r: Readings) -> MonitorView {
        MonitorView { apps: self.apps.update(gpu, self.apps[gpu].sampled(r)), ..self }
    }

    /// With another state for the GPU that is shown.
    pub open spec fn with_shown(self, a: AppView) -> MonitorView {
        MonitorView { apps: self.apps.update(self.current_gpu, a), ..self }
    }

    /// The state after a key, and what has to be done.
    pub open spec fn pressed(self, event: KeyEvent) -> (MonitorView, Action) {
        let count = self.apps.len() as int;
        if !event.pressed {
            (self, Action::Continue)
        } else {
            match event.key {
                Key::Tab => (
                    self.with_shown(
                        AppView { screen: other_screen(self.shown().screen), ..self.shown() },
                    ),
                    Action::Continue,
                ),
                Key::Esc => (self, Action::Quit),
                Key::Char(c) => if c == 'q' || (c == 'c' && event.control) {
                    (self, Action::Quit)
                } else if c == '+' || c == '=' {
                    (
                        MonitorView { tick_ms: slower(self.tick_ms), ..self },
                        Action::Continue,
                    )
                } else if c == '-' {
                    (
                        MonitorView { tick_ms: faster(self.tick_ms), ..self },
                        Action::Continue,
                    )
                } else {
                    self.listed_key(event)
                },
                Key::Left => (
                    MonitorView { current_gpu: (self.current_gpu + count - 1) % count, ..self },
                    Action::Continue,
                ),
                Key::Right => (
                    MonitorView { current_gpu: (self.current_gpu + 1) % count, ..self },
                    Action::Continue,
                ),
                _ => self.listed_key(event),
            }
        }
    }

    /// The state after a key that only the screen of the process list knows.
    pub open spec fn listed_key(self, event: KeyEvent) -> (MonitorView, Action) {
        let a = self.shown();
        if a.screen == AppScreen::Top {
            let (next, kill) = a.listed_key(event.key, event.shift, a.rows());
            (
                self.with_shown(next),
                match kill {
                    Some(pid) => Action::Kill(pid),
                    None => Action::Continue,
                },
            )
        } else {
            (self, Action::Continue)
        }
    }

    /// Whether an event moves the selection down.
    pub open spec fn moves_down(self, event: KeyEvent) -> bool {
        &&& event.pressed
        &&& event.key == Key::Down
        &&& self.shown().screen == AppScreen::Top
        &&& self.shown().takes_commands()
    }

    /// Whether an event keeps the selection in the range of an index.
    pub open spec fn can_take(self, event: KeyEvent) -> bool {
        self.moves_down(event) ==> self.shown().selected_index < usize::MAX
    }
}

/// What is said of a GPU index that is too large.
pub open spec fn out_of_range(gpu: u32, device_count: u32) -> Seq<char> {
    "GPU index "@ + numeral(gpu as nat) + " out of range (found "@ + numeral(device_count as nat)
        + " GPU(s))"@
}

/// Checks the index of the GPU to show first.
pub fn check_gpu(gpu: u32, device_count: u32) -> (r: Result<usize, String>)
    ensures
        gpu < device_count ==> r == Ok::<usize, String>(gpu as usize),
        gpu >= device_count ==> (r matches Err(message) && message@ == out_of_range(
            gpu,
            device_count,
        )),
{
    if gpu >= device_count {
        Err(
            "GPU index ".to_owned().concat(decimal(gpu as u64).as_str()).concat(
                " out of range (found ",
            ).concat(decimal(device_count as u64).as_str()).concat(" GPU(s))"),
        )
    } else {
        Ok(gpu as usize)
    }
}

impl Monitor {
    /// A monitor of the GPUs with the given names.
    pub fn new(names: &Vec<Option<String>>, gpu: usize, tick_ms: u64, history: usize) -> (m: Monitor)
        requires
            gpu < names.len() <= u32::MAX,
            history * POINT_BYTES <= isize::MAX,
        ensures
            m@.wf(),
            m@.exact(),
            m@.one_mode(),
            m@ == MonitorView::started(names@, gpu as int, tick_ms as int, history),
    {
        let mut apps: Vec<App> = Vec::new();
        let mut i: usize = 0;
        while i < names.len()
            invariant
                i <= names.len() <= u32::MAX,
                history * POINT_BYTES <= isize::MAX,
                apps.len() == i,
                forall|j: int|
                    0 <= j < i ==> (#[trigger] apps@[j])@ == AppView::fresh(
                        gpu_name_or_unknown(names@[j]),
                        j as u32,
                        history,
                    ) && apps@[j]@.wf() && apps@[j]@.exact(),
            decreases names.len() - i,
        {
            let name = match &names[i] {
                Some(name) => name.clone(),
                None => "Unknown".to_owned(),
            };
            apps.push(App::new(name, i as u32, history));
            i = i + 1;
        }
        Monitor { apps, current_gpu: gpu, tick_ms }
    }

    /// Tests whether an event can be handled: the selection must not move beyond the range of
    /// an index.
    pub fn can_handle(&self, event: KeyEvent) -> (r: bool)
        requires
            self@.wf(),
        ensures
            r == self@.can_take(event),
    {
        let app = &self.apps[self.current_gpu];
        let down = match event.key {
            Key::Down => event.pressed,
            _ => false,
        };
        let listed = match app.screen {
            AppScreen::Graphs => false,
            AppScreen::Top => true,
        };
        let commands = app.kill_confirm.is_none() && !app.filter_editing;
        !(down && listed && commands) || app.selected_index < usize::MAX
    }

    /// Takes in an event.
    pub fn handle(&mut self, event: KeyEvent) -> (action: Action)
        requires
            old(self)@.wf(),
            old(self)@.can_take(event),
        ensures
            (final(self)@, action) == old(self)@.pressed(event),
            final(self)@.wf(),
            old(self)@.exact() ==> final(self)@.exact(),
            old(self)@.one_mode() ==> final(self)@.one_mode(),
    {
        if !event.pressed {
            return Action::Continue;
        }
        let count: usize = self.apps.len();
        let ghost before = self@;
        match event.key {
            Key::Tab => {
                self.apps[self.current_gpu].switch_screen();
                proof {
                    assert(self@.apps =~= before.pressed(event).0.apps);
                }
                Action::Continue
            },
            Key::Esc => Action::Quit,
            Key::Left => {
                proof {
                    lemma_left(self.current_gpu as int, count as int);
                }
                self.current_gpu = if self.current_gpu == 0 {
                    count - 1
                } else {
                    self.current_gpu - 1
                };
                Action::Continue
            },
            Key::Right => {
                self.current_gpu = (self.current_gpu + 1) % count;
                Action::Continue
            },
            Key::Char(c) => {
                if c == 'q' || (c == 'c' && event.control) {
                    Action::Quit
                } else if c == '+' || c == '=' {
                    self.tick_ms = slow_down(self.tick_ms);
                    Action::Continue
                } else if c == '-' {
                    self.tick_ms = speed_up(self.tick_ms);
                    Action::Continue
                } else {
                    self.handle_shown(event)
                }
            },
            _ => self.handle_shown(event),
        }
    }

    fn handle_shown(&mut self, event: KeyEvent) -> (action: Action)
        requires
            old(self)@.wf(),
            event.pressed,
            old(self)@.can_take(event),
        ensures
            (final(self)@, action) == old(self)@.listed_key(event),
            final(self)@.wf(),
            old(self)@.exact() ==> final(self)@.exact(),
            old(self)@.one_mode() ==> final(self)@.one_mode(),
    {
        let ghost before = self@;
        let listed = match self.apps[self.current_gpu].screen {
            AppScreen::Graphs => false,
            AppScreen::Top => true,
        };
        if listed {
            let kill = self.apps[self.current_gpu].handle_list_key(event.key, event.shift);
            proof {
                assert(self@.apps =~= before.listed_key(event).0.apps);
            }
            match kill {
                Some(pid) => Action::Kill(pid),
                None => Action::Continue,
            }
        } else {
            Action::Continue
        }
    }

    /// Draws the GPU that is shown. There is no picture where a name on the process list
    /// cannot be cut to the width of its column.
    pub fn draw(&mut self, area: Area) -> (r: (Plan, Option<Picture>))
        requires
            old(self)@.wf(),
        ensures
            is_plan(area, r.0),
            ({
                let a = old(self)@.shown();
                &&& r.1 is Some <==> drawable(a, a.rows(), r.0)
                &&& r.1 matches Some(picture) ==> {
                    &&& shows(
                        picture,
                        a,
                        a.rows(),
                        old(self)@.apps.len() as u32,
                        span_text(old(self).tick_ms),
                        r.0,
                    )
                    &&& final(self)@ == old(self)@.with_shown(after_drawing(a, a.rows(), r.0))
                }
                &&& r.1 is None ==> final(self)@ == old(self)@
            }),
            final(self)@.wf(),
            old(self)@.exact() ==> final(self)@.exact(),
            old(self)@.one_mode() ==> final(self)@.one_mode(),
    {
        let ghost before = self@;
        let count: u32 = self.apps.len() as u32;
        let tick_ms: u64 = self.tick_ms;
        let r = draw(&mut self.apps[self.current_gpu], count, tick_ms, area);
        proof {
            let a = before.shown();
            if r.1 is Some {
                assert(self@.apps =~= before.with_shown(after_drawing(a, a.rows(), r.0)).apps);
            } else {
                assert(self@.apps =~= before.apps);
            }
        }
        r
    }

    /// Takes in a round of readings of one GPU.
    pub fn sample(&mut self, gpu: usize, readings: &Option<Readings>)
        requires
            old(self)@.wf(),
            gpu < old(self).apps.len(),
            readings matches Some(r) ==> r.named() && r.countable(),
        ensures
            final(self)@ == (match readings {
                Some(r) => old(self)@.with_readings(gpu as int, *r),
                None => old(self)@,
            }),
            final(self)@.wf(),
            old(self)@.exact() ==> final(self)@.exact(),
            old(self)@.one_mode() ==> final(self)@.one_mode(),
    {
        let ghost before = self@;
        self.apps[gpu].sample(readings);
        proof {
            assert(before.apps[gpu as int].wf());
            assert(self@.apps =~= before.apps.update(gpu as int, self@.apps[gpu as int]));
            if readings is None {
                assert(self@.apps =~= before.apps);
            }
        }
    }
}

/// A process is killed only when the question about that very process is answered with `y`,
/// on the screen of the process list; and the question is then gone.
pub proof fn killing_needs_confirmation(m: MonitorView, event: KeyEvent, pid: u32)
    requires
        m.wf(),
        m.pressed(event).1 == Action::Kill(pid),
    ensures
        event.pressed,
        event.key == Key::Char('y'),
        m.shown().screen == AppScreen::Top,
        m.shown().kill_confirm == Some(pid),
        m.pressed(event).0.shown().kill_confirm is None,
{
}

/// A question whether to kill comes up only by the key `k`, and it is about the selected
/// process of the list.
pub proof fn questions_are_about_the_selection(m: MonitorView, event: KeyEvent, pid: u32)
    requires
        m.wf(),
        m.pressed(event).0.shown().kill_confirm == Some(pid),
        m.pressed(event).0.current_gpu == m.current_gpu,
        m.shown().kill_confirm != Some(pid),
    ensures
        ({
            let a = m.shown();
            &&& event.key == Key::Char('k')
            &&& a.screen == AppScreen::Top
            &&& a.selected_index < a.rows().len()
            &&& a.processes[a.rows()[a.selected_index] as int].pid == pid
        }),
{
}

/// Once the list has been drawn, `k` and then `y` kill the process in the highlighted row,
/// which is in view where at least one row is.
pub proof fn kill_hits_the_highlighted_process(
    m: MonitorView,
    area: Area,
    k: KeyEvent,
    y: KeyEvent,
)
    requires
        m.wf(),
        m.shown().screen == AppScreen::Top,
        m.shown().takes_commands(),
        m.shown().selected_index >= 0,
        m.shown().viewport_offset >= 0,
        m.shown().rows().len() > 0,
        list_height(area) > 0,
        k.pressed && k.key == Key::Char('k'),
        y.pressed && y.key == Key::Char('y'),
    ensures
        ({
            let a = m.shown();
            let rows = a.rows();
            let row = selected_row(a, rows);
            let line = row - first_row(a, rows, area);
            let drawn = m.with_shown(settled(a, rows, area));
            let asked = drawn.pressed(k);
            let pid = process_in(a, rows, row).pid;
            &&& 0 <= line < row_lines(a, rows, area).len()
            &&& row_lines(a, rows, area)[line] == row_line(process_in(a, rows, row), false, true)
            &&& forall|i: int|
                0 <= i < row_lines(a, rows, area).len() && i != line
                    ==> #[trigger] row_lines(a, rows, area)[i] == row_line(
                    process_in(a, rows, first_row(a, rows, area) + i),
                    false,
                    false,
                )
            &&& asked.1 == Action::Continue
            &&& asked.0.shown().kill_confirm == Some(pid)
            &&& asked.0.pressed(y).1 == Action::Kill(pid)
        }),
{
    let a = m.shown();
    let rows = a.rows();
    let row = selected_row(a, rows);
    selection_is_in_the_list(a.selected_index, rows.len() as int);
    selection_is_in_view(a.viewport_offset, row, list_height(area));
    let b = settled(a, rows, area);
    drawn_list_keeps_its_rows(a, rows, area);
    let drawn = m.with_shown(b);
    assert(drawn.shown() == b);
    assert(drawn.pressed(k).0.shown() == b.targeted(rows));
}

/// How the titles name a key.
pub open spec fn key_name(event: KeyEvent) -> Seq<char> {
    match event.key {
        Key::Tab => "[tab]"@,
        Key::Esc => "[Esc]"@,
        Key::Left => "[←]"@,
        Key::Right => "[→]"@,
        Key::Up => "[↑]"@,
        Key::Down => "[↓]"@,
        Key::Char(c) => if c == 'c' && event.control {
            "[Ctrl-C]"@
        } else if c == '-' {
            "[−]"@
        } else {
            seq!['[', c, ']']
        },
        Key::Enter => "[Enter]"@,
        Key::Backspace => "[Backspace]"@,
        Key::Other => Seq::empty(),
    }
}

/// Every key that does anything, while keys are commands, is named in the title of the graphs
/// or in the title of the process list.
pub proof fn titles_name_every_key(m: MonitorView, event: KeyEvent, rate: Seq<char>)
    requires
        m.wf(),
        m.shown().takes_commands(),
        m.pressed(event) != (m, Action::Continue),
    ensures
        ({
            let count = m.apps.len() as u32;
            ||| occurs(graphs_help(m.shown(), count, rate), key_name(event))
            ||| occurs(list_help(m.shown(), count, rate), key_name(event))
        }),
{
    let a = m.shown();
    let count = m.apps.len() as u32;
    titles_name_the_common_keys(AppView { screen: AppScreen::Graphs, ..a }, count, rate);
    graphs_title_names_the_rate_keys(a, count, rate);
    list_title_names_the_list_keys(a, count, rate);
    assert(m.with_shown(a).apps =~= m.apps);
    if count == 1 {
        lemma_left(m.current_gpu, 1);
        lemma_right(m.current_gpu, 1);
    }
    reveal_strlit("[q]");
    reveal_strlit("[+]");
    reveal_strlit("[=]");
    reveal_strlit("[k]");
    reveal_strlit("[s]");
    reveal_strlit("[S]");
    reveal_strlit("[o]");
    reveal_strlit("[f]");
    assert("[q]"@ =~= seq!['[', 'q', ']']);
    assert("[+]"@ =~= seq!['[', '+', ']']);
    assert("[=]"@ =~= seq!['[', '=', ']']);
    assert("[k]"@ =~= seq!['[', 'k', ']']);
    assert("[s]"@ =~= seq!['[', 's', ']']);
    assert("[S]"@ =~= seq!['[', 'S', ']']);
    assert("[o]"@ =~= seq!['[', 'o', ']']);
    assert("[f]"@ =~= seq!['[', 'f', ']']);
}

/// While there is a question, the key that kills is named in the title of the list.
pub proof fn titles_name_the_key_that_kills(m: MonitorView, event: KeyEvent, pid: u32)
    requires
        m.wf(),
        m.one_mode(),
        m.pressed(event).1 == Action::Kill(pid),
    ensures
        occurs(list_title(m.shown(), m.shown().rows()), key_name(event)),
{
    assert(m.shown().one_mode());
    questions_name_their_answers(m.shown(), m.shown().rows());
    reveal_strlit("[y]");
    assert("[y]"@ =~= seq!['[', 'y', ']']);
}

/// Keys change nothing of the GPUs that are not shown, and nothing of what has been
/// measured of the one that is.
pub proof fn keys_leave_measurements_alone(m: MonitorView, event: KeyEvent)
    requires
        m.wf(),
    ensures
        ({
            let next = m.pressed(event).0;
            let (a, b) = (m.shown(), next.apps[m.current_gpu]);
            &&& next.wf()
            &&& next.apps.len() == m.apps.len()
            &&& forall|i: int|
                0 <= i < m.apps.len() && i != m.current_gpu ==> #[trigger] next.apps[i]
                    == m.apps[i]
            &&& b.gpu_name == a.gpu_name && b.gpu_idx == a.gpu_idx
            &&& b.gpu_util == a.gpu_util && b.mem_util == a.mem_util
            &&& b.gpu_temp == a.gpu_temp && b.power == a.power
            &&& b.fan_speed == a.fan_speed && b.fb_used == a.fb_used
            &&& b.max_power_w == a.max_power_w
            &&& b.counters == a.counters && b.processes == a.processes
        }),
{
    lemma_left(m.current_gpu, m.apps.len() as int);
    lemma_right(m.current_gpu, m.apps.len() as int);
}

/// Going to the GPU at the right and going to the GPU at the left undo each other.
pub proof fn left_and_right_are_inverse(m: MonitorView, left: KeyEvent, right: KeyEvent)
    requires
        m.wf(),
        left.pressed && left.key == Key::Left,
        right.pressed && right.key == Key::Right,
    ensures
        m.pressed(right).0.pressed(left).0 == m,
        m.pressed(left).0.pressed(right).0 == m,
{
    let count = m.apps.len() as int;
    lemma_left(m.current_gpu, count);
    lemma_right(m.current_gpu, count);
    lemma_left((m.current_gpu + 1) % count, count);
    lemma_right((m.current_gpu + count - 1) % count, count);
}

/// Pressing tab twice comes back to the same screen.
pub proof fn tab_twice_returns(m: MonitorView, tab: KeyEvent)
    requires
        m.wf(),
        tab.pressed && tab.key == Key::Tab,
    ensures
        m.pressed(tab).0.pressed(tab).0 == m,
{
    assert(m.pressed(tab).0.pressed(tab).0.apps =~= m.apps);
}

/// The program ends by `q`, Esc and Ctrl-C, by no other key, and never but by a key that goes
/// down; and then nothing changes.
pub proof fn three_keys_quit(m: MonitorView, event: KeyEvent)
    ensures
        m.pressed(event).1 == Action::Quit <==> event.pressed && (event.key == Key::Char('q')
            || event.key == Key::Esc || (event.key == Key::Char('c') && event.control)),
        m.pressed(event).1 == Action::Quit ==> m.pressed(event).0 == m,
{
}

/// A key that repeats or goes up does nothing.
pub proof fn only_keys_that_go_down_count(m: MonitorView, event: KeyEvent)
    requires
        !event.pressed,
    ensures
        m.pressed(event) == (m, Action::Continue),
{
}

/// The keys of the sample rate change it by a step of 50 milliseconds, between 1 and 2500
/// milliseconds, and nothing else.
pub proof fn plus_and_minus_change_the_rate_alone(m: MonitorView, event: KeyEvent)
    requires
        m.tick_ms >= 0,
        event.pressed,
    ensures
        ({
            let (next, action) = m.pressed(event);
            let up = event.key == Key::Char('+') || event.key == Key::Char('=');
            let down = event.key == Key::Char('-');
            &&& up || down ==> action == Action::Continue && next == (MonitorView {
                tick_ms: next.tick_ms,
                ..m
            })
            &&& up && m.tick_ms == 1 ==> next.tick_ms == 50
            &&& up && m.tick_ms != 1 && m.tick_ms <= 2450 ==> next.tick_ms == m.tick_ms + 50
            &&& up && m.tick_ms > 2450 ==> next.tick_ms == 2500
            &&& down && m.tick_ms > 50 ==> next.tick_ms == m.tick_ms - 50
            &&& down && m.tick_ms <= 50 ==> next.tick_ms == 1
            &&& !up && !down ==> next.tick_ms == m.tick_ms
        }),
{
}

/// Left and right go to the GPU before and the GPU after, round the ends, and change nothing
/// else. No other key changes the GPU.
pub proof fn arrows_go_to_the_neighbours(m: MonitorView, event: KeyEvent)
    requires
        m.wf(),
        event.pressed,
    ensures
        ({
            let (next, action) = m.pressed(event);
            let last = m.apps.len() - 1;
            &&& event.key == Key::Left || event.key == Key::Right ==> action == Action::Continue
                && next == (MonitorView { current_gpu: next.current_gpu, ..m })
            &&& event.key == Key::Right && m.current_gpu < last ==> next.current_gpu
                == m.current_gpu + 1
            &&& event.key == Key::Right && m.current_gpu == last ==> next.current_gpu == 0
            &&& event.key == Key::Left && m.current_gpu > 0 ==> next.current_gpu == m.current_gpu
                - 1
            &&& event.key == Key::Left && m.current_gpu == 0 ==> next.current_gpu == last
            &&& event.key != Key::Left && event.key != Key::Right ==> next.current_gpu
                == m.current_gpu
        }),
{
    lemma_left(m.current_gpu, m.apps.len() as int);
    lemma_right(m.current_gpu, m.apps.len() as int);
}

/// Tab goes from each screen to the other and changes nothing else. No other key changes the
/// screen.
pub proof fn tab_changes_the_screen_alone(m: MonitorView, event: KeyEvent)
    requires
        m.wf(),
        event.pressed,
    ensures
        ({
            let (next, action) = m.pressed(event);
            let (a, b) = (m.shown(), next.apps[m.current_gpu]);
            &&& event.key == Key::Tab ==> {
                &&& action == Action::Continue
                &&& a.screen != b.screen
                &&& b == (AppView { screen: b.screen, ..a })
                &&& next == (MonitorView { apps: m.apps.update(m.current_gpu, b), ..m })
            }
            &&& event.key != Key::Tab ==> b.screen == a.screen
        }),
{
}

/// Whether a key has its meaning on both screens.
pub open spec fn works_everywhere(event: KeyEvent) -> bool {
    match event.key {
        Key::Tab | Key::Esc | Key::Left | Key::Right => true,
        Key::Char(c) => c == 'q' || c == '+' || c == '=' || c == '-' || (c == 'c'
            && event.control),
        _ => false,
    }
}

/// The other keys do nothing on the graphs. On the process list they do what they do to the
/// list of the GPU that is shown, and to nothing else.
pub proof fn the_list_has_the_other_keys(m: MonitorView, event: KeyEvent)
    requires
        m.wf(),
        event.pressed,
        !works_everywhere(event),
    ensures
        ({
            let (next, action) = m.pressed(event);
            let a = m.shown();
            let (b, kill) = a.listed_key(event.key, event.shift, a.rows());
            &&& a.screen == AppScreen::Graphs ==> next == m && action == Action::Continue
            &&& a.screen == AppScreen::Top ==> {
                &&& next == (MonitorView { apps: m.apps.update(m.current_gpu, b), ..m })
                &&& action == (match kill {
                    Some(pid) => Action::Kill(pid),
                    None => Action::Continue,
                })
            }
        }),
{
}

/// On the process list, `y` kills the process that the question is about.
pub proof fn a_confirmed_kill_is_carried_out(m: MonitorView, event: KeyEvent, pid: u32)
    requires
        m.wf(),
        m.shown().screen == AppScreen::Top,
        m.shown().kill_confirm == Some(pid),
        event.pressed,
        event.key == Key::Char('y'),
    ensures
        m.pressed(event).1 == Action::Kill(pid),
        m.pressed(event).0.shown() == (AppView { kill_confirm: None, ..m.shown() }),
{
}

/// The filter of a GPU changes only by the keys that edit it while it is typed, on the process
/// list of that GPU: by a character, which is added, and by Backspace. Enter ends the typing
/// and keeps the filter.
pub proof fn the_filter_changes_by_typing_alone(m: MonitorView, event: KeyEvent)
    requires
        m.wf(),
    ensures
        ({
            let (a, b) = (m.shown(), m.pressed(event).0.apps[m.current_gpu]);
            &&& a.filter != b.filter ==> {
                &&& event.pressed && a.screen == AppScreen::Top
                &&& a.filter_editing && a.kill_confirm is None
                &&& event.key is Char || event.key == Key::Backspace
            }
            &&& event.key == Key::Enter ==> b.filter == a.filter
            &&& event.pressed && event.key == Key::Enter && a.screen == AppScreen::Top
                && a.kill_confirm is None ==> !b.filter_editing
        }),
{
}

/// A GPU has the name that the driver gives it; one that it cannot name is called unknown.
pub proof fn gpus_have_their_names(name: Option<String>)
    ensures
        gpu_name_or_unknown(name) == (match name {
            Some(name) => name@,
            None => "Unknown"@,
        }),
{
}

/// The message about a GPU index names the index and the number of GPUs.
pub proof fn the_message_names_both_numbers(
    gpu: u32,
    device_count: u32,
    index: Seq<char>,
    count: Seq<char>,
)
    requires
        writes(index, gpu as int),
        writes(count, device_count as int),
    ensures
        out_of_range(gpu, device_count) == "GPU index "@ + index + " out of range (found "@ + count
            + " GPU(s))"@,
{
    numerals_are_plain(gpu as nat, index);
    numerals_are_plain(device_count as nat, count);
}

/// A monitor starts with the GPU and the rate that it was given, and with an empty state for
/// each GPU, under the name and the index of that GPU.
pub proof fn a_monitor_starts_empty(
    names: Seq<Option<String>>,
    gpu: int,
    tick_ms: int,
    history: usize,
    i: int,
)
    requires
        names.len() <= u32::MAX,
        0 <= i < names.len(),
    ensures
        ({
            let m = MonitorView::started(names, gpu, tick_ms, history);
            let a = m.apps[i];
            &&& m.current_gpu == gpu && m.tick_ms == tick_ms && m.apps.len() == names.len()
            &&& a.gpu_idx == i
            &&& a.gpu_name == (match names[i] {
                Some(name) => name@,
                None => "Unknown"@,
            })
            &&& a == AppView::fresh(a.gpu_name, a.gpu_idx, history)
        }),
{
}

/// The readings of a GPU reach that GPU alone. The GPU that is shown and the rate stay.
pub proof fn readings_reach_their_own_gpu(m: MonitorView, gpu: int, r: Readings, other: int)
    requires
        0 <= gpu < m.apps.len(),
        0 <= other < m.apps.len(),
        other != gpu,
    ensures
        ({
            let next = m.with_readings(gpu, r);
            &&& next.apps.len() == m.apps.len()
            &&& next.apps[gpu] == m.apps[gpu].sampled(r)
            &&& next.apps[other] == m.apps[other]
            &&& next.current_gpu == m.current_gpu && next.tick_ms == m.tick_ms
        }),
{
}

/// The GPU that is shown is the current one, and to change its state changes no other.
pub proof fn the_current_gpu_is_shown(m: MonitorView, a: AppView, other: int)
    requires
        m.wf(),
        0 <= other < m.apps.len(),
    ensures
        m.shown() == m.apps[m.current_gpu],
        m.with_shown(a).apps[m.current_gpu] == a,
        other != m.current_gpu ==> m.with_shown(a).apps[other] == m.apps[other],
        m.with_shown(a).apps.len() == m.apps.len(),
        m.with_shown(a).current_gpu == m.current_gpu,
        m.with_shown(a).tick_ms == m.tick_ms,
{
}

/// Every event can be taken, but for a step down from the last index there is.
pub proof fn every_other_event_can_be_taken(m: MonitorView, event: KeyEvent)
    ensures
        !m.can_take(event) ==> {
            &&& event.pressed && event.key == Key::Down
            &&& m.shown().screen == AppScreen::Top
            &&& m.shown().kill_confirm is None && !m.shown().filter_editing
            &&& m.shown().selected_index >= usize::MAX
        },
{
}

} // verus!
