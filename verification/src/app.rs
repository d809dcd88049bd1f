//! The state of the monitor for one GPU.
use crate::process::{build_table, process_views, GpuProcess, ProcessView, MEGABYTE};
use crate::process::{RunningProcess, UtilSample};
use crate::readings::{counter_views, Counter, CounterView, Readings, Utilization};
use crate::series::{follows, SeriesView, TimeSeries, POINT_BYTES};
use crate::sort::{arrange, arrangement_exists, Listing, SortColumn};
use crate::style::Color;
use crate::text::{
    lowercase, occurs, text_before, text_order_irreflexive, text_order_transitive,
};
use vstd::prelude::*;

verus! {

/// The two screens.
#[derive(Clone, Copy, PartialEq, Eq, Structural, Debug)]
pub enum AppScreen {
    Graphs,
    Top,
}

/// The history of a GPU, its counters and processes, and how they are shown.
#[derive(Debug)]
pub struct App {
    pub gpu_name: String,
    pub gpu_idx: u32,
    pub gpu_util: TimeSeries,
    pub mem_util: TimeSeries,
    pub gpu_temp: TimeSeries,
    pub power: TimeSeries,
    pub fan_speed: TimeSeries,
    pub fb_used: TimeSeries,
    pub max_power_w: u64,
    pub counters: Vec<Counter>,
    pub processes: Vec<GpuProcess>,
    pub sort_column: SortColumn,
    pub sort_ascending: bool,
    pub selected_index: usize,
    pub viewport_offset: usize,
    pub filter: String,
    pub filter_editing: bool,
    pub kill_confirm: Option<u32>,
    pub screen: AppScreen,
}

/// The model of an [`App`].
#[verifier::ext_equal]
pub struct AppView {
    pub gpu_name: Seq<char>,
    pub gpu_idx: u32,
    pub gpu_util: SeriesView,
    pub mem_util: SeriesView,
    pub gpu_temp: SeriesView,
    pub power: SeriesView,
    pub fan_speed: SeriesView,
    pub fb_used: SeriesView,
    pub max_power_w: u64,
    pub counters: Seq<CounterView>,
    pub processes: Seq<ProcessView>,
    pub sort_column: SortColumn,
    pub sort_ascending: bool,
    pub selected_index: int,
    pub viewport_offset: int,
    pub filter: Seq<char>,
    pub filter_editing: bool,
    pub kill_confirm: Option<u32>,
    pub screen: AppScreen,
}

impl View for App {
    type V = AppView;

    open spec fn view(&self) -> AppView {
        AppView {
            gpu_name: self.gpu_name@,
            gpu_idx: self.gpu_idx,
            gpu_util: self.gpu_util@,
            mem_util: self.mem_util@,
            gpu_temp: self.gpu_temp@,
            power: self.power@,
            fan_speed: self.fan_speed@,
            fb_used: self.fb_used@,
            max_power_w: self.max_power_w,
            counters: counter_views(self.counters@),
            processes: process_views(self.processes@),
            sort_column: self.sort_column,
            sort_ascending: self.sort_ascending,
            selected_index: self.selected_index as int,
            viewport_offset: self.viewport_offset as int,
            filter: self.filter@,
            filter_editing: self.filter_editing,
            kill_confirm: self.kill_confirm,
            screen: self.screen,
        }
    }
}

/// The other screen.
pub open spec fn other_screen(screen: AppScreen) -> AppScreen {
    match screen {
        AppScreen::Graphs => AppScreen::Top,
        AppScreen::Top => AppScreen::Graphs,
    }
}

/// A series without samples.
pub open spec fn empty_series(
    label: Seq<char>,
    unit: Seq<char>,
    scale: u64,
    max_val: u64,
    color: Color,
    capacity: usize,
) -> SeriesView {
    SeriesView { label, unit, data: Seq::empty(), scale, max_val, color, capacity }
}

impl AppView {
    /// Every series is well formed.
    pub open spec fn wf(self) -> bool {
        &&& self.gpu_util.wf()
        &&& self.mem_util.wf()
        &&& self.gpu_temp.wf()
        &&& self.power.wf()
        &&& self.fan_speed.wf()
        &&& self.fb_used.wf()
    }

    /// Every series is exact as doubles.
    pub open spec fn exact(self) -> bool {
        &&& self.gpu_util.exact()
        &&& self.mem_util.exact()
        &&& self.gpu_temp.exact()
        &&& self.power.exact()
        &&& self.fan_speed.exact()
        &&& self.fb_used.exact()
    }

    /// The question whether to kill and the typing of the filter do not coincide.
    pub open spec fn one_mode(self) -> bool {
        self.kill_confirm is None || !self.filter_editing
    }

    /// The state before the first sample. Power is sampled in milliwatts.
    pub open spec fn fresh(gpu_name: Seq<char>, gpu_idx: u32, history: usize) -> AppView {
        AppView {
            gpu_name,
            gpu_idx,
            gpu_util: empty_series("GPU Core"@, "%"@, 1, 100, Color::Green, history),
            fb_used: empty_series("VRAM Used"@, "MB"@, 1, 1, Color::Cyan, history),
            gpu_temp: empty_series("Temperature"@, "°C"@, 1, 100, Color::Yellow, history),
            power: empty_series("Power"@, "W"@, 1000, 500, Color::Magenta, history),
            fan_speed: empty_series("Fan Speed"@, "%"@, 1, 100, Color::Red, history),
            mem_util: empty_series("Memory Bandwidth"@, "%"@, 1, 100, Color::Blue, history),
            max_power_w: 0,
            counters: Seq::empty(),
            processes: Seq::empty(),
            sort_column: SortColumn::Mem,
            sort_ascending: false,
            selected_index: 0,
            viewport_offset: 0,
            filter: Seq::empty(),
            filter_editing: false,
            kill_confirm: None,
            screen: AppScreen::Graphs,
        }
    }

    /// The state after a round of readings: a sample in every series, 0 where the driver
    /// reports nothing; the limits that it reports; and the counters and processes anew.
    pub open spec fn sampled(self, r: Readings) -> AppView {
        let busy = match r.utilization {
            Some(busy) => busy,
            None => Utilization { gpu: 0, memory: 0 },
        };
        let power = self.power.pushed(reading(r.power_mw));
        let memory = self.fb_used.pushed(
            match r.memory {
                Some(m) => m.used / MEGABYTE,
                None => 0,
            },
        );
        AppView {
            gpu_util: self.gpu_util.pushed(busy.gpu as u64),
            mem_util: self.mem_util.pushed(busy.memory as u64),
            gpu_temp: self.gpu_temp.pushed(reading(r.temperature)),
            power: match r.power_limit_mw {
                Some(limit) => SeriesView { max_val: limit as u64 / 1000, ..power },
                None => power,
            },
            max_power_w: match r.power_limit_mw {
                Some(limit) => limit as u64 / 1000,
                None => self.max_power_w,
            },
            fan_speed: self.fan_speed.pushed(reading(r.fan_speed)),
            fb_used: match r.memory {
                Some(m) => SeriesView { max_val: m.total / MEGABYTE, ..memory },
                None => memory,
            },
            counters: r.all_counters(),
            processes: r.table(),
            ..self
        }
    }

    /// What decides the process list.
    pub open spec fn listing(self) -> Listing {
        Listing {
            processes: self.processes,
            lowered: Seq::new(
                self.processes.len(),
                |i: int| lowercase(self.processes[i].name),
            ),
            needle: lowercase(self.filter),
            column: self.sort_column,
            ascending: self.sort_ascending,
        }
    }

    /// The process list, as places in the table.
    pub open spec fn rows(self) -> Seq<usize> {
        self.listing().arranged()
    }
}

/// A reading that may be missing, as a sample.
pub open spec fn reading(value: Option<u32>) -> u64 {
    match value {
        Some(n) => n as u64,
        None => 0,
    }
}

fn sample_of(value: Option<u32>) -> (sample: u64)
    ensures
        sample == reading(value),
{
    match value {
        Some(n) => n as u64,
        None => 0,
    }
}

impl App {
    /// The state before the first sample.
    pub fn new(gpu_name: String, gpu_idx: u32, history: usize) -> (app: App)
        requires
            history * POINT_BYTES <= isize::MAX,
        ensures
            app@ == AppView::fresh(gpu_name@, gpu_idx, history),
            app@.wf(),
            app@.exact(),
    {
        let app = App {
            gpu_name,
            gpu_idx,
            gpu_util: TimeSeries::new("GPU Core", "%", 1, 100, Color::Green, history),
            fb_used: TimeSeries::new("VRAM Used", "MB", 1, 1, Color::Cyan, history),
            gpu_temp: TimeSeries::new("Temperature", "°C", 1, 100, Color::Yellow, history),
            power: TimeSeries::new("Power", "W", 1000, 500, Color::Magenta, history),
            fan_speed: TimeSeries::new("Fan Speed", "%", 1, 100, Color::Red, history),
            mem_util: TimeSeries::new("Memory Bandwidth", "%", 1, 100, Color::Blue, history),
            max_power_w: 0,
            counters: Vec::new(),
            processes: Vec::new(),
            sort_column: SortColumn::Mem,
            sort_ascending: false,
            selected_index: 0,
            viewport_offset: 0,
            filter: String::new(),
            filter_editing: false,
            kill_confirm: None,
            screen: AppScreen::Graphs,
        };
        proof {
            assert(app@.counters =~= Seq::empty());
            assert(app@.processes =~= Seq::empty());
        }
        app
    }

    /// Goes to the other screen.
    pub fn switch_screen(&mut self)
        ensures
            final(self)@ == (AppView { screen: other_screen(old(self)@.screen), ..old(self)@ }),
    {
        self.screen = match self.screen {
            AppScreen::Graphs => AppScreen::Top,
            AppScreen::Top => AppScreen::Graphs,
        };
    }

    /// Takes in a round of readings. Without readings, as when the GPU cannot be reached,
    /// nothing changes.
    pub fn sample(&mut self, readings: &Option<Readings>)
        requires
            readings matches Some(r) ==> r.named() && r.countable(),
        ensures
            final(self)@ == (match readings {
                Some(r) => old(self)@.sampled(*r),
                None => old(self)@,
            }),
            old(self)@.wf() ==> final(self)@.wf(),
            old(self)@.exact() ==> final(self)@.exact(),
    {
        let r = match readings {
            Some(r) => r,
            None => {
                return;
            },
        };
        let busy = match r.utilization {
            Some(busy) => busy,
            None => Utilization { gpu: 0, memory: 0 },
        };
        self.gpu_util.push(busy.gpu as u64);
        self.mem_util.push(busy.memory as u64);
        self.gpu_temp.push(sample_of(r.temperature));
        self.power.push(sample_of(r.power_mw));
        if let Some(limit) = r.power_limit_mw {
            let limit_w: u64 = limit as u64 / 1000;
            self.power.max_val = limit_w;
            self.max_power_w = limit_w;
        }
        self.fan_speed.push(sample_of(r.fan_speed));
        match r.memory {
            Some(memory) => {
                self.fb_used.max_val = memory.total / MEGABYTE;
                self.fb_used.push(memory.used / MEGABYTE);
            },
            None => self.fb_used.push(0),
        }
        self.counters = r.counters();
        let no_processes: Vec<RunningProcess> = Vec::new();
        let no_samples: Vec<UtilSample> = Vec::new();
        let compute = match &r.compute {
            Some(list) => list,
            None => &no_processes,
        };
        let graphics = match &r.graphics {
            Some(list) => list,
            None => &no_processes,
        };
        let samples = match &r.util_samples {
            Some(list) => list,
            None => &no_samples,
        };
        self.processes = build_table(&r.names, compute, graphics, samples);
    }

    /// The process list: filtered by name, without regard to case, and sorted.
    pub fn display_rows(&self) -> (rows: Vec<usize>)
        ensures
            self@.listing().is_arrangement(rows@),
            rows@ == self@.rows(),
            forall|i: int| 0 <= i < rows.len() ==> #[trigger] rows@[i] < self.processes.len(),
            self.filter@.len() == 0 ==> forall|p: usize|
                #[trigger] rows@.contains(p) <==> p < self.processes.len(),
    {
        let needle = self.filter.to_lowercase();
        let mut lowered: Vec<String> = Vec::new();
        let mut i: usize = 0;
        while i < self.processes.len()
            invariant
                i <= self.processes.len(),
                lowered.len() == i,
                forall|j: int|
                    0 <= j < i ==> (#[trigger] lowered@[j])@ == lowercase(self.processes@[j].name@),
            decreases self.processes.len() - i,
        {
            lowered.push(self.processes[i].name.to_lowercase());
            i = i + 1;
        }
        let rows = arrange(
            &self.processes,
            &lowered,
            needle.as_str(),
            self.sort_column,
            self.sort_ascending,
        );
        proof {
            assert(crate::sort::text_views(lowered@) =~= self@.listing().lowered);
            assert forall|i: int| 0 <= i < rows.len() implies #[trigger] rows@[i]
                < self.processes.len() by {
                assert(rows@.contains(rows@[i]));
            }
        }
        rows
    }
}

/// Switching the screen twice comes back to it.
pub proof fn switching_twice_returns(screen: AppScreen)
    ensures
        other_screen(other_screen(screen)) == screen,
        other_screen(screen) != screen,
{
}

/// Samples change nothing of how things are shown.
pub proof fn samples_leave_the_controls_alone(a: AppView, r: Readings)
    ensures
        ({
            let b = a.sampled(r);
            &&& b.gpu_name == a.gpu_name && b.gpu_idx == a.gpu_idx
            &&& b.screen == a.screen
            &&& b.sort_column == a.sort_column && b.sort_ascending == a.sort_ascending
            &&& b.selected_index == a.selected_index && b.viewport_offset == a.viewport_offset
            &&& b.filter == a.filter && b.filter_editing == a.filter_editing
            &&& b.kill_confirm == a.kill_confirm
        }),
{
}

/// A round of readings puts each reading behind the earlier samples of its own series, 0 where
/// there is none, whatever the series held before. Power is in milliwatts, memory in whole
/// megabytes.
pub proof fn readings_become_the_newest_samples(a: AppView, r: Readings)
    requires
        a.wf(),
    ensures
        ({
            let b = a.sampled(r);
            &&& follows(
                b.gpu_util,
                a.gpu_util,
                if r.utilization is Some { r.utilization->0.gpu as int } else { 0 },
            )
            &&& follows(
                b.mem_util,
                a.mem_util,
                if r.utilization is Some { r.utilization->0.memory as int } else { 0 },
            )
            &&& follows(
                b.gpu_temp,
                a.gpu_temp,
                if r.temperature is Some { r.temperature->0 as int } else { 0 },
            )
            &&& follows(
                b.power,
                a.power,
                if r.power_mw is Some { r.power_mw->0 as int } else { 0 },
            )
            &&& follows(
                b.fan_speed,
                a.fan_speed,
                if r.fan_speed is Some { r.fan_speed->0 as int } else { 0 },
            )
            &&& follows(
                b.fb_used,
                a.fb_used,
                if r.memory is Some { r.memory->0.used as int / 1048576 } else { 0 },
            )
        }),
{
}

/// After a round of readings the newest value of every series with room for a sample is the
/// reading.
pub proof fn the_newest_values_are_the_readings(a: AppView, r: Readings)
    requires
        a.wf(),
    ensures
        ({
            let b = a.sampled(r);
            &&& r.utilization is Some && a.gpu_util.capacity > 0 ==> b.gpu_util.newest()
                == r.utilization->0.gpu
            &&& r.utilization is Some && a.mem_util.capacity > 0 ==> b.mem_util.newest()
                == r.utilization->0.memory
            &&& r.temperature is Some && a.gpu_temp.capacity > 0 ==> b.gpu_temp.newest()
                == r.temperature->0
            &&& r.power_mw is Some && a.power.capacity > 0 ==> b.power.newest() == r.power_mw->0
            &&& r.fan_speed is Some && a.fan_speed.capacity > 0 ==> b.fan_speed.newest()
                == r.fan_speed->0
            &&& r.memory is Some && a.fb_used.capacity > 0 ==> {
                &&& b.fb_used.newest() * 1048576 <= r.memory->0.used
                &&& r.memory->0.used < (b.fb_used.newest() + 1) * 1048576
            }
        }),
{
}

/// A round of readings sets the limits that it reports, power in whole watts and memory in
/// whole megabytes, and leaves every other limit as it was.
pub proof fn limits_are_those_last_reported(a: AppView, r: Readings)
    ensures
        ({
            let b = a.sampled(r);
            &&& b.gpu_util.max_val == a.gpu_util.max_val && b.mem_util.max_val == a.mem_util.max_val
            &&& b.gpu_temp.max_val == a.gpu_temp.max_val
            &&& b.fan_speed.max_val == a.fan_speed.max_val
            &&& r.power_limit_mw is None ==> b.power.max_val == a.power.max_val && b.max_power_w
                == a.max_power_w
            &&& r.power_limit_mw is Some ==> {
                &&& b.max_power_w * 1000 <= r.power_limit_mw->0
                &&& r.power_limit_mw->0 < (b.max_power_w + 1) * 1000
                &&& b.power.max_val == b.max_power_w
            }
            &&& r.memory is None ==> b.fb_used.max_val == a.fb_used.max_val
            &&& r.memory is Some ==> {
                &&& b.fb_used.max_val * 1048576 <= r.memory->0.total
                &&& r.memory->0.total < (b.fb_used.max_val + 1) * 1048576
            }
        }),
{
}

/// The counters and the processes are those of the last round of readings alone.
pub proof fn earlier_counters_and_processes_are_forgotten(a: AppView, b: AppView, r: Readings)
    ensures
        a.sampled(r).counters == b.sampled(r).counters,
        a.sampled(r).processes == b.sampled(r).processes,
{
}

/// Before the first sample nothing has been measured; the list is sorted by memory, the most
/// first, unfiltered; nothing is asked or typed; and the graphs are shown.
pub proof fn a_fresh_state_is_empty(gpu_name: Seq<char>, gpu_idx: u32, history: usize)
    ensures
        ({
            let a = AppView::fresh(gpu_name, gpu_idx, history);
            &&& a.gpu_name == gpu_name && a.gpu_idx == gpu_idx
            &&& a.gpu_util.data.len() == 0 && a.gpu_util.capacity == history
            &&& a.mem_util.data.len() == 0 && a.mem_util.capacity == history
            &&& a.gpu_temp.data.len() == 0 && a.gpu_temp.capacity == history
            &&& a.power.data.len() == 0 && a.power.capacity == history
            &&& a.fan_speed.data.len() == 0 && a.fan_speed.capacity == history
            &&& a.fb_used.data.len() == 0 && a.fb_used.capacity == history
            &&& a.gpu_util.label == "GPU Core"@ && a.gpu_util.unit == "%"@
            &&& a.mem_util.label == "Memory Bandwidth"@ && a.mem_util.unit == "%"@
            &&& a.gpu_temp.label == "Temperature"@ && a.gpu_temp.unit == "°C"@
            &&& a.power.label == "Power"@ && a.power.unit == "W"@
            &&& a.fan_speed.label == "Fan Speed"@ && a.fan_speed.unit == "%"@
            &&& a.fb_used.label == "VRAM Used"@ && a.fb_used.unit == "MB"@
            &&& a.gpu_util.scale == 1 && a.mem_util.scale == 1 && a.gpu_temp.scale == 1
            &&& a.fan_speed.scale == 1 && a.fb_used.scale == 1 && a.power.scale == 1000
            &&& a.gpu_util.max_val == 100 && a.mem_util.max_val == 100
            &&& a.gpu_temp.max_val == 100 && a.fan_speed.max_val == 100
            &&& a.power.max_val == 500 && a.fb_used.max_val == 1
            &&& a.gpu_util.color == Color::Green && a.fb_used.color == Color::Cyan
            &&& a.gpu_temp.color == Color::Yellow && a.power.color == Color::Magenta
            &&& a.fan_speed.color == Color::Red && a.mem_util.color == Color::Blue
            &&& a.max_power_w == 0 && a.counters.len() == 0 && a.processes.len() == 0
            &&& a.sort_column == SortColumn::Mem && !a.sort_ascending
            &&& a.selected_index == 0 && a.viewport_offset == 0
            &&& a.filter.len() == 0 && !a.filter_editing && a.kill_confirm is None
            &&& a.screen == AppScreen::Graphs
        }),
{
}

/// Of two rows of the list, the upper one has the smaller entry in the chosen column, or an
/// equal one, where the list ascends, and the larger one where it descends. Rows with equal
/// entries stand in the order of the table.
pub proof fn rows_are_sorted_by_the_chosen_column(a: AppView, i: int, j: int)
    requires
        a.processes.len() <= usize::MAX,
        0 <= i < j < a.rows().len(),
    ensures
        ({
            let (r, s) = (a.rows()[i] as int, a.rows()[j] as int);
            let (upper, lower) = (a.processes[r], a.processes[s]);
            let (p, q) = if a.sort_ascending { (upper, lower) } else { (lower, upper) };
            &&& a.sort_column == SortColumn::Pid ==> p.pid <= q.pid && (p.pid == q.pid ==> r < s)
            &&& a.sort_column == SortColumn::Name ==> !text_before(
                lowercase(q.name),
                lowercase(p.name),
            ) && (lowercase(p.name) == lowercase(q.name) ==> r < s)
            &&& a.sort_column == SortColumn::Mem ==> p.mem_mb <= q.mem_mb && (p.mem_mb == q.mem_mb
                ==> r < s)
            &&& a.sort_column == SortColumn::SmUtil ==> p.sm_util <= q.sm_util && (p.sm_util
                == q.sm_util ==> r < s)
            &&& a.sort_column == SortColumn::MemUtil ==> p.mem_util <= q.mem_util && (p.mem_util
                == q.mem_util ==> r < s)
            &&& a.sort_column == SortColumn::EncUtil ==> p.enc_util <= q.enc_util && (p.enc_util
                == q.enc_util ==> r < s)
            &&& a.sort_column == SortColumn::DecUtil ==> p.dec_util <= q.dec_util && (p.dec_util
                == q.dec_util ==> r < s)
        }),
{
    arrangement_exists(a.listing());
    let (r, s) = (a.rows()[i], a.rows()[j]);
    assert(a.rows().contains(r) && a.rows().contains(s));
    assert(a.listing().before(r as int, s as int));
    let (x, y) = (lowercase(a.processes[r as int].name), lowercase(a.processes[s as int].name));
    text_order_irreflexive(x);
    if text_before(x, y) && text_before(y, x) {
        text_order_transitive(x, y, x);
    }
}

/// The list holds the processes whose name holds the filter, without regard to case, each
/// once, and all processes where the filter is empty.
pub proof fn the_list_holds_what_the_filter_matches(a: AppView, p: usize)
    requires
        a.processes.len() <= usize::MAX,
    ensures
        a.rows().contains(p) <==> p < a.processes.len() && (lowercase(a.filter).len() == 0
            || occurs(lowercase(a.processes[p as int].name), lowercase(a.filter))),
        a.rows().no_duplicates(),
{
    arrangement_exists(a.listing());
    assert(a.rows().contains(p) <==> p < a.listing().processes.len() && a.listing().passes(
        p as int,
    ));
}

/// Filters that differ in case alone give the same list.
pub proof fn case_makes_no_difference(a: AppView, filter: Seq<char>)
    requires
        lowercase(filter) == lowercase(a.filter),
    ensures
        (AppView { filter, ..a }).rows() == a.rows(),
{
    let b = AppView { filter, ..a };
    assert(b.listing().lowered =~= a.listing().lowered);
    assert(b.listing() == a.listing());
}

/// The list depends on nothing but the processes, the filter and the chosen order.
pub proof fn the_list_depends_on_the_controls_of_the_list(a: AppView, b: AppView)
    requires
        a.processes == b.processes,
        a.filter == b.filter,
        a.sort_column == b.sort_column,
        a.sort_ascending == b.sort_ascending,
    ensures
        a.rows() == b.rows(),
{
    assert(b.listing().lowered =~= a.listing().lowered);
    assert(b.listing() == a.listing());
}

/// A round of readings brings all its counters and all its processes, and no others.
pub proof fn a_round_brings_its_counters_and_processes(a: AppView, r: Readings)
    ensures
        a.sampled(r).counters == r.all_counters(),
        a.sampled(r).processes == r.table(),
{
}

} // verus!
