//! What the driver reports of a GPU, and the counters made of it.
use crate::process::{
    distinct_pids, pids_to_name, process_table, ProcessView, RunningProcess, UtilSample, MEGABYTE,
};
use crate::text::{
    decimal, numeral, numerals_are_plain, signed_decimal, signed_numeral, writes,
};
use vstd::prelude::*;
use vstd::string::StringExecFns;

verus! {

/// The share of time, in percent, in which the GPU and its memory were busy.
#[derive(Clone, Copy, PartialEq, Eq, Debug)]
pub struct Utilization {
    pub gpu: u32,
    pub memory: u32,
}

/// The use of the memory of a GPU, in bytes.
#[derive(Clone, Copy, PartialEq, Eq, Debug)]
pub struct MemoryUse {
    pub used: u64,
    pub total: u64,
}

/// For how much of a stretch of time a limit held the GPU back.
#[derive(Clone, Copy, PartialEq, Eq, Debug)]
pub struct Violation {
    pub violation_time: u64,
    pub reference_time: u64,
}

/// One round of readings of a GPU. What the driver does not report is `None`.
#[derive(Debug)]
pub struct Readings {
    pub utilization: Option<Utilization>,
    pub temperature: Option<u32>,
    pub power_mw: Option<u32>,
    pub power_limit_mw: Option<u32>,
    pub fan_speed: Option<u32>,
    pub memory: Option<MemoryUse>,
    pub driver_version: Option<String>,
    pub cuda_version: Option<i32>,
    pub sm_clock: Option<u32>,
    pub mem_clock: Option<u32>,
    pub encoder: Option<u32>,
    pub decoder: Option<u32>,
    pub bar1_used: Option<u64>,
    pub pcie_rx_kb: Option<u32>,
    pub pcie_tx_kb: Option<u32>,
    pub pcie_replays: Option<u32>,
    pub power_violation: Option<Violation>,
    pub thermal_violation: Option<Violation>,
    pub compute: Option<Vec<RunningProcess>>,
    pub graphics: Option<Vec<RunningProcess>>,
    /// The names of the processes in [`Readings::pids`], in the same order.
    pub names: Vec<Option<String>>,
    pub util_samples: Option<Vec<UtilSample>>,
}

/// The items of a list that may be missing.
pub open spec fn items<T>(list: Option<Vec<T>>) -> Seq<T> {
    match list {
        Some(list) => list@,
        None => Seq::empty(),
    }
}

impl Readings {
    /// The processes in the two lists, each once.
    pub open spec fn listed_pids(self) -> Seq<u32> {
        distinct_pids(items(self.compute) + items(self.graphics))
    }

    /// There is a name, or the lack of one, for each process.
    pub open spec fn named(self) -> bool {
        self.names.len() == self.listed_pids().len()
    }

    /// The percentage of the power limit can be computed in a machine word.
    pub open spec fn countable(self) -> bool {
        match self.power_violation {
            Some(v) => v.reference_time > 0 ==> v.violation_time * 100 <= u64::MAX,
            None => true,
        }
    }

    /// The rows of the process table.
    pub open spec fn table(self) -> Seq<ProcessView> {
        process_table(
            self.names@,
            items(self.compute),
            items(self.graphics),
            items(self.util_samples),
        )
    }

    /// The processes whose names have to be asked for, each once.
    pub fn pids(&self) -> (pids: Vec<u32>)
        ensures
            pids@ == self.listed_pids(),
    {
        let none: Vec<RunningProcess> = Vec::new();
        let compute = match &self.compute {
            Some(list) => list,
            None => &none,
        };
        let graphics = match &self.graphics {
            Some(list) => list,
            None => &none,
        };
        pids_to_name(compute, graphics)
    }

    /// Tests whether the percentage of the power limit can be computed.
    pub fn is_countable(&self) -> (r: bool)
        ensures
            r == self.countable(),
    {
        match self.power_violation {
            Some(v) => v.reference_time == 0 || v.violation_time <= u64::MAX / 100,
            None => true,
        }
    }
}

/// A named value of the GPU.
#[derive(PartialEq, Eq, Debug)]
pub struct Counter {
    pub label: &'static str,
    pub unit: &'static str,
    pub value: String,
}

/// The model of a [`Counter`].
#[verifier::ext_equal]
pub struct CounterView {
    pub label: Seq<char>,
    pub unit: Seq<char>,
    pub value: Seq<char>,
}

impl View for Counter {
    type V = CounterView;

    open spec fn view(&self) -> CounterView {
        CounterView { label: self.label@, unit: self.unit@, value: self.value@ }
    }
}

/// The models of some counters.
pub open spec fn counter_views(counters: Seq<Counter>) -> Seq<CounterView> {
    Seq::new(counters.len(), |i: int| counters[i]@)
}

/// The quotient of two numbers, rounded towards zero.
pub open spec fn towards_zero(n: int, d: int) -> int {
    if n < 0 {
        -((-n) / d)
    } else {
        n / d
    }
}

/// The major number of a CUDA version.
pub open spec fn cuda_major(version: int) -> int {
    towards_zero(version, 1000)
}

/// The minor number of a CUDA version.
pub open spec fn cuda_minor(version: int) -> int {
    towards_zero(version - 1000 * cuda_major(version), 10)
}

/// `nvml_wrapper::cuda_driver_version_major` divides the version by 1000, towards zero.
pub assume_specification[ nvml_wrapper::cuda_driver_version_major ](version: i32) -> (major: i32)
    ensures
        major == cuda_major(version as int),
;

/// `nvml_wrapper::cuda_driver_version_minor` divides what the version leaves over a multiple
/// of 1000 by 10, towards zero.
pub assume_specification[ nvml_wrapper::cuda_driver_version_minor ](version: i32) -> (minor: i32)
    ensures
        minor == cuda_minor(version as int),
;

/// The text of a CUDA version.
pub open spec fn cuda_text(version: int) -> Seq<char> {
    signed_numeral(cuda_major(version)) + "."@ + signed_numeral(cuda_minor(version))
}

/// Writes a CUDA version.
pub fn cuda_version_text(version: i32) -> (s: String)
    ensures
        s@ == cuda_text(version as int),
{
    let major: i32 = nvml_wrapper::cuda_driver_version_major(version);
    let minor: i32 = nvml_wrapper::cuda_driver_version_minor(version);
    signed_decimal(major).concat(".").concat(signed_decimal(minor).as_str())
}

/// The share of a stretch of time, in whole percent; 0 of an empty stretch.
pub open spec fn percentage(v: Violation) -> int {
    if v.reference_time > 0 {
        v.violation_time * 100 / (v.reference_time as int)
    } else {
        0
    }
}

/// Computes the share of time in which a limit held the GPU back.
pub fn violation_percent(v: Violation) -> (percent: u64)
    requires
        v.reference_time > 0 ==> v.violation_time * 100 <= u64::MAX,
    ensures
        percent == percentage(v),
{
    if v.reference_time > 0 {
        v.violation_time * 100 / v.reference_time
    } else {
        0
    }
}

/// The model of a counter.
pub open spec fn counter(label: Seq<char>, unit: Seq<char>, value: Seq<char>) -> CounterView {
    CounterView { label, unit, value }
}

/// A counter where there is a value, and none where there is not.
pub open spec fn reported(label: Seq<char>, unit: Seq<char>, value: Option<Seq<char>>) -> Seq<
    CounterView,
> {
    match value {
        Some(value) => seq![counter(label, unit, value)],
        None => Seq::empty(),
    }
}

/// The numeral of a number that may be missing.
pub open spec fn number(value: Option<u32>) -> Option<Seq<char>> {
    match value {
        Some(n) => Some(numeral(n as nat)),
        None => None,
    }
}

/// The numeral of a number of kilobytes, in whole megabytes.
pub open spec fn kilobytes(value: Option<u32>) -> Option<Seq<char>> {
    match value {
        Some(n) => Some(numeral((n / 1024) as nat)),
        None => None,
    }
}

impl Readings {
    /// The version of the driver.
    pub open spec fn driver_text(self) -> Seq<char> {
        match self.driver_version {
            Some(version) => version@,
            None => "Unknown"@,
        }
    }

    /// The version of CUDA.
    pub open spec fn cuda(self) -> Option<Seq<char>> {
        match self.cuda_version {
            Some(version) => Some(cuda_text(version as int)),
            None => None,
        }
    }

    /// The use of the BAR1 memory, in whole megabytes.
    pub open spec fn bar1_text(self) -> Option<Seq<char>> {
        match self.bar1_used {
            Some(bytes) => Some(numeral((bytes / MEGABYTE) as nat)),
            None => None,
        }
    }

    /// The share of time in which the power limit held the GPU back, in whole percent.
    pub open spec fn power_limit_text(self) -> Option<Seq<char>> {
        match self.power_violation {
            Some(v) => Some(numeral(percentage(v) as nat)),
            None => None,
        }
    }

    /// Whether the GPU was held back by its temperature.
    pub open spec fn thermal_limit_text(self) -> Option<Seq<char>> {
        match self.thermal_violation {
            Some(v) => Some(
                if v.violation_time > 0 {
                    "yes"@
                } else {
                    "no"@
                },
            ),
            None => None,
        }
    }

    /// The counters, from top to bottom. An empty one sets the versions apart; what the
    /// driver does not report is left out.
    pub open spec fn all_counters(self) -> Seq<CounterView> {
        seq![counter("Driver"@, ""@, self.driver_text())]
            + reported("CUDA"@, ""@, self.cuda())
            + seq![counter(""@, ""@, ""@)]
            + reported("SM Clock"@, "MHz"@, number(self.sm_clock))
            + reported("Mem Clock"@, "MHz"@, number(self.mem_clock))
            + reported("Encoder"@, "%"@, number(self.encoder))
            + reported("Decoder"@, "%"@, number(self.decoder))
            + reported("BAR1 Used"@, "MB"@, self.bar1_text())
            + reported("PCIe RX"@, "MB/s"@, kilobytes(self.pcie_rx_kb))
            + reported("PCIe TX"@, "MB/s"@, kilobytes(self.pcie_tx_kb))
            + reported("PCIe Replays"@, ""@, number(self.pcie_replays))
            + reported("Pwr limit"@, "%"@, self.power_limit_text())
            + reported("Thrml limit"@, ""@, self.thermal_limit_text())
    }
}

/// The model of a text that may be missing.
pub open spec fn optional_text(text: Option<String>) -> Option<Seq<char>> {
    match text {
        Some(text) => Some(text@),
        None => None,
    }
}

fn add_reported(
    counters: &mut Vec<Counter>,
    label: &'static str,
    unit: &'static str,
    value: Option<String>,
)
    ensures
        counter_views(final(counters)@) == counter_views(old(counters)@) + reported(
            label@,
            unit@,
            optional_text(value),
        ),
{
    let ghost before = counters@;
    if let Some(value) = value {
        counters.push(Counter { label, unit, value });
        proof {
            assert(counter_views(counters@) =~= counter_views(before).push(
                counter(label@, unit@, value@),
            ));
        }
    }
    proof {
        assert(counter_views(counters@) =~= counter_views(before) + reported(
            label@,
            unit@,
            optional_text(value),
        ));
    }
}

fn number_text(value: Option<u32>) -> (s: Option<String>)
    ensures
        optional_text(s) == number(value),
{
    match value {
        Some(n) => Some(decimal(n as u64)),
        None => None,
    }
}

fn kilobytes_text(value: Option<u32>) -> (s: Option<String>)
    ensures
        optional_text(s) == kilobytes(value),
{
    match value {
        Some(n) => Some(decimal((n / 1024) as u64)),
        None => None,
    }
}

impl Readings {
    /// Makes the counters.
    pub fn counters(&self) -> (counters: Vec<Counter>)
        requires
            self.countable(),
        ensures
            counter_views(counters@) == self.all_counters(),
    {
        let mut counters: Vec<Counter> = Vec::new();
        let driver = match &self.driver_version {
            Some(version) => version.clone(),
            None => "Unknown".to_owned(),
        };
        counters.push(Counter { label: "Driver", unit: "", value: driver });
        proof {
            assert(counter_views(counters@) =~= seq![
                counter("Driver"@, ""@, self.driver_text()),
            ]);
        }
        let cuda = match self.cuda_version {
            Some(version) => Some(cuda_version_text(version)),
            None => None,
        };
        add_reported(&mut counters, "CUDA", "", cuda);
        let gap = "".to_owned();
        let ghost before = counters@;
        counters.push(Counter { label: "", unit: "", value: gap });
        proof {
            assert(counter_views(counters@) =~= counter_views(before) + seq![
                counter(""@, ""@, ""@),
            ]);
        }
        add_reported(&mut counters, "SM Clock", "MHz", number_text(self.sm_clock));
        add_reported(&mut counters, "Mem Clock", "MHz", number_text(self.mem_clock));
        add_reported(&mut counters, "Encoder", "%", number_text(self.encoder));
        add_reported(&mut counters, "Decoder", "%", number_text(self.decoder));
        let bar1 = match self.bar1_used {
            Some(bytes) => Some(decimal(bytes / MEGABYTE)),
            None => None,
        };
        add_reported(&mut counters, "BAR1 Used", "MB", bar1);
        add_reported(&mut counters, "PCIe RX", "MB/s", kilobytes_text(self.pcie_rx_kb));
        add_reported(&mut counters, "PCIe TX", "MB/s", kilobytes_text(self.pcie_tx_kb));
        add_reported(&mut counters, "PCIe Replays", "", number_text(self.pcie_replays));
        let power = match self.power_violation {
            Some(v) => Some(decimal(violation_percent(v))),
            None => None,
        };
        add_reported(&mut counters, "Pwr limit", "%", power);
        let thermal = match self.thermal_violation {
            Some(v) => Some(
                if v.violation_time > 0 {
                    "yes".to_owned()
                } else {
                    "no".to_owned()
                },
            ),
            None => None,
        };
        add_reported(&mut counters, "Thrml limit", "", thermal);
        counters
    }
}

/// Whether a counter has a label and a unit, and the numeral of a number for its value.
pub open spec fn counts(c: CounterView, label: Seq<char>, unit: Seq<char>, n: int) -> bool {
    c.label == label && c.unit == unit && writes(c.value, n)
}

/// 1 for a reading that is there, 0 for one that is missing.
pub open spec fn present<T>(value: Option<T>) -> int {
    if value is Some {
        1
    } else {
        0
    }
}

#[verifier::opaque]
spec fn begins(part: Seq<CounterView>, all: Seq<CounterView>) -> bool {
    part.is_prefix_of(all)
}

proof fn lemma_begins(part: Seq<CounterView>, next: Seq<CounterView>, all: Seq<CounterView>)
    requires
        begins(part + next, all),
    ensures
        begins(part, all),
        (part + next).len() == part.len() + next.len(),
        next.len() > 0 ==> all[part.len() as int] == next[0],
{
    reveal(begins);
    let both = part + next;
    assert(part =~= all.subrange(0, part.len() as int)) by {
        assert forall|i: int| 0 <= i < part.len() implies part[i] == all[i] by {
            assert(both[i] == all.subrange(0, both.len() as int)[i]);
        }
    }
    if next.len() > 0 {
        assert(both[part.len() as int] == all.subrange(0, both.len() as int)[part.len() as int]);
    }
}

proof fn lemma_number(label: Seq<char>, unit: Seq<char>, n: nat)
    ensures
        counts(reported(label, unit, Some(numeral(n)))[0], label, unit, n as int),
        reported(label, unit, Some(numeral(n))).len() == 1,
{
    numerals_are_plain(n, numeral(n));
}

/// The counters are those of what the driver reports, from top to bottom: the version of the
/// driver, that of CUDA, a gap, the clocks, the encoder and the decoder as reported, the BAR1
/// memory in whole megabytes, the transfers in whole megabytes, the replays, the percentage
/// of the power limit, and whether heat held the GPU back. There are no others.
#[verifier::rlimit(80)]
#[verifier::spinoff_prover]
pub proof fn counters_tell_what_is_reported(r: Readings)
    ensures
        ({
            let all = r.all_counters();
            let gap = 1 + present(r.cuda_version);
            let sm = gap + 1;
            let mem = sm + present(r.sm_clock);
            let enc = mem + present(r.mem_clock);
            let dec = enc + present(r.encoder);
            let bar = dec + present(r.decoder);
            let rx = bar + present(r.bar1_used);
            let tx = rx + present(r.pcie_rx_kb);
            let replays = tx + present(r.pcie_tx_kb);
            let power = replays + present(r.pcie_replays);
            let heat = power + present(r.power_violation);
            &&& all.len() == heat + present(r.thermal_violation)
            &&& all[0].label == "Driver"@ && all[0].unit == ""@
            &&& all[0].value == (match r.driver_version {
                Some(version) => version@,
                None => "Unknown"@,
            })
            &&& r.cuda_version is Some ==> all[1] == counter(
                "CUDA"@,
                ""@,
                cuda_text(r.cuda_version->0 as int),
            )
            &&& all[gap] == counter(""@, ""@, ""@)
            &&& r.sm_clock is Some ==> counts(all[sm], "SM Clock"@, "MHz"@, r.sm_clock->0 as int)
            &&& r.mem_clock is Some ==> counts(
                all[mem],
                "Mem Clock"@,
                "MHz"@,
                r.mem_clock->0 as int,
            )
            &&& r.encoder is Some ==> counts(all[enc], "Encoder"@, "%"@, r.encoder->0 as int)
            &&& r.decoder is Some ==> counts(all[dec], "Decoder"@, "%"@, r.decoder->0 as int)
            &&& r.bar1_used is Some ==> counts(
                all[bar],
                "BAR1 Used"@,
                "MB"@,
                r.bar1_used->0 as int / 1048576,
            )
            &&& r.pcie_rx_kb is Some ==> counts(
                all[rx],
                "PCIe RX"@,
                "MB/s"@,
                r.pcie_rx_kb->0 as int / 1024,
            )
            &&& r.pcie_tx_kb is Some ==> counts(
                all[tx],
                "PCIe TX"@,
                "MB/s"@,
                r.pcie_tx_kb->0 as int / 1024,
            )
            &&& r.pcie_replays is Some ==> counts(
                all[replays],
                "PCIe Replays"@,
                ""@,
                r.pcie_replays->0 as int,
            )
            &&& r.power_violation is Some ==> counts(
                all[power],
                "Pwr limit"@,
                "%"@,
                percentage(r.power_violation->0),
            )
            &&& r.thermal_violation is Some ==> all[heat] == counter(
                "Thrml limit"@,
                ""@,
                if r.thermal_violation->0.violation_time > 0 {
                    "yes"@
                } else {
                    "no"@
                },
            )
        }),
{
    let c0 = seq![counter("Driver"@, ""@, r.driver_text())];
    let c1 = reported("CUDA"@, ""@, r.cuda());
    let c2 = seq![counter(""@, ""@, ""@)];
    let c3 = reported("SM Clock"@, "MHz"@, number(r.sm_clock));
    let c4 = reported("Mem Clock"@, "MHz"@, number(r.mem_clock));
    let c5 = reported("Encoder"@, "%"@, number(r.encoder));
    let c6 = reported("Decoder"@, "%"@, number(r.decoder));
    let c7 = reported("BAR1 Used"@, "MB"@, r.bar1_text());
    let c8 = reported("PCIe RX"@, "MB/s"@, kilobytes(r.pcie_rx_kb));
    let c9 = reported("PCIe TX"@, "MB/s"@, kilobytes(r.pcie_tx_kb));
    let c10 = reported("PCIe Replays"@, ""@, number(r.pcie_replays));
    let c11 = reported("Pwr limit"@, "%"@, r.power_limit_text());
    let c12 = reported("Thrml limit"@, ""@, r.thermal_limit_text());
    let s1 = c0 + c1;
    let s2 = s1 + c2;
    let s3 = s2 + c3;
    let s4 = s3 + c4;
    let s5 = s4 + c5;
    let s6 = s5 + c6;
    let s7 = s6 + c7;
    let s8 = s7 + c8;
    let s9 = s8 + c9;
    let s10 = s9 + c10;
    let s11 = s10 + c11;
    let s12 = s11 + c12;
    assert(r.all_counters() == s12);
    assert(begins(s12, s12)) by {
        reveal(begins);
        assert(s12 =~= s12.subrange(0, s12.len() as int));
    }
    lemma_begins(s11, c12, s12);
    lemma_begins(s10, c11, s12);
    lemma_begins(s9, c10, s12);
    lemma_begins(s8, c9, s12);
    lemma_begins(s7, c8, s12);
    lemma_begins(s6, c7, s12);
    lemma_begins(s5, c6, s12);
    lemma_begins(s4, c5, s12);
    lemma_begins(s3, c4, s12);
    lemma_begins(s2, c3, s12);
    lemma_begins(s1, c2, s12);
    lemma_begins(c0, c1, s12);
    assert(s12[0] == c0[0]) by {
        reveal(begins);
        assert(c0[0] == s12.subrange(0, 1)[0]);
    }
    if let Some(n) = r.sm_clock {
        lemma_number("SM Clock"@, "MHz"@, n as nat);
    }
    if let Some(n) = r.mem_clock {
        lemma_number("Mem Clock"@, "MHz"@, n as nat);
    }
    if let Some(n) = r.encoder {
        lemma_number("Encoder"@, "%"@, n as nat);
    }
    if let Some(n) = r.decoder {
        lemma_number("Decoder"@, "%"@, n as nat);
    }
    if let Some(n) = r.bar1_used {
        lemma_number("BAR1 Used"@, "MB"@, (n / MEGABYTE) as nat);
    }
    if let Some(n) = r.pcie_rx_kb {
        lemma_number("PCIe RX"@, "MB/s"@, (n / 1024) as nat);
    }
    if let Some(n) = r.pcie_tx_kb {
        lemma_number("PCIe TX"@, "MB/s"@, (n / 1024) as nat);
    }
    if let Some(n) = r.pcie_replays {
        lemma_number("PCIe Replays"@, ""@, n as nat);
    }
    if let Some(v) = r.power_violation {
        percentages_are_whole_hundredths(v);
        lemma_number("Pwr limit"@, "%"@, percentage(v) as nat);
    }
}

/// The percentage of a limit is the largest number of whole hundredths of the time that the
/// limit was in force for, and 0 of no time.
pub proof fn percentages_are_whole_hundredths(v: Violation)
    ensures
        percentage(v) >= 0,
        v.reference_time == 0 ==> percentage(v) == 0,
        v.reference_time > 0 ==> percentage(v) * v.reference_time <= v.violation_time * 100,
        v.reference_time > 0 ==> v.violation_time * 100 < (percentage(v) + 1) * v.reference_time,
{
    if v.reference_time > 0 {
        let (n, d) = (v.violation_time * 100, v.reference_time as int);
        vstd::arithmetic::div_mod::lemma_fundamental_div_mod(n, d);
        vstd::arithmetic::div_mod::lemma_mod_bound(n, d);
        vstd::arithmetic::div_mod::lemma_div_pos_is_pos(n, d);
        let q = n / d;
        assert(d * q == q * d) by (nonlinear_arith);
        assert((q + 1) * d == q * d + d) by (nonlinear_arith);
    }
}

/// A CUDA version is written as its thousands, a point, and the tens of the rest.
pub proof fn cuda_versions_are_major_and_minor(
    version: int,
    major: Seq<char>,
    minor: Seq<char>,
)
    requires
        version >= 0,
        writes(major, version / 1000),
        writes(minor, version % 1000 / 10),
    ensures
        cuda_text(version) == major + "."@ + minor,
{
    numerals_are_plain((version / 1000) as nat, major);
    numerals_are_plain((version % 1000 / 10) as nat, minor);
    assert(version - 1000 * (version / 1000) == version % 1000);
}

/// Readings can be counted unless the percentage of the power limit is too large for a machine
/// word.
pub proof fn readings_can_be_counted(r: Readings)
    ensures
        !r.countable() ==> {
            &&& r.power_violation is Some
            &&& r.power_violation->0.reference_time > 0
            &&& r.power_violation->0.violation_time * 100 > u64::MAX
        },
{
}

/// The processes are those of both lists, and the table is made of the lists, the names and
/// the samples that were read; a list that is missing has nothing in it.
pub proof fn missing_lists_are_empty(
    r: Readings,
    compute: Seq<RunningProcess>,
    graphics: Seq<RunningProcess>,
    samples: Seq<UtilSample>,
)
    requires
        match r.compute {
            Some(list) => compute == list@,
            None => compute.len() == 0,
        },
        match r.graphics {
            Some(list) => graphics == list@,
            None => graphics.len() == 0,
        },
        match r.util_samples {
            Some(list) => samples == list@,
            None => samples.len() == 0,
        },
    ensures
        r.listed_pids() == distinct_pids(compute + graphics),
        r.table() == process_table(r.names@, compute, graphics, samples),
{
    assert(items(r.compute) =~= compute);
    assert(items(r.graphics) =~= graphics);
    assert(items(r.util_samples) =~= samples);
}

} // verus!
