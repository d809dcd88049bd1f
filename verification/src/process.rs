//! The processes that use a GPU.
use vstd::prelude::*;

verus! {

/// The bytes of a megabyte.
pub const MEGABYTE: u64 = 0x10_0000;

/// A process as the driver lists it, with the GPU memory it uses where that is known.
#[derive(Clone, Copy, PartialEq, Eq, Debug)]
pub struct RunningProcess {
    pub pid: u32,
    pub used_bytes: Option<u64>,
}

/// The utilization of the GPU by one process, in percent.
#[derive(Clone, Copy, PartialEq, Eq, Debug)]
pub struct UtilSample {
    pub pid: u32,
    pub sm_util: u32,
    pub mem_util: u32,
    pub enc_util: u32,
    pub dec_util: u32,
}

/// All that is shown of a process.
#[derive(PartialEq, Eq, Debug)]
pub struct GpuProcess {
    pub pid: u32,
    pub name: String,
    pub mem_mb: u64,
    pub sm_util: u32,
    pub mem_util: u32,
    pub enc_util: u32,
    pub dec_util: u32,
    pub is_compute: bool,
    pub is_graphics: bool,
}

/// The model of a [`GpuProcess`].
#[verifier::ext_equal]
pub struct ProcessView {
    pub pid: u32,
    pub name: Seq<char>,
    pub mem_mb: u64,
    pub sm_util: u32,
    pub mem_util: u32,
    pub enc_util: u32,
    pub dec_util: u32,
    pub is_compute: bool,
    pub is_graphics: bool,
}

impl View for GpuProcess {
    type V = ProcessView;

    open spec fn view(&self) -> ProcessView {
        ProcessView {
            pid: self.pid,
            name: self.name@,
            mem_mb: self.mem_mb,
            sm_util: self.sm_util,
            mem_util: self.mem_util,
            enc_util: self.enc_util,
            dec_util: self.dec_util,
            is_compute: self.is_compute,
            is_graphics: self.is_graphics,
        }
    }
}

/// The models of some processes.
pub open spec fn process_views(processes: Seq<GpuProcess>) -> Seq<ProcessView> {
    Seq::new(processes.len(), |i: int| processes[i]@)
}

/// Whether a process is in a list.
pub open spec fn lists(list: Seq<RunningProcess>, pid: u32) -> bool {
    exists|i: int| 0 <= i < list.len() && (#[trigger] list[i]).pid == pid
}

/// The memory that a list entry reports, in whole megabytes; 0 where it is not known.
pub open spec fn used_mb(entry: RunningProcess) -> u64 {
    match entry.used_bytes {
        Some(bytes) => bytes / MEGABYTE,
        None => 0,
    }
}

/// The larger of two numbers.
pub open spec fn larger(a: u64, b: u64) -> u64 {
    if a < b {
        b
    } else {
        a
    }
}

/// The most memory that any entry of the list reports for the process.
pub open spec fn peak_mb(list: Seq<RunningProcess>, pid: u32) -> u64
    decreases list.len(),
{
    if list.len() == 0 {
        0
    } else {
        let before = peak_mb(list.drop_last(), pid);
        if list.last().pid == pid {
            larger(before, used_mb(list.last()))
        } else {
            before
        }
    }
}

/// The processes of a list, each once, in the order in which they first occur.
pub open spec fn distinct_pids(list: Seq<RunningProcess>) -> Seq<u32>
    decreases list.len(),
{
    if list.len() == 0 {
        Seq::empty()
    } else {
        let before = distinct_pids(list.drop_last());
        if before.contains(list.last().pid) {
            before
        } else {
            before.push(list.last().pid)
        }
    }
}

/// The last utilization sample of a process.
pub open spec fn last_sample(samples: Seq<UtilSample>, pid: u32) -> Option<UtilSample>
    decreases samples.len(),
{
    if samples.len() == 0 {
        None
    } else if samples.last().pid == pid {
        Some(samples.last())
    } else {
        last_sample(samples.drop_last(), pid)
    }
}

/// The name of a process that the driver cannot name.
pub open spec fn name_or_unknown(name: Option<String>) -> Seq<char> {
    match name {
        Some(name) => name@,
        None => "<unknown>"@,
    }
}

/// What is shown of a process, given its name and the lists that the driver reported.
pub open spec fn merged(
    pid: u32,
    name: Option<String>,
    compute: Seq<RunningProcess>,
    graphics: Seq<RunningProcess>,
    samples: Seq<UtilSample>,
) -> ProcessView {
    let util = match last_sample(samples, pid) {
        Some(sample) => sample,
        None => UtilSample { pid, sm_util: 0, mem_util: 0, enc_util: 0, dec_util: 0 },
    };
    ProcessView {
        pid,
        name: name_or_unknown(name),
        mem_mb: larger(peak_mb(compute, pid), peak_mb(graphics, pid)),
        sm_util: util.sm_util,
        mem_util: util.mem_util,
        enc_util: util.enc_util,
        dec_util: util.dec_util,
        is_compute: lists(compute, pid),
        is_graphics: lists(graphics, pid),
    }
}

/// The table of the processes in the two lists: one row for each.
pub open spec fn process_table(
    names: Seq<Option<String>>,
    compute: Seq<RunningProcess>,
    graphics: Seq<RunningProcess>,
    samples: Seq<UtilSample>,
) -> Seq<ProcessView> {
    let pids = distinct_pids(compute + graphics);
    Seq::new(pids.len(), |k: int| merged(pids[k], names[k], compute, graphics, samples))
}

fn has_pid(pids: &Vec<u32>, pid: u32) -> (found: bool)
    ensures
        found == pids@.contains(pid),
{
    let mut i: usize = 0;
    while i < pids.len()
        invariant
            i <= pids.len(),
            forall|j: int| 0 <= j < i ==> pids@[j] != pid,
        decreases pids.len() - i,
    {
        if pids[i] == pid {
            return true;
        }
        i = i + 1;
    }
    false
}

/// The processes whose names are needed to build the table: those in either list, each once.
pub fn pids_to_name(compute: &Vec<RunningProcess>, graphics: &Vec<RunningProcess>) -> (pids: Vec<
    u32,
>)
    ensures
        pids@ == distinct_pids(compute@ + graphics@),
{
    let mut pids: Vec<u32> = Vec::new();
    let mut i: usize = 0;
    proof {
        assert(compute@.take(0) =~= Seq::empty());
    }
    while i < compute.len()
        invariant
            i <= compute.len(),
            pids@ == distinct_pids(compute@.take(i as int)),
        decreases compute.len() - i,
    {
        proof {
            assert(compute@.take(i + 1).drop_last() =~= compute@.take(i as int));
        }
        if !has_pid(&pids, compute[i].pid) {
            pids.push(compute[i].pid);
        }
        i = i + 1;
    }
    let mut j: usize = 0;
    proof {
        assert(compute@ + graphics@.take(0) =~= compute@.take(i as int));
    }
    while j < graphics.len()
        invariant
            j <= graphics.len(),
            pids@ == distinct_pids(compute@ + graphics@.take(j as int)),
        decreases graphics.len() - j,
    {
        proof {
            assert((compute@ + graphics@.take(j + 1)).drop_last() =~= compute@ + graphics@.take(
                j as int,
            ));
            assert((compute@ + graphics@.take(j + 1)).last() == graphics@[j as int]);
        }
        if !has_pid(&pids, graphics[j].pid) {
            pids.push(graphics[j].pid);
        }
        j = j + 1;
    }
    proof {
        assert(graphics@.take(j as int) =~= graphics@);
    }
    pids
}

/// Looks a process up in a list: whether it is there, and the most memory it reports.
fn look_up(list: &Vec<RunningProcess>, pid: u32) -> (r: (bool, u64))
    ensures
        r.0 == lists(list@, pid),
        r.1 == peak_mb(list@, pid),
{
    let mut found = false;
    let mut peak: u64 = 0;
    let mut i: usize = 0;
    proof {
        assert(list@.take(0) =~= Seq::empty());
    }
    while i < list.len()
        invariant
            i <= list.len(),
            peak == peak_mb(list@.take(i as int), pid),
            found == exists|j: int| 0 <= j < i && (#[trigger] list@[j]).pid == pid,
        decreases list.len() - i,
    {
        proof {
            assert(list@.take(i + 1).drop_last() =~= list@.take(i as int));
        }
        let entry = list[i];
        if entry.pid == pid {
            found = true;
            let mb: u64 = match entry.used_bytes {
                Some(bytes) => bytes / MEGABYTE,
                None => 0,
            };
            if peak < mb {
                peak = mb;
            }
        }
        i = i + 1;
    }
    proof {
        assert(list@.take(i as int) =~= list@);
    }
    (found, peak)
}

/// Finds the last utilization sample of a process.
fn find_sample(samples: &Vec<UtilSample>, pid: u32) -> (r: Option<UtilSample>)
    ensures
        r == last_sample(samples@, pid),
{
    let mut i: usize = samples.len();
    proof {
        assert(samples@.take(i as int) =~= samples@);
    }
    while i > 0
        invariant
            i <= samples.len(),
            last_sample(samples@, pid) == last_sample(samples@.take(i as int), pid),
        decreases i,
    {
        proof {
            assert(samples@.take(i as int).drop_last() =~= samples@.take(i - 1));
        }
        i = i - 1;
        if samples[i].pid == pid {
            return Some(samples[i]);
        }
    }
    None
}

/// Builds the table of the processes in either list. `names` holds the names of the
/// processes that [`pids_to_name`] gives, in the same order, where the driver knows them.
pub fn build_table(
    names: &Vec<Option<String>>,
    compute: &Vec<RunningProcess>,
    graphics: &Vec<RunningProcess>,
    samples: &Vec<UtilSample>,
) -> (table: Vec<GpuProcess>)
    requires
        names.len() == distinct_pids(compute@ + graphics@).len(),
    ensures
        process_views(table@) == process_table(names@, compute@, graphics@, samples@),
{
    let pids = pids_to_name(compute, graphics);
    let mut table: Vec<GpuProcess> = Vec::new();
    let mut k: usize = 0;
    while k < pids.len()
        invariant
            k <= pids.len(),
            pids@ == distinct_pids(compute@ + graphics@),
            names.len() == pids.len(),
            process_views(table@) == process_table(
                names@,
                compute@,
                graphics@,
                samples@,
            ).take(k as int),
        decreases pids.len() - k,
    {
        let pid: u32 = pids[k];
        let (is_compute, compute_mb) = look_up(compute, pid);
        let (is_graphics, graphics_mb) = look_up(graphics, pid);
        let mut process = GpuProcess {
            pid,
            name: match &names[k] {
                Some(name) => name.clone(),
                None => "<unknown>".to_owned(),
            },
            mem_mb: if compute_mb < graphics_mb {
                graphics_mb
            } else {
                compute_mb
            },
            sm_util: 0,
            mem_util: 0,
            enc_util: 0,
            dec_util: 0,
            is_compute,
            is_graphics,
        };
        if let Some(sample) = find_sample(samples, pid) {
            process.sm_util = sample.sm_util;
            process.mem_util = sample.mem_util;
            process.enc_util = sample.enc_util;
            process.dec_util = sample.dec_util;
        }
        let ghost before = table@;
        table.push(process);
        proof {
            let all = process_table(names@, compute@, graphics@, samples@);
            assert(process_views(table@) =~= process_views(before).push(process@));
            assert(all.take(k + 1) =~= all.take(k as int).push(all[k as int]));
        }
        k = k + 1;
    }
    proof {
        let all = process_table(names@, compute@, graphics@, samples@);
        assert(all.take(k as int) =~= all);
    }
    table
}

/// A list of processes without repetition names each process of the list, and no other.
pub proof fn pids_are_distinct(list: Seq<RunningProcess>)
    ensures
        distinct_pids(list).no_duplicates(),
        forall|pid: u32| #[trigger] distinct_pids(list).contains(pid) <==> lists(list, pid),
    decreases list.len(),
{
    if list.len() > 0 {
        let rest = list.drop_last();
        let before = distinct_pids(rest);
        let last = list.last().pid;
        pids_are_distinct(rest);
        assert forall|pid: u32| #[trigger] distinct_pids(list).contains(pid) implies lists(
            list,
            pid,
        ) by {
            if pid == last {
                assert(list[list.len() - 1].pid == pid);
            } else {
                let k = choose|k: int|
                    0 <= k < distinct_pids(list).len() && distinct_pids(list)[k] == pid;
                assert(before[k] == pid);
                assert(before.contains(pid));
                let i = choose|i: int| 0 <= i < rest.len() && (#[trigger] rest[i]).pid == pid;
                assert(list[i].pid == pid);
            }
        }
        assert forall|pid: u32| lists(list, pid) implies #[trigger] distinct_pids(list).contains(
            pid,
        ) by {
            if pid == last {
                if !before.contains(last) {
                    assert(distinct_pids(list)[before.len() as int] == pid);
                }
            } else {
                let i = choose|i: int| 0 <= i < list.len() && (#[trigger] list[i]).pid == pid;
                assert(rest[i].pid == pid);
                assert(before.contains(pid));
                let k = choose|k: int| 0 <= k < before.len() && before[k] == pid;
                assert(distinct_pids(list)[k] == pid);
            }
        }
    }
}

/// The table has exactly one row for each process in either list, and no other row.
pub proof fn table_has_one_row_per_process(
    names: Seq<Option<String>>,
    compute: Seq<RunningProcess>,
    graphics: Seq<RunningProcess>,
    samples: Seq<UtilSample>,
)
    ensures
        ({
            let table = process_table(names, compute, graphics, samples);
            &&& forall|i: int, j: int|
                0 <= i < j < table.len() ==> (#[trigger] table[i]).pid != (#[trigger] table[j]).pid
            &&& forall|i: int|
                0 <= i < table.len() ==> (#[trigger] table[i]).is_compute || table[i].is_graphics
            &&& forall|pid: u32|
                #![trigger lists(compute, pid)]
                lists(compute, pid) || lists(graphics, pid) ==> exists|i: int|
                    0 <= i < table.len() && (#[trigger] table[i]).pid == pid
        }),
{
    let both = compute + graphics;
    let pids = distinct_pids(both);
    let table = process_table(names, compute, graphics, samples);
    pids_are_distinct(both);
    assert forall|i: int| 0 <= i < table.len() implies (#[trigger] table[i]).is_compute
        || table[i].is_graphics by {
        let pid = pids[i];
        assert(pids.contains(pid));
        let k = choose|k: int| 0 <= k < both.len() && (#[trigger] both[k]).pid == pid;
        if k < compute.len() {
            assert(compute[k].pid == pid);
        } else {
            assert(graphics[k - compute.len()].pid == pid);
        }
    }
    assert forall|pid: u32|
        #![trigger lists(compute, pid)]
        lists(compute, pid) || lists(graphics, pid) implies exists|i: int|
        0 <= i < table.len() && (#[trigger] table[i]).pid == pid by {
        if lists(compute, pid) {
            let k = choose|k: int| 0 <= k < compute.len() && (#[trigger] compute[k]).pid == pid;
            assert(both[k].pid == pid);
        } else {
            let k = choose|k: int| 0 <= k < graphics.len() && (#[trigger] graphics[k]).pid == pid;
            assert(both[compute.len() + k].pid == pid);
        }
        assert(pids.contains(pid));
        let i = choose|i: int| 0 <= i < pids.len() && pids[i] == pid;
        assert(table[i].pid == pid);
    }
}

/// The memory shown for a process is the most that an entry reports: no entry reports more,
/// and some entry reports it, unless it is 0.
pub proof fn peak_is_the_most(list: Seq<RunningProcess>, pid: u32)
    ensures
        forall|i: int|
            0 <= i < list.len() && (#[trigger] list[i]).pid == pid ==> used_mb(list[i])
                <= peak_mb(list, pid),
        peak_mb(list, pid) > 0 ==> exists|i: int|
            0 <= i < list.len() && (#[trigger] list[i]).pid == pid && used_mb(list[i]) == peak_mb(
                list,
                pid,
            ),
    decreases list.len(),
{
    if list.len() > 0 {
        let rest = list.drop_last();
        peak_is_the_most(rest, pid);
        assert forall|i: int| 0 <= i < list.len() && (#[trigger] list[i]).pid == pid implies used_mb(
            list[i],
        ) <= peak_mb(list, pid) by {
            if i < rest.len() {
                assert(rest[i].pid == pid);
            }
        }
        if peak_mb(list, pid) > 0 {
            if peak_mb(list, pid) == peak_mb(rest, pid) {
                let i = choose|i: int|
                    0 <= i < rest.len() && (#[trigger] rest[i]).pid == pid && used_mb(rest[i])
                        == peak_mb(rest, pid);
                assert(list[i].pid == pid);
            } else {
                assert(list[list.len() - 1].pid == pid);
            }
        }
    }
}

/// A utilization sample of a process that is in neither list changes nothing.
pub proof fn stray_samples_are_ignored(
    names: Seq<Option<String>>,
    compute: Seq<RunningProcess>,
    graphics: Seq<RunningProcess>,
    samples: Seq<UtilSample>,
    stray: UtilSample,
)
    requires
        !lists(compute, stray.pid),
        !lists(graphics, stray.pid),
    ensures
        process_table(names, compute, graphics, samples.push(stray)) == process_table(
            names,
            compute,
            graphics,
            samples,
        ),
{
    let both = compute + graphics;
    let pids = distinct_pids(both);
    pids_are_distinct(both);
    let with = process_table(names, compute, graphics, samples.push(stray));
    let without = process_table(names, compute, graphics, samples);
    assert(samples.push(stray).drop_last() =~= samples);
    assert forall|k: int| 0 <= k < pids.len() implies with[k] == without[k] by {
        assert(pids.contains(pids[k]));
        let i = choose|i: int| 0 <= i < both.len() && (#[trigger] both[i]).pid == pids[k];
        if i < compute.len() {
            assert(compute[i].pid == pids[k]);
        } else {
            assert(graphics[i - compute.len()].pid == pids[k]);
        }
    }
    assert(with =~= without);
}

/// The memory of a row is the most that either list reports of its process, in whole
/// megabytes: no entry of the process in a list reports more, and unless it is 0, some entry
/// reports just that.
pub proof fn memory_is_the_largest_report(
    names: Seq<Option<String>>,
    compute: Seq<RunningProcess>,
    graphics: Seq<RunningProcess>,
    samples: Seq<UtilSample>,
    k: int,
)
    requires
        0 <= k < process_table(names, compute, graphics, samples).len(),
    ensures
        ({
            let row = process_table(names, compute, graphics, samples)[k];
            &&& forall|i: int|
                #![trigger compute[i]]
                0 <= i < compute.len() && compute[i].pid == row.pid ==> match compute[i].used_bytes {
                    Some(bytes) => bytes < (row.mem_mb + 1) * 1048576,
                    None => true,
                }
            &&& forall|i: int|
                #![trigger graphics[i]]
                0 <= i < graphics.len() && graphics[i].pid == row.pid
                    ==> match graphics[i].used_bytes {
                    Some(bytes) => bytes < (row.mem_mb + 1) * 1048576,
                    None => true,
                }
            &&& row.mem_mb > 0 ==> {
                ||| exists|i: int|
                    #![trigger compute[i]]
                    0 <= i < compute.len() && compute[i].pid == row.pid
                        && match compute[i].used_bytes {
                        Some(bytes) => row.mem_mb * 1048576 <= bytes,
                        None => false,
                    }
                ||| exists|i: int|
                    #![trigger graphics[i]]
                    0 <= i < graphics.len() && graphics[i].pid == row.pid
                        && match graphics[i].used_bytes {
                        Some(bytes) => row.mem_mb * 1048576 <= bytes,
                        None => false,
                    }
            }
        }),
{
    let row = process_table(names, compute, graphics, samples)[k];
    peak_is_the_most(compute, row.pid);
    peak_is_the_most(graphics, row.pid);
    if row.mem_mb > 0 {
        if row.mem_mb == peak_mb(compute, row.pid) {
            let i = choose|i: int|
                0 <= i < compute.len() && (#[trigger] compute[i]).pid == row.pid && used_mb(
                    compute[i],
                ) == peak_mb(compute, row.pid);
            assert(compute[i].used_bytes is Some);
        } else {
            let i = choose|i: int|
                0 <= i < graphics.len() && (#[trigger] graphics[i]).pid == row.pid && used_mb(
                    graphics[i],
                ) == peak_mb(graphics, row.pid);
            assert(graphics[i].used_bytes is Some);
        }
    }
}

/// A row says of its process whether it is in the list of compute processes, and whether it is
/// in that of graphics processes.
pub proof fn rows_tell_the_lists(
    names: Seq<Option<String>>,
    compute: Seq<RunningProcess>,
    graphics: Seq<RunningProcess>,
    samples: Seq<UtilSample>,
    k: int,
)
    requires
        0 <= k < process_table(names, compute, graphics, samples).len(),
    ensures
        ({
            let row = process_table(names, compute, graphics, samples)[k];
            &&& row.is_compute <==> exists|i: int|
                0 <= i < compute.len() && (#[trigger] compute[i]).pid == row.pid
            &&& row.is_graphics <==> exists|i: int|
                0 <= i < graphics.len() && (#[trigger] graphics[i]).pid == row.pid
        }),
{
}

proof fn lemma_last_sample(samples: Seq<UtilSample>, pid: u32, j: int)
    requires
        0 <= j < samples.len(),
        samples[j].pid == pid,
        forall|i: int| j < i < samples.len() ==> (#[trigger] samples[i]).pid != pid,
    ensures
        last_sample(samples, pid) == Some(samples[j]),
    decreases samples.len(),
{
    if j < samples.len() - 1 {
        assert(samples[samples.len() - 1].pid != pid);
        let rest = samples.drop_last();
        assert forall|i: int| j < i < rest.len() implies (#[trigger] rest[i]).pid != pid by {
            assert(samples[i].pid != pid);
        }
        lemma_last_sample(rest, pid, j);
    }
}

proof fn lemma_no_sample(samples: Seq<UtilSample>, pid: u32)
    requires
        forall|i: int| 0 <= i < samples.len() ==> (#[trigger] samples[i]).pid != pid,
    ensures
        last_sample(samples, pid) is None,
    decreases samples.len(),
{
    if samples.len() > 0 {
        assert(samples[samples.len() - 1].pid != pid);
        let rest = samples.drop_last();
        assert forall|i: int| 0 <= i < rest.len() implies (#[trigger] rest[i]).pid != pid by {
            assert(samples[i].pid != pid);
        }
        lemma_no_sample(rest, pid);
    }
}

/// A row has the utilization of the last sample of its process, each number in its place, and
/// zeros where there is no sample.
pub proof fn rows_have_the_last_sample(
    names: Seq<Option<String>>,
    compute: Seq<RunningProcess>,
    graphics: Seq<RunningProcess>,
    samples: Seq<UtilSample>,
    k: int,
    j: int,
)
    requires
        0 <= k < process_table(names, compute, graphics, samples).len(),
    ensures
        ({
            let row = process_table(names, compute, graphics, samples)[k];
            &&& 0 <= j < samples.len() && samples[j].pid == row.pid && (forall|i: int|
                j < i < samples.len() ==> (#[trigger] samples[i]).pid != row.pid) ==> {
                &&& row.sm_util == samples[j].sm_util
                &&& row.mem_util == samples[j].mem_util
                &&& row.enc_util == samples[j].enc_util
                &&& row.dec_util == samples[j].dec_util
            }
            &&& (forall|i: int|
                0 <= i < samples.len() ==> (#[trigger] samples[i]).pid != row.pid) ==> {
                &&& row.sm_util == 0 && row.mem_util == 0
                &&& row.enc_util == 0 && row.dec_util == 0
            }
        }),
{
    let pid = process_table(names, compute, graphics, samples)[k].pid;
    if 0 <= j < samples.len() && samples[j].pid == pid && (forall|i: int|
        j < i < samples.len() ==> (#[trigger] samples[i]).pid != pid) {
        lemma_last_sample(samples, pid, j);
    }
    if forall|i: int| 0 <= i < samples.len() ==> (#[trigger] samples[i]).pid != pid {
        lemma_no_sample(samples, pid);
    }
}

/// The rows are those of the processes whose names were asked for, each with its own name; a
/// process without a name is called unknown.
pub proof fn rows_have_their_names(
    names: Seq<Option<String>>,
    compute: Seq<RunningProcess>,
    graphics: Seq<RunningProcess>,
    samples: Seq<UtilSample>,
    k: int,
)
    ensures
        ({
            let table = process_table(names, compute, graphics, samples);
            let pids = distinct_pids(compute + graphics);
            &&& table.len() == pids.len()
            &&& 0 <= k < table.len() ==> {
                &&& table[k].pid == pids[k]
                &&& table[k].name == (match names[k] {
                    Some(name) => name@,
                    None => "<unknown>"@,
                })
            }
        }),
{
}

} // verus!
