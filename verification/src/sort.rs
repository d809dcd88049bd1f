//! The order of the process list, and which processes are on it.
use crate::process::{process_views, GpuProcess, ProcessView};
use crate::text::{
    is_before, occurs, occurs_in, text_before, text_order_irreflexive, text_order_total,
    text_order_transitive,
};
use vstd::prelude::*;

verus! {

/// The columns of the process list, in the order in which they are shown.
#[derive(Clone, Copy, PartialEq, Eq, Structural, Debug)]
pub enum SortColumn {
    Pid,
    Name,
    Mem,
    SmUtil,
    MemUtil,
    EncUtil,
    DecUtil,
}

/// The number of columns.
pub const COLUMN_COUNT: usize = 7;

impl SortColumn {
    /// The place of the column, from the left.
    pub open spec fn place(self) -> int {
        match self {
            SortColumn::Pid => 0,
            SortColumn::Name => 1,
            SortColumn::Mem => 2,
            SortColumn::SmUtil => 3,
            SortColumn::MemUtil => 4,
            SortColumn::EncUtil => 5,
            SortColumn::DecUtil => 6,
        }
    }

    /// The column at a place.
    pub open spec fn at(place: int) -> SortColumn {
        if place == 0 {
            SortColumn::Pid
        } else if place == 1 {
            SortColumn::Name
        } else if place == 2 {
            SortColumn::Mem
        } else if place == 3 {
            SortColumn::SmUtil
        } else if place == 4 {
            SortColumn::MemUtil
        } else if place == 5 {
            SortColumn::EncUtil
        } else {
            SortColumn::DecUtil
        }
    }

    /// The heading of the column.
    pub open spec fn heading(self) -> Seq<char> {
        match self {
            SortColumn::Pid => "PID"@,
            SortColumn::Name => "Command"@,
            SortColumn::Mem => "Mem"@,
            SortColumn::SmUtil => "SM%"@,
            SortColumn::MemUtil => "Mem%"@,
            SortColumn::EncUtil => "Enc%"@,
            SortColumn::DecUtil => "Dec%"@,
        }
    }

    /// The column to the right; the first one after the last.
    pub fn next(self) -> (column: SortColumn)
        ensures
            column == SortColumn::at((self.place() + 1) % 7),
    {
        match self {
            SortColumn::Pid => SortColumn::Name,
            SortColumn::Name => SortColumn::Mem,
            SortColumn::Mem => SortColumn::SmUtil,
            SortColumn::SmUtil => SortColumn::MemUtil,
            SortColumn::MemUtil => SortColumn::EncUtil,
            SortColumn::EncUtil => SortColumn::DecUtil,
            SortColumn::DecUtil => SortColumn::Pid,
        }
    }

    /// The column to the left; the last one before the first.
    pub fn prev(self) -> (column: SortColumn)
        ensures
            column == SortColumn::at((self.place() + 6) % 7),
    {
        match self {
            SortColumn::Pid => SortColumn::DecUtil,
            SortColumn::Name => SortColumn::Pid,
            SortColumn::Mem => SortColumn::Name,
            SortColumn::SmUtil => SortColumn::Mem,
            SortColumn::MemUtil => SortColumn::SmUtil,
            SortColumn::EncUtil => SortColumn::MemUtil,
            SortColumn::DecUtil => SortColumn::EncUtil,
        }
    }

    /// The heading of the column.
    pub fn label(self) -> (text: &'static str)
        ensures
            text@ == self.heading(),
    {
        match self {
            SortColumn::Pid => "PID",
            SortColumn::Name => "Command",
            SortColumn::Mem => "Mem",
            SortColumn::SmUtil => "SM%",
            SortColumn::MemUtil => "Mem%",
            SortColumn::EncUtil => "Enc%",
            SortColumn::DecUtil => "Dec%",
        }
    }

    /// The column at a place.
    pub fn from_place(place: usize) -> (column: SortColumn)
        requires
            place < COLUMN_COUNT,
        ensures
            column == SortColumn::at(place as int),
    {
        match place {
            0 => SortColumn::Pid,
            1 => SortColumn::Name,
            2 => SortColumn::Mem,
            3 => SortColumn::SmUtil,
            4 => SortColumn::MemUtil,
            5 => SortColumn::EncUtil,
            _ => SortColumn::DecUtil,
        }
    }
}

/// Going right and going left undo each other.
pub proof fn next_and_prev_are_inverse(column: SortColumn)
    ensures
        SortColumn::at((SortColumn::at((column.place() + 1) % 7).place() + 6) % 7) == column,
        SortColumn::at((SortColumn::at((column.place() + 6) % 7).place() + 1) % 7) == column,
{
}

/// The column `n` steps to the right.
pub open spec fn steps_right(column: SortColumn, n: nat) -> SortColumn
    decreases n,
{
    if n == 0 {
        column
    } else {
        SortColumn::at((steps_right(column, (n - 1) as nat).place() + 1) % 7)
    }
}

proof fn lemma_steps_right(column: SortColumn, n: nat)
    ensures
        steps_right(column, n).place() == (column.place() + n) % 7,
    decreases n,
{
    if n > 0 {
        lemma_steps_right(column, (n - 1) as nat);
    }
}

/// From any column, every column is reached within a round of seven steps, and the round
/// ends where it began.
pub proof fn columns_form_one_cycle(from: SortColumn, to: SortColumn)
    ensures
        exists|n: nat| n < 7 && #[trigger] steps_right(from, n) == to,
        steps_right(from, 7) == from,
{
    let n: nat = ((to.place() - from.place() + 7) % 7) as nat;
    lemma_steps_right(from, n);
    lemma_steps_right(from, 7);
    assert(steps_right(from, n) == to);
}

/// What decides the process list: the processes, their names and the filter in lower case,
/// and the chosen order.
pub struct Listing {
    pub processes: Seq<ProcessView>,
    pub lowered: Seq<Seq<char>>,
    pub needle: Seq<char>,
    pub column: SortColumn,
    pub ascending: bool,
}

impl Listing {
    /// Whether a process passes the filter: an empty filter lets every process pass, any
    /// other those with the filter in their name.
    pub open spec fn passes(self, p: int) -> bool {
        self.needle.len() == 0 || occurs(self.lowered[p], self.needle)
    }

    /// Whether one process has a smaller entry in the chosen column than another.
    pub open spec fn key_before(self, i: int, j: int) -> bool {
        let (a, b) = (self.processes[i], self.processes[j]);
        match self.column {
            SortColumn::Pid => a.pid < b.pid,
            SortColumn::Name => text_before(self.lowered[i], self.lowered[j]),
            SortColumn::Mem => a.mem_mb < b.mem_mb,
            SortColumn::SmUtil => a.sm_util < b.sm_util,
            SortColumn::MemUtil => a.mem_util < b.mem_util,
            SortColumn::EncUtil => a.enc_util < b.enc_util,
            SortColumn::DecUtil => a.dec_util < b.dec_util,
        }
    }

    /// Whether one process is listed before another: by the chosen column in the chosen
    /// direction, and among equals in the order of the table.
    pub open spec fn before(self, i: int, j: int) -> bool {
        let (first, second) = if self.ascending {
            (i, j)
        } else {
            (j, i)
        };
        self.key_before(first, second) || (!self.key_before(second, first) && i < j)
    }

    /// Whether some rows stand in the order of the list.
    pub open spec fn in_order(self, rows: Seq<usize>) -> bool {
        forall|i: int, j: int|
            #![trigger rows[i], rows[j]]
            0 <= i < j < rows.len() ==> self.before(rows[i] as int, rows[j] as int)
    }

    /// Whether some rows are those among the first `n` processes that pass the filter.
    pub open spec fn covers(self, rows: Seq<usize>, n: int) -> bool {
        forall|p: usize| #[trigger] rows.contains(p) <==> p < n && self.passes(p as int)
    }

    /// Whether some rows are the process list: every process that passes the filter, in order.
    pub open spec fn is_arrangement(self, rows: Seq<usize>) -> bool {
        self.in_order(rows) && self.covers(rows, self.processes.len() as int)
    }

    /// The process list, as places in the table.
    pub open spec fn arranged(self) -> Seq<usize> {
        choose|rows: Seq<usize>| self.is_arrangement(rows)
    }

    proof fn lemma_before_is_strict(self, i: int)
        ensures
            !self.before(i, i),
    {
        text_order_irreflexive(self.lowered[i]);
    }

    proof fn lemma_before_is_total(self, i: int, j: int)
        requires
            i != j,
        ensures
            self.before(i, j) || self.before(j, i),
    {
    }

    proof fn lemma_key_transitive(self, i: int, j: int, k: int)
        ensures
            self.key_before(i, j) && self.key_before(j, k) ==> self.key_before(i, k),
            self.key_before(i, j) && !self.key_before(k, j) ==> self.key_before(i, k),
            !self.key_before(j, i) && self.key_before(j, k) ==> self.key_before(i, k),
            !self.key_before(j, i) && !self.key_before(k, j) ==> !self.key_before(k, i),
    {
        if self.column == SortColumn::Name {
            let (a, b, c) = (self.lowered[i], self.lowered[j], self.lowered[k]);
            if text_before(a, b) && text_before(b, c) {
                text_order_transitive(a, b, c);
            }
            if a != b && !text_before(b, a) {
                text_order_total(a, b);
            }
            if b != c && !text_before(c, b) {
                text_order_total(b, c);
            }
            if text_before(c, a) && text_before(a, b) {
                text_order_transitive(c, a, b);
            }
            if text_before(b, c) && text_before(c, a) {
                text_order_transitive(b, c, a);
            }
            text_order_irreflexive(a);
            text_order_irreflexive(b);
            text_order_irreflexive(c);
        }
    }

    proof fn lemma_before_is_transitive(self, i: int, j: int, k: int)
        requires
            self.before(i, j),
            self.before(j, k),
        ensures
            self.before(i, k),
    {
        self.lemma_key_transitive(i, j, k);
        self.lemma_key_transitive(k, j, i);
    }

    /// Putting process `p` where it belongs among the rows before it keeps the list in order.
    proof fn lemma_insert(self, rows: Seq<usize>, k: int, p: usize)
        requires
            0 <= k <= rows.len(),
            self.in_order(rows),
            self.covers(rows, p as int),
            self.passes(p as int),
            forall|i: int| 0 <= i < k ==> self.before(#[trigger] rows[i] as int, p as int),
            forall|i: int|
                k <= i < rows.len() ==> self.before(p as int, #[trigger] rows[i] as int),
        ensures
            self.in_order(rows.insert(k, p)),
            self.covers(rows.insert(k, p), p + 1),
    {
        let longer = rows.insert(k, p);
        assert forall|q: usize| #[trigger] longer.contains(q) implies q < p + 1 && self.passes(
            q as int,
        ) by {
            let i = choose|i: int| 0 <= i < longer.len() && longer[i] == q;
            if i < k {
                assert(rows.contains(rows[i]));
            } else if i > k {
                assert(rows.contains(rows[i - 1]));
            }
        }
        assert forall|q: usize| q < p + 1 && self.passes(q as int) implies #[trigger] longer.contains(
            q,
        ) by {
            if q == p {
                assert(longer[k] == q);
            } else {
                assert(rows.contains(q));
                let i = choose|i: int| 0 <= i < rows.len() && rows[i] == q;
                if i < k {
                    assert(longer[i] == q);
                } else {
                    assert(longer[i + 1] == q);
                }
            }
        }
    }

    /// The rows before a place at which `p` does not come earlier all come before `p`.
    proof fn lemma_slot(self, rows: Seq<usize>, k: int, p: usize)
        requires
            0 <= k <= rows.len(),
            self.in_order(rows),
            self.covers(rows, p as int),
            k > 0 ==> !self.before(p as int, rows[k - 1] as int),
        ensures
            forall|i: int| 0 <= i < k ==> self.before(#[trigger] rows[i] as int, p as int),
    {
        if k > 0 {
            let last = rows[k - 1];
            assert(rows.contains(last));
            self.lemma_before_is_total(last as int, p as int);
            assert forall|i: int| 0 <= i < k implies self.before(
                #[trigger] rows[i] as int,
                p as int,
            ) by {
                if i < k - 1 {
                    self.lemma_before_is_transitive(rows[i] as int, last as int, p as int);
                }
            }
        }
    }

    proof fn find_slot(self, rows: Seq<usize>, from: int, p: usize) -> (k: int)
        requires
            0 <= from <= rows.len(),
            self.in_order(rows),
            self.covers(rows, p as int),
            forall|i: int|
                from <= i < rows.len() ==> self.before(p as int, #[trigger] rows[i] as int),
        ensures
            0 <= k <= rows.len(),
            forall|i: int| 0 <= i < k ==> self.before(#[trigger] rows[i] as int, p as int),
            forall|i: int|
                k <= i < rows.len() ==> self.before(p as int, #[trigger] rows[i] as int),
        decreases from,
    {
        if from > 0 && self.before(p as int, rows[from - 1] as int) {
            self.find_slot(rows, from - 1, p)
        } else {
            self.lemma_slot(rows, from, p);
            from
        }
    }

    proof fn arrange_first(self, n: usize) -> (rows: Seq<usize>)
        ensures
            self.in_order(rows),
            self.covers(rows, n as int),
        decreases n,
    {
        if n == 0 {
            Seq::empty()
        } else {
            let p = (n - 1) as usize;
            let rows = self.arrange_first(p);
            if self.passes(p as int) {
                let k = self.find_slot(rows, rows.len() as int, p);
                self.lemma_insert(rows, k, p);
                rows.insert(k, p)
            } else {
                rows
            }
        }
    }

    /// Leaving rows out keeps the others in order.
    proof fn lemma_some_rows(self, rows: Seq<usize>, keep: spec_fn(usize) -> bool)
        requires
            self.in_order(rows),
        ensures
            self.in_order(rows.filter(keep)),
            forall|p: usize| #[trigger]
                rows.filter(keep).contains(p) <==> rows.contains(p) && keep(p),
        decreases rows.len(),
    {
        reveal(Seq::filter);
        if rows.len() > 0 {
            let (rest, last) = (rows.drop_last(), rows.last());
            self.lemma_some_rows(rest, keep);
            let kept = rest.filter(keep);
            assert forall|i: int| 0 <= i < kept.len() implies self.before(
                #[trigger] kept[i] as int,
                last as int,
            ) by {
                assert(kept.contains(kept[i]));
                let j = choose|j: int| 0 <= j < rest.len() && rest[j] == kept[i];
                assert(rows[j] == kept[i]);
            }
            assert(rows =~= rest.push(last));
            assert forall|p: usize| #[trigger]
                rows.filter(keep).contains(p) <==> rows.contains(p) && keep(p) by {
                assert(rows.contains(p) <==> rest.contains(p) || p == last) by {
                    if rest.contains(p) {
                        let j = choose|j: int| 0 <= j < rest.len() && rest[j] == p;
                        assert(rows[j] == p);
                    }
                    assert(rows[rest.len() as int] == last);
                }
                if keep(last) {
                    let longer = kept.push(last);
                    if kept.contains(p) {
                        let j = choose|j: int| 0 <= j < kept.len() && kept[j] == p;
                        assert(longer[j] == p);
                    }
                    assert(longer[kept.len() as int] == last);
                }
            }
        }
    }

    proof fn lemma_same_list(self, a: Seq<usize>, b: Seq<usize>)
        requires
            self.in_order(a),
            self.in_order(b),
            forall|p: usize| #[trigger] a.contains(p) <==> b.contains(p),
        ensures
            a == b,
        decreases a.len(),
    {
        if a.len() == 0 {
            if b.len() > 0 {
                assert(b.contains(b[0]));
                assert(a.contains(b[0]));
            }
            assert(a =~= b);
        } else {
            assert(a.contains(a[0]));
            let t = choose|t: int| 0 <= t < b.len() && b[t] == a[0];
            assert(b.contains(b[0]));
            assert(a.contains(b[0]));
            let s = choose|s: int| 0 <= s < a.len() && a[s] == b[0];
            let (a0, b0) = (a[0] as int, b[0] as int);
            if t > 0 {
                assert(self.before(b0, a0));
                if s > 0 {
                    assert(self.before(a0, b0));
                    self.lemma_before_is_transitive(a0, b0, a0);
                }
                self.lemma_before_is_strict(a0);
            }
            let (a1, b1) = (a.drop_first(), b.drop_first());
            assert forall|p: usize| #[trigger] a1.contains(p) implies b1.contains(p) by {
                let i = choose|i: int| 0 <= i < a1.len() && a1[i] == p;
                assert(a[i + 1] == p);
                assert(a.contains(p));
                let j = choose|j: int| 0 <= j < b.len() && b[j] == p;
                if j == 0 {
                    assert(self.before(a[0] as int, a[i + 1] as int));
                    self.lemma_before_is_strict(p as int);
                }
                assert(b1[j - 1] == p);
            }
            assert forall|p: usize| b1.contains(p) implies #[trigger] a1.contains(p) by {
                let i = choose|i: int| 0 <= i < b1.len() && b1[i] == p;
                assert(b[i + 1] == p);
                assert(b.contains(p));
                assert(a.contains(p));
                let j = choose|j: int| 0 <= j < a.len() && a[j] == p;
                if j == 0 {
                    assert(self.before(b[0] as int, b[i + 1] as int));
                    self.lemma_before_is_strict(p as int);
                }
                assert(a1[j - 1] == p);
            }
            self.lemma_same_list(a1, b1);
            assert(a =~= seq![a[0]] + a1);
            assert(b =~= seq![b[0]] + b1);
        }
    }
}

/// No two different lists are both the process list.
pub proof fn arrangement_is_unique(listing: Listing, a: Seq<usize>, b: Seq<usize>)
    requires
        listing.is_arrangement(a),
        listing.is_arrangement(b),
    ensures
        a == b,
{
    listing.lemma_same_list(a, b);
}

/// The process list names every process that passes the filter once and no other, in order.
pub proof fn arrangement_exists(listing: Listing)
    requires
        listing.processes.len() <= usize::MAX,
    ensures
        listing.is_arrangement(listing.arranged()),
        listing.arranged().no_duplicates(),
{
    let rows = listing.arrange_first(listing.processes.len() as usize);
    assert(listing.is_arrangement(rows));
    let list = listing.arranged();
    assert forall|i: int, j: int| 0 <= i < list.len() && 0 <= j < list.len() && i != j implies list[i]
        != list[j] by {
        listing.lemma_before_is_strict(list[i] as int);
    }
}

/// A filter only hides rows: what it lets pass stands in the same order as without it.
pub proof fn filtering_only_hides_rows(listing: Listing)
    requires
        listing.processes.len() <= usize::MAX,
    ensures
        ({
            let whole = Listing { needle: Seq::empty(), ..listing };
            listing.arranged() == whole.arranged().filter(|p: usize| listing.passes(p as int))
        }),
{
    let whole = Listing { needle: Seq::empty(), ..listing };
    let keep = |p: usize| listing.passes(p as int);
    arrangement_exists(listing);
    arrangement_exists(whole);
    whole.lemma_some_rows(whole.arranged(), keep);
    let rows = whole.arranged().filter(keep);
    assert forall|i: int, j: int|
        #![trigger rows[i], rows[j]]
        0 <= i < j < rows.len() implies listing.before(rows[i] as int, rows[j] as int) by {
        assert(whole.before(rows[i] as int, rows[j] as int));
    }
    assert forall|p: usize| #[trigger] rows.contains(p) <==> p < listing.processes.len()
        && listing.passes(p as int) by {
        assert(whole.arranged().contains(p) <==> p < whole.processes.len());
    }
    arrangement_is_unique(listing, listing.arranged(), rows);
}

/// Reversing the direction reverses the list, but for processes with equal entries, which
/// keep the order of the table.
pub proof fn reversing_reverses_unequal_rows(listing: Listing, i: int, j: int)
    requires
        listing.key_before(i, j) || listing.key_before(j, i),
    ensures
        listing.before(i, j) <==> (Listing { ascending: !listing.ascending, ..listing }).before(
            j,
            i,
        ),
{
    let other = Listing { ascending: !listing.ascending, ..listing };
    listing.lemma_key_transitive(i, j, i);
    listing.lemma_before_is_strict(i);
    text_order_irreflexive(listing.lowered[i]);
    assert(other.key_before(i, j) == listing.key_before(i, j));
    assert(other.key_before(j, i) == listing.key_before(j, i));
}

/// The models of some texts.
pub open spec fn text_views(texts: Seq<String>) -> Seq<Seq<char>> {
    Seq::new(texts.len(), |i: int| texts[i]@)
}

/// What decides the process list, as seen from the values at hand.
pub open spec fn listing_of(
    processes: Seq<GpuProcess>,
    lowered: Seq<String>,
    needle: Seq<char>,
    column: SortColumn,
    ascending: bool,
) -> Listing {
    Listing {
        processes: process_views(processes),
        lowered: text_views(lowered),
        needle,
        column,
        ascending,
    }
}

fn smaller_entry(
    processes: &Vec<GpuProcess>,
    lowered: &Vec<String>,
    column: SortColumn,
    i: usize,
    j: usize,
) -> (smaller: bool)
    requires
        lowered.len() == processes.len(),
        i < processes.len(),
        j < processes.len(),
    ensures
        forall|needle: Seq<char>, ascending: bool|
            smaller == #[trigger] listing_of(
                processes@,
                lowered@,
                needle,
                column,
                ascending,
            ).key_before(i as int, j as int),
{
    let a = &processes[i];
    let b = &processes[j];
    match column {
        SortColumn::Pid => a.pid < b.pid,
        SortColumn::Name => is_before(lowered[i].as_str(), lowered[j].as_str()),
        SortColumn::Mem => a.mem_mb < b.mem_mb,
        SortColumn::SmUtil => a.sm_util < b.sm_util,
        SortColumn::MemUtil => a.mem_util < b.mem_util,
        SortColumn::EncUtil => a.enc_util < b.enc_util,
        SortColumn::DecUtil => a.dec_util < b.dec_util,
    }
}

/// Filters and sorts the processes. `lowered` holds the names in lower case, `needle` the
/// filter in lower case. The result are the places of the listed processes in the table.
pub fn arrange(
    processes: &Vec<GpuProcess>,
    lowered: &Vec<String>,
    needle: &str,
    column: SortColumn,
    ascending: bool,
) -> (rows: Vec<usize>)
    requires
        lowered.len() == processes.len(),
    ensures
        listing_of(processes@, lowered@, needle@, column, ascending).is_arrangement(rows@),
        rows@ == listing_of(processes@, lowered@, needle@, column, ascending).arranged(),
{
    let ghost listing = listing_of(processes@, lowered@, needle@, column, ascending);
    let mut rows: Vec<usize> = Vec::new();
    let mut p: usize = 0;
    while p < processes.len()
        invariant
            p <= processes.len(),
            lowered.len() == processes.len(),
            listing == listing_of(processes@, lowered@, needle@, column, ascending),
            listing.in_order(rows@),
            listing.covers(rows@, p as int),
        decreases processes.len() - p,
    {
        if needle.is_empty() || occurs_in(lowered[p].as_str(), needle) {
            let mut k: usize = rows.len();
            loop
                invariant
                    p < processes.len(),
                    lowered.len() == processes.len(),
                    listing == listing_of(processes@, lowered@, needle@, column, ascending),
                    listing.in_order(rows@),
                    listing.covers(rows@, p as int),
                    k <= rows.len(),
                    forall|i: int|
                        k <= i < rows.len() ==> listing.before(p as int, #[trigger] rows@[i] as int),
                ensures
                    k <= rows.len(),
                    k > 0 ==> !listing.before(p as int, rows@[k - 1] as int),
                    forall|i: int|
                        k <= i < rows.len() ==> listing.before(p as int, #[trigger] rows@[i] as int),
                decreases k,
            {
                if k == 0 {
                    break;
                }
                let row: usize = rows[k - 1];
                proof {
                    assert(rows@.contains(rows@[k - 1]));
                }
                let earlier = if ascending {
                    smaller_entry(processes, lowered, column, p, row)
                } else {
                    smaller_entry(processes, lowered, column, row, p)
                };
                proof {
                    assert(earlier == listing.before(p as int, row as int));
                }
                if !earlier {
                    break;
                }
                k = k - 1;
            }
            proof {
                listing.lemma_slot(rows@, k as int, p);
                listing.lemma_insert(rows@, k as int, p);
            }
            rows.insert(k, p);
        }
        p = p + 1;
    }
    proof {
        assert(listing.is_arrangement(rows@));
        arrangement_is_unique(listing, rows@, listing.arranged());
    }
    rows
}

} // verus!
