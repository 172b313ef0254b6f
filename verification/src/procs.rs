//! Per-process rolling history and the smoothed usage values derived
//! from it.
//!
//! Each observed process gets its own `HistoryBuffer` per metric, created
//! lazily on first sighting. Entries are never reaped when a process
//! disappears, so a long-running session accumulates entries for exited
//! processes: a known, accepted limitation.

use crate::history::{last_n, ring_push, HistoryBuffer};
use crate::metrics::{
    div_round, lemma_div_round_bound, lemma_seq_sum_bound, lemma_seq_sum_reverse, seq_sum,
    sum_samples,
};
use crate::textfmt::{format_usage, usage_string};
use vstd::prelude::*;

verus! {

/// How many of the most recent samples feed a smoothed value: one sample per
/// tick, so an average over up to five seconds.
pub const SMOOTHING_WINDOW: usize = 5;

/// The most recent `min(5, len)` samples of a history, in push order.
pub open spec fn recent_window(s: Seq<u64>) -> Seq<u64> {
    if s.len() <= 5 {
        s
    } else {
        last_n(s, 5)
    }
}

/// Smoothed CPU usage in tenths of a percent: the mean of the most recent
/// `min(5, len)` samples, rounded to the nearest tenth (ties away from
/// zero), or zero when the process has no recorded history yet.
pub open spec fn spec_smoothed_cpu(s: Seq<u64>) -> nat {
    if s.len() == 0 {
        0
    } else {
        div_round(seq_sum(recent_window(s)), recent_window(s).len())
    }
}

/// Smoothed memory usage in tenths of a megabyte: as the CPU average, but a
/// process with no history yet reports its current instantaneous reading
/// instead of zero, since a memory amount is meaningful on first sight
/// while a CPU rate is not.
pub open spec fn spec_smoothed_memory(s: Seq<u64>, current: u64) -> nat {
    if s.len() == 0 {
        current as nat
    } else {
        spec_smoothed_cpu(s)
    }
}

/// Mean of the most recent `min(5, len)` samples of the history, rounded to
/// the nearest unit; zero for an empty history.
pub fn smoothed_cpu(history: &HistoryBuffer) -> (r: u64)
    requires
        history.wf(),
    ensures
        r == spec_smoothed_cpu(history@),
{
    if history.is_empty() {
        return 0;
    }
    let window = history.snapshot(SMOOTHING_WINDOW);
    proof {
        crate::history::lemma_snapshot_newest_first(history@, SMOOTHING_WINDOW as nat);
        let ghost m: nat = if 5 <= history@.len() {
            5
        } else {
            history@.len()
        };
        assert(last_n(history@, m) =~= recent_window(history@));
        assert(window@ == recent_window(history@).reverse());
        lemma_seq_sum_reverse(recent_window(history@));
        assert(window@.len() == recent_window(history@).len());
    }
    let sum = sum_samples(&window);
    let count = window.len();
    proof {
        lemma_seq_sum_bound(window@);
        assert(seq_sum(window@) <= window@.len() * 0xffff_ffff_ffff_ffff);
        lemma_div_round_bound(
            seq_sum(window@),
            window@.len() as nat,
            0xffff_ffff_ffff_ffff as nat,
        );
    }
    crate::metrics::div_round_wide(sum, count as u128)
}

/// As `smoothed_cpu`, except that an empty history falls back to the
/// process's current instantaneous reading rather than zero.
pub fn smoothed_memory(history: &HistoryBuffer, current: u64) -> (r: u64)
    requires
        history.wf(),
    ensures
        r == spec_smoothed_memory(history@, current),
{
    if history.is_empty() {
        current
    } else {
        smoothed_cpu(history)
    }
}

/// A history smaller than the smoothing window is averaged over exactly the
/// samples it holds; missing ticks are not padded with zeroes.
pub proof fn lemma_short_history_average(s: Seq<u64>)
    requires
        0 < s.len() <= 5,
    ensures
        spec_smoothed_cpu(s) == div_round(seq_sum(s), s.len()),
{
}

/// One process's observed history entry.
struct ProcessEntry {
    pid: u32,
    history: HistoryBuffer,
}

/// Map from process identifier to that process's sample history.
pub struct ProcessHistoryMap {
    entries: Vec<ProcessEntry>,
    capacity: usize,
}

/// The identifiers present in an entry list, in order.
spec fn entry_pids(s: Seq<ProcessEntry>) -> Seq<u32> {
    s.map_values(|e: ProcessEntry| e.pid)
}

/// The mapping an entry list denotes.
spec fn entries_map(s: Seq<ProcessEntry>) -> Map<u32, Seq<u64>>
    decreases s.len(),
{
    if s.len() == 0 {
        Map::empty()
    } else {
        entries_map(s.drop_last()).insert(s.last().pid, s.last().history@)
    }
}

/// The history recorded for a process, or the empty history if the process
/// has never been observed.
pub open spec fn history_or_empty(m: Map<u32, Seq<u64>>, pid: u32) -> Seq<u64> {
    if m.contains_key(pid) {
        m[pid]
    } else {
        Seq::empty()
    }
}

impl View for ProcessHistoryMap {
    type V = Map<u32, Seq<u64>>;

    closed spec fn view(&self) -> Map<u32, Seq<u64>> {
        entries_map(self.entries@)
    }
}

proof fn lemma_entries_map_contains(s: Seq<ProcessEntry>, pid: u32)
    ensures
        entries_map(s).contains_key(pid) <==> entry_pids(s).contains(pid),
    decreases s.len(),
{
    if s.len() == 0 {
    } else {
        lemma_entries_map_contains(s.drop_last(), pid);
        assert(entry_pids(s.drop_last()) =~= entry_pids(s).drop_last());
        assert(entry_pids(s)[s.len() - 1] == s.last().pid);
        if entry_pids(s).contains(pid) {
            let i = choose|i: int| 0 <= i < s.len() && entry_pids(s)[i] == pid;
            if i < s.len() - 1 {
                assert(entry_pids(s).drop_last()[i] == pid);
            }
        }
        if entry_pids(s).drop_last().contains(pid) {
            let i = choose|i: int|
                0 <= i < s.len() - 1 && entry_pids(s).drop_last()[i] == pid;
            assert(entry_pids(s)[i] == pid);
        }
    }
}

proof fn lemma_entries_map_get(s: Seq<ProcessEntry>, i: int)
    requires
        entry_pids(s).no_duplicates(),
        0 <= i < s.len(),
    ensures
        entries_map(s).contains_key(s[i].pid),
        entries_map(s)[s[i].pid] == s[i].history@,
    decreases s.len(),
{
    if i == s.len() - 1 {
        lemma_entries_map_contains(s, s[i].pid);
        assert(entry_pids(s)[i] == s[i].pid);
    } else {
        assert(entry_pids(s.drop_last()) =~= entry_pids(s).drop_last());
        lemma_entries_map_get(s.drop_last(), i);
        assert(entry_pids(s)[i] == s[i].pid);
        assert(entry_pids(s)[s.len() - 1] == s.last().pid);
        assert(s.last().pid != s[i].pid);
    }
}

impl ProcessHistoryMap {
    /// Capacity every per-process ring in this map is created with.
    pub closed spec fn hist_cap(&self) -> nat {
        self.capacity as nat
    }

    /// Identifiers are unique and every ring is well formed with the map's
    /// own capacity.
    pub closed spec fn wf_entries(&self) -> bool {
        &&& entry_pids(self.entries@).no_duplicates()
        &&& forall|i: int|
            0 <= i < self.entries@.len() ==> (#[trigger] self.entries@[i].history).wf()
                && self.entries@[i].history.cap() == self.hist_cap()
    }

    /// Well-formedness of the whole map.
    pub open spec fn wf(&self) -> bool {
        self.wf_entries() && self.hist_cap() >= 1
    }

    /// An empty map whose per-process rings will hold `capacity` samples.
    pub fn new(capacity: usize) -> (r: ProcessHistoryMap)
        requires
            capacity >= 1,
        ensures
            r.wf(),
            r@ == Map::<u32, Seq<u64>>::empty(),
            r.hist_cap() == capacity,
    {
        let r = ProcessHistoryMap { entries: Vec::new(), capacity };
        proof {
            assert(entry_pids(r.entries@) =~= Seq::<u32>::empty());
        }
        r
    }

    /// The recorded history of a process, if it has ever been observed.
    pub fn history_of(&self, pid: u32) -> (r: Option<&HistoryBuffer>)
        requires
            self.wf(),
        ensures
            match r {
                Some(h) => self@.contains_key(pid) && h@ == self@[pid] && h.wf(),
                None => !self@.contains_key(pid),
            },
    {
        let n = self.entries.len();
        let mut i: usize = 0;
        while i < n
            invariant
                i <= n,
                n == self.entries@.len(),
                self.wf(),
                forall|j: int| 0 <= j < i ==> self.entries@[j].pid != pid,
            decreases n - i,
        {
            if self.entries[i].pid == pid {
                proof {
                    lemma_entries_map_get(self.entries@, i as int);
                }
                return Some(&self.entries[i].history);
            }
            i = i + 1;
        }
        proof {
            lemma_entries_map_contains(self.entries@, pid);
            assert(forall|j: int|
                0 <= j < self.entries@.len() ==> entry_pids(self.entries@)[j]
                    == self.entries@[j].pid);
        }
        None
    }

    /// Every recorded history is bounded by the map's ring capacity, so
    /// the per-process memory of a well-formed map never exceeds its
    /// capacity per observed process.
    pub proof fn lemma_histories_bounded(&self)
        requires
            self.wf(),
        ensures
            forall|pid: u32|
                #[trigger] self@.contains_key(pid) ==> self@[pid].len() <= self.hist_cap(),
    {
        assert forall|pid: u32| #[trigger]
            self@.contains_key(pid) implies self@[pid].len() <= self.hist_cap() by {
            lemma_entries_map_contains(self.entries@, pid);
            let i = choose|i: int|
                0 <= i < entry_pids(self.entries@).len() && entry_pids(self.entries@)[i]
                    == pid;
            assert(entry_pids(self.entries@)[i] == self.entries@[i].pid);
            lemma_entries_map_get(self.entries@, i);
        }
    }

    /// Record one sample for a process, creating its ring lazily on first
    /// sighting and evicting that ring's oldest sample when it is full.
    pub fn record(&mut self, pid: u32, value: u64)
        requires
            old(self).wf(),
        ensures
            final(self).wf(),
            final(self).hist_cap() == old(self).hist_cap(),
            final(self)@ == old(self)@.insert(
                pid,
                ring_push(history_or_empty(old(self)@, pid), old(self).hist_cap(), value),
            ),
    {
        let n = self.entries.len();
        let mut i: usize = 0;
        while i < n
            invariant
                i <= n,
                n == self.entries@.len(),
                self == old(self),
                self.wf(),
                forall|j: int| 0 <= j < i ==> self.entries@[j].pid != pid,
            decreases n - i,
        {
            if self.entries[i].pid == pid {
                proof {
                    lemma_entries_map_get(self.entries@, i as int);
                }
                let ghost prev = self.entries@;
                let mut entry = self.entries.remove(i);
                entry.history.push(value);
                self.entries.insert(i, entry);
                proof {
                    assert(self.entries@ =~= prev.update(i as int, self.entries@[i as int]));
                    assert(entry_pids(self.entries@) =~= entry_pids(prev));
                    lemma_entries_map_update(prev, i as int, self.entries@[i as int]);
                    assert(self@ =~= old(self)@.insert(
                        pid,
                        ring_push(
                            history_or_empty(old(self)@, pid),
                            old(self).hist_cap(),
                            value,
                        ),
                    ));
                }
                return ;
            }
            i = i + 1;
        }
        let mut history = HistoryBuffer::new(self.capacity);
        history.push(value);
        let ghost prev = self.entries@;
        self.entries.push(ProcessEntry { pid, history });
        proof {
            assert(self.entries@.drop_last() =~= prev);
            assert(entry_pids(self.entries@).drop_last() =~= entry_pids(prev));
            assert(entry_pids(self.entries@).last() == pid);
            lemma_entries_map_contains(prev, pid);
            assert(forall|j: int|
                0 <= j < prev.len() ==> entry_pids(prev)[j] == prev[j].pid);
            assert(!entry_pids(prev).contains(pid));
            assert(!entries_map(prev).contains_key(pid));
            let ghost newp = entry_pids(self.entries@);
            assert(forall|j: int| 0 <= j < prev.len() ==> newp[j] == entry_pids(prev)[j]);
            assert(newp[prev.len() as int] == pid);
            assert forall|a: int, b: int|
                0 <= a < newp.len() && 0 <= b < newp.len() && a != b implies newp[a]
                != newp[b] by {
                if a < prev.len() && b < prev.len() {
                    assert(entry_pids(prev)[a] != entry_pids(prev)[b]);
                } else if b == prev.len() {
                    assert(newp[a] == prev[a].pid && prev[a].pid != pid);
                } else {
                    assert(newp[b] == prev[b].pid && prev[b].pid != pid);
                }
            }
            assert(newp.no_duplicates());
            assert(history_or_empty(old(self)@, pid) =~= Seq::<u64>::empty());
            assert(self@ =~= old(self)@.insert(
                pid,
                ring_push(history_or_empty(old(self)@, pid), old(self).hist_cap(), value),
            ));
        }
    }
}

/// One process's readings from one refresh of the process table.
pub struct ProcessSample {
    pub pid: u32,
    pub name: String,
    /// Instantaneous CPU usage, in tenths of a percent.
    pub cpu_tenths: u64,
    /// Instantaneous memory usage, in tenths of a megabyte.
    pub memory_mb_tenths: u64,
}

/// One row of the process list the interface reports: smoothed usage
/// values already rendered as display strings.
pub struct ProcessInfo {
    pub pid: i32,
    pub name: String,
    pub cpu_usage: String,
    pub memory_usage: String,
}

/// The identifiers of a refresh's samples, in order.
pub open spec fn sample_pids(s: Seq<ProcessSample>) -> Seq<u32> {
    s.map_values(|p: ProcessSample| p.pid)
}

/// Whether one of the first `k` samples carries this identifier.
pub open spec fn pid_in_prefix(s: Seq<ProcessSample>, k: int, pid: u32) -> bool {
    exists|j: int| 0 <= j < k && s[j].pid == pid
}

/// Record one refresh of the process table: append every listed process's
/// CPU and memory reading to that process's two rings, creating rings
/// lazily on first sighting. Histories of processes absent from the
/// refresh are left untouched (and never reaped).
pub fn record_processes(
    cpu_map: &mut ProcessHistoryMap,
    memory_map: &mut ProcessHistoryMap,
    procs: &Vec<ProcessSample>,
)
    requires
        old(cpu_map).wf(),
        old(memory_map).wf(),
        sample_pids(procs@).no_duplicates(),
    ensures
        final(cpu_map).wf(),
        final(memory_map).wf(),
        final(cpu_map).hist_cap() == old(cpu_map).hist_cap(),
        final(memory_map).hist_cap() == old(memory_map).hist_cap(),
        forall|i: int|
            0 <= i < procs@.len() ==> {
                &&& final(cpu_map)@.contains_key(#[trigger] procs@[i].pid)
                &&& final(cpu_map)@[procs@[i].pid] == ring_push(
                    history_or_empty(old(cpu_map)@, procs@[i].pid),
                    old(cpu_map).hist_cap(),
                    procs@[i].cpu_tenths,
                )
                &&& final(memory_map)@.contains_key(procs@[i].pid)
                &&& final(memory_map)@[procs@[i].pid] == ring_push(
                    history_or_empty(old(memory_map)@, procs@[i].pid),
                    old(memory_map).hist_cap(),
                    procs@[i].memory_mb_tenths,
                )
            },
        forall|pid: u32|
            !sample_pids(procs@).contains(pid) ==> {
                &&& (final(cpu_map)@.contains_key(pid) <==> old(cpu_map)@.contains_key(pid))
                &&& history_or_empty(final(cpu_map)@, pid) == history_or_empty(
                    old(cpu_map)@,
                    pid,
                )
                &&& (final(memory_map)@.contains_key(pid) <==> old(memory_map)@.contains_key(
                    pid,
                ))
                &&& history_or_empty(final(memory_map)@, pid) == history_or_empty(
                    old(memory_map)@,
                    pid,
                )
            },
{
    let n = procs.len();
    let mut i: usize = 0;
    while i < n
        invariant
            i <= n,
            n == procs@.len(),
            sample_pids(procs@).no_duplicates(),
            cpu_map.wf(),
            memory_map.wf(),
            cpu_map.hist_cap() == old(cpu_map).hist_cap(),
            memory_map.hist_cap() == old(memory_map).hist_cap(),
            forall|j: int|
                0 <= j < i ==> {
                    &&& cpu_map@.contains_key(#[trigger] procs@[j].pid)
                    &&& cpu_map@[procs@[j].pid] == ring_push(
                        history_or_empty(old(cpu_map)@, procs@[j].pid),
                        old(cpu_map).hist_cap(),
                        procs@[j].cpu_tenths,
                    )
                    &&& memory_map@.contains_key(procs@[j].pid)
                    &&& memory_map@[procs@[j].pid] == ring_push(
                        history_or_empty(old(memory_map)@, procs@[j].pid),
                        old(memory_map).hist_cap(),
                        procs@[j].memory_mb_tenths,
                    )
                },
            forall|pid: u32|
                #[trigger] cpu_map@.contains_key(pid) ==> old(cpu_map)@.contains_key(pid)
                    || pid_in_prefix(procs@, i as int, pid),
            forall|pid: u32|
                #[trigger] memory_map@.contains_key(pid) ==> old(memory_map)@.contains_key(pid)
                    || pid_in_prefix(procs@, i as int, pid),
            forall|pid: u32|
                #[trigger] old(cpu_map)@.contains_key(pid) ==> cpu_map@.contains_key(pid),
            forall|pid: u32|
                #[trigger] old(memory_map)@.contains_key(pid) ==> memory_map@.contains_key(
                    pid,
                ),
            forall|pid: u32|
                #[trigger] cpu_map@.contains_key(pid) && !pid_in_prefix(procs@, i as int, pid)
                    ==> old(cpu_map)@.contains_key(pid) && cpu_map@[pid] == old(cpu_map)@[pid],
            forall|pid: u32|
                #[trigger] memory_map@.contains_key(pid) && !pid_in_prefix(
                    procs@,
                    i as int,
                    pid,
                ) ==> old(memory_map)@.contains_key(pid) && memory_map@[pid] == old(
                    memory_map,
                )@[pid],
        decreases n - i,
    {
        let pid = procs[i].pid;
        let ghost cpu_prev = *cpu_map;
        let ghost mem_prev = *memory_map;
        proof {
            assert(sample_pids(procs@)[i as int] == pid);
            assert forall|j: int| 0 <= j < i implies procs@[j].pid != pid by {
                assert(sample_pids(procs@)[j] == procs@[j].pid);
            }
            assert(!pid_in_prefix(procs@, i as int, pid)) by {
                if pid_in_prefix(procs@, i as int, pid) {
                    let j = choose|j: int| 0 <= j < i && procs@[j].pid == pid;
                    assert(procs@[j].pid != pid);
                }
            }
            assert(history_or_empty(cpu_prev@, pid) == history_or_empty(
                old(cpu_map)@,
                pid,
            )) by {
                if cpu_prev@.contains_key(pid) {
                } else {
                    if old(cpu_map)@.contains_key(pid) {
                    }
                }
            }
            assert(history_or_empty(mem_prev@, pid) == history_or_empty(
                old(memory_map)@,
                pid,
            ));
        }
        cpu_map.record(pid, procs[i].cpu_tenths);
        memory_map.record(pid, procs[i].memory_mb_tenths);
        proof {
            assert(pid_in_prefix(procs@, i + 1 as int, pid)) by {
                assert(0 <= i < i + 1 && procs@[i as int].pid == pid);
            }
            assert forall|p2: u32| pid_in_prefix(procs@, i as int, p2) implies pid_in_prefix(
                procs@,
                i + 1 as int,
                p2,
            ) by {
                let j = choose|j: int| 0 <= j < i && procs@[j].pid == p2;
                assert(0 <= j < i + 1 && procs@[j].pid == p2);
            }
            assert forall|p2: u32|
                #[trigger] cpu_map@.contains_key(p2) && !pid_in_prefix(
                    procs@,
                    i + 1 as int,
                    p2,
                ) implies old(cpu_map)@.contains_key(p2) && cpu_map@[p2] == old(
                cpu_map,
            )@[p2] by {
                assert(p2 != pid);
                assert(cpu_prev@.contains_key(p2));
                assert(!pid_in_prefix(procs@, i as int, p2));
            }
            assert forall|p2: u32|
                #[trigger] memory_map@.contains_key(p2) && !pid_in_prefix(
                    procs@,
                    i + 1 as int,
                    p2,
                ) implies old(memory_map)@.contains_key(p2) && memory_map@[p2] == old(
                memory_map,
            )@[p2] by {
                assert(p2 != pid);
                assert(mem_prev@.contains_key(p2));
                assert(!pid_in_prefix(procs@, i as int, p2));
            }
        }
        i = i + 1;
    }
    proof {
        assert forall|pid: u32| !sample_pids(procs@).contains(pid) implies {
            &&& (cpu_map@.contains_key(pid) <==> old(cpu_map)@.contains_key(pid))
            &&& history_or_empty(cpu_map@, pid) == history_or_empty(old(cpu_map)@, pid)
            &&& (memory_map@.contains_key(pid) <==> old(memory_map)@.contains_key(pid))
            &&& history_or_empty(memory_map@, pid) == history_or_empty(old(memory_map)@, pid)
        } by {
            assert(!pid_in_prefix(procs@, n as int, pid)) by {
                if pid_in_prefix(procs@, n as int, pid) {
                    let j = choose|j: int| 0 <= j < n && procs@[j].pid == pid;
                    assert(sample_pids(procs@)[j] == pid);
                }
            }
            if cpu_map@.contains_key(pid) {
            }
            if memory_map@.contains_key(pid) {
            }
            if old(cpu_map)@.contains_key(pid) {
            }
            if old(memory_map)@.contains_key(pid) {
            }
        }
    }
}

/// Build the process list the interface reports: for every process of the
/// latest refresh, its identifier, display name, and smoothed CPU and
/// memory usage rendered as display strings.
pub fn get_process_list(
    procs: &Vec<ProcessSample>,
    cpu_map: &ProcessHistoryMap,
    memory_map: &ProcessHistoryMap,
) -> (r: Vec<ProcessInfo>)
    requires
        cpu_map.wf(),
        memory_map.wf(),
    ensures
        r@.len() == procs@.len(),
        forall|i: int|
            0 <= i < procs@.len() ==> {
                &&& (#[trigger] r@[i]).pid == procs@[i].pid as i32
                &&& r@[i].name@ == procs@[i].name@
                &&& r@[i].cpu_usage@ == usage_string(
                    spec_smoothed_cpu(history_or_empty(cpu_map@, procs@[i].pid)),
                )
                &&& r@[i].memory_usage@ == usage_string(
                    spec_smoothed_memory(
                        history_or_empty(memory_map@, procs@[i].pid),
                        procs@[i].memory_mb_tenths,
                    ),
                )
            },
{
    let n = procs.len();
    let mut out: Vec<ProcessInfo> = Vec::new();
    let mut i: usize = 0;
    while i < n
        invariant
            i <= n,
            n == procs@.len(),
            cpu_map.wf(),
            memory_map.wf(),
            out@.len() == i,
            forall|j: int|
                0 <= j < i ==> {
                    &&& (#[trigger] out@[j]).pid == procs@[j].pid as i32
                    &&& out@[j].name@ == procs@[j].name@
                    &&& out@[j].cpu_usage@ == usage_string(
                        spec_smoothed_cpu(history_or_empty(cpu_map@, procs@[j].pid)),
                    )
                    &&& out@[j].memory_usage@ == usage_string(
                        spec_smoothed_memory(
                            history_or_empty(memory_map@, procs@[j].pid),
                            procs@[j].memory_mb_tenths,
                        ),
                    )
                },
        decreases n - i,
    {
        let sample = &procs[i];
        let cpu_tenths = match cpu_map.history_of(sample.pid) {
            Some(history) => smoothed_cpu(history),
            None => 0,
        };
        let memory_tenths = match memory_map.history_of(sample.pid) {
            Some(history) => smoothed_memory(history, sample.memory_mb_tenths),
            None => sample.memory_mb_tenths,
        };
        let info = ProcessInfo {
            pid: sample.pid as i32,
            name: sample.name.clone(),
            cpu_usage: format_usage(cpu_tenths),
            memory_usage: format_usage(memory_tenths),
        };
        out.push(info);
        i = i + 1;
    }
    out
}

/// Replacing the entry at `i` by one with the same identifier updates the
/// denoted mapping at exactly that identifier.
proof fn lemma_entries_map_update(s: Seq<ProcessEntry>, i: int, e: ProcessEntry)
    requires
        entry_pids(s).no_duplicates(),
        0 <= i < s.len(),
        e.pid == s[i].pid,
    ensures
        entries_map(s.update(i, e)) == entries_map(s).insert(e.pid, e.history@),
    decreases s.len(),
{
    if i == s.len() - 1 {
        assert(s.update(i, e).drop_last() =~= s.drop_last());
        assert(entries_map(s.update(i, e)) =~= entries_map(s).insert(e.pid, e.history@));
    } else {
        assert(s.update(i, e).drop_last() =~= s.drop_last().update(i, e));
        assert(entry_pids(s.drop_last()) =~= entry_pids(s).drop_last());
        lemma_entries_map_update(s.drop_last(), i, e);
        assert(entry_pids(s)[i] == s[i].pid);
        assert(entry_pids(s)[s.len() - 1] == s.last().pid);
        assert(s.last().pid != e.pid);
        assert(entries_map(s.update(i, e)) =~= entries_map(s).insert(e.pid, e.history@));
    }
}

} // verus!
