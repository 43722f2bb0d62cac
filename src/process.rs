//! Joins a snapshot of the running processes with a port table, ordered by
//! CPU usage.

use vstd::prelude::*;
use crate::port::{port_map, ports_for, PortInfo, PortTable};

verus! {

/// One process of a snapshot of the process list. CPU usage is in hundredths
/// of a percent; memory in bytes.
pub struct ProcessSample {
    pub pid: u32,
    pub name: String,
    pub cpu_usage: u32,
    pub memory: u64,
}

/// A process of the snapshot with the ports it listens on.
pub struct ProcessInfo {
    pub pid: u32,
    pub name: String,
    pub cpu_usage: u32,
    pub memory: u64,
    pub ports: Vec<PortInfo>,
}

/// Columns that a process name takes, padding included, in a listing.
pub const NAME_COLUMNS: usize = 35;

/// The width of `s` in terminal columns, ambiguous characters counted as two.
pub uninterp spec fn cjk_width_of(s: Seq<char>) -> usize;

/// Relies on `unicode_width::UnicodeWidthStr::width_cjk`: the displayed width
/// of the text, which depends on its characters alone; nothing is zero wide.
#[verifier::external_body]
fn display_width(s: &str) -> (r: usize)
    ensures
        r == cjk_width_of(s@),
        s@.len() == 0 ==> r == 0,
{
    unicode_width::UnicodeWidthStr::width_cjk(s)
}

impl ProcessInfo {
    /// The spaces that go before the name so that it ends at column
    /// `NAME_COLUMNS`; none where the name is that wide or wider.
    pub fn name_padding(&self) -> (r: usize)
        ensures
            r == if cjk_width_of(self.name@) < NAME_COLUMNS {
                (NAME_COLUMNS - cjk_width_of(self.name@)) as usize
            } else {
                0
            },
    {
        let w = display_width(self.name.as_str());
        if w < NAME_COLUMNS {
            NAME_COLUMNS - w
        } else {
            0
        }
    }
}

/// Whether position `a` comes before position `b` when ordering by
/// descending key, ties kept in their original order.
pub open spec fn comes_before(keys: Seq<u32>, a: int, b: int) -> bool {
    keys[a] > keys[b] || (keys[a] == keys[b] && a < b)
}

/// Whether `order` lists the positions of `keys` by descending key, ties in
/// their original order. Such an order holds each position exactly once.
pub open spec fn is_stable_descending(keys: Seq<u32>, order: Seq<usize>) -> bool {
    &&& order.len() == keys.len()
    &&& forall|i: int| 0 <= i < order.len() ==> #[trigger] order[i] < keys.len()
    &&& forall|i: int, j: int|
        0 <= i < j < order.len() ==> comes_before(keys, #[trigger] order[i] as int, #[trigger] order[j] as int)
}

/// The CPU usage of each process of a snapshot.
pub open spec fn cpu_keys(samples: Seq<ProcessSample>) -> Seq<u32> {
    samples.map_values(|s: ProcessSample| s.cpu_usage)
}

/// Whether `info` is `sample` with the bindings that `table` holds for it.
pub open spec fn joins(info: ProcessInfo, sample: ProcessSample, table: PortTable) -> bool {
    &&& info.pid == sample.pid
    &&& info.name == sample.name
    &&& info.cpu_usage == sample.cpu_usage
    &&& info.memory == sample.memory
    &&& info.ports@.map_values(|p: PortInfo| p@) == ports_for(table@, sample.pid)
}

/// The positions of `keys` by descending key, ties in their original order.
pub fn descending_order(keys: &Vec<u32>) -> (r: Vec<usize>)
    ensures
        is_stable_descending(keys@, r@),
{
    let n = keys.len();
    let mut out: Vec<usize> = Vec::new();
    let mut i: usize = 0;
    while i < n
        invariant
            n == keys@.len(),
            i <= n,
            out@.len() == i,
            forall|k: int| 0 <= k < out@.len() ==> #[trigger] out@[k] < i,
            forall|a: int, b: int|
                0 <= a < b < out@.len() ==> comes_before(keys@, #[trigger] out@[a] as int, #[trigger] out@[b] as int),
        decreases n - i,
    {
        let mut pos: usize = 0;
        while pos < out.len() && keys[out[pos]] >= keys[i]
            invariant
                n == keys@.len(),
                i < n,
                pos <= out@.len(),
                forall|k: int| 0 <= k < out@.len() ==> #[trigger] out@[k] < i,
                forall|p: int| 0 <= p < pos ==> keys@[#[trigger] out@[p] as int] >= keys@[i as int],
            decreases out@.len() - pos,
        {
            pos = pos + 1;
        }
        let ghost prev = out@;
        proof {
            assert forall|q: int| pos <= q < prev.len() implies keys@[#[trigger] prev[q] as int]
                < keys@[i as int] by {
                if q > pos {
                    assert(comes_before(keys@, prev[pos as int] as int, prev[q] as int));
                }
            }
        }
        out.insert(pos, i);
        assert(out@ =~= prev.subrange(0, pos as int).push(i) + prev.subrange(pos as int, prev.len() as int));
        assert forall|a: int, b: int| 0 <= a < b < out@.len() implies comes_before(
            keys@,
            #[trigger] out@[a] as int,
            #[trigger] out@[b] as int,
        ) by {
            if b < pos {
                assert(out@[a] == prev[a] && out@[b] == prev[b]);
            } else if b == pos {
                assert(out@[a] == prev[a]);
            } else if a < pos {
                assert(out@[a] == prev[a] && out@[b] == prev[b - 1]);
            } else if a == pos {
                assert(out@[b] == prev[b - 1]);
            } else {
                assert(out@[a] == prev[a - 1] && out@[b] == prev[b - 1]);
            }
        }
        assert forall|k: int| 0 <= k < out@.len() implies #[trigger] out@[k] < i + 1 by {
            if k < pos {
                assert(out@[k] == prev[k]);
            } else if k > pos {
                assert(out@[k] == prev[k - 1]);
            }
        }
        i = i + 1;
    }
    out
}

/// Each process of the snapshot with the ports that `table` holds for it
/// (none where it holds none), ordered by descending CPU usage, processes of
/// equal usage in the order of the snapshot.
pub fn get_process_list(samples: &Vec<ProcessSample>, table: &PortTable) -> (r: Vec<ProcessInfo>)
    ensures
        r@.len() == samples@.len(),
        exists|order: Seq<usize>|
            is_stable_descending(cpu_keys(samples@), order) && forall|i: int|
                0 <= i < r@.len() ==> joins(#[trigger] r@[i], samples@[order[i] as int], *table),
        forall|i: int|
            0 <= i < r@.len() ==> (#[trigger] r@[i].ports@.len() > 0 <==> port_map(table@).contains_key(
                r@[i].pid,
            )),
{
    let mut keys: Vec<u32> = Vec::new();
    let mut k: usize = 0;
    while k < samples.len()
        invariant
            k <= samples@.len(),
            keys@ =~= cpu_keys(samples@).subrange(0, k as int),
        decreases samples@.len() - k,
    {
        keys.push(samples[k].cpu_usage);
        k = k + 1;
    }
    assert(keys@ =~= cpu_keys(samples@));
    let order = descending_order(&keys);
    let mut r: Vec<ProcessInfo> = Vec::new();
    let mut i: usize = 0;
    while i < order.len()
        invariant
            keys@ == cpu_keys(samples@),
            is_stable_descending(keys@, order@),
            i <= order@.len(),
            r@.len() == i,
            forall|j: int| 0 <= j < i ==> joins(#[trigger] r@[j], samples@[order@[j] as int], *table),
        decreases order@.len() - i,
    {
        let s = &samples[order[i]];
        let ports = table.ports_of(s.pid);
        r.push(ProcessInfo {
            pid: s.pid,
            name: s.name.clone(),
            cpu_usage: s.cpu_usage,
            memory: s.memory,
            ports,
        });
        i = i + 1;
    }
    assert forall|j: int| 0 <= j < r@.len() implies (#[trigger] r@[j].ports@.len() > 0
        <==> port_map(table@).contains_key(r@[j].pid)) by {
        assert(joins(r@[j], samples@[order@[j] as int], *table));
        assert(r@[j].ports@.map_values(|p: PortInfo| p@).len() == r@[j].ports@.len());
    }
    r
}

} // verus!
