//! Port bindings and the table that maps each process id to its bindings.

use vstd::prelude::*;

verus! {

/// A protocol name and a port number, as a value.
pub type PortBinding = (Seq<char>, u16);

/// One listening port of a process: the protocol it listens with and the
/// port number in host byte order.
pub struct PortInfo {
    pub protocol: String,
    pub port: u16,
}

impl View for PortInfo {
    type V = PortBinding;

    open spec fn view(&self) -> PortBinding {
        (self.protocol@, self.port)
    }
}

impl PortInfo {
    /// A copy of this binding.
    pub fn duplicate(&self) -> (r: PortInfo)
        ensures
            r@ == self@,
    {
        PortInfo { protocol: self.protocol.clone(), port: self.port }
    }

    /// The binding as the text `protocol:port`.
    pub fn to_text(&self) -> (r: String)
        ensures
            r@ == self.protocol@ + seq![':'] + decimal_text(self.port as nat),
    {
        let mut r = self.protocol.clone();
        r.append(":");
        proof {
            reveal_strlit(":");
        }
        let digits = decimal_string(self.port);
        r.append(digits.as_str());
        r
    }
}

/// The decimal digits of `n`, most significant first, without leading zeros.
pub open spec fn decimal_text(n: nat) -> Seq<char>
    decreases n,
{
    if n < 10 {
        seq![digit_char(n)]
    } else {
        decimal_text(n / 10).push(digit_char(n % 10))
    }
}

/// The ASCII digit for `d`, below ten.
pub open spec fn digit_char(d: nat) -> char {
    ((d + '0' as nat) as u32) as char
}

/// Relies on the `Display` impl of `u16`: its decimal digits, without sign or
/// leading zeros.
#[verifier::external_body]
fn decimal_string(n: u16) -> (r: String)
    ensures
        r@ == decimal_text(n as nat),
{
    n.to_string()
}

/// One row of a port table: a process id and one of its bindings.
pub struct Listener {
    pub pid: u32,
    pub info: PortInfo,
}

/// The bindings that `entries` hold for `pid`, in the order of `entries`.
pub open spec fn ports_for(entries: Seq<(u32, PortBinding)>, pid: u32) -> Seq<PortBinding>
    decreases entries.len(),
{
    if entries.len() == 0 {
        Seq::empty()
    } else {
        let rest = ports_for(entries.drop_last(), pid);
        if entries.last().0 == pid {
            rest.push(entries.last().1)
        } else {
            rest
        }
    }
}

/// The map from each process id that owns a binding in `entries` to its
/// bindings. No id maps to an empty sequence.
pub open spec fn port_map(entries: Seq<(u32, PortBinding)>) -> Map<u32, Seq<PortBinding>> {
    Map::new(|pid: u32| ports_for(entries, pid).len() > 0, |pid: u32| ports_for(entries, pid))
}

/// Appending one table to another appends, for each process, its bindings in
/// the second table to those in the first.
pub proof fn lemma_ports_for_append(
    first: Seq<(u32, PortBinding)>,
    second: Seq<(u32, PortBinding)>,
    pid: u32,
)
    ensures
        ports_for(first + second, pid) == ports_for(first, pid) + ports_for(second, pid),
    decreases second.len(),
{
    if second.len() == 0 {
        assert(first + second =~= first);
        assert(ports_for(first, pid) + ports_for(second, pid) =~= ports_for(first, pid));
    } else {
        lemma_ports_for_append(first, second.drop_last(), pid);
        assert((first + second).drop_last() =~= first + second.drop_last());
        if second.last().0 == pid {
            assert(ports_for(first, pid) + ports_for(second.drop_last(), pid).push(second.last().1)
                =~= (ports_for(first, pid) + ports_for(second.drop_last(), pid)).push(second.last().1));
        }
    }
}

/// Listening ports grouped by the process that owns them. Its view is the
/// sequence of (process id, binding) pairs in the order they were observed;
/// `port_map` of that view is the table as a map.
pub struct PortTable {
    entries: Vec<Listener>,
}

impl View for PortTable {
    type V = Seq<(u32, PortBinding)>;

    closed spec fn view(&self) -> Seq<(u32, PortBinding)> {
        self.entries@.map_values(|l: Listener| (l.pid, l.info@))
    }
}

impl PortTable {
    /// A table with no bindings.
    pub fn new() -> (r: PortTable)
        ensures
            r@ == Seq::<(u32, PortBinding)>::empty(),
    {
        let r = PortTable { entries: Vec::new() };
        assert(r@ =~= Seq::<(u32, PortBinding)>::empty());
        r
    }

    /// The number of (process id, binding) pairs in the table.
    pub fn len(&self) -> (r: usize)
        ensures
            r == self@.len(),
    {
        self.entries.len()
    }

    /// Records that process `pid` listens on `info`, after what is there.
    pub fn add(&mut self, pid: u32, info: PortInfo)
        ensures
            final(self)@ == old(self)@.push((pid, info@)),
    {
        self.entries.push(Listener { pid, info });
        assert(self@ =~= old(self)@.push((pid, info@)));
    }

    /// Appends every binding of `other`, keeping the order of both.
    pub fn append(&mut self, other: PortTable)
        ensures
            final(self)@ == old(self)@ + other@,
    {
        let mut other = other;
        let ghost start = self@;
        let ghost added = other@;
        self.entries.append(&mut other.entries);
        assert(self@ =~= start + added);
    }

    /// The bindings of process `pid`, in the order they were recorded; empty
    /// where it owns none.
    pub fn ports_of(&self, pid: u32) -> (r: Vec<PortInfo>)
        ensures
            r@.map_values(|p: PortInfo| p@) == ports_for(self@, pid),
    {
        let mut r: Vec<PortInfo> = Vec::new();
        let mut i: usize = 0;
        while i < self.entries.len()
            invariant
                i <= self@.len(),
                self@.len() == self.entries@.len(),
                r@.map_values(|p: PortInfo| p@) == ports_for(self@.subrange(0, i as int), pid),
            decreases self.entries@.len() - i,
        {
            let e = &self.entries[i];
            assert(self@.subrange(0, i + 1).drop_last() =~= self@.subrange(0, i as int));
            assert(self@[i as int] == (e.pid, e.info@));
            if e.pid == pid {
                let ghost before = r@;
                r.push(e.info.duplicate());
                assert(r@.map_values(|p: PortInfo| p@) =~= before.map_values(|p: PortInfo| p@).push(
                    e.info@,
                ));
            }
            i = i + 1;
        }
        assert(self@.subrange(0, i as int) =~= self@);
        r
    }
}

} // verus!
