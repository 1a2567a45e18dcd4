//! The results of a scan: one state for each pairing of an address with a
//! port, set once.

use vstd::prelude::*;
use crate::address::IpAddress;
use crate::probe::PortState;

verus! {

/// The identity of a pairing: the address probed and the port probed.
pub type Pairing = (IpAddress, u16);

/// The state that was found for one pairing.
#[derive(Clone, Copy, Debug, PartialEq, Eq, Structural)]
pub struct ScanEntry {
    pub address: IpAddress,
    pub port: u16,
    pub state: PortState,
}

impl ScanEntry {
    /// The pairing this entry is about.
    pub open spec fn pairing(self) -> Pairing {
        (self.address, self.port)
    }
}

/// The map that a list of entries stands for: of two entries for one
/// pairing the earlier one counts.
pub open spec fn entries_map(entries: Seq<ScanEntry>) -> Map<Pairing, PortState>
    decreases entries.len(),
{
    if entries.len() == 0 {
        Map::empty()
    } else {
        let earlier = entries_map(entries.drop_last());
        if earlier.contains_key(entries.last().pairing()) {
            earlier
        } else {
            earlier.insert(entries.last().pairing(), entries.last().state)
        }
    }
}

/// The map of a list of entries holds a pairing exactly when an entry is
/// about it, and holds for it the state of the first such entry.
proof fn lemma_entries_map(entries: Seq<ScanEntry>, pairing: Pairing)
    ensures
        entries_map(entries).contains_key(pairing) <==> exists|i: int|
            0 <= i < entries.len() && (#[trigger] entries[i]).pairing() == pairing,
        forall|i: int|
            0 <= i < entries.len() && (#[trigger] entries[i]).pairing() == pairing && (forall|j: int|
                0 <= j < i ==> (#[trigger] entries[j]).pairing() != pairing) ==> entries_map(
                entries,
            )[pairing] == entries[i].state,
    decreases entries.len(),
{
    if entries.len() > 0 {
        let front = entries.drop_last();
        lemma_entries_map(front, pairing);
        assert forall|i: int| 0 <= i < front.len() implies front[i] == entries[i] by {}
    }
}

/// The results after the state of a pairing came in: a pairing without a
/// state gets this one, a pairing with a state keeps it.
pub open spec fn recorded(
    results: Map<Pairing, PortState>,
    pairing: Pairing,
    state: PortState,
) -> Map<Pairing, PortState> {
    if results.contains_key(pairing) {
        results
    } else {
        results.insert(pairing, state)
    }
}

/// The results of a scan.
pub struct ScanResults {
    entries: Vec<ScanEntry>,
}

impl View for ScanResults {
    type V = Map<Pairing, PortState>;

    /// The state found for each pairing that has one.
    closed spec fn view(&self) -> Map<Pairing, PortState> {
        entries_map(self.entries@)
    }
}

impl ScanResults {
    /// Makes the results of a scan that has found nothing yet.
    pub fn new() -> (results: Self)
        ensures
            results@ == Map::<Pairing, PortState>::empty(),
    {
        ScanResults { entries: Vec::new() }
    }

    /// Returns the state found for a pairing, if one was.
    pub fn get(&self, address: IpAddress, port: u16) -> (state: Option<PortState>)
        ensures
            state == if self@.contains_key((address, port)) {
                Some(self@[(address, port)])
            } else {
                None
            },
    {
        let mut index: usize = 0;
        while index < self.entries.len()
            invariant
                index <= self.entries@.len(),
                forall|j: int|
                    0 <= j < index ==> (#[trigger] self.entries@[j]).pairing() != (address, port),
            decreases self.entries.len() - index,
        {
            let entry = self.entries[index];
            if entry.address == address && entry.port == port {
                proof {
                    lemma_entries_map(self.entries@, (address, port));
                }
                return Some(entry.state);
            }
            index = index + 1;
        }
        proof {
            lemma_entries_map(self.entries@, (address, port));
        }
        None
    }

    /// Sets the state of a pairing that has none and returns `true`. A
    /// pairing that has a state keeps it: then nothing changes and the
    /// result is `false`.
    pub fn record(&mut self, address: IpAddress, port: u16, state: PortState) -> (fresh: bool)
        ensures
            fresh == !old(self)@.contains_key((address, port)),
            final(self)@ == recorded(old(self)@, (address, port), state),
    {
        if self.get(address, port).is_some() {
            return false;
        }
        let ghost before = self.entries@;
        self.entries.push(ScanEntry { address, port, state });
        assert(self.entries@.drop_last() =~= before);
        true
    }

    /// Returns the entries that make up the results.
    pub fn entries(&self) -> (entries: &Vec<ScanEntry>)
        ensures
            entries_map(entries@) == self@,
    {
        &self.entries
    }
}

/// The results of a scan do not depend on the order in which the probes
/// come in: the states of two different pairings, recorded one after the
/// other, give the same results either way.
pub proof fn lemma_order_of_results(
    results: Map<Pairing, PortState>,
    first: Pairing,
    first_state: PortState,
    second: Pairing,
    second_state: PortState,
)
    requires
        first != second,
    ensures
        recorded(recorded(results, first, first_state), second, second_state) == recorded(
            recorded(results, second, second_state),
            first,
            first_state,
        ),
{
}

/// A state is set once: what is recorded for a pairing that has a state
/// changes nothing.
pub proof fn lemma_state_is_set_once(
    results: Map<Pairing, PortState>,
    pairing: Pairing,
    first_state: PortState,
    later_state: PortState,
)
    ensures
        recorded(recorded(results, pairing, first_state), pairing, later_state) == recorded(
            results,
            pairing,
            first_state,
        ),
{
}

} // verus!
