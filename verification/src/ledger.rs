//! The ledger of outstanding probes: one record per target address, from the
//! moment its Echo Request is sent until the run ends.
//!
//! A record is pending until either a reply from its address resolves it or a
//! scan finds it overdue and marks it timed out. Both outcomes are final, and
//! no record is ever removed.

use crate::clock::{elapsed_millis, elapsed_ms, lemma_elapsed_monotonic, Timestamp};
use std::collections::HashMap;
use vstd::prelude::*;
use vstd::std_specs::iter::IteratorSpec;

verus! {

broadcast use vstd::std_specs::hash::group_hash_axioms;

/// Where a probe stands.
#[derive(Clone, Copy, Debug, PartialEq, Eq, Structural)]
pub enum ProbeState {
    /// No reply yet, and not yet found overdue.
    Pending,
    /// A reply was seen at the given time.
    Resolved(Timestamp),
    /// A scan found the probe overdue.
    TimedOut,
}

/// The record of one probe.
#[derive(Clone, Copy, Debug, PartialEq, Eq, Structural)]
pub struct Probe {
    /// When the Echo Request was sent.
    pub time_sent: Timestamp,
    /// What became of it.
    pub state: ProbeState,
}

/// The outcome of correlating a reply with the ledger.
#[derive(Clone, Copy, Debug, PartialEq, Eq, Structural)]
pub enum Correlation {
    /// The reply resolved a pending probe, sent at the given time.
    Matched(Timestamp),
    /// The probe to this address was no longer pending.
    Settled,
    /// No probe was ever sent to this address.
    Stray,
}

/// Registration of an address that is registered already.
#[derive(Clone, Copy, Debug, PartialEq, Eq, Structural)]
pub struct DuplicateAddress(pub u32);

/// The record that registration creates.
pub open spec fn fresh(sent: Timestamp) -> Probe {
    Probe { time_sent: sent, state: ProbeState::Pending }
}

/// The ledger after the registration of `address` at time `sent`: a new
/// address gets a pending record, a registered one keeps the record it has.
pub open spec fn registered(probes: Map<u32, Probe>, address: u32, sent: Timestamp) -> Map<
    u32,
    Probe,
> {
    if probes.contains_key(address) {
        probes
    } else {
        probes.insert(address, fresh(sent))
    }
}

/// Is there a pending probe to `address`?
pub open spec fn is_pending(probes: Map<u32, Probe>, address: u32) -> bool {
    probes.contains_key(address) && probes[address].state is Pending
}

/// The addresses with a pending probe.
pub open spec fn pending(probes: Map<u32, Probe>) -> Set<u32> {
    Set::new(|address: u32| is_pending(probes, address))
}

/// The ledger after a reply from `source` at time `received`: a pending
/// probe to `source` is resolved, and nothing else changes.
pub open spec fn correlated(probes: Map<u32, Probe>, source: u32, received: Timestamp) -> Map<
    u32,
    Probe,
> {
    if is_pending(probes, source) {
        probes.insert(
            source,
            Probe { time_sent: probes[source].time_sent, state: ProbeState::Resolved(received) },
        )
    } else {
        probes
    }
}

/// What correlating a reply from `source` reports.
pub open spec fn correlation(probes: Map<u32, Probe>, source: u32) -> Correlation {
    if !probes.contains_key(source) {
        Correlation::Stray
    } else if probes[source].state is Pending {
        Correlation::Matched(probes[source].time_sent)
    } else {
        Correlation::Settled
    }
}

/// Has every pending probe been pending for at least `timeout` milliseconds
/// at time `now`?
pub open spec fn all_settled(probes: Map<u32, Probe>, now: Timestamp, timeout: int) -> bool {
    forall|address: u32| #[trigger]
        is_pending(probes, address) ==> elapsed_ms(probes[address].time_sent, now) >= timeout
}

/// The ledger with every pending probe marked as timed out.
pub open spec fn timed_out(probes: Map<u32, Probe>) -> Map<u32, Probe> {
    Map::new(
        |address: u32| probes.contains_key(address),
        |address: u32|
            if probes[address].state is Pending {
                Probe { time_sent: probes[address].time_sent, state: ProbeState::TimedOut }
            } else {
                probes[address]
            },
    )
}

/// The ledger after a scan at time `now`: where every pending probe is
/// overdue they are all marked as timed out, and else nothing changes.
pub open spec fn scanned(probes: Map<u32, Probe>, now: Timestamp, timeout: int) -> Map<u32, Probe> {
    if all_settled(probes, now, timeout) {
        timed_out(probes)
    } else {
        probes
    }
}

/// The addresses that a scan at time `now` reports as timed out.
pub open spec fn reported(probes: Map<u32, Probe>, now: Timestamp, timeout: int) -> Set<u32> {
    if all_settled(probes, now, timeout) {
        pending(probes)
    } else {
        Set::empty()
    }
}

/// Correlating a reply never creates or removes a record. A reply from an
/// address without a record, or for a probe that is no longer pending, leaves
/// the ledger as it is; so a second reply never overwrites what the first one
/// recorded.
pub proof fn lemma_correlation_exact(
    probes: Map<u32, Probe>,
    source: u32,
    received: Timestamp,
    again: Timestamp,
)
    ensures
        correlated(probes, source, received).dom() == probes.dom(),
        !is_pending(probes, source) ==> correlated(probes, source, received) == probes,
        !probes.contains_key(source) ==> correlation(probes, source) == Correlation::Stray,
        !is_pending(correlated(probes, source, received), source),
        correlated(correlated(probes, source, received), source, again) == correlated(
            probes,
            source,
            received,
        ),
{
}

/// A scan answers `false`, changes nothing and reports nothing while some
/// pending probe is younger than the timeout.
pub proof fn lemma_scan_waits(probes: Map<u32, Probe>, now: Timestamp, timeout: int, address: u32)
    requires
        is_pending(probes, address),
        elapsed_ms(probes[address].time_sent, now) < timeout,
    ensures
        !all_settled(probes, now, timeout),
        scanned(probes, now, timeout) == probes,
        reported(probes, now, timeout) == Set::<u32>::empty(),
{
}

/// Once every pending probe is overdue, it stays so at every later time.
pub proof fn lemma_scan_monotonic(
    probes: Map<u32, Probe>,
    now: Timestamp,
    later: Timestamp,
    timeout: int,
)
    requires
        all_settled(probes, now, timeout),
        now.nanos() <= later.nanos(),
    ensures
        all_settled(probes, later, timeout),
{
    assert forall|address: u32| #[trigger] is_pending(probes, address) implies elapsed_ms(
        probes[address].time_sent,
        later,
    ) >= timeout by {
        lemma_elapsed_monotonic(probes[address].time_sent, now, later);
    }
}

/// A scan reports only probes that were pending and marks each of them as
/// timed out. Where it answers `true` it leaves no probe pending, so that the
/// next scan, at whatever time and with whatever timeout, answers `true` and
/// reports nothing.
pub proof fn lemma_reported_once(
    probes: Map<u32, Probe>,
    now: Timestamp,
    timeout: int,
    next: Timestamp,
    next_timeout: int,
)
    ensures
        reported(probes, now, timeout).subset_of(pending(probes)),
        forall|address: u32| #[trigger]
            reported(probes, now, timeout).contains(address) ==> scanned(
                probes,
                now,
                timeout,
            )[address].state is TimedOut,
        all_settled(probes, now, timeout) ==> {
            &&& pending(scanned(probes, now, timeout)) == Set::<u32>::empty()
            &&& all_settled(scanned(probes, now, timeout), next, next_timeout)
            &&& reported(scanned(probes, now, timeout), next, next_timeout) == Set::<u32>::empty()
        },
{
}

/// Something that happens to a ledger.
#[derive(Clone, Copy, Debug, PartialEq, Eq, Structural)]
pub enum Event {
    /// An address is registered at the given time.
    Register(u32, Timestamp),
    /// A reply from an address is correlated at the given time.
    Reply(u32, Timestamp),
    /// The ledger is scanned at the given time with the given timeout.
    Scan(Timestamp, i64),
}

/// The ledger after `event`.
pub open spec fn after(probes: Map<u32, Probe>, event: Event) -> Map<u32, Probe> {
    match event {
        Event::Register(address, sent) => registered(probes, address, sent),
        Event::Reply(source, received) => correlated(probes, source, received),
        Event::Scan(now, timeout) => scanned(probes, now, timeout as int),
    }
}

/// The addresses that `event` reports as timed out.
pub open spec fn reports(probes: Map<u32, Probe>, event: Event) -> Set<u32> {
    match event {
        Event::Scan(now, timeout) => reported(probes, now, timeout as int),
        _ => Set::empty(),
    }
}

/// The ledger after the first `n` of `events`, one after the other.
pub open spec fn after_first(probes: Map<u32, Probe>, events: Seq<Event>, n: int) -> Map<
    u32,
    Probe,
>
    decreases n,
{
    if n <= 0 {
        probes
    } else {
        after(after_first(probes, events, n - 1), events[n - 1])
    }
}

/// No record is ever removed, and none ever changes its time of sending.
pub proof fn lemma_record_persists(
    probes: Map<u32, Probe>,
    events: Seq<Event>,
    from: int,
    to: int,
    address: u32,
)
    requires
        0 <= from <= to <= events.len(),
        after_first(probes, events, from).contains_key(address),
    ensures
        after_first(probes, events, to).contains_key(address),
        after_first(probes, events, to)[address].time_sent == after_first(
            probes,
            events,
            from,
        )[address].time_sent,
    decreases to - from,
{
    if from < to {
        lemma_record_persists(probes, events, from, to - 1, address);
    }
}

/// Once a probe is resolved or timed out, its record is never touched again:
/// whatever happens to the ledger afterwards, the record is there and is what
/// it was.
pub proof fn lemma_settled_stays(
    probes: Map<u32, Probe>,
    events: Seq<Event>,
    from: int,
    to: int,
    address: u32,
)
    requires
        0 <= from <= to <= events.len(),
        after_first(probes, events, from).contains_key(address),
        !is_pending(after_first(probes, events, from), address),
    ensures
        after_first(probes, events, to).contains_key(address),
        after_first(probes, events, to)[address] == after_first(probes, events, from)[address],
    decreases to - from,
{
    if from < to {
        lemma_settled_stays(probes, events, from, to - 1, address);
    }
}

/// Does `event` register `address`?
pub open spec fn registers(event: Event, address: u32) -> bool {
    event matches Event::Register(registered, _) && registered == address
}

/// Only registration creates a record: the registered addresses are those
/// that the ledger began with and those that were registered since.
pub proof fn lemma_registered_by_registration(
    probes: Map<u32, Probe>,
    events: Seq<Event>,
    n: int,
    address: u32,
)
    requires
        0 <= n <= events.len(),
    ensures
        after_first(probes, events, n).contains_key(address) <==> {
            ||| probes.contains_key(address)
            ||| exists|k: int| 0 <= k < n && registers(#[trigger] events[k], address)
        },
    decreases n,
{
    if n > 0 {
        lemma_registered_by_registration(probes, events, n - 1, address);
    }
}

/// No address is reported as timed out twice: whatever happens to a ledger,
/// the reports of any two of its scans have no address in common.
pub proof fn lemma_reported_at_most_once(
    probes: Map<u32, Probe>,
    events: Seq<Event>,
    first: int,
    second: int,
)
    requires
        0 <= first < second < events.len(),
    ensures
        reports(after_first(probes, events, first), events[first]).disjoint(
            reports(after_first(probes, events, second), events[second]),
        ),
{
    let earlier = after_first(probes, events, first);
    let later = after_first(probes, events, second);
    assert forall|address: u32| reports(earlier, events[first]).contains(address) implies !reports(
        later,
        events[second],
    ).contains(address) by {
        // Reported by the first scan, the probe is timed out after it, and stays so.
        lemma_settled_stays(probes, events, first + 1, second, address);
    }
}

/// The probes of one run, by target address.
pub struct Ledger {
    probes: HashMap<u32, Probe>,
}

impl View for Ledger {
    type V = Map<u32, Probe>;

    closed spec fn view(&self) -> Map<u32, Probe> {
        self.probes@
    }
}

impl Ledger {
    /// A ledger holds finitely many records.
    pub proof fn lemma_finite(self)
        ensures
            self@.dom().finite(),
    {
    }

    /// An empty ledger.
    pub fn new() -> (ledger: Ledger)
        ensures
            ledger@ == Map::<u32, Probe>::empty(),
    {
        Ledger { probes: HashMap::new() }
    }

    /// Number of registered addresses.
    pub fn len(&self) -> (count: usize)
        ensures
            count == self@.len(),
    {
        self.probes.len()
    }

    /// The record of the probe to `address`, if one is registered.
    pub fn get(&self, address: u32) -> (probe: Option<Probe>)
        ensures
            probe == if self@.contains_key(address) {
                Some(self@[address])
            } else {
                None
            },
    {
        match self.probes.get(&address) {
            Some(probe) => Some(*probe),
            None => None,
        }
    }

    /// Registers a pending probe to `address`, sent at time `sent`. An address
    /// can be registered once; a second registration is refused and changes
    /// nothing.
    pub fn register(&mut self, address: u32, sent: Timestamp) -> (done: Result<
        (),
        DuplicateAddress,
    >)
        ensures
            done == if old(self)@.contains_key(address) {
                Err::<(), DuplicateAddress>(DuplicateAddress(address))
            } else {
                Ok::<(), DuplicateAddress>(())
            },
            final(self)@ == registered(old(self)@, address, sent),
    {
        if self.probes.contains_key(&address) {
            Err(DuplicateAddress(address))
        } else {
            self.probes.insert(address, Probe { time_sent: sent, state: ProbeState::Pending });
            Ok(())
        }
    }

    /// Correlates a reply from `source`, seen at time `received`, with the
    /// probe sent to that address. A pending probe is resolved; a reply from
    /// an unknown address, or for a probe that is no longer pending, changes
    /// nothing.
    pub fn correlate(&mut self, source: u32, received: Timestamp) -> (outcome: Correlation)
        ensures
            outcome == correlation(old(self)@, source),
            final(self)@ == correlated(old(self)@, source, received),
    {
        match self.get(source) {
            None => Correlation::Stray,
            Some(probe) => {
                match probe.state {
                    ProbeState::Pending => {
                        self.probes.insert(
                            source,
                            Probe {
                                time_sent: probe.time_sent,
                                state: ProbeState::Resolved(received),
                            },
                        );
                        Correlation::Matched(probe.time_sent)
                    },
                    _ => Correlation::Settled,
                }
            },
        }
    }

    /// The addresses with a pending probe, if each of them has been pending
    /// for at least `timeout_duration` milliseconds at time `now`; `None` if
    /// one of them is younger.
    pub fn overdue(&self, now: Timestamp, timeout_duration: i64) -> (found: Option<Vec<u32>>)
        ensures
            found is Some <==> all_settled(self@, now, timeout_duration as int),
            found is Some ==> found->0@.no_duplicates() && found->0@.to_set() == pending(self@),
    {
        let mut addresses: Vec<u32> = Vec::new();
        let ghost mut places: Seq<int> = Seq::empty();
        let ghost entries = self.probes.iter().remaining();
        let ghost mut visited: int = 0;
        for entry in it: self.probes.iter()
            invariant
                it.seq() == entries,
                it.index() == visited,
                it.seq().no_duplicates(),
                forall|j: int|
                    0 <= j < it.seq().len() ==> {
                        &&& self.probes@.contains_key(*(#[trigger] it.seq()[j]).0)
                        &&& self.probes@[*it.seq()[j].0] == *it.seq()[j].1
                    },
                forall|address: u32| #[trigger]
                    self.probes@.contains_key(address) ==> it.seq().contains(
                        (&address, &self.probes@[address]),
                    ),
                addresses@.no_duplicates(),
                places.len() == addresses@.len(),
                forall|i: int|
                    0 <= i < addresses@.len() ==> {
                        &&& 0 <= #[trigger] places[i] < it.index()
                        &&& *it.seq()[places[i]].0 == addresses@[i]
                        &&& (*it.seq()[places[i]].1).state is Pending
                    },
                forall|j: int|
                    0 <= j < it.index() && (*(#[trigger] it.seq()[j]).1).state is Pending ==> {
                        &&& addresses@.contains(*it.seq()[j].0)
                        &&& elapsed_ms((*it.seq()[j].1).time_sent, now) >= timeout_duration
                    },
        {
            let (address, probe) = entry;
            proof {
                visited = it.index() + 1;
            }
            if let ProbeState::Pending = probe.state {
                if elapsed_millis(probe.time_sent, now) < timeout_duration as i128 {
                    assert(is_pending(self@, *address));
                    return None;
                }
                proof {
                    let ghost here = it.index();
                    assert forall|i: int| 0 <= i < addresses@.len() implies addresses@[i]
                        != *address by {
                        if addresses@[i] == *address {
                            assert(it.seq()[places[i]] == it.seq()[here]);
                        }
                    }
                    places = places.push(here);
                }
                let ghost before = addresses@;
                addresses.push(*address);
                proof {
                    assert forall|j: int|
                        0 <= j <= it.index() && (*(#[trigger] it.seq()[j]).1).state
                            is Pending implies addresses@.contains(*it.seq()[j].0) by {
                        if j < it.index() {
                            let i = choose|i: int|
                                0 <= i < before.len() && before[i] == *it.seq()[j].0;
                            assert(addresses@[i] == *it.seq()[j].0);
                        } else {
                            assert(addresses@[before.len() as int] == *it.seq()[j].0);
                        }
                    }
                }
            }
        }
        proof {
            assert forall|address: u32| #[trigger]
                is_pending(self@, address) implies elapsed_ms(self@[address].time_sent, now)
                >= timeout_duration && addresses@.contains(address) by {
                assert(entries.contains((&address, &self.probes@[address])));
            }
            assert(addresses@.to_set() =~= pending(self@)) by {
                assert forall|address: u32| addresses@.to_set().contains(address) implies pending(
                    self@,
                ).contains(address) by {
                    let i = choose|i: int| 0 <= i < addresses@.len() && addresses@[i] == address;
                    assert(entries[places[i]].0 == &address);
                }
            }
        }
        Some(addresses)
    }

    /// Scans the ledger at time `now`. The answer is `true` if and only if
    /// every pending probe has been pending for at least `timeout_duration`
    /// milliseconds. Where it is, every pending probe is marked as timed out
    /// and its address is handed back, each once; where it is not, nothing
    /// changes and no address is handed back.
    pub fn all_resolved_or_timed_out(&mut self, now: Timestamp, timeout_duration: i64) -> (outcome:
        (bool, Vec<u32>))
        ensures
            outcome.0 == all_settled(old(self)@, now, timeout_duration as int),
            final(self)@ == scanned(old(self)@, now, timeout_duration as int),
            outcome.1@.no_duplicates(),
            outcome.1@.to_set() == reported(old(self)@, now, timeout_duration as int),
    {
        let ghost before = self@;
        match self.overdue(now, timeout_duration) {
            None => (false, Vec::new()),
            Some(addresses) => {
                let mut i: usize = 0;
                while i < addresses.len()
                    invariant
                        0 <= i <= addresses@.len(),
                        addresses@.to_set() == pending(before),
                        self@.dom() == before.dom(),
                        forall|address: u32| #[trigger]
                            before.contains_key(address) ==> self@[address] == if addresses@.take(
                                i as int,
                            ).contains(address) {
                                timed_out(before)[address]
                            } else {
                                before[address]
                            },
                    decreases addresses@.len() - i,
                {
                    let address = addresses[i];
                    assert(addresses@.to_set().contains(address));
                    let ghost marked = addresses@.take(i as int);
                    if let Some(probe) = self.get(address) {
                        self.probes.insert(
                            address,
                            Probe { time_sent: probe.time_sent, state: ProbeState::TimedOut },
                        );
                    }
                    i = i + 1;
                    proof {
                        assert(addresses@.take(i as int) =~= marked.push(address));
                        assert forall|other: u32| #[trigger]
                            before.contains_key(other) implies self@[other] == if addresses@.take(
                            i as int,
                        ).contains(other) {
                            timed_out(before)[other]
                        } else {
                            before[other]
                        } by {
                            if other == address {
                                assert(marked.push(address)[marked.len() as int] == address);
                            } else if marked.contains(other) {
                                let k = choose|k: int| 0 <= k < marked.len() && marked[k] == other;
                                assert(marked.push(address)[k] == other);
                            }
                        }
                    }
                }
                proof {
                    assert(addresses@.take(i as int) =~= addresses@);
                    assert(self@ =~= timed_out(before)) by {
                        assert forall|address: u32| #[trigger]
                            before.contains_key(address) implies self@[address] == timed_out(
                            before,
                        )[address] by {
                            if !addresses@.contains(address) {
                                assert(!addresses@.to_set().contains(address));
                            }
                        }
                    }
                }
                (true, addresses)
            },
        }
    }
}

} // verus!
