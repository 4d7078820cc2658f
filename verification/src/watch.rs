//! The polling loop as a state machine.
//!
//! The loop itself cannot see a process: it decides. Its caller probes,
//! snapshots and sleeps as `WatchLoop::action` asks, and reports each outcome
//! to `WatchLoop::step`.

use crate::filter::{filter, lemma_library_paths, library_paths, library_set};
use crate::inventory::{
    lemma_with_paths, lemma_with_paths_from_empty, with_paths, LibraryInventory,
};
use crate::mapping::MappingEntry;
use vstd::prelude::*;

verus! {

/// Where the loop stands.
#[derive(Clone, Copy, Debug, PartialEq, Eq, Structural)]
pub enum WatchState {
    /// Waiting to learn whether the target is alive.
    Probing,
    /// The target was alive; waiting for a snapshot of its memory map.
    Merging,
    /// A snapshot was merged; waiting for the poll interval to pass.
    Sleeping,
    /// The watch is over. No event leads out of this state.
    Terminated,
}

/// What the caller reports to the loop.
#[derive(Clone, Debug, PartialEq, Eq)]
pub enum WatchEvent {
    /// The liveness probe's answer.
    Liveness(bool),
    /// The snapshot reader's answer: the rows of the memory map, or `None`
    /// where the map could not be read.
    Snapshot(Option<Vec<MappingEntry>>),
    /// The sleep is over.
    Woken,
}

/// What the loop asks of its caller.
#[derive(Clone, Copy, Debug, PartialEq, Eq, Structural)]
pub enum WatchAction {
    /// Ask whether the target is alive, and report `WatchEvent::Liveness`.
    Probe,
    /// Read the target's memory map, and report `WatchEvent::Snapshot`.
    Snapshot,
    /// Sleep for this many milliseconds, and report `WatchEvent::Woken`.
    Sleep(u64),
    /// Nothing more: the inventory is final.
    Stop,
}

/// The loop as a mathematical value.
pub struct WatchModel {
    pub state: WatchState,
    /// The poll interval in milliseconds; zero asks for a single snapshot.
    pub interval_ms: u64,
    /// The libraries observed so far, in the order of first observation.
    pub paths: Seq<Seq<char>>,
}

/// The loop before its first probe.
pub open spec fn initial(interval_ms: u64) -> WatchModel {
    WatchModel { state: WatchState::Probing, interval_ms, paths: Seq::empty() }
}

/// What the loop asks for in a given state.
pub open spec fn action_of(m: WatchModel) -> WatchAction {
    match m.state {
        WatchState::Probing => WatchAction::Probe,
        WatchState::Merging => WatchAction::Snapshot,
        WatchState::Sleeping => WatchAction::Sleep(m.interval_ms),
        WatchState::Terminated => WatchAction::Stop,
    }
}

/// Whether the loop, in the state of `m`, is waiting for `event` and will
/// merge the snapshot that it carries.
pub open spec fn merges(m: WatchModel, event: WatchEvent) -> bool {
    m.state == WatchState::Merging && event matches WatchEvent::Snapshot(Some(_))
}

/// One transition.
///
/// A dead target or an unreadable map ends the watch. A snapshot is merged
/// into the inventory; after it the loop ends if the interval is zero and
/// sleeps otherwise. After the sleep it probes again. An event that the loop
/// is not waiting for changes nothing.
pub open spec fn step_spec(m: WatchModel, event: WatchEvent) -> WatchModel {
    match (m.state, event) {
        (WatchState::Probing, WatchEvent::Liveness(alive)) => WatchModel {
            state: if alive {
                WatchState::Merging
            } else {
                WatchState::Terminated
            },
            ..m
        },
        (WatchState::Merging, WatchEvent::Snapshot(Some(rows))) => WatchModel {
            state: if m.interval_ms == 0 {
                WatchState::Terminated
            } else {
                WatchState::Sleeping
            },
            paths: with_paths(m.paths, library_paths(rows@)),
            ..m
        },
        (WatchState::Merging, WatchEvent::Snapshot(None)) => WatchModel {
            state: WatchState::Terminated,
            ..m
        },
        (WatchState::Sleeping, WatchEvent::Woken) => WatchModel { state: WatchState::Probing, ..m },
        _ => m,
    }
}

/// The loop after a sequence of events.
pub open spec fn run(m: WatchModel, events: Seq<WatchEvent>) -> WatchModel
    decreases events.len(),
{
    if events.len() == 0 {
        m
    } else {
        step_spec(run(m, events.drop_last()), events.last())
    }
}

/// The snapshots that the loop merges in the course of `events`, in order.
pub open spec fn polls(m: WatchModel, events: Seq<WatchEvent>) -> Seq<Seq<MappingEntry>>
    decreases events.len(),
{
    if events.len() == 0 {
        Seq::empty()
    } else {
        let earlier = polls(m, events.drop_last());
        match events.last() {
            WatchEvent::Snapshot(Some(rows)) => if merges(
                run(m, events.drop_last()),
                events.last(),
            ) {
                earlier.push(rows@)
            } else {
                earlier
            },
            _ => earlier,
        }
    }
}

/// The union of the library sets of a sequence of snapshots.
pub open spec fn union_of(snapshots: Seq<Seq<MappingEntry>>) -> Set<Seq<char>> {
    Set::new(
        |p: Seq<char>|
            exists|i: int|
                0 <= i < snapshots.len() && (#[trigger] library_set(snapshots[i])).contains(p),
    )
}

/// The polling loop of one watch.
pub struct WatchLoop {
    state: WatchState,
    interval_ms: u64,
    inventory: LibraryInventory,
}

impl WatchLoop {
    /// The loop as a mathematical value.
    pub closed spec fn view(&self) -> WatchModel {
        WatchModel {
            state: self.state,
            interval_ms: self.interval_ms,
            paths: self.inventory.paths(),
        }
    }

    /// A loop that has not probed yet, with an empty inventory.
    pub fn new(interval_ms: u64) -> (w: WatchLoop)
        ensures
            w@ == initial(interval_ms),
            w@.paths.no_duplicates(),
    {
        WatchLoop { state: WatchState::Probing, interval_ms, inventory: LibraryInventory::new() }
    }

    /// Where the loop stands.
    pub fn state(&self) -> (state: WatchState)
        ensures
            state == self@.state,
    {
        self.state
    }

    /// The poll interval in milliseconds.
    pub fn interval_ms(&self) -> (interval_ms: u64)
        ensures
            interval_ms == self@.interval_ms,
    {
        self.interval_ms
    }

    /// Whether the watch is over.
    pub fn is_terminated(&self) -> (over: bool)
        ensures
            over == (self@.state == WatchState::Terminated),
    {
        match self.state {
            WatchState::Terminated => true,
            _ => false,
        }
    }

    /// What the caller has to do next.
    pub fn action(&self) -> (action: WatchAction)
        ensures
            action == action_of(self@),
    {
        match self.state {
            WatchState::Probing => WatchAction::Probe,
            WatchState::Merging => WatchAction::Snapshot,
            WatchState::Sleeping => WatchAction::Sleep(self.interval_ms),
            WatchState::Terminated => WatchAction::Stop,
        }
    }

    /// The libraries observed so far.
    pub fn inventory(&self) -> (inventory: &LibraryInventory)
        ensures
            inventory.paths() == self@.paths,
            inventory@ == self@.paths.to_set(),
    {
        &self.inventory
    }

    /// Gives up the loop for the libraries it observed.
    pub fn into_inventory(self) -> (inventory: LibraryInventory)
        ensures
            inventory.paths() == self@.paths,
            inventory@ == self@.paths.to_set(),
    {
        self.inventory
    }

    /// Takes the outcome of the action last asked for, and returns the
    /// action to take next.
    pub fn step(&mut self, event: WatchEvent) -> (action: WatchAction)
        ensures
            final(self)@ == step_spec(old(self)@, event),
            action == action_of(final(self)@),
            old(self)@.paths.to_set().subset_of(final(self)@.paths.to_set()),
            final(self)@.paths.no_duplicates(),
    {
        proof {
            use_type_invariant(&self.inventory);
        }
        match self.state {
            WatchState::Probing => {
                if let WatchEvent::Liveness(alive) = event {
                    if alive {
                        self.state = WatchState::Merging;
                    } else {
                        self.state = WatchState::Terminated;
                    }
                }
            },
            WatchState::Merging => {
                if let WatchEvent::Snapshot(snapshot) = event {
                    match snapshot {
                        Some(rows) => {
                            let libraries = filter(&rows);
                            self.inventory.merge(&libraries);
                            if self.interval_ms == 0 {
                                self.state = WatchState::Terminated;
                            } else {
                                self.state = WatchState::Sleeping;
                            }
                        },
                        None => {
                            self.state = WatchState::Terminated;
                        },
                    }
                }
            },
            WatchState::Sleeping => {
                if let WatchEvent::Woken = event {
                    self.state = WatchState::Probing;
                }
            },
            WatchState::Terminated => {},
        }
        self.action()
    }
}

/// No event leads out of `Terminated`: the loop stays as it is, and merges
/// nothing more.
pub proof fn lemma_terminated_is_absorbing(m: WatchModel, events: Seq<WatchEvent>)
    requires
        m.state == WatchState::Terminated,
    ensures
        run(m, events) == m,
        polls(m, events) == Seq::<Seq<MappingEntry>>::empty(),
    decreases events.len(),
{
    if events.len() > 0 {
        lemma_terminated_is_absorbing(m, events.drop_last());
    }
}

/// Whatever the events, the inventory is the union of what the loop started
/// with and the library sets of the snapshots it merged; it names no path
/// twice; and the poll interval stays what it was.
pub proof fn lemma_run_accumulates(m: WatchModel, events: Seq<WatchEvent>)
    requires
        m.paths.no_duplicates(),
    ensures
        run(m, events).paths.no_duplicates(),
        run(m, events).interval_ms == m.interval_ms,
        run(m, events).paths.to_set() == m.paths.to_set().union(union_of(polls(m, events))),
        m.paths.to_set().subset_of(run(m, events).paths.to_set()),
    decreases events.len(),
{
    if events.len() == 0 {
        assert(union_of(polls(m, events)) =~= Set::empty());
        assert(m.paths.to_set().union(union_of(polls(m, events))) =~= m.paths.to_set());
    } else {
        let front = events.drop_last();
        let before = run(m, front);
        let earlier = polls(m, front);
        let now = polls(m, events);
        lemma_run_accumulates(m, front);
        if merges(before, events.last()) {
            let rows = events.last()->Snapshot_0->Some_0;
            lemma_library_paths(rows@);
            lemma_with_paths(before.paths, library_paths(rows@));
            assert(now == earlier.push(rows@));
            assert forall|p: Seq<char>| union_of(now).contains(p) == union_of(earlier).union(
                library_set(rows@),
            ).contains(p) by {
                if union_of(now).contains(p) {
                    let i = choose|i: int|
                        0 <= i < now.len() && (#[trigger] library_set(now[i])).contains(p);
                    if i < earlier.len() {
                        assert(library_set(earlier[i]).contains(p));
                    }
                }
                if union_of(earlier).contains(p) {
                    let i = choose|i: int|
                        0 <= i < earlier.len() && (#[trigger] library_set(earlier[i])).contains(
                            p,
                        );
                    assert(library_set(now[i]).contains(p));
                }
                if library_set(rows@).contains(p) {
                    assert(library_set(now[earlier.len() as int]).contains(p));
                }
            }
            assert(union_of(now) =~= union_of(earlier).union(library_set(rows@)));
            assert(run(m, events).paths.to_set() =~= m.paths.to_set().union(union_of(now)));
        } else {
            assert(now == earlier);
            assert(run(m, events).paths == before.paths);
        }
    }
}

/// For any sequence of events, the inventory of a loop that started empty is
/// exactly the union of the library sets of the snapshots it merged.
pub proof fn lemma_inventory_is_union_of_polls(interval_ms: u64, events: Seq<WatchEvent>)
    ensures
        run(initial(interval_ms), events).paths.to_set() == union_of(
            polls(initial(interval_ms), events),
        ),
        run(initial(interval_ms), events).paths.no_duplicates(),
{
    let m = initial(interval_ms);
    lemma_run_accumulates(m, events);
    assert(m.paths.to_set() =~= Set::empty());
    assert(m.paths.to_set().union(union_of(polls(m, events))) =~= union_of(polls(m, events)));
}

/// With a poll interval of zero the loop merges at most one snapshot,
/// whatever the events and however long the target lives; once it has merged
/// one, it is over; and it never sleeps, so it never probes a second time.
pub proof fn lemma_single_shot(events: Seq<WatchEvent>)
    ensures
        polls(initial(0), events).len() <= 1,
        polls(initial(0), events).len() == 1 ==> run(initial(0), events).state
            == WatchState::Terminated,
        run(initial(0), events).state != WatchState::Sleeping,
        run(initial(0), events).interval_ms == 0,
    decreases events.len(),
{
    if events.len() > 0 {
        lemma_single_shot(events.drop_last());
    }
}

/// With a poll interval of zero, a live target and a readable map, the loop
/// is over after one probe and one snapshot, and holds that snapshot's
/// libraries.
pub proof fn lemma_single_shot_cycle(rows: Vec<MappingEntry>)
    ensures
        ({
            let events = seq![WatchEvent::Liveness(true), WatchEvent::Snapshot(Some(rows))];
            let end = run(initial(0), events);
            &&& end.state == WatchState::Terminated
            &&& end.paths == library_paths(rows@)
            &&& polls(initial(0), events) == seq![rows@]
        }),
{
    let events = seq![WatchEvent::Liveness(true), WatchEvent::Snapshot(Some(rows))];
    let first = seq![WatchEvent::Liveness(true)];
    assert(events.drop_last() =~= first);
    assert(first.drop_last() =~= Seq::<WatchEvent>::empty());
    assert(run(initial(0), first.drop_last()) == initial(0));
    assert(run(initial(0), first).state == WatchState::Merging);
    lemma_library_paths(rows@);
    lemma_with_paths_from_empty(library_paths(rows@));
    assert(polls(initial(0), first.drop_last()) =~= Seq::<Seq<MappingEntry>>::empty());
    assert(polls(initial(0), first) =~= Seq::<Seq<MappingEntry>>::empty());
    assert(polls(initial(0), events) =~= seq![rows@]);
}

/// If the first probe finds the target dead, the loop is over at once: it
/// asks for no snapshot, merges none whatever is reported afterwards, and
/// its inventory is empty.
pub proof fn lemma_dead_on_first_probe(interval_ms: u64, rest: Seq<WatchEvent>)
    ensures
        ({
            let first = step_spec(initial(interval_ms), WatchEvent::Liveness(false));
            let end = run(initial(interval_ms), seq![WatchEvent::Liveness(false)] + rest);
            &&& first.state == WatchState::Terminated
            &&& action_of(first) == WatchAction::Stop
            &&& end == first
            &&& end.paths == Seq::<Seq<char>>::empty()
            &&& polls(initial(interval_ms), seq![WatchEvent::Liveness(false)] + rest)
                == Seq::<Seq<MappingEntry>>::empty()
        }),
    decreases rest.len(),
{
    let head = seq![WatchEvent::Liveness(false)];
    let events = head + rest;
    if rest.len() == 0 {
        assert(events =~= head);
        assert(head.drop_last() =~= Seq::<WatchEvent>::empty());
        assert(run(initial(interval_ms), head.drop_last()) == initial(interval_ms));
        assert(polls(initial(interval_ms), head.drop_last()) =~= Seq::<Seq<MappingEntry>>::empty());
    } else {
        lemma_dead_on_first_probe(interval_ms, rest.drop_last());
        assert(events.drop_last() =~= head + rest.drop_last());
        assert(events.last() == rest.last());
    }
}

} // verus!
