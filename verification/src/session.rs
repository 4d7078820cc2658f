//! One watch from acquisition to report: the accumulator that the polling
//! loop and the wait for a launched child both report to.
//!
//! The session is owned by one caller, who hands it the events in whatever
//! order they arrive. Every event is applied whole, so the order of arrival
//! cannot damage the inventory; the laws below say that it cannot change the
//! outcome either.

use crate::inventory::{lemma_with_paths, with_paths, LibraryInventory};
use crate::target::Target;
use vstd::prelude::*;

verus! {

/// How the wait for a launched child ended.
#[derive(Clone, Debug, PartialEq, Eq)]
pub enum WaitOutcome {
    /// The child ended; the text is its exit status.
    Exited(String),
    /// The wait itself could not be performed; the text is the error.
    Failed(String),
}

impl WaitOutcome {
    /// Whether the child was seen to end.
    pub open spec fn exited(&self) -> bool {
        self is Exited
    }

    /// The status or error text.
    pub open spec fn text(&self) -> Seq<char> {
        match *self {
            WaitOutcome::Exited(status) => status@,
            WaitOutcome::Failed(error) => error@,
        }
    }
}

/// What reaches the session.
#[derive(Clone, Debug)]
pub enum SessionEvent {
    /// Libraries that the polling loop observed.
    Observed(LibraryInventory),
    /// The polling loop has ended.
    WatchEnded,
    /// The wait for the child has ended.
    Waited(WaitOutcome),
}

/// The wait for a launched child, as the session sees it.
pub enum WaitModel {
    /// Nothing was launched: there is nothing to wait for.
    NotOwed,
    /// The child has not been seen to end.
    Pending,
    /// The wait ended: whether the child exited, and the status or error
    /// text.
    Done(bool, Seq<char>),
}

/// The session as a mathematical value.
pub struct SessionModel {
    /// The number of the watched process's identifier.
    pub pid: int,
    /// The libraries reported so far, in the order of first report.
    pub paths: Seq<Seq<char>>,
    /// Whether the polling loop is still running.
    pub watching: bool,
    pub wait: WaitModel,
}

/// A session that has received nothing yet.
pub open spec fn opened(pid: int, wait_owed: bool) -> SessionModel {
    SessionModel {
        pid,
        paths: Seq::empty(),
        watching: true,
        wait: if wait_owed {
            WaitModel::Pending
        } else {
            WaitModel::NotOwed
        },
    }
}

/// The effect of one event.
///
/// Observed libraries are merged into the inventory. The end of the polling
/// loop is noted. The end of the wait is noted if a wait is pending: where
/// none is owed, or one has already ended, the event changes nothing.
pub open spec fn handle_spec(m: SessionModel, event: SessionEvent) -> SessionModel {
    match event {
        SessionEvent::Observed(libraries) => SessionModel {
            paths: with_paths(m.paths, libraries.paths()),
            ..m
        },
        SessionEvent::WatchEnded => SessionModel { watching: false, ..m },
        SessionEvent::Waited(outcome) => match m.wait {
            WaitModel::Pending => SessionModel {
                wait: WaitModel::Done(outcome.exited(), outcome.text()),
                ..m
            },
            _ => m,
        },
    }
}

/// Whether the report can be produced: the polling loop has ended, and no
/// wait is pending.
pub open spec fn complete(m: SessionModel) -> bool {
    !m.watching && !(m.wait is Pending)
}

/// The session after a sequence of events.
pub open spec fn replay(m: SessionModel, events: Seq<SessionEvent>) -> SessionModel
    decreases events.len(),
{
    if events.len() == 0 {
        m
    } else {
        handle_spec(replay(m, events.drop_last()), events.last())
    }
}

/// Whether `event` reports the library `p` as observed.
pub open spec fn reports(event: SessionEvent, p: Seq<char>) -> bool {
    match event {
        SessionEvent::Observed(libraries) => libraries@.contains(p),
        _ => false,
    }
}

/// Every library that some event of `events` reports as observed.
pub open spec fn observed(events: Seq<SessionEvent>) -> Set<Seq<char>> {
    Set::new(|p: Seq<char>| exists|i: int| 0 <= i < events.len() && #[trigger] reports(events[i], p))
}

/// One watch session.
pub struct WatchSession {
    target: Target,
    inventory: LibraryInventory,
    watching: bool,
    wait: Option<WaitOutcome>,
}

impl WatchSession {
    /// The session as a mathematical value.
    pub closed spec fn view(&self) -> SessionModel {
        SessionModel {
            pid: self.target.pid@,
            paths: self.inventory.paths(),
            watching: self.watching,
            wait: if !self.target.wait_owed {
                WaitModel::NotOwed
            } else {
                match self.wait {
                    Some(outcome) => WaitModel::Done(outcome.exited(), outcome.text()),
                    None => WaitModel::Pending,
                }
            },
        }
    }

    /// Opens the session for a target: nothing observed, the polling loop
    /// running, and a wait pending if the target owes one.
    pub fn new(target: Target) -> (session: WatchSession)
        ensures
            session@ == opened(target.pid@, target.wait_owed),
            session@.paths.no_duplicates(),
    {
        WatchSession { target, inventory: LibraryInventory::new(), watching: true, wait: None }
    }

    /// Applies one event.
    pub fn handle(&mut self, event: SessionEvent)
        ensures
            final(self)@ == handle_spec(old(self)@, event),
            old(self)@.paths.to_set().subset_of(final(self)@.paths.to_set()),
            final(self)@.paths.no_duplicates(),
    {
        proof {
            use_type_invariant(&self.inventory);
        }
        match event {
            SessionEvent::Observed(libraries) => {
                self.inventory.merge(&libraries);
            },
            SessionEvent::WatchEnded => {
                self.watching = false;
            },
            SessionEvent::Waited(outcome) => {
                if self.target.wait_owed && self.wait.is_none() {
                    self.wait = Some(outcome);
                }
            },
        }
    }

    /// Whether the report can be produced.
    pub fn is_complete(&self) -> (done: bool)
        ensures
            done == complete(self@),
    {
        !self.watching && !(self.target.wait_owed && self.wait.is_none())
    }

    /// The identifier of the watched process.
    pub fn pid(&self) -> (pid: crate::target::ProcessId)
        ensures
            pid@ == self@.pid,
    {
        self.target.pid
    }

    /// The libraries reported so far.
    pub fn inventory(&self) -> (inventory: &LibraryInventory)
        ensures
            inventory.paths() == self@.paths,
            inventory@ == self@.paths.to_set(),
    {
        &self.inventory
    }

    /// How the wait ended, if one was owed and has ended.
    pub fn wait_outcome(&self) -> (outcome: Option<&WaitOutcome>)
        ensures
            match outcome {
                Some(o) => self@.wait == WaitModel::Done(o.exited(), o.text()),
                None => !(self@.wait is Done),
            },
    {
        if self.target.wait_owed {
            self.wait.as_ref()
        } else {
            None
        }
    }
}

/// No event loses a library or makes the inventory name one twice, and an
/// observation adds exactly what it reports.
pub proof fn lemma_handle_keeps_inventory(m: SessionModel, event: SessionEvent)
    requires
        m.paths.no_duplicates(),
    ensures
        handle_spec(m, event).paths.no_duplicates(),
        m.paths.to_set().subset_of(handle_spec(m, event).paths.to_set()),
        event matches SessionEvent::Observed(libraries) ==> handle_spec(m, event).paths.to_set()
            == m.paths.to_set().union(libraries@),
        !(event is Observed) ==> handle_spec(m, event).paths == m.paths,
{
    if let SessionEvent::Observed(libraries) = event {
        lemma_with_paths(m.paths, libraries.paths());
    }
}

/// Two events may arrive in either order: the inventory, as a set, comes out
/// the same, and so does whether the session is complete.
pub proof fn lemma_handle_commutes(m: SessionModel, first: SessionEvent, second: SessionEvent)
    requires
        m.paths.no_duplicates(),
    ensures
        ({
            let one = handle_spec(handle_spec(m, first), second);
            let other = handle_spec(handle_spec(m, second), first);
            &&& one.paths.to_set() == other.paths.to_set()
            &&& one.watching == other.watching
            &&& complete(one) == complete(other)
        }),
{
    let one = handle_spec(handle_spec(m, first), second);
    let other = handle_spec(handle_spec(m, second), first);
    lemma_handle_keeps_inventory(m, first);
    lemma_handle_keeps_inventory(m, second);
    lemma_handle_keeps_inventory(handle_spec(m, first), second);
    lemma_handle_keeps_inventory(handle_spec(m, second), first);
    assert(one.paths.to_set() =~= other.paths.to_set());
}

/// Whatever the events and their order, the inventory is what the session
/// started with and everything that was reported as observed: nothing is
/// lost, nothing else appears, and no path is named twice.
pub proof fn lemma_replay_accumulates(m: SessionModel, events: Seq<SessionEvent>)
    requires
        m.paths.no_duplicates(),
    ensures
        replay(m, events).paths.no_duplicates(),
        replay(m, events).paths.to_set() == m.paths.to_set().union(observed(events)),
    decreases events.len(),
{
    if events.len() == 0 {
        assert(observed(events) =~= Set::empty());
        assert(m.paths.to_set().union(observed(events)) =~= m.paths.to_set());
    } else {
        let front = events.drop_last();
        let last = events.last();
        lemma_replay_accumulates(m, front);
        lemma_handle_keeps_inventory(replay(m, front), last);
        let added: Set<Seq<char>> = match last {
            SessionEvent::Observed(libraries) => libraries@,
            _ => Set::empty(),
        };
        assert forall|p: Seq<char>| observed(events).contains(p) == observed(front).union(
            added,
        ).contains(p) by {
            if observed(events).contains(p) {
                let i = choose|i: int|
                    0 <= i < events.len() && #[trigger] reports(events[i], p);
                if i < front.len() {
                    assert(reports(front[i], p));
                }
            }
            if observed(front).contains(p) {
                let i = choose|i: int|
                    0 <= i < front.len() && #[trigger] reports(front[i], p);
                assert(reports(events[i], p));
            }
            if added.contains(p) {
                assert(reports(events[events.len() - 1], p));
            }
        }
        assert(observed(events) =~= observed(front).union(added));
        assert(replay(m, events).paths.to_set() =~= m.paths.to_set().union(observed(events)));
    }
}

/// Two sequences that hold the same events, in whatever order, leave the
/// same set of libraries.
pub proof fn lemma_replay_order_free(
    m: SessionModel,
    events: Seq<SessionEvent>,
    reordered: Seq<SessionEvent>,
)
    requires
        m.paths.no_duplicates(),
        events.to_multiset() == reordered.to_multiset(),
    ensures
        replay(m, events).paths.to_set() == replay(m, reordered).paths.to_set(),
{
    lemma_replay_accumulates(m, events);
    lemma_replay_accumulates(m, reordered);
    events.to_multiset_ensures();
    reordered.to_multiset_ensures();
    assert forall|p: Seq<char>| observed(events).contains(p) == observed(reordered).contains(
        p,
    ) by {
        if observed(events).contains(p) {
            let i = choose|i: int|
                0 <= i < events.len() && #[trigger] reports(events[i], p);
            assert(events.contains(events[i]));
            assert(reordered.to_multiset().count(events[i]) > 0);
            assert(reordered.contains(events[i]));
            let j = choose|j: int| 0 <= j < reordered.len() && reordered[j] == events[i];
            assert(reports(reordered[j], p));
        }
        if observed(reordered).contains(p) {
            let i = choose|i: int|
                0 <= i < reordered.len() && #[trigger] reports(reordered[i], p);
            assert(reordered.contains(reordered[i]));
            assert(events.to_multiset().count(reordered[i]) > 0);
            assert(events.contains(reordered[i]));
            let j = choose|j: int| 0 <= j < events.len() && events[j] == reordered[i];
            assert(reports(events[j], p));
        }
    }
    assert(observed(events) =~= observed(reordered));
}

} // verus!
