//! Holds the vertices that cannot be added to the state yet, and says when they can.
//!
//! A vertex waits in one of three places: in the queue of vertices to be tried next; under the
//! dependency that it misses; or, if it is dated in the future, under its timestamp.

use vstd::prelude::*;
use crate::marked::{lemma_marked_parts, marked, split_marked, unmarked};
use crate::message::{message_bytes, HighwayMessage, MessageView};
use crate::outcome::{outcomes_are, ActionId, OutcomeView, ProtocolOutcome};
use crate::state::{State, StateView};
use crate::time::{TimeDiff, Timestamp};
use crate::vertex::{Dependency, NodeId, Vertex};

verus! {

/// The action of adding a vertex from the queue of vertices to be tried.
pub const ACTION_ID_VERTEX: u8 = 0;

/// A vertex that waits to be added, with the peer that sent it.
#[derive(Debug)]
pub struct PendingVertex {
    pub sender: NodeId,
    pub vertex: Vertex,
    pub time_received: Timestamp,
}

/// The waiting vertices, place by place.
pub struct Queues {
    /// The vertices to be tried next, first come first.
    pub to_add: Seq<PendingVertex>,
    /// The vertices that miss something, each with what it misses.
    pub deps: Seq<(Dependency, PendingVertex)>,
    /// The vertices from the future, each with its timestamp.
    pub later: Seq<(Timestamp, PendingVertex)>,
    pub timeout: TimeDiff,
}

/// The vertices of a list of waiting vertices.
pub open spec fn waiting_on(s: Seq<(Dependency, PendingVertex)>) -> Seq<PendingVertex> {
    Seq::new(s.len(), |i: int| s[i].1)
}

/// The vertices of a list of vertices from the future.
pub open spec fn stored_in(s: Seq<(Timestamp, PendingVertex)>) -> Seq<PendingVertex> {
    Seq::new(s.len(), |i: int| s[i].1)
}

/// One queued action for each vertex of a list.
pub open spec fn queue_actions(n: nat) -> Seq<OutcomeView> {
    Seq::new(n, |i: int| OutcomeView::QueueAction(ActionId(ACTION_ID_VERTEX)))
}

/// The senders of a list of waiting vertices that are not among `senders` yet, added to it in
/// their order.
pub open spec fn with_senders(senders: Seq<NodeId>, gone: Seq<(Dependency, PendingVertex)>) -> Seq<
    NodeId,
>
    decreases gone.len(),
{
    if gone.len() == 0 {
        senders
    } else {
        let before = with_senders(senders, gone.drop_last());
        if before.contains(gone.last().1.sender) {
            before
        } else {
            before.push(gone.last().1.sender)
        }
    }
}

/// The identities of a list of waiting vertices.
pub open spec fn ids_of(gone: Seq<(Dependency, PendingVertex)>) -> Seq<Dependency> {
    Seq::new(gone.len(), |i: int| gone[i].1.vertex@.id())
}

/// Which waiting vertices miss the given dependency.
pub open spec fn waits_for(deps: Seq<(Dependency, PendingVertex)>, dependency: Dependency) -> Seq<
    bool,
> {
    Seq::new(deps.len(), |i: int| deps[i].0 == dependency)
}

/// What is left of the waiting vertices, and who sent the others, after every vertex was
/// dropped that misses one of the identities in `work`, or misses a vertex that was dropped.
pub open spec fn dropped(
    deps: Seq<(Dependency, PendingVertex)>,
    work: Seq<Dependency>,
    senders: Seq<NodeId>,
) -> (Seq<(Dependency, PendingVertex)>, Seq<NodeId>)
    decreases deps.len(), work.len(),
{
    if work.len() == 0 {
        (deps, senders)
    } else {
        let marks = waits_for(deps, work[0]);
        let gone = marked(deps, marks);
        let left = unmarked(deps, marks);
        proof {
            lemma_marked_parts(deps, marks);
        }
        dropped(left, work.skip(1) + ids_of(gone), with_senders(senders, gone))
    }
}

impl Queues {
    /// Whether some vertex waits for the dependency.
    pub open spec fn is_dependency(self, dependency: Dependency) -> bool {
        exists|i: int| 0 <= i < self.deps.len() && (#[trigger] self.deps[i]).0 == dependency
    }

    /// Whether a vertex with the given identity waits in some place.
    pub open spec fn holds(self, id: Dependency) -> bool {
        ||| exists|i: int| 0 <= i < self.to_add.len() && (#[trigger] self.to_add[i]).vertex@.id() == id
        ||| exists|i: int| 0 <= i < self.deps.len() && (#[trigger] self.deps[i]).1.vertex@.id() == id
        ||| exists|i: int| 0 <= i < self.later.len() && (#[trigger] self.later[i]).1.vertex@.id() == id
    }

    pub open spec fn is_empty(self) -> bool {
        self.to_add.len() == 0 && self.deps.len() == 0 && self.later.len() == 0
    }

    /// Which vertices from the future are due at `now`.
    pub open spec fn due(self, now: Timestamp) -> Seq<bool> {
        Seq::new(self.later.len(), |i: int| self.later[i].0.0 <= now.0)
    }

    /// The queues after the vertices that are due at `now` were moved to the vertices to be
    /// tried.
    pub open spec fn past_due_added(self, now: Timestamp) -> Self {
        Queues {
            to_add: self.to_add + stored_in(marked(self.later, self.due(now))),
            later: unmarked(self.later, self.due(now)),
            ..self
        }
    }

    /// Which waiting vertices miss something that the state has by now.
    pub open spec fn satisfied(self, state: StateView) -> Seq<bool> {
        Seq::new(self.deps.len(), |i: int| state.has_dependency(self.deps[i].0))
    }

    /// The queues after the vertices whose dependency is in the state were moved to the
    /// vertices to be tried.
    pub open spec fn satisfied_removed(self, state: StateView) -> Self {
        Queues {
            to_add: self.to_add + waiting_on(marked(self.deps, self.satisfied(state))),
            deps: unmarked(self.deps, self.satisfied(state)),
            ..self
        }
    }

    /// Whether a vertex that came at `time_received` has waited too long at `now`.
    pub open spec fn is_stale(self, time_received: Timestamp, now: Timestamp) -> bool {
        time_received.plus(self.timeout).0 < now.0
    }

    /// The queues after the vertices that have waited too long at `now` were dropped.
    pub open spec fn purged(self, now: Timestamp) -> Self {
        Queues {
            to_add: unmarked(
                self.to_add,
                Seq::new(
                    self.to_add.len(),
                    |i: int| self.is_stale(self.to_add[i].time_received, now),
                ),
            ),
            deps: unmarked(
                self.deps,
                Seq::new(
                    self.deps.len(),
                    |i: int| self.is_stale(self.deps[i].1.time_received, now),
                ),
            ),
            later: unmarked(
                self.later,
                Seq::new(
                    self.later.len(),
                    |i: int| self.is_stale(self.later[i].1.time_received, now),
                ),
            ),
            ..self
        }
    }

    /// The queues after everything but evidence was dropped.
    pub open spec fn evidence_only(self) -> Self {
        Queues {
            to_add: unmarked(
                self.to_add,
                Seq::new(self.to_add.len(), |i: int| !(self.to_add[i].vertex@ is Evidence)),
            ),
            deps: unmarked(
                self.deps,
                Seq::new(self.deps.len(), |i: int| !(self.deps[i].1.vertex@ is Evidence)),
            ),
            later: unmarked(
                self.later,
                Seq::new(self.later.len(), |i: int| !(self.later[i].1.vertex@ is Evidence)),
            ),
            ..self
        }
    }

    /// The request for a dependency that a vertex misses: it goes to the sender of the vertex,
    /// unless the dependency is waited for already or waits here itself.
    pub open spec fn request_for(self, dependency: Dependency, sender: NodeId) -> Seq<OutcomeView> {
        if self.is_dependency(dependency) || self.holds(dependency) {
            Seq::empty()
        } else {
            seq![
                OutcomeView::CreatedTargetedMessage(
                    message_bytes(MessageView::RequestDependency(dependency)),
                    sender,
                ),
            ]
        }
    }

    /// The queues, the vertex to add and the requests after the next vertex was looked for
    /// that can be added to the state. The vertices to be tried are taken first come first. One
    /// that the state has is dropped. One that misses something waits for it from then on, and
    /// what it misses is requested. The first one that misses nothing is the vertex to add.
    pub open spec fn popped(self, state: StateView) -> (Self, Option<PendingVertex>, Seq<OutcomeView>)
        decreases self.to_add.len(),
    {
        if self.to_add.len() == 0 {
            (self, None, Seq::empty())
        } else {
            let first = self.to_add[0];
            let rest = Queues { to_add: self.to_add.skip(1), ..self };
            if state.has_vertex(first.vertex@) {
                rest.popped(state)
            } else {
                match state.missing_dependency(first.vertex@) {
                    None => (rest, Some(first), Seq::empty()),
                    Some(dependency) => {
                        let request = rest.request_for(dependency, first.sender);
                        let waiting = Queues { deps: rest.deps.push((dependency, first)), ..rest };
                        let (after, found, more) = waiting.popped(state);
                        (after, found, request + more)
                    },
                }
            }
        }
    }

    /// The queues and the senders after the vertices were dropped that depend on one of the
    /// given identities.
    pub open spec fn dependents_dropped(self, ids: Seq<Dependency>) -> (Self, Seq<NodeId>) {
        let (left, senders) = dropped(self.deps, ids, Seq::empty());
        (Queues { deps: left, ..self }, senders)
    }
}

} // verus!

verus! {

/// The queue of vertices that wait to be added.
#[derive(Debug)]
pub struct Synchronizer {
    /// The vertices that miss something, each with what it misses.
    pub vertex_deps: Vec<(Dependency, PendingVertex)>,
    /// The vertices from the future, each with its timestamp.
    pub vertices_to_be_added_later: Vec<(Timestamp, PendingVertex)>,
    /// The vertices to be tried next, first come first.
    pub vertices_to_be_added: Vec<PendingVertex>,
    /// How long a vertex may wait.
    pub pending_vertex_timeout: TimeDiff,
}

impl View for Synchronizer {
    type V = Queues;

    open spec fn view(&self) -> Queues {
        Queues {
            to_add: self.vertices_to_be_added@,
            deps: self.vertex_deps@,
            later: self.vertices_to_be_added_later@,
            timeout: self.pending_vertex_timeout,
        }
    }
}

/// Moves the vertices of a list to the end of another.
fn append_waiting(to: &mut Vec<PendingVertex>, from: Vec<(Dependency, PendingVertex)>)
    ensures
        final(to)@ == old(to)@ + waiting_on(from@),
{
    let ghost before = to@;
    let ghost all = from@;
    let mut from = from;
    let ghost mut k: int = 0;
    proof {
        assert(before + waiting_on(all.take(0)) =~= before);
        assert(all.skip(0) =~= all);
    }
    while from.len() > 0
        invariant
            0 <= k <= all.len(),
            from@ == all.skip(k),
            to@ == before + waiting_on(all.take(k)),
        decreases from@.len(),
    {
        let entry = from.remove(0);
        proof {
            assert(entry == all[k]);
            assert(all.skip(k).remove(0) =~= all.skip(k + 1));
            assert(waiting_on(all.take(k + 1)) =~= waiting_on(all.take(k)).push(entry.1));
        }
        to.push(entry.1);
        proof {
            k = k + 1;
            assert(to@ =~= before + waiting_on(all.take(k)));
        }
    }
    proof {
        assert(all.take(k) =~= all);
    }
}

/// Moves the vertices of a list of vertices from the future to the end of another list.
fn append_stored(to: &mut Vec<PendingVertex>, from: Vec<(Timestamp, PendingVertex)>)
    ensures
        final(to)@ == old(to)@ + stored_in(from@),
{
    let ghost before = to@;
    let ghost all = from@;
    let mut from = from;
    let ghost mut k: int = 0;
    proof {
        assert(before + stored_in(all.take(0)) =~= before);
        assert(all.skip(0) =~= all);
    }
    while from.len() > 0
        invariant
            0 <= k <= all.len(),
            from@ == all.skip(k),
            to@ == before + stored_in(all.take(k)),
        decreases from@.len(),
    {
        let entry = from.remove(0);
        proof {
            assert(entry == all[k]);
            assert(all.skip(k).remove(0) =~= all.skip(k + 1));
            assert(stored_in(all.take(k + 1)) =~= stored_in(all.take(k)).push(entry.1));
        }
        to.push(entry.1);
        proof {
            k = k + 1;
            assert(to@ =~= before + stored_in(all.take(k)));
        }
    }
    proof {
        assert(all.take(k) =~= all);
    }
}

/// As many queued actions as asked for.
fn queue_action_outcomes(n: usize) -> (r: Vec<ProtocolOutcome>)
    ensures
        outcomes_are(r@, queue_actions(n as nat)),
{
    let mut outcomes: Vec<ProtocolOutcome> = Vec::new();
    while outcomes.len() < n
        invariant
            outcomes@.len() <= n,
            forall|i: int|
                0 <= i < outcomes@.len() ==> (#[trigger] outcomes@[i])@ == OutcomeView::QueueAction(
                    ActionId(ACTION_ID_VERTEX),
                ),
        decreases n - outcomes@.len(),
    {
        outcomes.push(ProtocolOutcome::QueueAction(ActionId(ACTION_ID_VERTEX)));
    }
    outcomes
}

impl Synchronizer {
    /// A synchronizer with nothing waiting.
    pub fn new(pending_vertex_timeout: TimeDiff) -> (r: Self)
        ensures
            r@.is_empty(),
            r@.timeout == pending_vertex_timeout,
    {
        Synchronizer {
            vertex_deps: Vec::new(),
            vertices_to_be_added_later: Vec::new(),
            vertices_to_be_added: Vec::new(),
            pending_vertex_timeout,
        }
    }

    pub fn is_empty(&self) -> (r: bool)
        ensures
            r == self@.is_empty(),
    {
        self.vertex_deps.len() == 0 && self.vertices_to_be_added_later.len() == 0
            && self.vertices_to_be_added.len() == 0
    }

    pub fn pending_vertex_timeout(&self) -> (r: TimeDiff)
        ensures
            r == self@.timeout,
    {
        self.pending_vertex_timeout
    }

    /// Whether some vertex waits for the dependency.
    pub fn is_dependency(&self, dependency: &Dependency) -> (r: bool)
        ensures
            r == self@.is_dependency(*dependency),
    {
        let mut i: usize = 0;
        while i < self.vertex_deps.len()
            invariant
                i <= self.vertex_deps@.len(),
                forall|j: int| 0 <= j < i ==> (#[trigger] self.vertex_deps@[j]).0 != *dependency,
            decreases self.vertex_deps@.len() - i,
        {
            if self.vertex_deps[i].0 == *dependency {
                assert(self@.deps[i as int].0 == *dependency);
                return true;
            }
            i = i + 1;
        }
        false
    }

    /// Whether a vertex with the given identity waits in some place.
    pub fn holds(&self, id: &Dependency) -> (r: bool)
        ensures
            r == self@.holds(*id),
    {
        let mut i: usize = 0;
        while i < self.vertices_to_be_added.len()
            invariant
                i <= self.vertices_to_be_added@.len(),
                forall|j: int|
                    0 <= j < i ==> (#[trigger] self.vertices_to_be_added@[j]).vertex@.id() != *id,
            decreases self.vertices_to_be_added@.len() - i,
        {
            if self.vertices_to_be_added[i].vertex.id() == *id {
                return true;
            }
            i = i + 1;
        }
        let mut j: usize = 0;
        while j < self.vertex_deps.len()
            invariant
                j <= self.vertex_deps@.len(),
                forall|k: int|
                    0 <= k < self.vertices_to_be_added@.len() ==> (
                    #[trigger] self.vertices_to_be_added@[k]).vertex@.id() != *id,
                forall|k: int|
                    0 <= k < j ==> (#[trigger] self.vertex_deps@[k]).1.vertex@.id() != *id,
            decreases self.vertex_deps@.len() - j,
        {
            if self.vertex_deps[j].1.vertex.id() == *id {
                return true;
            }
            j = j + 1;
        }
        let mut m: usize = 0;
        while m < self.vertices_to_be_added_later.len()
            invariant
                m <= self.vertices_to_be_added_later@.len(),
                forall|k: int|
                    0 <= k < self.vertices_to_be_added@.len() ==> (
                    #[trigger] self.vertices_to_be_added@[k]).vertex@.id() != *id,
                forall|k: int|
                    0 <= k < self.vertex_deps@.len() ==> (
                    #[trigger] self.vertex_deps@[k]).1.vertex@.id() != *id,
                forall|k: int|
                    0 <= k < m ==> (#[trigger] self.vertices_to_be_added_later@[k]).1.vertex@.id()
                        != *id,
            decreases self.vertices_to_be_added_later@.len() - m,
        {
            if self.vertices_to_be_added_later[m].1.vertex.id() == *id {
                return true;
            }
            m = m + 1;
        }
        false
    }

    /// Puts a vertex at the end of the vertices to be tried, and asks to be called back for
    /// adding it.
    pub fn schedule_add_vertex(&mut self, sender: NodeId, vertex: Vertex, now: Timestamp) -> (r:
        Vec<ProtocolOutcome>)
        ensures
            final(self)@ == (Queues {
                to_add: old(self)@.to_add.push(
                    PendingVertex { sender, vertex, time_received: now },
                ),
                ..old(self)@
            }),
            outcomes_are(r@, queue_actions(1)),
    {
        self.vertices_to_be_added.push(PendingVertex { sender, vertex, time_received: now });
        queue_action_outcomes(1)
    }

    /// Keeps a vertex that is dated in the future until its time has come.
    pub fn store_vertex_for_addition_later(
        &mut self,
        future_timestamp: Timestamp,
        now: Timestamp,
        sender: NodeId,
        vertex: Vertex,
    )
        ensures
            final(self)@ == (Queues {
                later: old(self)@.later.push(
                    (future_timestamp, PendingVertex { sender, vertex, time_received: now }),
                ),
                ..old(self)@
            }),
    {
        self.vertices_to_be_added_later.push(
            (future_timestamp, PendingVertex { sender, vertex, time_received: now }),
        );
    }

    /// Moves the vertices whose time has come at `now` to the vertices to be tried, and asks
    /// to be called back once for each.
    pub fn add_past_due_stored_vertices(&mut self, now: Timestamp) -> (r: Vec<ProtocolOutcome>)
        ensures
            final(self)@ == old(self)@.past_due_added(now),
            outcomes_are(r@, queue_actions(marked(old(self)@.later, old(self)@.due(now)).len())),
    {
        let mut marks: Vec<bool> = Vec::new();
        let mut i: usize = 0;
        while i < self.vertices_to_be_added_later.len()
            invariant
                i <= self.vertices_to_be_added_later@.len(),
                marks@.len() == i,
                forall|j: int|
                    0 <= j < i ==> marks@[j] == (self.vertices_to_be_added_later@[j].0.0 <= now.0),
            decreases self.vertices_to_be_added_later@.len() - i,
        {
            marks.push(self.vertices_to_be_added_later[i].0.0 <= now.0);
            i = i + 1;
        }
        proof {
            assert(marks@ =~= self@.due(now));
        }
        let due = split_marked(&mut self.vertices_to_be_added_later, &marks);
        let count = due.len();
        append_stored(&mut self.vertices_to_be_added, due);
        queue_action_outcomes(count)
    }

    /// Moves the vertices whose dependency is in the state by now to the vertices to be
    /// tried, and asks to be called back once for each.
    pub fn remove_satisfied_deps(&mut self, state: &State) -> (r: Vec<ProtocolOutcome>)
        ensures
            final(self)@ == old(self)@.satisfied_removed(state@),
            outcomes_are(
                r@,
                queue_actions(marked(old(self)@.deps, old(self)@.satisfied(state@)).len()),
            ),
    {
        let mut marks: Vec<bool> = Vec::new();
        let mut i: usize = 0;
        while i < self.vertex_deps.len()
            invariant
                i <= self.vertex_deps@.len(),
                marks@.len() == i,
                forall|j: int|
                    0 <= j < i ==> marks@[j] == state@.has_dependency(self.vertex_deps@[j].0),
            decreases self.vertex_deps@.len() - i,
        {
            marks.push(state.has_dependency(&self.vertex_deps[i].0));
            i = i + 1;
        }
        proof {
            assert(marks@ =~= self@.satisfied(state@));
        }
        let satisfied = split_marked(&mut self.vertex_deps, &marks);
        let count = satisfied.len();
        append_waiting(&mut self.vertices_to_be_added, satisfied);
        queue_action_outcomes(count)
    }

    /// Whether a vertex that came at `time_received` has waited too long at `now`.
    fn is_stale(&self, time_received: Timestamp, now: Timestamp) -> (r: bool)
        ensures
            r == self@.is_stale(time_received, now),
    {
        time_received.saturating_add(self.pending_vertex_timeout).0 < now.0
    }

    /// Drops the vertices that have waited longer than the timeout at `now`.
    pub fn purge_vertices(&mut self, now: Timestamp)
        ensures
            final(self)@ == old(self)@.purged(now),
    {
        let ghost before = self@;
        let mut marks: Vec<bool> = Vec::new();
        let mut i: usize = 0;
        while i < self.vertices_to_be_added.len()
            invariant
                i <= self.vertices_to_be_added@.len(),
                marks@.len() == i,
                self@ == before,
                forall|j: int|
                    0 <= j < i ==> marks@[j] == before.is_stale(
                        before.to_add[j].time_received,
                        now,
                    ),
            decreases self.vertices_to_be_added@.len() - i,
        {
            marks.push(self.is_stale(self.vertices_to_be_added[i].time_received, now));
            i = i + 1;
        }
        proof {
            assert(marks@ =~= Seq::new(
                before.to_add.len(),
                |i: int| before.is_stale(before.to_add[i].time_received, now),
            ));
        }
        let _ = split_marked(&mut self.vertices_to_be_added, &marks);
        let mut marks: Vec<bool> = Vec::new();
        let mut i: usize = 0;
        while i < self.vertex_deps.len()
            invariant
                i <= self.vertex_deps@.len(),
                marks@.len() == i,
                self@.deps == before.deps,
                self@.timeout == before.timeout,
                forall|j: int|
                    0 <= j < i ==> marks@[j] == before.is_stale(
                        before.deps[j].1.time_received,
                        now,
                    ),
            decreases self.vertex_deps@.len() - i,
        {
            marks.push(self.is_stale(self.vertex_deps[i].1.time_received, now));
            i = i + 1;
        }
        proof {
            assert(marks@ =~= Seq::new(
                before.deps.len(),
                |i: int| before.is_stale(before.deps[i].1.time_received, now),
            ));
        }
        let _ = split_marked(&mut self.vertex_deps, &marks);
        let mut marks: Vec<bool> = Vec::new();
        let mut i: usize = 0;
        while i < self.vertices_to_be_added_later.len()
            invariant
                i <= self.vertices_to_be_added_later@.len(),
                marks@.len() == i,
                self@.later == before.later,
                self@.timeout == before.timeout,
                forall|j: int|
                    0 <= j < i ==> marks@[j] == before.is_stale(
                        before.later[j].1.time_received,
                        now,
                    ),
            decreases self.vertices_to_be_added_later@.len() - i,
        {
            marks.push(self.is_stale(self.vertices_to_be_added_later[i].1.time_received, now));
            i = i + 1;
        }
        proof {
            assert(marks@ =~= Seq::new(
                before.later.len(),
                |i: int| before.is_stale(before.later[i].1.time_received, now),
            ));
        }
        let _ = split_marked(&mut self.vertices_to_be_added_later, &marks);
    }

    /// Drops every vertex that is no evidence.
    pub fn retain_evidence_only(&mut self)
        ensures
            final(self)@ == old(self)@.evidence_only(),
    {
        let ghost before = self@;
        let mut marks: Vec<bool> = Vec::new();
        let mut i: usize = 0;
        while i < self.vertices_to_be_added.len()
            invariant
                i <= self.vertices_to_be_added@.len(),
                marks@.len() == i,
                self@ == before,
                forall|j: int| 0 <= j < i ==> marks@[j] == !(before.to_add[j].vertex@ is Evidence),
            decreases self.vertices_to_be_added@.len() - i,
        {
            marks.push(!self.vertices_to_be_added[i].vertex.is_evidence());
            i = i + 1;
        }
        proof {
            assert(marks@ =~= Seq::new(
                before.to_add.len(),
                |i: int| !(before.to_add[i].vertex@ is Evidence),
            ));
        }
        let _ = split_marked(&mut self.vertices_to_be_added, &marks);
        let mut marks: Vec<bool> = Vec::new();
        let mut i: usize = 0;
        while i < self.vertex_deps.len()
            invariant
                i <= self.vertex_deps@.len(),
                marks@.len() == i,
                self@.deps == before.deps,
                forall|j: int| 0 <= j < i ==> marks@[j] == !(before.deps[j].1.vertex@ is Evidence),
            decreases self.vertex_deps@.len() - i,
        {
            marks.push(!self.vertex_deps[i].1.vertex.is_evidence());
            i = i + 1;
        }
        proof {
            assert(marks@ =~= Seq::new(
                before.deps.len(),
                |i: int| !(before.deps[i].1.vertex@ is Evidence),
            ));
        }
        let _ = split_marked(&mut self.vertex_deps, &marks);
        let mut marks: Vec<bool> = Vec::new();
        let mut i: usize = 0;
        while i < self.vertices_to_be_added_later.len()
            invariant
                i <= self.vertices_to_be_added_later@.len(),
                marks@.len() == i,
                self@.later == before.later,
                forall|j: int| 0 <= j < i ==> marks@[j] == !(before.later[j].1.vertex@ is Evidence),
            decreases self.vertices_to_be_added_later@.len() - i,
        {
            marks.push(!self.vertices_to_be_added_later[i].1.vertex.is_evidence());
            i = i + 1;
        }
        proof {
            assert(marks@ =~= Seq::new(
                before.later.len(),
                |i: int| !(before.later[i].1.vertex@ is Evidence),
            ));
        }
        let _ = split_marked(&mut self.vertices_to_be_added_later, &marks);
    }
}

} // verus!

verus! {

impl Synchronizer {
    /// Looks for the next vertex that can be added to the state; see `Queues::popped`.
    pub fn pop_vertex_to_add(&mut self, state: &State) -> (r: (
        Option<PendingVertex>,
        Vec<ProtocolOutcome>,
    ))
        ensures
            final(self)@ == old(self)@.popped(state@).0,
            r.0 == old(self)@.popped(state@).1,
            outcomes_are(r.1@, old(self)@.popped(state@).2),
    {
        let ghost target = self@.popped(state@);
        let mut outcomes: Vec<ProtocolOutcome> = Vec::new();
        let ghost mut done: Seq<OutcomeView> = Seq::empty();
        proof {
            assert(done + target.2 =~= target.2);
        }
        loop
            invariant
                outcomes_are(outcomes@, done),
                target == old(self)@.popped(state@),
                target.0 == self@.popped(state@).0,
                target.1 == self@.popped(state@).1,
                target.2 == done + self@.popped(state@).2,
            decreases self.vertices_to_be_added@.len(),
        {
            if self.vertices_to_be_added.len() == 0 {
                proof {
                    assert(done + Seq::<OutcomeView>::empty() =~= done);
                }
                return (None, outcomes);
            }
            let ghost current = self@;
            let first = self.vertices_to_be_added.remove(0);
            proof {
                assert(self@.to_add =~= current.to_add.skip(1));
                assert(first == current.to_add[0]);
                assert(self@ == (Queues { to_add: current.to_add.skip(1), ..current }));
            }
            if state.has_vertex(&first.vertex) {
                continue ;
            }
            match state.missing_dependency(&first.vertex) {
                None => {
                    proof {
                        assert(done + Seq::<OutcomeView>::empty() =~= done);
                    }
                    return (Some(first), outcomes);
                },
                Some(dependency) => {
                    let ghost rest = self@;
                    if !(self.is_dependency(&dependency) || self.holds(&dependency)) {
                        let bytes = HighwayMessage::RequestDependency(dependency).serialize();
                        let outcome = ProtocolOutcome::CreatedTargetedMessage(bytes, first.sender);
                        proof {
                            crate::outcome::lemma_outcomes_push(outcomes@, done, outcome);
                        }
                        outcomes.push(outcome);
                    }
                    proof {
                        let request = rest.request_for(dependency, first.sender);
                        let waiting = Queues { deps: rest.deps.push((dependency, first)), ..rest };
                        assert(target.2 =~= (done + request) + waiting.popped(state@).2);
                        if request.len() > 0 {
                            assert(done + request =~= done.push(request[0]));
                        } else {
                            assert(done + request =~= done);
                        }
                        done = done + request;
                    }
                    self.vertex_deps.push((dependency, first));
                },
            }
        }
    }

    /// Drops every vertex that waits for one of the given identities, and every vertex that
    /// waits for a dropped one, and so on. Returns the peers that sent a dropped vertex, each
    /// once.
    pub fn drop_dependent_vertices(&mut self, ids: Vec<Dependency>) -> (r: Vec<NodeId>)
        ensures
            final(self)@ == old(self)@.dependents_dropped(ids@).0,
            r@ == old(self)@.dependents_dropped(ids@).1,
    {
        let ghost target = dropped(self@.deps, ids@, Seq::empty());
        let ghost before = self@;
        let mut work = ids;
        let mut senders: Vec<NodeId> = Vec::new();
        while work.len() > 0
            invariant
                target == dropped(self@.deps, work@, senders@),
                self@.to_add == before.to_add,
                self@.later == before.later,
                self@.timeout == before.timeout,
            decreases self.vertex_deps@.len(), work@.len(),
        {
            let ghost deps = self@.deps;
            let ghost old_work = work@;
            let ghost old_senders = senders@;
            let dependency = work.remove(0);
            proof {
                assert(work@ =~= old_work.skip(1));
            }
            let mut marks: Vec<bool> = Vec::new();
            let mut i: usize = 0;
            while i < self.vertex_deps.len()
                invariant
                    i <= self.vertex_deps@.len(),
                    marks@.len() == i,
                    self@.deps == deps,
                    self@.to_add == before.to_add,
                    self@.later == before.later,
                    self@.timeout == before.timeout,
                    forall|j: int| 0 <= j < i ==> marks@[j] == (deps[j].0 == dependency),
                decreases self.vertex_deps@.len() - i,
            {
                marks.push(self.vertex_deps[i].0 == dependency);
                i = i + 1;
            }
            proof {
                assert(marks@ =~= waits_for(deps, dependency));
                lemma_marked_parts(deps, marks@);
            }
            let gone = split_marked(&mut self.vertex_deps, &marks);
            let mut k: usize = 0;
            proof {
                assert(gone@.take(0) =~= Seq::empty());
                assert(old_work.skip(1) + ids_of(gone@.take(0)) =~= old_work.skip(1));
            }
            while k < gone.len()
                invariant
                    k <= gone@.len(),
                    work@ == old_work.skip(1) + ids_of(gone@.take(k as int)),
                    senders@ == with_senders(old_senders, gone@.take(k as int)),
                decreases gone@.len() - k,
            {
                proof {
                    assert(gone@.take(k + 1).drop_last() =~= gone@.take(k as int));
                    assert(ids_of(gone@.take(k + 1)) =~= ids_of(gone@.take(k as int)).push(
                        gone@[k as int].1.vertex@.id(),
                    ));
                }
                work.push(gone[k].1.vertex.id());
                if !crate::keyed::contains_u64(&senders, gone[k].1.sender) {
                    senders.push(gone[k].1.sender);
                }
                proof {
                    assert(work@ =~= old_work.skip(1) + ids_of(gone@.take(k + 1)));
                }
                k = k + 1;
            }
            proof {
                assert(gone@.take(k as int) =~= gone@);
            }
        }
        senders
    }
}

} // verus!

verus! {

/// After the dependents were dropped, whatever still waits was waiting before, waits for none
/// of the given identities, and waits for no vertex that was dropped.
pub proof fn lemma_dropped_is_closed(
    deps: Seq<(Dependency, PendingVertex)>,
    work: Seq<Dependency>,
    senders: Seq<NodeId>,
)
    ensures
        ({
            let left = dropped(deps, work, senders).0;
            &&& forall|i: int| 0 <= i < left.len() ==> deps.contains(#[trigger] left[i])
            &&& forall|i: int, j: int|
                0 <= i < left.len() && 0 <= j < work.len() ==> (#[trigger] left[i]).0
                    != #[trigger] work[j]
            &&& forall|i: int, j: int|
                0 <= i < left.len() && 0 <= j < deps.len() && !left.contains(#[trigger] deps[j])
                    ==> (#[trigger] left[i]).0 != deps[j].1.vertex@.id()
        }),
    decreases deps.len(), work.len(),
{
    if work.len() > 0 {
        let marks = waits_for(deps, work[0]);
        let gone = marked(deps, marks);
        let rest = unmarked(deps, marks);
        let more = work.skip(1) + ids_of(gone);
        lemma_marked_parts(deps, marks);
        crate::marked::lemma_marked_by_mark(deps, marks);
        lemma_dropped_is_closed(rest, more, with_senders(senders, gone));
        let left = dropped(deps, work, senders).0;
        assert(left == dropped(rest, more, with_senders(senders, gone)).0);
        assert forall|i: int| 0 <= i < left.len() implies deps.contains(#[trigger] left[i]) by {
            assert(rest.contains(left[i]));
            let k = choose|k: int| 0 <= k < rest.len() && rest[k] == left[i];
            assert(deps.contains(rest[k]));
        }
        assert forall|i: int, j: int| 0 <= i < left.len() && 0 <= j < work.len() implies (
        #[trigger] left[i]).0 != #[trigger] work[j] by {
            if j == 0 {
                assert(rest.contains(left[i]));
                let k = choose|k: int| 0 <= k < rest.len() && rest[k] == left[i];
                assert(crate::marked::has_with_mark(deps, marks, rest[k], false));
                let m = choose|m: int|
                    0 <= m < deps.len() && marks[m] == false && #[trigger] deps[m] == rest[k];
                assert(deps[m].0 != work[0]);
            } else {
                assert(more[j - 1] == work[j]);
            }
        }
        assert forall|i: int, j: int|
            0 <= i < left.len() && 0 <= j < deps.len() && !left.contains(
                #[trigger] deps[j],
            ) implies (#[trigger] left[i]).0 != deps[j].1.vertex@.id() by {
            if marks[j] {
                assert(gone.contains(deps[j]));
                let k = choose|k: int| 0 <= k < gone.len() && gone[k] == deps[j];
                assert(ids_of(gone)[k] == deps[j].1.vertex@.id());
                assert(more[work.len() - 1 + k] == deps[j].1.vertex@.id());
            } else {
                assert(rest.contains(deps[j]));
                let k = choose|k: int| 0 <= k < rest.len() && rest[k] == deps[j];
                assert(!left.contains(rest[k]));
            }
        }
    }
}

} // verus!
