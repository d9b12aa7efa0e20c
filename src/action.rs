use vstd::prelude::*;

use crate::goal::{allowed, cancelable, check_transition, terminal, ActionError, GoalStatus};

verus! {

/// The identifier that an action client picks for a goal.
#[derive(Clone, Copy, Debug, PartialEq, Eq, Structural)]
pub struct GoalId {
    pub value: u128,
}

/// A status update as broadcast on the status channel.
#[derive(Clone, Copy, Debug, PartialEq, Eq, Structural)]
pub struct GoalStatusMessage {
    pub goal_id: GoalId,
    pub status: GoalStatus,
}

/// A progress report as broadcast on the feedback channel.
#[derive(Debug)]
pub struct FeedbackMessage {
    pub goal_id: GoalId,
    pub payload: Vec<u8>,
}

/// The answer to a cancel request.
#[derive(Clone, Copy, Debug, PartialEq, Eq, Structural)]
pub enum CancelResponse {
    /// The goal moved to `Canceling`.
    Accepted,
    /// No goal with this identifier is known.
    UnknownGoal,
    /// The goal is known but not in a cancelable state.
    NotCancelable,
}

struct GoalEntry {
    id: GoalId,
    status: GoalStatus,
    result: Vec<u8>,
}

/// Whether some entry of `s` carries `id`.
spec fn has_in(s: Seq<GoalEntry>, id: GoalId) -> bool {
    exists|i: int| 0 <= i < s.len() && (#[trigger] s[i]).id == id
}

/// The entry of `s` that carries `id`, when there is one.
spec fn index_in(s: Seq<GoalEntry>, id: GoalId) -> int {
    choose|i: int| 0 <= i < s.len() && (#[trigger] s[i]).id == id
}

/// No two entries carry the same identifier.
spec fn unique_ids(s: Seq<GoalEntry>) -> bool {
    forall|i: int, j: int|
        0 <= i < s.len() && 0 <= j < s.len() && (#[trigger] s[i]).id == (#[trigger] s[j]).id ==> i == j
}

proof fn lemma_index_in(s: Seq<GoalEntry>, i: int)
    requires
        unique_ids(s),
        0 <= i < s.len(),
    ensures
        has_in(s, s[i].id),
        index_in(s, s[i].id) == i,
{
    assert(s[i].id == s[i].id);
}

/// The status of every goal, and the result recorded for it. A goal that
/// was never entered is `Unknown`, with an empty result.
pub struct GoalTable {
    entries: Vec<GoalEntry>,
}

impl GoalTable {
    pub closed spec fn wf(&self) -> bool {
        unique_ids(self.entries@)
    }

    /// Whether the goal was entered.
    pub closed spec fn has(&self, id: GoalId) -> bool {
        has_in(self.entries@, id)
    }

    pub closed spec fn status_of(&self, id: GoalId) -> GoalStatus {
        if self.has(id) {
            self.entries@[index_in(self.entries@, id)].status
        } else {
            GoalStatus::Unknown
        }
    }

    pub closed spec fn result_of(&self, id: GoalId) -> Seq<u8> {
        if self.has(id) {
            self.entries@[index_in(self.entries@, id)].result@
        } else {
            Seq::<u8>::empty()
        }
    }

    /// Two tables that agree on every goal.
    pub open spec fn same_goals(&self, other: &GoalTable) -> bool {
        forall|g: GoalId|
            #![auto]
            self.has(g) == other.has(g) && self.status_of(g) == other.status_of(g)
                && self.result_of(g) == other.result_of(g)
    }

    pub fn new() -> (r: GoalTable)
        ensures
            r.wf(),
            forall|g: GoalId| !r.has(g),
            forall|g: GoalId| r.status_of(g) == GoalStatus::Unknown,
            forall|g: GoalId| r.result_of(g) == Seq::<u8>::empty(),
    {
        GoalTable { entries: Vec::new() }
    }

    fn find(&self, id: GoalId) -> (r: Option<usize>)
        requires
            self.wf(),
        ensures
            r is None <==> !self.has(id),
            r is Some ==> r->0 < self.entries@.len() && self.entries@[r->0 as int].id == id
                && index_in(self.entries@, id) == r->0,
    {
        let mut i: usize = 0;
        while i < self.entries.len()
            invariant
                self.wf(),
                0 <= i <= self.entries@.len(),
                forall|j: int| 0 <= j < i ==> (#[trigger] self.entries@[j]).id != id,
            decreases self.entries@.len() - i,
        {
            if self.entries[i].id == id {
                proof {
                    lemma_index_in(self.entries@, i as int);
                }
                return Some(i);
            }
            i = i + 1;
        }
        None
    }

    pub fn status(&self, id: GoalId) -> (r: GoalStatus)
        requires
            self.wf(),
        ensures
            r == self.status_of(id),
    {
        match self.find(id) {
            Some(i) => self.entries[i].status,
            None => GoalStatus::Unknown,
        }
    }

    pub fn contains(&self, id: GoalId) -> (r: bool)
        requires
            self.wf(),
        ensures
            r == self.has(id),
    {
        self.find(id).is_some()
    }

    /// The recorded result of a goal that has reached a terminal state.
    pub fn result(&self, id: GoalId) -> (r: Result<Vec<u8>, ActionError>)
        requires
            self.wf(),
        ensures
            r is Err <==> !terminal(self.status_of(id)),
            r is Err ==> r == Err::<Vec<u8>, ActionError>(ActionError::GoalNotTerminal),
            r is Ok ==> r->Ok_0@ == self.result_of(id),
    {
        match self.find(id) {
            Some(i) => {
                if self.entries[i].status.is_terminal() {
                    let v = self.entries[i].result.clone();
                    assert(v@ =~= self.entries@[i as int].result@);
                    Ok(v)
                } else {
                    Err(ActionError::GoalNotTerminal)
                }
            },
            None => Err(ActionError::GoalNotTerminal),
        }
    }

    /// Applies one status update to one goal, entering the goal if it was
    /// absent; with a result given, records it too. An update that the
    /// lifecycle does not allow is refused and changes nothing.
    pub fn apply(&mut self, id: GoalId, to: GoalStatus, result: Option<Vec<u8>>) -> (r: Result<(), ActionError>)
        requires
            old(self).wf(),
        ensures
            final(self).wf(),
            r is Ok <==> allowed(old(self).status_of(id), to),
            r is Err ==> r == Err::<(), ActionError>(ActionError::ProtocolViolation),
            r is Err ==> final(self).same_goals(old(self)),
            r is Ok ==> final(self).has(id) && final(self).status_of(id) == to,
            r is Ok ==> final(self).result_of(id) == (match result {
                Some(v) => v@,
                None => old(self).result_of(id),
            }),
            forall|g: GoalId|
                #![auto]
                g != id ==> final(self).has(g) == old(self).has(g) && final(self).status_of(g)
                    == old(self).status_of(g) && final(self).result_of(g) == old(self).result_of(g),
    {
        let from = self.status(id);
        match check_transition(from, to) {
            Err(e) => {
                return Err(e);
            },
            Ok(()) => {},
        }
        let ghost before = self.entries@;
        match self.find(id) {
            Some(i) => {
                let old_entry = self.entries.remove(i);
                let kept = match result {
                    Some(v) => v,
                    None => old_entry.result,
                };
                self.entries.insert(i, GoalEntry { id, status: to, result: kept });
                assert(self.entries@ =~= before.update(i as int, self.entries@[i as int]));
                proof {
                    assert(unique_ids(self.entries@)) by {
                        assert forall|a: int, b: int|
                            0 <= a < self.entries@.len() && 0 <= b < self.entries@.len()
                                && (#[trigger] self.entries@[a]).id == (#[trigger] self.entries@[b]).id
                            implies a == b by {
                            assert(before[a].id == self.entries@[a].id);
                            assert(before[b].id == self.entries@[b].id);
                        }
                    }
                    lemma_index_in(self.entries@, i as int);
                    self.lemma_others_kept(before, id);
                }
            },
            None => {
                let kept = match result {
                    Some(v) => v,
                    None => Vec::new(),
                };
                self.entries.push(GoalEntry { id, status: to, result: kept });
                proof {
                    let n = before.len() as int;
                    assert(self.entries@ =~= before.push(self.entries@[n]));
                    assert(unique_ids(self.entries@)) by {
                        assert forall|a: int, b: int|
                            0 <= a < self.entries@.len() && 0 <= b < self.entries@.len()
                                && (#[trigger] self.entries@[a]).id == (#[trigger] self.entries@[b]).id
                            implies a == b by {
                            if a < n {
                                assert(before[a].id == self.entries@[a].id);
                            }
                            if b < n {
                                assert(before[b].id == self.entries@[b].id);
                            }
                        }
                    }
                    lemma_index_in(self.entries@, n);
                    self.lemma_others_kept(before, id);
                }
            },
        }
        Ok(())
    }

    /// Entries for identifiers other than `id` that sit at the same index in
    /// `before` and now read the same.
    proof fn lemma_others_kept(&self, before: Seq<GoalEntry>, id: GoalId)
        requires
            self.wf(),
            unique_ids(before),
            before.len() <= self.entries@.len(),
            forall|i: int| 0 <= i < before.len() && before[i].id != id ==> #[trigger] self.entries@[i] == before[i],
            forall|i: int| before.len() <= i < self.entries@.len() ==> (#[trigger] self.entries@[i]).id == id,
            forall|i: int| 0 <= i < before.len() && before[i].id == id ==> (#[trigger] self.entries@[i]).id == id,
        ensures
            forall|g: GoalId|
                #![auto]
                g != id ==> self.has(g) == has_in(before, g)
                    && (has_in(before, g) ==> self.entries@[index_in(self.entries@, g)] == before[index_in(before, g)]),
    {
        assert forall|g: GoalId|
            #![auto]
            g != id implies self.has(g) == has_in(before, g)
                && (has_in(before, g) ==> self.entries@[index_in(self.entries@, g)] == before[index_in(before, g)]) by {
            if has_in(before, g) {
                let j = index_in(before, g);
                assert(self.entries@[j] == before[j]);
                lemma_index_in(self.entries@, j);
            }
            if self.has(g) {
                let j = index_in(self.entries@, g);
                if j >= before.len() {
                    assert(self.entries@[j].id == id);
                } else if before[j].id == id {
                    assert(self.entries@[j].id == id);
                } else {
                    assert(self.entries@[j] == before[j]);
                }
            }
        }
    }
}

/// The server role of an action: it decides on goals, drives their
/// lifecycle and answers cancel and result requests.
pub struct ActionServer {
    goals: GoalTable,
}

impl ActionServer {
    pub closed spec fn wf(&self) -> bool {
        self.goals.wf()
    }

    pub closed spec fn table(&self) -> GoalTable {
        self.goals
    }

    pub open spec fn status_of(&self, id: GoalId) -> GoalStatus {
        self.table().status_of(id)
    }

    pub open spec fn result_of(&self, id: GoalId) -> Seq<u8> {
        self.table().result_of(id)
    }

    /// What a successful move of goal `id` to `to` leaves: that goal in
    /// state `to`, every other goal as it was.
    pub open spec fn moved(&self, before: &ActionServer, id: GoalId, to: GoalStatus) -> bool {
        &&& self.table().has(id)
        &&& self.status_of(id) == to
        &&& forall|g: GoalId|
            #![auto]
            g != id ==> self.table().has(g) == before.table().has(g) && self.status_of(g)
                == before.status_of(g) && self.result_of(g) == before.result_of(g)
    }

    pub fn new() -> (r: ActionServer)
        ensures
            r.wf(),
            forall|g: GoalId| !r.table().has(g),
            forall|g: GoalId| r.status_of(g) == GoalStatus::Unknown,
    {
        ActionServer { goals: GoalTable::new() }
    }

    pub fn status(&self, id: GoalId) -> (r: GoalStatus)
        requires
            self.wf(),
        ensures
            r == self.status_of(id),
    {
        self.goals.status(id)
    }

    fn transition(&mut self, id: GoalId, to: GoalStatus, result: Option<Vec<u8>>) -> (r: Result<GoalStatusMessage, ActionError>)
        requires
            old(self).wf(),
        ensures
            final(self).wf(),
            r is Ok <==> allowed(old(self).status_of(id), to),
            r is Ok ==> r->Ok_0 == (GoalStatusMessage { goal_id: id, status: to }),
            r is Ok ==> final(self).moved(old(self), id, to),
            r is Ok ==> final(self).result_of(id) == (match result {
                Some(v) => v@,
                None => old(self).result_of(id),
            }),
            r is Err ==> r == Err::<GoalStatusMessage, ActionError>(ActionError::ProtocolViolation),
            r is Err ==> final(self).table().same_goals(&old(self).table()),
    {
        match self.goals.apply(id, to, result) {
            Ok(()) => Ok(GoalStatusMessage { goal_id: id, status: to }),
            Err(e) => Err(e),
        }
    }

    /// Enters an inbound goal as `Accepted` when the application accepts it;
    /// a rejected goal never enters the table. Returns the status to broadcast.
    pub fn accept_goal(&mut self, id: GoalId, accept: bool) -> (r: Result<Option<GoalStatusMessage>, ActionError>)
        requires
            old(self).wf(),
        ensures
            final(self).wf(),
            !accept ==> r == Ok::<Option<GoalStatusMessage>, ActionError>(None) && *final(self) == *old(self),
            accept ==> (r is Ok <==> allowed(old(self).status_of(id), GoalStatus::Accepted)),
            accept && r is Ok ==> r->Ok_0 == Some(GoalStatusMessage { goal_id: id, status: GoalStatus::Accepted }),
            accept && r is Ok ==> final(self).moved(old(self), id, GoalStatus::Accepted),
            r is Err ==> r == Err::<Option<GoalStatusMessage>, ActionError>(ActionError::ProtocolViolation),
            r is Err ==> final(self).table().same_goals(&old(self).table()),
    {
        if !accept {
            return Ok(None);
        }
        match self.transition(id, GoalStatus::Accepted, None) {
            Ok(m) => Ok(Some(m)),
            Err(e) => Err(e),
        }
    }

    /// Moves a goal to `Executing`. Returns the status to broadcast.
    pub fn set_executing(&mut self, id: GoalId) -> (r: Result<GoalStatusMessage, ActionError>)
        requires
            old(self).wf(),
        ensures
            final(self).wf(),
            r is Ok <==> allowed(old(self).status_of(id), GoalStatus::Executing),
            r is Ok ==> r->Ok_0 == (GoalStatusMessage { goal_id: id, status: GoalStatus::Executing }),
            r is Ok ==> final(self).moved(old(self), id, GoalStatus::Executing),
            r is Ok ==> final(self).result_of(id) == old(self).result_of(id),
            r is Err ==> r == Err::<GoalStatusMessage, ActionError>(ActionError::ProtocolViolation),
            r is Err ==> final(self).table().same_goals(&old(self).table()),
    {
        self.transition(id, GoalStatus::Executing, None)
    }

    /// Moves a goal to `Succeeded` and records its result.
    pub fn set_succeeded(&mut self, id: GoalId, result: Vec<u8>) -> (r: Result<GoalStatusMessage, ActionError>)
        requires
            old(self).wf(),
        ensures
            final(self).wf(),
            r is Ok <==> allowed(old(self).status_of(id), GoalStatus::Succeeded),
            r is Ok ==> r->Ok_0 == (GoalStatusMessage { goal_id: id, status: GoalStatus::Succeeded }),
            r is Ok ==> final(self).moved(old(self), id, GoalStatus::Succeeded),
            r is Ok ==> final(self).result_of(id) == result@,
            r is Err ==> r == Err::<GoalStatusMessage, ActionError>(ActionError::ProtocolViolation),
            r is Err ==> final(self).table().same_goals(&old(self).table()),
    {
        self.transition(id, GoalStatus::Succeeded, Some(result))
    }

    /// Moves a goal to `Aborted` and records its result.
    pub fn set_aborted(&mut self, id: GoalId, result: Vec<u8>) -> (r: Result<GoalStatusMessage, ActionError>)
        requires
            old(self).wf(),
        ensures
            final(self).wf(),
            r is Ok <==> allowed(old(self).status_of(id), GoalStatus::Aborted),
            r is Ok ==> r->Ok_0 == (GoalStatusMessage { goal_id: id, status: GoalStatus::Aborted }),
            r is Ok ==> final(self).moved(old(self), id, GoalStatus::Aborted),
            r is Ok ==> final(self).result_of(id) == result@,
            r is Err ==> r == Err::<GoalStatusMessage, ActionError>(ActionError::ProtocolViolation),
            r is Err ==> final(self).table().same_goals(&old(self).table()),
    {
        self.transition(id, GoalStatus::Aborted, Some(result))
    }

    /// Moves a goal to `Canceled` and records its result.
    pub fn set_canceled(&mut self, id: GoalId, result: Vec<u8>) -> (r: Result<GoalStatusMessage, ActionError>)
        requires
            old(self).wf(),
        ensures
            final(self).wf(),
            r is Ok <==> allowed(old(self).status_of(id), GoalStatus::Canceled),
            r is Ok ==> r->Ok_0 == (GoalStatusMessage { goal_id: id, status: GoalStatus::Canceled }),
            r is Ok ==> final(self).moved(old(self), id, GoalStatus::Canceled),
            r is Ok ==> final(self).result_of(id) == result@,
            r is Err ==> r == Err::<GoalStatusMessage, ActionError>(ActionError::ProtocolViolation),
            r is Err ==> final(self).table().same_goals(&old(self).table()),
    {
        self.transition(id, GoalStatus::Canceled, Some(result))
    }

    /// Grants a cancel request only for a known goal in a cancelable state,
    /// which then moves to `Canceling`; otherwise nothing changes.
    pub fn handle_cancel_request(&mut self, id: GoalId) -> (r: CancelResponse)
        requires
            old(self).wf(),
        ensures
            final(self).wf(),
            r == (if !old(self).table().has(id) {
                CancelResponse::UnknownGoal
            } else if cancelable(old(self).status_of(id)) {
                CancelResponse::Accepted
            } else {
                CancelResponse::NotCancelable
            }),
            r == CancelResponse::Accepted ==> final(self).moved(old(self), id, GoalStatus::Canceling),
            r != CancelResponse::Accepted ==> *final(self) == *old(self),
    {
        if !self.goals.contains(id) {
            return CancelResponse::UnknownGoal;
        }
        let s = self.goals.status(id);
        if !s.is_cancelable() {
            return CancelResponse::NotCancelable;
        }
        let _granted = self.transition(id, GoalStatus::Canceling, None);
        CancelResponse::Accepted
    }

    /// A feedback message for a goal that is executing.
    pub fn publish_feedback(&self, id: GoalId, payload: Vec<u8>) -> (r: Result<FeedbackMessage, ActionError>)
        requires
            self.wf(),
        ensures
            r is Ok <==> self.status_of(id) == GoalStatus::Executing,
            r is Ok ==> r->Ok_0.goal_id == id && r->Ok_0.payload@ == payload@,
            r is Err ==> r->Err_0 == ActionError::ProtocolViolation,
    {
        if self.goals.status(id) == GoalStatus::Executing {
            Ok(FeedbackMessage { goal_id: id, payload })
        } else {
            Err(ActionError::ProtocolViolation)
        }
    }

    /// Answers a result request: the recorded result once the goal is terminal.
    pub fn handle_get_result(&self, id: GoalId) -> (r: Result<Vec<u8>, ActionError>)
        requires
            self.wf(),
        ensures
            r is Err <==> !terminal(self.status_of(id)),
            r is Err ==> r->Err_0 == ActionError::GoalNotTerminal,
            r is Ok ==> r->Ok_0@ == self.result_of(id),
    {
        self.goals.result(id)
    }
}

/// The client role of an action: it tracks the goals it sent, follows their
/// status broadcasts and keeps the results it was given.
pub struct ActionClient {
    goals: GoalTable,
}

impl ActionClient {
    pub closed spec fn wf(&self) -> bool {
        self.goals.wf()
    }

    pub closed spec fn table(&self) -> GoalTable {
        self.goals
    }

    /// Whether this client sent the goal.
    pub open spec fn knows(&self, id: GoalId) -> bool {
        self.table().has(id)
    }

    pub open spec fn status_of(&self, id: GoalId) -> GoalStatus {
        self.table().status_of(id)
    }

    pub open spec fn result_of(&self, id: GoalId) -> Seq<u8> {
        self.table().result_of(id)
    }

    pub fn new() -> (r: ActionClient)
        ensures
            r.wf(),
            forall|g: GoalId| !r.knows(g),
    {
        ActionClient { goals: GoalTable::new() }
    }

    pub fn status(&self, id: GoalId) -> (r: GoalStatus)
        requires
            self.wf(),
        ensures
            r == self.status_of(id),
    {
        self.goals.status(id)
    }

    pub fn is_known(&self, id: GoalId) -> (r: bool)
        requires
            self.wf(),
        ensures
            r == self.knows(id),
    {
        self.goals.contains(id)
    }

    /// Registers a goal about to be sent, with status `Unknown` until the
    /// server accepts it. Returns false, changing nothing, if the identifier
    /// is already in use.
    pub fn send_goal(&mut self, id: GoalId) -> (r: bool)
        requires
            old(self).wf(),
        ensures
            final(self).wf(),
            r == !old(self).knows(id),
            r ==> final(self).knows(id) && final(self).status_of(id) == GoalStatus::Unknown
                && final(self).result_of(id) == Seq::<u8>::empty(),
            !r ==> *final(self) == *old(self),
            forall|g: GoalId|
                #![auto]
                g != id ==> final(self).knows(g) == old(self).knows(g) && final(self).status_of(g)
                    == old(self).status_of(g) && final(self).result_of(g) == old(self).result_of(g),
    {
        if self.goals.contains(id) {
            return false;
        }
        let _entered = self.goals.apply(id, GoalStatus::Unknown, None);
        true
    }

    /// Follows one status broadcast. An update for a goal this client did not
    /// send is ignored (`Ok(false)`); an update that the lifecycle does not
    /// allow is refused and changes nothing.
    pub fn on_status(&mut self, msg: GoalStatusMessage) -> (r: Result<bool, ActionError>)
        requires
            old(self).wf(),
        ensures
            final(self).wf(),
            !old(self).knows(msg.goal_id) ==> r == Ok::<bool, ActionError>(false) && *final(self) == *old(self),
            old(self).knows(msg.goal_id) ==> (r is Ok <==> allowed(old(self).status_of(msg.goal_id), msg.status)),
            old(self).knows(msg.goal_id) && r is Ok ==> r->Ok_0 && final(self).status_of(msg.goal_id) == msg.status
                && final(self).knows(msg.goal_id)
                && final(self).result_of(msg.goal_id) == old(self).result_of(msg.goal_id),
            r is Err ==> r == Err::<bool, ActionError>(ActionError::ProtocolViolation),
            r is Err ==> final(self).table().same_goals(&old(self).table()),
            forall|g: GoalId|
                #![auto]
                g != msg.goal_id ==> final(self).knows(g) == old(self).knows(g) && final(self).status_of(g)
                    == old(self).status_of(g) && final(self).result_of(g) == old(self).result_of(g),
    {
        if !self.goals.contains(msg.goal_id) {
            return Ok(false);
        }
        match self.goals.apply(msg.goal_id, msg.status, None) {
            Ok(()) => Ok(true),
            Err(e) => Err(e),
        }
    }

    /// Passes on feedback for goals this client sent and drops the rest.
    pub fn on_feedback(&self, msg: FeedbackMessage) -> (r: Option<FeedbackMessage>)
        requires
            self.wf(),
        ensures
            r is Some <==> self.knows(msg.goal_id),
            r is Some ==> r->0.goal_id == msg.goal_id && r->0.payload@ == msg.payload@,
    {
        if self.goals.contains(msg.goal_id) {
            Some(msg)
        } else {
            None
        }
    }

    /// Keeps the result that the server gave for a goal, once the goal is
    /// terminal here too.
    pub fn on_result(&mut self, id: GoalId, result: Vec<u8>) -> (r: Result<(), ActionError>)
        requires
            old(self).wf(),
        ensures
            final(self).wf(),
            r is Err <==> !terminal(old(self).status_of(id)),
            r is Err ==> r == Err::<(), ActionError>(ActionError::GoalNotTerminal) && *final(self) == *old(self),
            r is Ok ==> final(self).knows(id) && final(self).status_of(id) == old(self).status_of(id)
                && final(self).result_of(id) == result@,
            forall|g: GoalId|
                #![auto]
                g != id ==> final(self).knows(g) == old(self).knows(g) && final(self).status_of(g)
                    == old(self).status_of(g) && final(self).result_of(g) == old(self).result_of(g),
    {
        let s = self.goals.status(id);
        if !s.is_terminal() {
            return Err(ActionError::GoalNotTerminal);
        }
        let _kept = self.goals.apply(id, s, Some(result));
        Ok(())
    }

    /// The result kept for a goal; it is an error to ask before the goal is
    /// terminal. Reading does not consume the result.
    pub fn get_result(&self, id: GoalId) -> (r: Result<Vec<u8>, ActionError>)
        requires
            self.wf(),
        ensures
            r is Err <==> !terminal(self.status_of(id)),
            r is Err ==> r->Err_0 == ActionError::GoalNotTerminal,
            r is Ok ==> r->Ok_0@ == self.result_of(id),
    {
        self.goals.result(id)
    }
}

} // verus!
