use vstd::prelude::*;

verus! {

/// The lifecycle state of one goal.
#[derive(Clone, Copy, Debug, PartialEq, Eq, Structural)]
pub enum GoalStatus {
    Unknown,
    Accepted,
    Executing,
    Canceling,
    Succeeded,
    Canceled,
    Aborted,
}

/// Errors of the action layer.
#[derive(Clone, Copy, Debug, PartialEq, Eq, Structural)]
pub enum ActionError {
    /// A result was asked for before the goal reached a terminal state.
    GoalNotTerminal,
    /// A status update that the lifecycle does not allow from the current state.
    ProtocolViolation,
}

/// A goal in one of these states takes no further transition.
pub open spec fn terminal(s: GoalStatus) -> bool {
    s == GoalStatus::Succeeded || s == GoalStatus::Canceled || s == GoalStatus::Aborted
}

/// A cancel request is granted only in these states.
pub open spec fn cancelable(s: GoalStatus) -> bool {
    s == GoalStatus::Accepted || s == GoalStatus::Executing
}

/// The single forward steps of the lifecycle.
pub open spec fn step(from: GoalStatus, to: GoalStatus) -> bool {
    match (from, to) {
        (GoalStatus::Unknown, GoalStatus::Accepted) => true,
        (GoalStatus::Accepted, GoalStatus::Executing) => true,
        (GoalStatus::Accepted, GoalStatus::Canceling) => true,
        (GoalStatus::Executing, GoalStatus::Succeeded) => true,
        (GoalStatus::Executing, GoalStatus::Canceling) => true,
        (GoalStatus::Executing, GoalStatus::Aborted) => true,
        (GoalStatus::Canceling, GoalStatus::Canceled) => true,
        (GoalStatus::Canceling, GoalStatus::Aborted) => true,
        _ => false,
    }
}

/// An update is accepted when it is a forward step or repeats the current state.
pub open spec fn allowed(from: GoalStatus, to: GoalStatus) -> bool {
    from == to || step(from, to)
}

impl GoalStatus {
    pub fn is_terminal(&self) -> (r: bool)
        ensures
            r == terminal(*self),
    {
        match self {
            GoalStatus::Succeeded | GoalStatus::Canceled | GoalStatus::Aborted => true,
            _ => false,
        }
    }

    pub fn is_cancelable(&self) -> (r: bool)
        ensures
            r == cancelable(*self),
    {
        match self {
            GoalStatus::Accepted | GoalStatus::Executing => true,
            _ => false,
        }
    }
}

/// Validates one status update against the lifecycle table.
pub fn check_transition(from: GoalStatus, to: GoalStatus) -> (r: Result<(), ActionError>)
    ensures
        r is Ok <==> allowed(from, to),
        r is Err ==> r == Err::<(), ActionError>(ActionError::ProtocolViolation),
{
    if from == to {
        return Ok(());
    }
    let ok = match (from, to) {
        (GoalStatus::Unknown, GoalStatus::Accepted) => true,
        (GoalStatus::Accepted, GoalStatus::Executing) => true,
        (GoalStatus::Accepted, GoalStatus::Canceling) => true,
        (GoalStatus::Executing, GoalStatus::Succeeded) => true,
        (GoalStatus::Executing, GoalStatus::Canceling) => true,
        (GoalStatus::Executing, GoalStatus::Aborted) => true,
        (GoalStatus::Canceling, GoalStatus::Canceled) => true,
        (GoalStatus::Canceling, GoalStatus::Aborted) => true,
        _ => false,
    };
    if ok {
        Ok(())
    } else {
        Err(ActionError::ProtocolViolation)
    }
}

/// No transition leaves a terminal state except the repetition of that state.
pub proof fn lemma_terminal_is_final(from: GoalStatus, to: GoalStatus)
    requires
        terminal(from),
        allowed(from, to),
    ensures
        to == from,
{
}

/// Redelivering the current state is accepted and is a no-op.
pub proof fn lemma_redelivery_allowed(s: GoalStatus)
    ensures
        allowed(s, s),
{
}

/// Every accepted update that changes the state moves strictly forward:
/// no sequence of accepted updates returns to a state it has left.
pub proof fn lemma_no_regression(from: GoalStatus, to: GoalStatus)
    requires
        allowed(from, to),
        from != to,
    ensures
        rank(from) < rank(to),
{
}

/// The position of a state along the lifecycle.
pub open spec fn rank(s: GoalStatus) -> nat {
    match s {
        GoalStatus::Unknown => 0,
        GoalStatus::Accepted => 1,
        GoalStatus::Executing => 2,
        GoalStatus::Canceling => 3,
        GoalStatus::Succeeded => 4,
        GoalStatus::Canceled => 4,
        GoalStatus::Aborted => 4,
    }
}

} // verus!
