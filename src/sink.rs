//! The lifecycle of the three output sinks: when to open and close each one's
//! connection as its enabled flag and its resource come and go.
use vstd::prelude::*;

verus! {

/// Where a sink stands.
#[derive(Clone, Copy, PartialEq, Eq, Structural, Debug)]
pub enum SinkState {
    /// Switched off; no connection.
    Disabled,
    /// Switched on, waiting for its resource; no connection yet.
    Connecting,
    /// Switched on and holding its one connection.
    Live,
}

/// What the caller must do to the sink's connection.
#[derive(Clone, Copy, PartialEq, Eq, Structural, Debug)]
pub enum SinkAction {
    /// Nothing.
    Idle,
    /// Open the connection.
    Open,
    /// Close the connection.
    Close,
}

/// What happened to a sink.
#[derive(Clone, Copy, PartialEq, Eq, Structural, Debug)]
pub enum SinkEvent {
    /// A control tick, with the sink's enabled flag and whether its resource is there.
    Tick { enabled: bool, available: bool },
    /// The connection that the last `Open` asked for could not be made.
    OpenFailed,
}

/// The state after `e`.
pub open spec fn next_state(s: SinkState, e: SinkEvent) -> SinkState {
    match e {
        SinkEvent::Tick { enabled, available } => if !enabled {
            SinkState::Disabled
        } else if s == SinkState::Live || available {
            SinkState::Live
        } else {
            SinkState::Connecting
        },
        SinkEvent::OpenFailed => if s == SinkState::Live {
            SinkState::Connecting
        } else {
            s
        },
    }
}

/// The action that `e` calls for.
pub open spec fn next_action(s: SinkState, e: SinkEvent) -> SinkAction {
    match e {
        SinkEvent::Tick { enabled, available } => if !enabled {
            if s == SinkState::Live { SinkAction::Close } else { SinkAction::Idle }
        } else if s != SinkState::Live && available {
            SinkAction::Open
        } else {
            SinkAction::Idle
        },
        SinkEvent::OpenFailed => SinkAction::Idle,
    }
}

/// The number of connections a sink in state `s` holds.
pub open spec fn live_count(s: SinkState) -> int {
    if s == SinkState::Live { 1 } else { 0 }
}

/// The connections held after `e`, from `held` before it: an `Open` adds one, a `Close`
/// takes one away, and a failed open takes back the one that was counted.
pub open spec fn held_after(s: SinkState, held: int, e: SinkEvent) -> int {
    match next_action(s, e) {
        SinkAction::Open => held + 1,
        SinkAction::Close => held - 1,
        SinkAction::Idle => if e == SinkEvent::OpenFailed && s == SinkState::Live { held - 1 } else { held },
    }
}

/// The state after a run of events.
pub open spec fn run_state(s: SinkState, events: Seq<SinkEvent>) -> SinkState
    decreases events.len(),
{
    if events.len() == 0 {
        s
    } else {
        next_state(run_state(s, events.drop_last()), events.last())
    }
}

/// The connections held after a run of events.
pub open spec fn run_held(s: SinkState, events: Seq<SinkEvent>) -> int
    decreases events.len(),
{
    if events.len() == 0 {
        live_count(s)
    } else {
        held_after(run_state(s, events.drop_last()), run_held(s, events.drop_last()), events.last())
    }
}

/// Whatever the events, in any order and however fast the flag toggles, a sink holds
/// exactly the connections its state says, and never more than one.
pub proof fn lemma_at_most_one_connection(s: SinkState, events: Seq<SinkEvent>)
    ensures
        run_held(s, events) == live_count(run_state(s, events)),
        0 <= run_held(s, events) <= 1,
    decreases events.len(),
{
    if events.len() > 0 {
        lemma_at_most_one_connection(s, events.drop_last());
    }
}

impl SinkState {
    /// The next state and the action to take on `e`. An `Open` comes only from a sink
    /// that holds no connection, and a `Close` only from one that holds one.
    pub fn on_event(self, e: SinkEvent) -> (r: (SinkState, SinkAction))
        ensures
            r.0 == next_state(self, e),
            r.1 == next_action(self, e),
            r.1 == SinkAction::Open ==> self != SinkState::Live && r.0 == SinkState::Live,
            r.1 == SinkAction::Close ==> self == SinkState::Live && r.0 == SinkState::Disabled,
    {
        match e {
            SinkEvent::Tick { enabled, available } => {
                if !enabled {
                    if self == SinkState::Live {
                        (SinkState::Disabled, SinkAction::Close)
                    } else {
                        (SinkState::Disabled, SinkAction::Idle)
                    }
                } else if self == SinkState::Live {
                    (SinkState::Live, SinkAction::Idle)
                } else if available {
                    (SinkState::Live, SinkAction::Open)
                } else {
                    (SinkState::Connecting, SinkAction::Idle)
                }
            },
            SinkEvent::OpenFailed => {
                if self == SinkState::Live {
                    (SinkState::Connecting, SinkAction::Idle)
                } else {
                    (self, SinkAction::Idle)
                }
            },
        }
    }

    /// Whether the sink takes data this tick.
    pub fn is_live(&self) -> (r: bool)
        ensures
            r == (*self == SinkState::Live),
    {
        *self == SinkState::Live
    }
}

} // verus!
