//! The OpenXR events the engine reacts to.
use vstd::prelude::*;

verus! {

/// The lifecycle state of an OpenXR session.
#[derive(Clone, Copy, Debug, PartialEq, Eq, Structural)]
pub enum XRSessionState {
    Unknown,
    Idle,
    Ready,
    Synchronized,
    Visible,
    Focused,
    Stopping,
    LossPending,
    Exiting,
}

/// The OpenXR events kept from one poll.
#[derive(Clone, Copy, Debug, PartialEq, Eq, Structural)]
pub enum XREvent {
    SessionStateChanged(XRSessionState),
    InstanceLossPending,
}

/// The events that mean the runtime wants the application to stop: the
/// instance is about to be lost, or the session is stopping, being lost or
/// exiting.
pub open spec fn terminates(event: XREvent) -> bool {
    match event {
        XREvent::InstanceLossPending => true,
        XREvent::SessionStateChanged(state) => state == XRSessionState::Exiting || state
            == XRSessionState::LossPending || state == XRSessionState::Stopping,
    }
}

impl XREvent {
    /// Whether this event means the runtime wants the application to stop.
    pub fn is_termination(self) -> (r: bool)
        ensures
            r == terminates(self),
    {
        match self {
            XREvent::InstanceLossPending => true,
            XREvent::SessionStateChanged(state) => match state {
                XRSessionState::Exiting | XRSessionState::LossPending | XRSessionState::Stopping => true,
                _ => false,
            },
        }
    }
}

/// Whether any of the polled events asks the application to stop.
pub fn any_termination(events: &Vec<XREvent>) -> (r: bool)
    ensures
        r == exists|i: int| 0 <= i < events@.len() && #[trigger] terminates(events@[i]),
{
    let mut i: usize = 0;
    while i < events.len()
        invariant
            i <= events@.len(),
            forall|j: int| 0 <= j < i ==> !#[trigger] terminates(events@[j]),
        decreases events@.len() - i,
    {
        if events[i].is_termination() {
            return true;
        }
        i = i + 1;
    }
    false
}

/// What the renderer does with the session when its state changes.
#[derive(Clone, Copy, Debug, PartialEq, Eq, Structural)]
pub enum SessionCommand {
    /// Begin the session for stereo rendering.
    Begin,
    /// End the session.
    End,
    /// Leave the session as it is.
    Keep,
}

/// The renderer's reaction to a session state change: the runtime lets it
/// start rendering when the session is ready and makes it stop when the
/// session is stopping; whether it renders follows suit.
pub fn session_step(state: XRSessionState, running: bool) -> (r: (SessionCommand, bool))
    ensures
        state == XRSessionState::Ready ==> r == (SessionCommand::Begin, true),
        state == XRSessionState::Stopping ==> r == (SessionCommand::End, false),
        state != XRSessionState::Ready && state != XRSessionState::Stopping ==> r == (
            SessionCommand::Keep,
            running,
        ),
{
    match state {
        XRSessionState::Ready => (SessionCommand::Begin, true),
        XRSessionState::Stopping => (SessionCommand::End, false),
        _ => (SessionCommand::Keep, running),
    }
}

/// Losing the instance always asks the application to stop; a session state
/// change asks it to stop exactly when the session is stopping, being lost
/// or exiting, and never for a session that is idle, ready, synchronized,
/// visible, focused or in an unknown state.
pub proof fn law_termination_events(state: XRSessionState)
    ensures
        terminates(XREvent::InstanceLossPending),
        terminates(XREvent::SessionStateChanged(state)) <==> (state == XRSessionState::Stopping || state
            == XRSessionState::LossPending || state == XRSessionState::Exiting),
        !terminates(XREvent::SessionStateChanged(XRSessionState::Idle)),
        !terminates(XREvent::SessionStateChanged(XRSessionState::Ready)),
        !terminates(XREvent::SessionStateChanged(XRSessionState::Synchronized)),
        !terminates(XREvent::SessionStateChanged(XRSessionState::Visible)),
        !terminates(XREvent::SessionStateChanged(XRSessionState::Focused)),
        !terminates(XREvent::SessionStateChanged(XRSessionState::Unknown)),
{
}

/// A poll whose events are all session state changes to states that do not
/// stop the application holds no termination.
pub proof fn law_running_states_do_not_terminate(events: Seq<XREvent>)
    requires
        forall|i: int|
            0 <= i < events.len() ==> ((#[trigger] events[i]) matches XREvent::SessionStateChanged(s) && s
                != XRSessionState::Stopping && s != XRSessionState::LossPending && s != XRSessionState::Exiting),
    ensures
        !(exists|i: int| 0 <= i < events.len() && #[trigger] terminates(events[i])),
{
}

} // verus!
