//! What one WebSocket connection does on each thing that happens to it:
//! heartbeats, console broadcasts, control commands and client frames.

use vstd::prelude::*;
use crate::json::{heartbeat_payload, heartbeat_text};
use crate::state::ControlCommand;

verus! {

/// Which of a connection's activities still run. The heartbeat sender, the
/// console forwarder and the control listener stop on their own failures or
/// when the connection is cancelled; receiving stops when the client leaves,
/// and cancels the others.
#[derive(Debug, Clone, Copy, PartialEq, Eq, Structural)]
pub struct ConnectionState {
    pub heartbeat: bool,
    pub forwarder: bool,
    pub control: bool,
    pub receiving: bool,
}

/// A frame received from the client.
#[derive(Debug, PartialEq, Eq)]
pub enum ClientFrame {
    Text(String),
    Binary,
    Close,
    /// Ping, pong and other frames, which are ignored.
    Other,
}

/// Something that happened to the connection.
#[derive(Debug, PartialEq, Eq)]
pub enum ConnectionEvent {
    /// The heartbeat interval elapsed.
    HeartbeatTick,
    /// Sending a heartbeat failed.
    HeartbeatSendFailed,
    /// A console broadcast arrived.
    Console(String),
    /// Forwarding a console broadcast failed.
    ForwardSendFailed,
    /// Receiving from the broadcast channel failed.
    BroadcastRecvError,
    /// A control command arrived.
    Control(ControlCommand),
    /// Receiving from the control channel failed.
    ControlRecvError,
    /// The client sent a frame.
    Client(ClientFrame),
    /// The client stream ended or failed.
    ClientGone,
}

/// What the connection does in answer.
#[derive(Debug, PartialEq, Eq)]
pub enum ConnectionAction {
    /// Send this text frame to the client.
    SendText(String),
    /// Send a close frame to the client.
    SendClose,
    /// Close the sending half of the socket.
    CloseSink,
    /// Show a text frame received from the client.
    ShowText(String),
    /// Note that a binary frame was received.
    ShowBinary,
}

/// The mathematical form of a [`ConnectionEvent`].
pub enum EventView {
    HeartbeatTick,
    HeartbeatSendFailed,
    Console(Seq<char>),
    ForwardSendFailed,
    BroadcastRecvError,
    Control(ControlCommand),
    ControlRecvError,
    ClientText(Seq<char>),
    ClientBinary,
    ClientClose,
    ClientOther,
    ClientGone,
}

impl View for ConnectionEvent {
    type V = EventView;

    open spec fn view(&self) -> EventView {
        match self {
            ConnectionEvent::HeartbeatTick => EventView::HeartbeatTick,
            ConnectionEvent::HeartbeatSendFailed => EventView::HeartbeatSendFailed,
            ConnectionEvent::Console(m) => EventView::Console(m@),
            ConnectionEvent::ForwardSendFailed => EventView::ForwardSendFailed,
            ConnectionEvent::BroadcastRecvError => EventView::BroadcastRecvError,
            ConnectionEvent::Control(c) => EventView::Control(*c),
            ConnectionEvent::ControlRecvError => EventView::ControlRecvError,
            ConnectionEvent::Client(ClientFrame::Text(t)) => EventView::ClientText(t@),
            ConnectionEvent::Client(ClientFrame::Binary) => EventView::ClientBinary,
            ConnectionEvent::Client(ClientFrame::Close) => EventView::ClientClose,
            ConnectionEvent::Client(ClientFrame::Other) => EventView::ClientOther,
            ConnectionEvent::ClientGone => EventView::ClientGone,
        }
    }
}

/// The mathematical form of a [`ConnectionAction`].
pub enum ActionKind {
    SendText(Seq<char>),
    SendClose,
    CloseSink,
    ShowText(Seq<char>),
    ShowBinary,
}

impl View for ConnectionAction {
    type V = ActionKind;

    open spec fn view(&self) -> ActionKind {
        match self {
            ConnectionAction::SendText(t) => ActionKind::SendText(t@),
            ConnectionAction::SendClose => ActionKind::SendClose,
            ConnectionAction::CloseSink => ActionKind::CloseSink,
            ConnectionAction::ShowText(t) => ActionKind::ShowText(t@),
            ConnectionAction::ShowBinary => ActionKind::ShowBinary,
        }
    }
}

/// The state after cancelling the connection's activities; receiving goes on
/// until the client leaves.
pub open spec fn cancelled(s: ConnectionState) -> ConnectionState {
    ConnectionState { heartbeat: false, forwarder: false, control: false, receiving: s.receiving }
}

/// A connection whose client has left has nothing running.
pub open spec fn well_formed(s: ConnectionState) -> bool {
    !s.receiving ==> !s.heartbeat && !s.forwarder && !s.control
}

/// The state after an event.
pub open spec fn next_state(s: ConnectionState, e: EventView) -> ConnectionState {
    match e {
        EventView::HeartbeatSendFailed => ConnectionState { heartbeat: false, ..s },
        EventView::ForwardSendFailed => ConnectionState { forwarder: false, ..s },
        EventView::BroadcastRecvError => ConnectionState { forwarder: false, ..s },
        EventView::Control(ControlCommand::DisconnectAll) => if s.control {
            cancelled(s)
        } else {
            s
        },
        EventView::ControlRecvError => ConnectionState { control: false, ..s },
        EventView::ClientClose => if s.receiving {
            ConnectionState { receiving: false, ..cancelled(s) }
        } else {
            s
        },
        EventView::ClientGone => ConnectionState { receiving: false, ..cancelled(s) },
        _ => s,
    }
}

/// The actions answering an event.
pub open spec fn step_actions(s: ConnectionState, e: EventView) -> Seq<ActionKind> {
    match e {
        EventView::HeartbeatTick => if s.heartbeat {
            seq![ActionKind::SendText(heartbeat_text("request"@))]
        } else {
            seq![]
        },
        EventView::Console(m) => if s.forwarder {
            seq![ActionKind::SendText(m)]
        } else {
            seq![]
        },
        EventView::Control(ControlCommand::DisconnectAll) => if s.control {
            seq![ActionKind::SendClose, ActionKind::CloseSink]
        } else {
            seq![]
        },
        EventView::ClientText(t) => if s.receiving {
            seq![ActionKind::ShowText(t)]
        } else {
            seq![]
        },
        EventView::ClientBinary => if s.receiving {
            seq![ActionKind::ShowBinary]
        } else {
            seq![]
        },
        _ => seq![],
    }
}

impl ConnectionState {
    /// A freshly upgraded connection: everything runs.
    pub fn new() -> (s: Self)
        ensures
            s.heartbeat && s.forwarder && s.control && s.receiving,
            well_formed(s),
    {
        ConnectionState { heartbeat: true, forwarder: true, control: true, receiving: true }
    }

    /// Whether the connection handler is done: the client has left.
    pub fn is_closed(&self) -> (b: bool)
        ensures
            b == !self.receiving,
    {
        !self.receiving
    }

    fn cancel(&mut self)
        ensures
            *final(self) == cancelled(*old(self)),
    {
        self.heartbeat = false;
        self.forwarder = false;
        self.control = false;
    }

    /// Handles one event: updates which activities run and returns what to do.
    pub fn step(&mut self, event: ConnectionEvent) -> (actions: Vec<ConnectionAction>)
        ensures
            *final(self) == next_state(*old(self), event@),
            actions@.map_values(|a: ConnectionAction| a@) == step_actions(*old(self), event@),
    {
        let ghost s0 = *self;
        let ghost ev = event@;
        let mut actions: Vec<ConnectionAction> = Vec::new();
        match event {
            ConnectionEvent::HeartbeatTick => {
                if self.heartbeat {
                    actions.push(ConnectionAction::SendText(heartbeat_payload("request")));
                }
            },
            ConnectionEvent::HeartbeatSendFailed => {
                self.heartbeat = false;
            },
            ConnectionEvent::Console(m) => {
                if self.forwarder {
                    actions.push(ConnectionAction::SendText(m));
                }
            },
            ConnectionEvent::ForwardSendFailed => {
                self.forwarder = false;
            },
            ConnectionEvent::BroadcastRecvError => {
                self.forwarder = false;
            },
            ConnectionEvent::Control(ControlCommand::DisconnectAll) => {
                if self.control {
                    actions.push(ConnectionAction::SendClose);
                    actions.push(ConnectionAction::CloseSink);
                    self.cancel();
                }
            },
            ConnectionEvent::ControlRecvError => {
                self.control = false;
            },
            ConnectionEvent::Client(frame) => {
                match frame {
                    ClientFrame::Text(t) => {
                        if self.receiving {
                            actions.push(ConnectionAction::ShowText(t));
                        }
                    },
                    ClientFrame::Binary => {
                        if self.receiving {
                            actions.push(ConnectionAction::ShowBinary);
                        }
                    },
                    ClientFrame::Close => {
                        if self.receiving {
                            self.cancel();
                            self.receiving = false;
                        }
                    },
                    ClientFrame::Other => {},
                }
            },
            ConnectionEvent::ClientGone => {
                self.cancel();
                self.receiving = false;
            },
        }
        assert(actions@.map_values(|a: ConnectionAction| a@) =~= step_actions(s0, ev));
        actions
    }
}

} // verus!

verus! {

/// The state after a sequence of events.
pub open spec fn run_state(s: ConnectionState, events: Seq<EventView>) -> ConnectionState
    decreases events.len(),
{
    if events.len() == 0 {
        s
    } else {
        run_state(next_state(s, events[0]), events.drop_first())
    }
}

/// All actions answering a sequence of events, in order.
pub open spec fn run_actions(s: ConnectionState, events: Seq<EventView>) -> Seq<ActionKind>
    decreases events.len(),
{
    if events.len() == 0 {
        seq![]
    } else {
        step_actions(s, events[0]) + run_actions(next_state(s, events[0]), events.drop_first())
    }
}

/// Whether any of the actions sends a text frame.
pub open spec fn sends_text(actions: Seq<ActionKind>) -> bool {
    exists|i: int| 0 <= i < actions.len() && (#[trigger] actions[i]) is SendText
}

/// Every event keeps a connection well formed: once the client has left,
/// nothing runs.
pub proof fn lemma_step_well_formed(s: ConnectionState, e: EventView)
    requires
        well_formed(s),
    ensures
        well_formed(next_state(s, e)),
{
}

/// A stopped activity never starts again.
pub proof fn lemma_stopped_stays_stopped(s: ConnectionState, e: EventView)
    ensures
        !s.heartbeat ==> !next_state(s, e).heartbeat,
        !s.forwarder ==> !next_state(s, e).forwarder,
        !s.control ==> !next_state(s, e).control,
        !s.receiving ==> !next_state(s, e).receiving,
{
}

/// Once the heartbeat sender and the console forwarder have stopped, no
/// text frame is ever sent to the client again.
pub proof fn lemma_silent_once_stopped(s: ConnectionState, events: Seq<EventView>)
    requires
        !s.heartbeat,
        !s.forwarder,
    ensures
        !sends_text(run_actions(s, events)),
    decreases events.len(),
{
    if events.len() > 0 {
        let s1 = next_state(s, events[0]);
        lemma_silent_once_stopped(s1, events.drop_first());
        let first = step_actions(s, events[0]);
        let rest = run_actions(s1, events.drop_first());
        assert(!sends_text(first));
        assert forall|i: int| 0 <= i < (first + rest).len() implies !((first + rest)[i] is SendText) by {
            if i >= first.len() {
                assert((first + rest)[i] == rest[i - first.len()]);
            } else {
                assert((first + rest)[i] == first[i]);
            }
        }
    }
}

/// After a disconnect command reaches a listening connection, it closes the
/// socket and never sends a text frame again.
pub proof fn lemma_disconnect_silences(s: ConnectionState, events: Seq<EventView>)
    requires
        s.control,
    ensures
        step_actions(s, EventView::Control(ControlCommand::DisconnectAll)) == seq![
            ActionKind::SendClose,
            ActionKind::CloseSink,
        ],
        !sends_text(
            run_actions(next_state(s, EventView::Control(ControlCommand::DisconnectAll)), events),
        ),
{
    lemma_silent_once_stopped(
        next_state(s, EventView::Control(ControlCommand::DisconnectAll)),
        events,
    );
}

/// When the client leaves, every activity of the connection stops.
pub proof fn lemma_client_leaving_stops_all(s: ConnectionState)
    ensures
        !next_state(s, EventView::ClientGone).heartbeat,
        !next_state(s, EventView::ClientGone).forwarder,
        !next_state(s, EventView::ClientGone).control,
        !next_state(s, EventView::ClientGone).receiving,
        s.receiving ==> next_state(s, EventView::ClientClose) == next_state(s, EventView::ClientGone),
{
}

} // verus!

verus! {

/// While the forwarder runs, a console broadcast is sent to the client
/// exactly as received, and nothing else happens; once it has stopped,
/// broadcasts are dropped.
pub proof fn lemma_console_forwarded_unchanged(s: ConnectionState, m: Seq<char>)
    ensures
        s.forwarder ==> step_actions(s, EventView::Console(m)) == seq![ActionKind::SendText(m)],
        !s.forwarder ==> step_actions(s, EventView::Console(m)).len() == 0,
        next_state(s, EventView::Console(m)) == s,
{
}

/// While the heartbeat sender runs, each tick sends the heartbeat request
/// and changes nothing.
pub proof fn lemma_tick_sends_request(s: ConnectionState)
    ensures
        s.heartbeat ==> step_actions(s, EventView::HeartbeatTick) == seq![
            ActionKind::SendText(heartbeat_text("request"@)),
        ],
        !s.heartbeat ==> step_actions(s, EventView::HeartbeatTick).len() == 0,
        next_state(s, EventView::HeartbeatTick) == s,
{
}

} // verus!
