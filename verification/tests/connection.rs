use ws_heartbeat::connection::{ClientFrame, ConnectionAction, ConnectionEvent, ConnectionState};
use ws_heartbeat::state::ControlCommand;

const REQUEST: &str = "{\"data\":\"request\",\"type\":\"heartbeat\"}";

#[test]
fn open_connection_sends_and_shows() {
    let mut s = ConnectionState::new();
    assert!(!s.is_closed());
    assert_eq!(
        s.step(ConnectionEvent::HeartbeatTick),
        vec![ConnectionAction::SendText(REQUEST.to_string())]
    );
    assert_eq!(
        s.step(ConnectionEvent::Console("{\"a\":1}".to_string())),
        vec![ConnectionAction::SendText("{\"a\":1}".to_string())]
    );
    assert_eq!(
        s.step(ConnectionEvent::Client(ClientFrame::Text("hi".to_string()))),
        vec![ConnectionAction::ShowText("hi".to_string())]
    );
    assert_eq!(
        s.step(ConnectionEvent::Client(ClientFrame::Binary)),
        vec![ConnectionAction::ShowBinary]
    );
    assert_eq!(s.step(ConnectionEvent::Client(ClientFrame::Other)), vec![]);
    assert_eq!(s, ConnectionState::new());
}

#[test]
fn disconnect_closes_and_silences() {
    let mut s = ConnectionState::new();
    assert_eq!(
        s.step(ConnectionEvent::Control(ControlCommand::DisconnectAll)),
        vec![ConnectionAction::SendClose, ConnectionAction::CloseSink]
    );
    assert!(!s.heartbeat && !s.forwarder && !s.control && s.receiving);
    assert_eq!(s.step(ConnectionEvent::HeartbeatTick), vec![]);
    assert_eq!(s.step(ConnectionEvent::Console("x".to_string())), vec![]);
    assert_eq!(s.step(ConnectionEvent::Control(ControlCommand::DisconnectAll)), vec![]);
    assert_eq!(s.step(ConnectionEvent::Client(ClientFrame::Close)), vec![]);
    assert!(s.is_closed());
}

#[test]
fn failures_stop_single_activities() {
    let mut s = ConnectionState::new();
    s.step(ConnectionEvent::HeartbeatSendFailed);
    assert_eq!(s.step(ConnectionEvent::HeartbeatTick), vec![]);
    assert_eq!(
        s.step(ConnectionEvent::Console("m".to_string())),
        vec![ConnectionAction::SendText("m".to_string())]
    );
    s.step(ConnectionEvent::BroadcastRecvError);
    assert_eq!(s.step(ConnectionEvent::Console("m".to_string())), vec![]);
    s.step(ConnectionEvent::ControlRecvError);
    assert_eq!(s.step(ConnectionEvent::Control(ControlCommand::DisconnectAll)), vec![]);
    assert!(!s.is_closed());
}

#[test]
fn client_leaving_stops_everything() {
    let mut s = ConnectionState::new();
    assert_eq!(s.step(ConnectionEvent::ClientGone), vec![]);
    assert!(s.is_closed() && !s.heartbeat && !s.forwarder && !s.control);
    assert_eq!(s.step(ConnectionEvent::Client(ClientFrame::Text("late".to_string()))), vec![]);
    let mut t = ConnectionState::new();
    t.step(ConnectionEvent::Client(ClientFrame::Close));
    assert_eq!(t, s);
}
