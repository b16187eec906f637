use vimcord::app::AppAction;
use vimcord::gateway::{
    EventData, FirstFrame, Frame, FrameOutcome, GatewayClient, GatewayError, GatewayEvent,
    heartbeat_interval, handle_dispatch,
};
use vimcord::model::{Message, User};

fn no_data() -> EventData {
    EventData { heartbeat_interval: None, as_message: None, as_partial: None, id: None, channel_id: None }
}

fn event(op: u8, s: Option<u64>, t: Option<&str>, d: Option<EventData>) -> GatewayEvent {
    GatewayEvent { op, s, t: t.map(|x| x.to_string()), d }
}

#[test]
fn hello_gives_interval() {
    let d = EventData { heartbeat_interval: Some(45000), ..no_data() };
    let r = heartbeat_interval(FirstFrame::Text(Ok(event(10, None, None, Some(d)))));
    assert!(matches!(r, Ok(45000)));
    let r = heartbeat_interval(FirstFrame::Text(Ok(event(10, None, None, Some(no_data())))));
    assert!(matches!(r, Ok(41250)));
}

#[test]
fn handshake_errors() {
    assert!(matches!(heartbeat_interval(FirstFrame::Closed), Err(GatewayError::ConnectionClosedBeforeHello)));
    assert!(matches!(heartbeat_interval(FirstFrame::NotText), Err(GatewayError::ExpectedTextMessage)));
    assert!(matches!(
        heartbeat_interval(FirstFrame::Text(Ok(event(0, None, None, Some(no_data()))))),
        Err(GatewayError::ExpectedHello)
    ));
    assert!(matches!(
        heartbeat_interval(FirstFrame::Text(Err("bad json".to_string()))),
        Err(GatewayError::Parse(_))
    ));
}

#[test]
fn identify_and_heartbeat_payloads() {
    let mut g = GatewayClient::new("se\"cret".to_string());
    assert_eq!(
        g.identify(),
        "{\"d\":{\"properties\":{\"browser\":\"vimcord\",\"device\":\"vimcord\",\"os\":\"linux\"},\"token\":\"se\\\"cret\"},\"op\":2}"
    );
    assert_eq!(g.heartbeat(), "{\"op\":1,\"d\":null}");
    let out = g.on_frame(Frame::Text(Some(event(11, Some(42), None, None))));
    assert!(matches!(out, FrameOutcome::Continue(None)));
    assert_eq!(g.heartbeat(), "{\"op\":1,\"d\":42}");
    g.on_frame(Frame::Text(Some(event(11, None, None, None))));
    assert_eq!(g.heartbeat(), "{\"op\":1,\"d\":42}");
}

#[test]
fn frames_that_stop_the_session() {
    let mut g = GatewayClient::new("t".to_string());
    assert!(matches!(g.on_frame(Frame::Close), FrameOutcome::Stop));
    assert!(matches!(g.on_frame(Frame::Ended), FrameOutcome::Stop));
    assert!(matches!(g.on_frame(Frame::Error("x".to_string())), FrameOutcome::Stop));
    assert!(matches!(g.on_frame(Frame::Other), FrameOutcome::Continue(None)));
    assert!(matches!(g.on_frame(Frame::Text(None)), FrameOutcome::Continue(None)));
}

fn msg() -> Message {
    Message {
        id: "1".to_string(),
        channel_id: "2".to_string(),
        author: User { id: "3".to_string(), username: "u".to_string(), global_name: None },
        content: Some("c".to_string()),
        timestamp: "t".to_string(),
        mentions: vec![],
    }
}

#[test]
fn dispatches_become_events() {
    let d = EventData { as_message: Some(msg()), ..no_data() };
    let r = handle_dispatch(&"MESSAGE_CREATE".to_string(), d);
    assert!(matches!(r, Some(AppAction::GatewayMessageCreate(m)) if m.id == "1"));
    let d = EventData { id: Some("9".to_string()), channel_id: Some("8".to_string()), ..no_data() };
    let r = handle_dispatch(&"MESSAGE_DELETE".to_string(), d);
    assert!(matches!(r, Some(AppAction::GatewayMessageDelete(i, c)) if i == "9" && c == "8"));
    let d = EventData { id: Some("9".to_string()), ..no_data() };
    assert!(handle_dispatch(&"MESSAGE_DELETE".to_string(), d).is_none());
    assert!(handle_dispatch(&"TYPING_START".to_string(), no_data()).is_none());
    let mut g = GatewayClient::new("t".to_string());
    let d = EventData { as_message: Some(msg()), ..no_data() };
    let out = g.on_frame(Frame::Text(Some(event(0, Some(7), Some("MESSAGE_CREATE"), Some(d)))));
    assert!(matches!(out, FrameOutcome::Continue(Some(AppAction::GatewayMessageCreate(_)))));
    assert_eq!(g.sequence, Some(7));
}

#[test]
fn identify_around_token_json() {
    assert_eq!(
        vimcord::gateway::identify_with("\"abc\""),
        "{\"d\":{\"properties\":{\"browser\":\"vimcord\",\"device\":\"vimcord\",\"os\":\"linux\"},\"token\":\"abc\"},\"op\":2}"
    );
}

#[test]
fn token_is_escaped_as_json() {
    let g = GatewayClient::new("a\"b\\c\nd\u{1}\u{7f}é".to_string());
    assert_eq!(
        g.identify(),
        "{\"d\":{\"properties\":{\"browser\":\"vimcord\",\"device\":\"vimcord\",\"os\":\"linux\"},\"token\":\"a\\\"b\\\\c\\nd\\u0001\u{7f}é\"},\"op\":2}"
    );
}

#[test]
fn a_run_of_frames() {
    let mut g = GatewayClient::new("t".to_string());
    let d = EventData { as_message: Some(msg()), ..no_data() };
    let frames = vec![
        Frame::Text(Some(event(11, Some(3), None, None))),
        Frame::Other,
        Frame::Text(Some(event(0, Some(4), Some("MESSAGE_CREATE"), Some(d)))),
        Frame::Text(Some(event(11, None, None, None))),
        Frame::Close,
        Frame::Text(Some(event(11, Some(9), None, None))),
    ];
    let mut handed = vec![];
    for f in frames {
        match g.on_frame(f) {
            FrameOutcome::Continue(Some(a)) => handed.push(a),
            FrameOutcome::Continue(None) => {}
            FrameOutcome::Stop => break,
        }
    }
    assert_eq!(handed.len(), 1);
    assert!(matches!(&handed[0], AppAction::GatewayMessageCreate(m) if m.id == "1"));
    assert_eq!(g.heartbeat(), "{\"op\":1,\"d\":4}");
}
