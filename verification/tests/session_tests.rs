use ezsockets::Delivery;
use ezsockets::Message;
use ezsockets::RawMessage;
use ezsockets::Session;
use ezsockets::SessionEvent;

#[test]
fn sends_reach_the_sink_in_fifo_order() {
    let mut session = Session::new(0);
    let mut sink: Vec<RawMessage> = Vec::new();
    for text in ["m1", "m2", "m3"] {
        let eff = session.step(SessionEvent::SendRequest(Message::Text(text.to_string())));
        sink.extend(eff.writes);
    }
    assert_eq!(
        sink,
        vec![
            RawMessage::Text("m1".to_string()),
            RawMessage::Text("m2".to_string()),
            RawMessage::Text("m3".to_string()),
        ]
    );
}

#[test]
fn text_frame_is_delivered_to_the_extension() {
    let mut session = Session::new(0);
    let eff = session.step(SessionEvent::Inbound(RawMessage::Text("hello".to_string())));
    assert_eq!(eff.delivery, Some(Delivery::DeliverText("hello".to_string())));
    assert!(eff.writes.is_empty());
    assert!(!eff.report_disconnect);
    assert!(session.alive);
}

#[test]
fn binary_frame_is_delivered_to_the_extension() {
    let mut session = Session::new(0);
    let eff = session.step(SessionEvent::Inbound(RawMessage::Binary(vec![1, 2, 3])));
    assert_eq!(eff.delivery, Some(Delivery::DeliverBinary(vec![1, 2, 3])));
    assert!(eff.writes.is_empty());
}

#[test]
fn ping_is_answered_with_a_pong() {
    let mut session = Session::new(0);
    let eff = session.step(SessionEvent::Inbound(RawMessage::Ping(vec![9])));
    assert_eq!(eff.writes, vec![RawMessage::Pong(vec![9])]);
    assert_eq!(eff.delivery, None);
    assert!(!eff.report_disconnect);
}

#[test]
fn pong_is_consumed_silently() {
    let mut session = Session::new(0);
    let eff = session.step(SessionEvent::Inbound(RawMessage::Pong(vec![9])));
    assert!(eff.writes.is_empty());
    assert_eq!(eff.delivery, None);
    assert!(!eff.report_disconnect);
}

#[test]
fn close_frame_terminates_and_reports_once() {
    let mut session = Session::new(4);
    let eff = session.step(SessionEvent::Inbound(RawMessage::Close(None)));
    assert_eq!(eff.writes, vec![RawMessage::Close(None)]);
    assert!(eff.report_disconnect);
    assert!(!session.alive);
    // the transport closing afterwards must not report a second time
    let eff2 = session.step(SessionEvent::StreamEnded);
    assert!(!eff2.report_disconnect);
    assert!(eff2.writes.is_empty());
}

#[test]
fn stream_end_terminates_and_reports_once() {
    let mut session = Session::new(4);
    let eff = session.step(SessionEvent::StreamEnded);
    assert_eq!(eff.writes, vec![RawMessage::Close(None)]);
    assert!(eff.report_disconnect);
    // an inbound close frame arriving afterwards must not report again
    let eff2 = session.step(SessionEvent::Inbound(RawMessage::Close(None)));
    assert!(!eff2.report_disconnect);
    assert!(eff2.writes.is_empty());
}

#[test]
fn sends_after_termination_are_dropped() {
    let mut session = Session::new(0);
    session.step(SessionEvent::StreamEnded);
    let eff = session.step(SessionEvent::SendRequest(Message::Text("late".to_string())));
    assert!(eff.writes.is_empty());
    assert_eq!(eff.delivery, None);
}

#[test]
fn extension_reply_is_written_back() {
    let session = Session::new(0);
    let w = session.on_reply(Some(Message::Text("pong".to_string())));
    assert_eq!(w, Some(RawMessage::Text("pong".to_string())));
    assert_eq!(session.on_reply(None), None);
}
