//! The session engine: handshake, heartbeat liveness, resume and
//! invalid-session recovery, fatal close codes, and listener dispatch.

use smalld::gateway::{interpret_frame, Message, RawFrame, GRACEFUL_CLOSE_CODE, RECONNECT_CLOSE_CODE};
use smalld::heartbeat::{Heartbeat, TimerAction, NO_INTERVAL_PAUSE_MS};
use smalld::identify::{Identify, IdentifyAction, INVALID_SESSION_PAUSE_MS};
use smalld::listeners::Subscription;
use smalld::payload::{decode_payload, encode_payload};
use smalld::retry::{next_retry_step, RetryStep, RETRY_PAUSE_MS};
use smalld::smalld::{LoopStep, POLL_PAUSE_MS};
use smalld::{Error, Json, Op, Payload, SmallD, SmallDBuilder};

fn subject() -> SmallD {
    SmallDBuilder::new()
        .token("DuMmY.ToKeN")
        .base_url("http://httpbin.org")
        .build()
        .unwrap()
}

fn hello(interval: u64) -> Payload {
    decode_payload(&format!("{{\"op\":10,\"d\":{{\"heartbeat_interval\":{}}}}}", interval))
        .unwrap()
}

#[test]
fn s1_handshake_identify() {
    let mut smalld = subject();
    smalld.identify.set_os("linux");
    let delivery = smalld.deliver(&hello(45000));

    assert!(delivery.start_heartbeat_timer);
    match delivery.identify_action {
        IdentifyAction::Send(p) => {
            assert_eq!(
                encode_payload(&p),
                "{\"op\":2,\"d\":{\"token\":\"DuMmY.ToKeN\",\"properties\":{\"$os\":\"linux\",\
                 \"$browser\":\"smalld_rust\",\"$device\":\"smalld_rust\"},\"intents\":32509}}"
            );
        }
        other => panic!("expected a send, got {:?}", other),
    }
}

#[test]
fn s2_ping_pong_dispatch() {
    let mut smalld = subject();
    let all = smalld.on_gateway_payload();
    let ping = smalld.on_event("MESSAGE_CREATE");
    let payload = decode_payload(
        "{\"op\":0,\"t\":\"MESSAGE_CREATE\",\"s\":7,\"d\":{\"content\":\"++ping\",\"channel_id\":\"123\"}}",
    )
    .unwrap();

    let delivery = smalld.deliver(&payload);
    assert_eq!(delivery.notify, vec![all, ping]);
    assert!(smalld.listeners.delivers_data(ping));
    assert!(!smalld.listeners.delivers_data(all));

    // The listener replies over REST with that exact path and body.
    let plan = smalld
        .resource("/channels/123/messages")
        .post(Json::Obj(vec![(
            String::from("content"),
            Json::Str(String::from("pong")),
        )]))
        .unwrap();
    assert_eq!(plan.url, "http://httpbin.org/channels/123/messages");
    assert_eq!(plan.body.as_deref(), Some("{\"content\":\"pong\"}"));
    assert_eq!(plan.authorization, "Bot DuMmY.ToKeN");
}

#[test]
fn s3_heartbeat_after_dispatch() {
    let mut hb = Heartbeat::new();
    assert_eq!(hb.timer_wait_ms(), NO_INTERVAL_PAUSE_MS);
    assert!(hb.on_gateway_payload(&hello(50)));
    assert_eq!(hb.timer_wait_ms(), 50);

    let dispatch = decode_payload("{\"op\":0,\"t\":\"E\",\"s\":12,\"d\":{}}").unwrap();
    assert!(!hb.on_gateway_payload(&dispatch));
    assert_eq!(hb.sequence_number(), Some(12));

    hb.set_ack_received(true);
    match hb.on_timer() {
        TimerAction::Beat(p) => assert_eq!(encode_payload(&p), "{\"op\":1,\"d\":12}"),
        other => panic!("expected a heartbeat, got {:?}", other),
    }
    assert!(!hb.ack_received());
}

#[test]
fn s4_missed_ack_forces_reconnect() {
    let mut hb = Heartbeat::new();
    hb.on_gateway_payload(&hello(50));
    hb.set_ack_received(true);
    assert!(matches!(hb.on_timer(), TimerAction::Beat(_)));
    // No HeartbeatAck arrives before the next interval.
    assert_eq!(hb.on_timer(), TimerAction::Reconnect);
    assert_eq!(RECONNECT_CLOSE_CODE, 4900);
}

#[test]
fn heartbeat_without_beat_never_sends_before_hello() {
    let mut hb = Heartbeat::new();
    assert_eq!(hb.on_timer(), TimerAction::WaitForHello);
    hb.set_ack_received(true);
    assert_eq!(hb.on_timer(), TimerAction::WaitForHello);
}

#[test]
fn heartbeat_with_no_sequence_sends_null() {
    let mut hb = Heartbeat::new();
    hb.on_gateway_payload(&hello(50));
    hb.set_ack_received(true);
    match hb.on_timer() {
        TimerAction::Beat(p) => assert_eq!(encode_payload(&p), "{\"op\":1,\"d\":null}"),
        other => panic!("expected a heartbeat, got {:?}", other),
    }
}

#[test]
fn heartbeat_timer_starts_exactly_once() {
    let mut hb = Heartbeat::new();
    assert!(hb.on_gateway_payload(&hello(50)));
    assert!(!hb.on_gateway_payload(&hello(60)));
    assert_eq!(hb.interval(), Some(60));
}

#[test]
fn ready_counts_as_first_ack() {
    let mut hb = Heartbeat::new();
    hb.on_gateway_payload(&hello(50));
    assert!(!hb.ack_received());
    let ready = decode_payload("{\"op\":0,\"t\":\"READY\",\"s\":1,\"d\":{}}").unwrap();
    hb.on_gateway_payload(&ready);
    assert!(hb.ack_received());
    // A READY dispatch carries a sequence number like any other dispatch.
    assert_eq!(hb.sequence_number(), Some(1));

    let ack = decode_payload("{\"op\":11}").unwrap();
    hb.set_ack_received(false);
    hb.on_gateway_payload(&ack);
    assert!(hb.ack_received());
}

#[test]
fn s5_resume_then_invalid_session() {
    let mut idf = Identify::new("DuMmY.ToKeN", 32509);
    let ready = decode_payload("{\"op\":0,\"t\":\"READY\",\"s\":1,\"d\":{\"session_id\":\"abc\"}}")
        .unwrap();
    assert_eq!(idf.on_gateway_payload(&ready), IdentifyAction::Idle);
    assert_eq!(idf.session_id.as_deref(), Some("abc"));

    let dispatch = decode_payload("{\"op\":0,\"t\":\"E\",\"s\":99,\"d\":{}}").unwrap();
    assert_eq!(idf.on_gateway_payload(&dispatch), IdentifyAction::Idle);
    assert_eq!(idf.sequence_number, Some(99));

    // P7: a later Hello is answered by a Resume, not an Identify.
    match idf.on_gateway_payload(&hello(45000)) {
        IdentifyAction::Send(p) => {
            assert_eq!(
                encode_payload(&p),
                "{\"op\":6,\"d\":{\"token\":\"DuMmY.ToKeN\",\"session_id\":\"abc\",\"seq\":99}}"
            );
        }
        other => panic!("expected a send, got {:?}", other),
    }

    // P8: InvalidSession clears the session and re-identifies after 2 s.
    let invalid = decode_payload("{\"op\":9}").unwrap();
    match idf.on_gateway_payload(&invalid) {
        IdentifyAction::SendAfterPause { delay_ms, payload } => {
            assert_eq!(delay_ms, INVALID_SESSION_PAUSE_MS);
            assert_eq!(delay_ms, 2000);
            assert_eq!(payload.op, Op::Identify);
        }
        other => panic!("expected a paused send, got {:?}", other),
    }
    assert_eq!(idf.session_id, None);
}

#[test]
fn hello_without_session_identifies() {
    let mut idf = Identify::new("t", 7);
    match idf.on_gateway_payload(&hello(45000)) {
        IdentifyAction::Send(p) => assert_eq!(p.op, Op::Identify),
        other => panic!("expected a send, got {:?}", other),
    }
}

#[test]
fn hello_with_only_session_id_identifies() {
    let mut idf = Identify::new("t", 7);
    idf.set_session_id(Some(String::from("abc")));
    match idf.on_gateway_payload(&hello(45000)) {
        IdentifyAction::Send(p) => assert_eq!(p.op, Op::Identify),
        other => panic!("expected a send, got {:?}", other),
    }
}

#[test]
fn reconnect_op_forces_reconnect() {
    let mut idf = Identify::new("t", 7);
    let reconnect = decode_payload("{\"op\":7}").unwrap();
    assert_eq!(idf.on_gateway_payload(&reconnect), IdentifyAction::Reconnect);
}

#[test]
fn s6_fatal_close_stops_the_loop() {
    let (read, close_locally) = interpret_frame(RawFrame::Close(Some((4004, String::from(
        "Authentication failed.",
    )))));
    assert!(close_locally);
    let message = read.unwrap();
    let step = SmallD::handle_message(message);
    match step {
        LoopStep::EndAttempt(e) => {
            assert!(matches!(
                &e,
                Error::WebSocketClosed { code: Some(4004), .. }
            ));
            let outcome: Result<(), Error> = Err(e);
            assert_eq!(next_retry_step(&outcome), RetryStep::Stop);
        }
        other => panic!("expected the attempt to end, got {:?}", other),
    }
}

#[test]
fn p9_fatal_and_nonfatal_close_codes() {
    for code in [4004u16, 4010, 4011, 4012, 4013, 4014] {
        let e = Error::WebSocketClosed { code: Some(code), reason: String::new() };
        let outcome: Result<(), Error> = Err(e);
        assert_eq!(next_retry_step(&outcome), RetryStep::Stop);
    }
    for code in [1000u16, 1001, 4000, 4009, 4900] {
        let e = Error::WebSocketClosed { code: Some(code), reason: String::new() };
        let outcome: Result<(), Error> = Err(e);
        assert_eq!(next_retry_step(&outcome), RetryStep::PauseThenRetry(RETRY_PAUSE_MS));
    }
    let e = Error::WebSocketClosed { code: None, reason: String::new() };
    assert_eq!(next_retry_step(&Err::<(), Error>(e)), RetryStep::PauseThenRetry(5000));
    assert_eq!(
        next_retry_step(&Err::<(), Error>(Error::illegal_state("x"))),
        RetryStep::PauseThenRetry(5000)
    );
    assert_eq!(next_retry_step(&Ok::<(), Error>(())), RetryStep::PauseThenRetry(5000));
}

#[test]
fn p10_listeners_run_in_registration_order() {
    let mut smalld = subject();
    let mut expected: Vec<usize> = Vec::new();
    for _ in 0..5 {
        expected.push(smalld.on_gateway_payload());
    }
    let payload = decode_payload("{\"op\":11}").unwrap();
    let delivery = smalld.deliver(&payload);
    assert_eq!(delivery.notify, expected);
}

#[test]
fn p11_event_filter() {
    let mut smalld = subject();
    let idx = smalld.on_event("MESSAGE_CREATE");

    let matching = decode_payload("{\"op\":0,\"t\":\"MESSAGE_CREATE\",\"d\":{}}").unwrap();
    assert_eq!(smalld.deliver(&matching).notify, vec![idx]);

    let wrong_name = decode_payload("{\"op\":0,\"t\":\"GUILD_CREATE\",\"d\":{}}").unwrap();
    assert!(smalld.deliver(&wrong_name).notify.is_empty());

    let wrong_op = decode_payload("{\"op\":11,\"t\":\"MESSAGE_CREATE\",\"d\":{}}").unwrap();
    assert!(smalld.deliver(&wrong_op).notify.is_empty());

    let no_data = decode_payload("{\"op\":0,\"t\":\"MESSAGE_CREATE\"}").unwrap();
    assert!(smalld.deliver(&no_data).notify.is_empty());

    assert!(matches!(
        &smalld.listeners.subs[idx],
        Subscription::Event(n) if n == "MESSAGE_CREATE"
    ));
}

#[test]
fn reading_frames() {
    let (read, close) = interpret_frame(RawFrame::Text(String::from("{\"op\":11}")));
    assert!(!close);
    match read.unwrap() {
        Message::Payload(p) => assert_eq!(p.op, Op::HeartbeatAck),
        other => panic!("expected a payload, got {:?}", other),
    }

    let (read, close) = interpret_frame(RawFrame::Text(String::from("garbage")));
    assert!(!close);
    assert!(matches!(read, Err(Error::IllegalStateError(_))));

    let (read, close) = interpret_frame(RawFrame::Close(None));
    assert!(close);
    assert_eq!(
        read.unwrap(),
        Message::Close { code: None, reason: String::from("Unknown") }
    );

    let (read, close) = interpret_frame(RawFrame::Other);
    assert!(!close);
    assert_eq!(read.unwrap(), Message::Empty);
    assert_eq!(SmallD::handle_message(Message::Empty), LoopStep::Pause(POLL_PAUSE_MS));
    assert_eq!(GRACEFUL_CLOSE_CODE, 1000);
}

#[test]
fn websocket_url_extraction() {
    let ok = Json::Obj(vec![(
        String::from("url"),
        Json::Str(String::from("wss://gateway.discord.gg")),
    )]);
    let url = SmallD::websocket_url_from(&ok).unwrap();
    assert_eq!(url, "wss://gateway.discord.gg/");

    let missing = Json::Obj(Vec::new());
    assert!(matches!(
        SmallD::websocket_url_from(&missing),
        Err(Error::IllegalStateError(_))
    ));

    let wrong_type = Json::Obj(vec![(String::from("url"), Json::U64(1))]);
    assert!(matches!(
        SmallD::websocket_url_from(&wrong_type),
        Err(Error::IllegalStateError(_))
    ));

    let bad = Json::Obj(vec![(String::from("url"), Json::Str(String::from("::")))]);
    assert!(matches!(
        SmallD::websocket_url_from(&bad),
        Err(Error::IllegalArgumentError(_))
    ));
}
