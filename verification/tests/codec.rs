//! The payload codec: exact wire texts, decoding, and the round trip
//! `decode(encode(p)) == p` over a set of payloads, unknown opcodes
//! included.

use smalld::json::parse_json;
use smalld::payload::{decode_payload, encode_payload};
use smalld::{Json, Op, Payload};

fn round_trips(p: Payload) {
    let text = encode_payload(&p);
    let back = decode_payload(&text).expect("an encoded payload decodes");
    assert_eq!(back, p);
}

#[test]
fn encode_op_only() {
    let p = Payload::op(Op::Heartbeat);
    assert_eq!(encode_payload(&p), "{\"op\":1}");
}

#[test]
fn encode_with_sequence() {
    let p = Payload::op(Op::Heartbeat).d(Json::U64(12));
    assert_eq!(encode_payload(&p), "{\"op\":1,\"d\":12}");
}

#[test]
fn encode_dispatch_with_everything() {
    let p = Payload::op(Op::Dispatch)
        .d(Json::Obj(vec![(
            String::from("content"),
            Json::Str(String::from("hi")),
        )]))
        .t("MESSAGE_CREATE")
        .s(7);
    assert_eq!(
        encode_payload(&p),
        "{\"op\":0,\"d\":{\"content\":\"hi\"},\"t\":\"MESSAGE_CREATE\",\"s\":7}"
    );
}

#[test]
fn decode_hello() {
    let p = decode_payload("{\"op\":10,\"d\":{\"heartbeat_interval\":45000}}").unwrap();
    assert_eq!(p.op, Op::Hello);
    assert_eq!(p.t, None);
    assert_eq!(p.s, None);
    match p.d {
        Some(Json::Obj(m)) => {
            assert_eq!(m.len(), 1);
            assert_eq!(m[0].0, "heartbeat_interval");
            assert_eq!(m[0].1, Json::U64(45000));
        }
        other => panic!("expected an object, got {:?}", other),
    }
}

#[test]
fn decode_dispatch() {
    let p = decode_payload(
        "{\"op\":0,\"t\":\"MESSAGE_CREATE\",\"s\":7,\"d\":{\"content\":\"++ping\",\"channel_id\":\"123\"}}",
    )
    .unwrap();
    assert_eq!(p.op, Op::Dispatch);
    assert_eq!(p.t.as_deref(), Some("MESSAGE_CREATE"));
    assert_eq!(p.s, Some(7));
    assert!(p.d.is_some());
}

#[test]
fn round_trip_payloads() {
    round_trips(Payload::op(Op::Dispatch));
    round_trips(Payload::op(Op::Hello).d(Json::Obj(vec![(
        String::from("heartbeat_interval"),
        Json::U64(45000),
    )])));
    round_trips(Payload::op(Op::Dispatch).t("READY").s(1).d(Json::Obj(vec![(
        String::from("session_id"),
        Json::Str(String::from("abc")),
    )])));
    round_trips(Payload::op(Op::Heartbeat).d(Json::U64(12)));
    round_trips(
        Payload::op(Op::Identify).d(Json::Obj(vec![
            (String::from("token"), Json::Str(String::from("t.ok.en"))),
            (String::from("intents"), Json::U64(32253)),
        ])),
    );
    round_trips(Payload::op(Op::Dispatch).d(Json::Arr(vec![
        Json::Null,
        Json::Bool(true),
        Json::Bool(false),
        Json::U64(0),
        Json::I64(-5),
        Json::Str(String::from("x")),
    ])));
}

#[test]
fn unknown_ops_round_trip() {
    assert_eq!(Op::from(5u8), Op::Unknown(5));
    assert_eq!(Op::from(200u8), Op::Unknown(200));
    assert_eq!(u8::from(Op::Unknown(200)), 200);
    round_trips(Payload::op(Op::Unknown(5)));
    round_trips(Payload::op(Op::Unknown(200)).s(3));
}

#[test]
fn known_ops_map_to_their_wire_integers() {
    let table: Vec<(Op, u8)> = vec![
        (Op::Dispatch, 0),
        (Op::Heartbeat, 1),
        (Op::Identify, 2),
        (Op::PresenceUpdate, 3),
        (Op::VoiceStateUpdate, 4),
        (Op::Resume, 6),
        (Op::Reconnect, 7),
        (Op::RequestGuildMembers, 8),
        (Op::InvalidSession, 9),
        (Op::Hello, 10),
        (Op::HeartbeatAck, 11),
    ];
    for (op, n) in table {
        assert_eq!(u8::from(op), n);
        assert_eq!(Op::from(n), op);
    }
}

#[test]
fn decode_rejects_bad_payloads() {
    assert!(decode_payload("").is_none());
    assert!(decode_payload("not json").is_none());
    assert!(decode_payload("{}").is_none());
    assert!(decode_payload("{\"op\":\"x\"}").is_none());
    assert!(decode_payload("{\"op\":300}").is_none());
    assert!(decode_payload("{\"op\":0,\"t\":7}").is_none());
    assert!(decode_payload("{\"op\":0,\"s\":\"x\"}").is_none());
    assert!(decode_payload("{\"op\":0} trailing").is_none());
}

#[test]
fn decode_treats_null_optionals_as_absent() {
    let p = decode_payload("{\"op\":0,\"d\":null,\"t\":null,\"s\":null}").unwrap();
    assert_eq!(p.d, None);
    assert_eq!(p.t, None);
    assert_eq!(p.s, None);
}

#[test]
fn json_parser_handles_whitespace_and_nesting() {
    let j = parse_json(" { \"a\" : [ 1 , -2 , 2.5 , \"x\" , { } ] } ").unwrap();
    match j {
        Json::Obj(m) => {
            assert_eq!(m.len(), 1);
            assert_eq!(m[0].0, "a");
            match &m[0].1 {
                Json::Arr(v) => {
                    assert_eq!(v.len(), 5);
                    assert_eq!(v[0], Json::U64(1));
                    assert_eq!(v[1], Json::I64(-2));
                    assert_eq!(v[2], Json::Num(String::from("2.5")));
                    assert_eq!(v[3], Json::Str(String::from("x")));
                    assert_eq!(v[4], Json::Obj(Vec::new()));
                }
                other => panic!("expected an array, got {:?}", other),
            }
        }
        other => panic!("expected an object, got {:?}", other),
    }
}

#[test]
fn json_parser_handles_escapes() {
    let j = parse_json("\"a\\\"b\\\\c\\n\\t\\u0041\\uD83D\\uDE00\"").unwrap();
    assert_eq!(j, Json::Str(String::from("a\"b\\c\n\tA\u{1F600}")));
}

#[test]
fn json_parser_rejects_malformed_texts() {
    assert!(parse_json("{").is_none());
    assert!(parse_json("[1,]").is_none());
    assert!(parse_json("{\"a\":}").is_none());
    assert!(parse_json("01").is_none());
    assert!(parse_json("\"\\uD83D\"").is_none());
    assert!(parse_json("tru").is_none());
    assert!(parse_json("1 2").is_none());
}

#[test]
fn json_serializer_escapes_strings() {
    let j = Json::Str(String::from("a\"b\\c\n\u{0001}"));
    assert_eq!(j.to_text(), "\"a\\\"b\\\\c\\n\\u0001\"");
}

#[test]
fn json_numbers_keep_their_value_or_text() {
    assert_eq!(parse_json("18446744073709551615"), Some(Json::U64(u64::MAX)));
    assert_eq!(
        parse_json("18446744073709551616"),
        Some(Json::Num(String::from("18446744073709551616")))
    );
    assert_eq!(parse_json("-9223372036854775808"), Some(Json::I64(i64::MIN)));
    assert_eq!(parse_json("1e3"), Some(Json::Num(String::from("1e3"))));
    let text = Json::Num(String::from("1e3")).to_text();
    assert_eq!(text, "1e3");
}
