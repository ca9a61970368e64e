//! The frame decoder under both wire shapes, the parser's edges, and the
//! encoder for the outbound control frames.

use lobby_is_up::decode::{decode_frame, decode_frame_tagged, FeedOp, TaggedOp};
use lobby_is_up::encode::{encode_json, make_location_frame, make_ping_reply, make_subscribe_frame};
use lobby_is_up::errors::DecodeError;
use lobby_is_up::json::Json;
use lobby_is_up::parse::parse_frame;

fn lobby_json(id: i64) -> String {
    format!(
        r#"{{"maxplayers":8,"relayserver_region":"eu","lobbyid":{},"slotstaken":1,"slotstotal":8,"slot":{{}}}}"#,
        id
    )
}

#[test]
fn snapshot_shape_decodes_first() {
    let frame = format!(r#"{{"allcurrentlobbies":{{"42":{}}}}}"#, lobby_json(42)).into_bytes();
    match decode_frame(&frame) {
        FeedOp::FullSnapshot(m) => {
            assert_eq!(m.allcurrentlobbies.len(), 1);
            assert_eq!(m.allcurrentlobbies[0].0, b"42".to_vec());
            assert_eq!(m.allcurrentlobbies[0].1.lobbyid, 42);
        }
        other => panic!("expected a snapshot, got {:?}", other),
    }
}

#[test]
fn followup_shape_decodes_second() {
    let frame = format!(
        r#"{{"deletedlobbies":[1,-2],"updatedlobbies":{{"3":{}}}}}"#,
        lobby_json(3)
    )
    .into_bytes();
    match decode_frame(&frame) {
        FeedOp::Incremental(m) => {
            assert_eq!(m.deletedlobbies, vec![1, -2]);
            assert_eq!(m.updatedlobbies.len(), 1);
            assert_eq!(m.updatedlobbies[0].0, b"3".to_vec());
        }
        other => panic!("expected an incremental batch, got {:?}", other),
    }
}

#[test]
fn invalid_json_reports_both_attempts() {
    let frame = b"{definitely not json".to_vec();
    match decode_frame(&frame) {
        FeedOp::Unrecognized(e) => {
            assert_eq!(e.message, frame);
            assert_eq!(e.error_parsing_all_messages, DecodeError::InvalidJson);
            assert_eq!(e.error_parsing_followup_message, DecodeError::InvalidJson);
        }
        other => panic!("expected unrecognized, got {:?}", other),
    }
}

#[test]
fn wrong_shape_reports_both_attempts() {
    let frame = br#"{"something":"else"}"#.to_vec();
    match decode_frame(&frame) {
        FeedOp::Unrecognized(e) => {
            assert_eq!(e.error_parsing_all_messages, DecodeError::WrongShape);
            assert_eq!(e.error_parsing_followup_message, DecodeError::WrongShape);
        }
        other => panic!("expected unrecognized, got {:?}", other),
    }
}

#[test]
fn followup_requires_both_fields() {
    let only_deleted = br#"{"deletedlobbies":[1]}"#.to_vec();
    assert!(matches!(decode_frame(&only_deleted), FeedOp::Unrecognized(_)));
    let only_updated = br#"{"updatedlobbies":{}}"#.to_vec();
    assert!(matches!(decode_frame(&only_updated), FeedOp::Unrecognized(_)));
}

#[test]
fn unknown_fields_are_ignored() {
    let frame = format!(
        r#"{{"sequence":9,"allcurrentlobbies":{{"42":{}}},"extra":[null,true]}}"#,
        lobby_json(42)
    )
    .into_bytes();
    assert!(matches!(decode_frame(&frame), FeedOp::FullSnapshot(_)));
}

#[test]
fn missing_lobby_field_fails_the_shape() {
    // no "slot" member
    let frame = r#"{"allcurrentlobbies":{"42":{"maxplayers":8,"relayserver_region":"eu","lobbyid":42,"slotstaken":1,"slotstotal":8}}}"#.as_bytes().to_vec();
    assert!(matches!(decode_frame(&frame), FeedOp::Unrecognized(_)));
}

#[test]
fn optional_slot_fields_may_be_absent_or_null() {
    let frame = r#"{"allcurrentlobbies":{"1":{"maxplayers":2,"relayserver_region":"eu","lobbyid":1,"slotstaken":1,"slotstotal":2,"slot":{"s":{"color":"1","civ":"br","team":null}}}}}"#.as_bytes().to_vec();
    match decode_frame(&frame) {
        FeedOp::FullSnapshot(m) => {
            let slot = &m.allcurrentlobbies[0].1.slot[0].1;
            assert!(slot.team.is_none());
            assert!(slot.name.is_none());
        }
        other => panic!("expected a snapshot, got {:?}", other),
    }
}

#[test]
fn string_escapes_decode() {
    let frame = r#"{"allcurrentlobbies":{"1":{"maxplayers":2,"relayserver_region":"a\"b\\c\n","lobbyid":1,"slotstaken":1,"slotstotal":2,"slot":{}}}}"#.as_bytes().to_vec();
    match decode_frame(&frame) {
        FeedOp::FullSnapshot(m) => {
            assert_eq!(m.allcurrentlobbies[0].1.relayserver_region, b"a\"b\\c\n".to_vec());
        }
        other => panic!("expected a snapshot, got {:?}", other),
    }
}

#[test]
fn large_integers_hit_the_i64_edge() {
    let ok = format!(r#"{{"allcurrentlobbies":{{"1":{}}}}}"#, lobby_json(9223372036854775807))
        .into_bytes();
    match decode_frame(&ok) {
        FeedOp::FullSnapshot(m) => assert_eq!(m.allcurrentlobbies[0].1.lobbyid, i64::MAX),
        other => panic!("expected a snapshot, got {:?}", other),
    }
    // one past i64::MAX is well-formed JSON but not an integer field
    let over = br#"{"allcurrentlobbies":{"1":{"maxplayers":9223372036854775808,"relayserver_region":"eu","lobbyid":1,"slotstaken":1,"slotstotal":8,"slot":{}}}}"#.to_vec();
    assert!(matches!(decode_frame(&over), FeedOp::Unrecognized(_)));
    let min = br#"{"deletedlobbies":[-9223372036854775808],"updatedlobbies":{}}"#.to_vec();
    match decode_frame(&min) {
        FeedOp::Incremental(m) => assert_eq!(m.deletedlobbies, vec![i64::MIN]),
        other => panic!("expected an incremental batch, got {:?}", other),
    }
}

#[test]
fn fractional_number_is_not_an_integer_field() {
    let frame = br#"{"deletedlobbies":[1.5],"updatedlobbies":{}}"#.to_vec();
    assert!(matches!(decode_frame(&frame), FeedOp::Unrecognized(_)));
}

#[test]
fn duplicate_object_keys_are_rejected() {
    let frame = br#"{"deletedlobbies":[],"deletedlobbies":[],"updatedlobbies":{}}"#.to_vec();
    assert!(matches!(decode_frame(&frame), FeedOp::Unrecognized(_)));
}

#[test]
fn parser_agrees_with_a_reference_parser() {
    let accepted = [
        r#"{"a":[1,2,3],"b":{"c":null},"d":"x\ty"}"#,
        r#"[true,false,null,0,-1,"",{}]"#,
        r#"  {  "a" : [ ] }  "#,
        r#"0"#,
        r#"-0"#,
        r#""just a string""#,
    ];
    for text in accepted {
        let mine = parse_frame(&text.as_bytes().to_vec()).is_some();
        let reference = serde_json::from_str::<serde_json::Value>(text).is_ok();
        assert_eq!(mine, reference, "disagree on accepting {:?}", text);
        assert!(mine);
    }
    let rejected = [
        "",
        "{",
        "[1,]",
        r#"{"a":}"#,
        r#"{"a" 1}"#,
        "01",
        "+1",
        "1.",
        "1e",
        r#""unterminated"#,
        "nul",
        "[1 2]",
        r#"{"a":1}extra"#,
    ];
    for text in rejected {
        let mine = parse_frame(&text.as_bytes().to_vec()).is_some();
        let reference = serde_json::from_str::<serde_json::Value>(text).is_ok();
        assert_eq!(mine, reference, "disagree on rejecting {:?}", text);
        assert!(!mine);
    }
}

#[test]
fn tagged_ping_carries_its_payload_back() {
    let frame = br#"{"message":"ping","data":{"token":17}}"#.to_vec();
    let data = match decode_frame_tagged(&frame) {
        TaggedOp::Ping(d) => d,
        other => panic!("expected a ping, got {:?}", other),
    };
    let reply = make_ping_reply(data).expect("the payload encodes");
    assert_eq!(reply, br#"{"message":"ping","data":{"token":17}}"#.to_vec());
}

#[test]
fn tagged_lobbies_is_a_full_replacement() {
    let frame = format!(r#"{{"message":"lobbies","data":{{"42":{}}}}}"#, lobby_json(42))
        .into_bytes();
    match decode_frame_tagged(&frame) {
        TaggedOp::FullSnapshot(m) => {
            assert_eq!(m.allcurrentlobbies.len(), 1);
            assert_eq!(m.allcurrentlobbies[0].1.lobbyid, 42);
        }
        other => panic!("expected a snapshot, got {:?}", other),
    }
}

#[test]
fn tagged_unknown_message_does_not_fit() {
    let frame = br#"{"message":"other","data":{}}"#.to_vec();
    assert!(matches!(
        decode_frame_tagged(&frame),
        TaggedOp::Unrecognized(DecodeError::WrongShape)
    ));
    assert!(matches!(
        decode_frame_tagged(&b"%%".to_vec()),
        TaggedOp::Unrecognized(DecodeError::InvalidJson)
    ));
}

#[test]
fn outbound_frames_encode_exactly() {
    let sub = make_subscribe_frame(&vec![1, 2, -3]).expect("identifiers encode");
    assert_eq!(sub, br#"{"message":"subscribe","subscribe":[1,2,-3]}"#.to_vec());
    let empty = make_subscribe_frame(&Vec::new()).expect("identifiers encode");
    assert_eq!(empty, br#"{"message":"subscribe","subscribe":[]}"#.to_vec());
    let loc = make_location_frame(&b"eu-west".to_vec()).expect("plain text encodes");
    assert_eq!(loc, br#"{"message":"location","location":"eu-west"}"#.to_vec());
}

#[test]
fn encoder_escapes_and_parses_back() {
    let v = Json::Obj(vec![(b"k\"ey".to_vec(), Json::Str(b"a\\b\nc".to_vec()))]);
    let bytes = encode_json(&v).expect("encodable");
    assert_eq!(bytes, br#"{"k\"ey":"a\\b\nc"}"#.to_vec());
    // what the encoder wrote, the parser reads back
    assert!(parse_frame(&bytes).is_some());
    // and the reference parser agrees it is valid JSON
    assert!(serde_json::from_slice::<serde_json::Value>(&bytes).is_ok());
}

#[test]
fn encoder_refuses_unencodable_trees() {
    assert!(encode_json(&Json::BigNum).is_none());
    // a control byte with no named escape
    assert!(encode_json(&Json::Str(vec![7u8])).is_none());
}
