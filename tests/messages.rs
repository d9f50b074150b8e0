use ximea_capture::messages::{
    classify_message, decode_message, is_kill, listener_step, parse_message, split_topic,
    JsonFault, ListenerAction, MessageType, TriggerEvent,
};

fn invalid_reason(m: &MessageType) -> String {
    match m {
        MessageType::InvalidJson(_, why) => why.clone(),
        other => panic!("expected InvalidJson, got {:?}", other),
    }
}

#[test]
fn decodes_trigger_record_with_topic() {
    let m = decode_message(
        "trigger {\"obj_id\": 7, \"frame\": 1234, \"timestamp\": 1.5, \"x\": -0.25, \"P00\": 3e-4}",
    );
    match m {
        MessageType::JsonData(e) => assert_eq!(e, TriggerEvent { obj_id: 7, frame: 1234 }),
        other => panic!("expected a trigger, got {:?}", other),
    }
}

#[test]
fn missing_fields_default_to_zero() {
    match parse_message("{\"x\": 1.0}") {
        MessageType::JsonData(e) => assert_eq!(e, TriggerEvent { obj_id: 0, frame: 0 }),
        other => panic!("expected a trigger, got {:?}", other),
    }
    match parse_message("{}") {
        MessageType::JsonData(e) => assert_eq!(e, TriggerEvent { obj_id: 0, frame: 0 }),
        other => panic!("expected a trigger, got {:?}", other),
    }
}

#[test]
fn blank_payloads_are_empty() {
    assert!(matches!(parse_message(""), MessageType::Empty));
    assert!(matches!(parse_message("  \t\n"), MessageType::Empty));
    assert!(matches!(decode_message("trigger "), MessageType::Empty));
    assert!(matches!(decode_message("trigger \u{3000}"), MessageType::Empty));
}

#[test]
fn plain_text_is_a_command() {
    match decode_message("kill") {
        MessageType::Text(t) => assert_eq!(t, "kill"),
        other => panic!("expected text, got {:?}", other),
    }
    match decode_message("trigger kill") {
        MessageType::Text(t) => assert_eq!(t, "kill"),
        other => panic!("expected text, got {:?}", other),
    }
    match decode_message("trigger hello there") {
        MessageType::Text(t) => assert_eq!(t, "hello there"),
        other => panic!("expected text, got {:?}", other),
    }
}

#[test]
fn shape_mismatches_are_malformed() {
    let why = invalid_reason(&parse_message("{\"obj_id\": -1}"));
    assert_eq!(why, "invalid value for obj_id: expected an unsigned 32-bit integer");
    let why = invalid_reason(&parse_message("{\"obj_id\": 4294967296}"));
    assert_eq!(why, "invalid value for obj_id: expected an unsigned 32-bit integer");
    let why = invalid_reason(&parse_message("{\"frame\": 2.5}"));
    assert_eq!(why, "invalid value for frame: expected an unsigned 64-bit integer");
    invalid_reason(&parse_message("{\"obj_id\": \"seven\"}"));
    invalid_reason(&parse_message("42"));
    invalid_reason(&parse_message("[1, 2"));
    invalid_reason(&parse_message("  {\"obj_id\": 1,"));
    match parse_message("{\"obj_id\": 4294967295, \"frame\": 18446744073709551615}") {
        MessageType::JsonData(e) => {
            assert_eq!(e, TriggerEvent { obj_id: u32::MAX, frame: u64::MAX })
        }
        other => panic!("expected a trigger, got {:?}", other),
    }
}

#[test]
fn malformed_keeps_raw_payload() {
    match decode_message("trigger {\"obj_id\": null}") {
        MessageType::InvalidJson(raw, why) => {
            assert_eq!(raw, "{\"obj_id\": null}");
            assert!(!why.is_empty());
        }
        other => panic!("expected InvalidJson, got {:?}", other),
    }
}

#[test]
fn classify_follows_reader_outcome() {
    let fault = |d: bool| JsonFault { is_data: d, message: String::from("reason") };
    assert!(matches!(classify_message("abc", Err(fault(false))), MessageType::Text(ref t) if t == "abc"));
    assert!(matches!(
        classify_message("abc", Err(fault(true))),
        MessageType::InvalidJson(ref r, ref w) if r == "abc" && w == "reason"
    ));
    assert!(matches!(
        classify_message(" {abc", Err(fault(false))),
        MessageType::InvalidJson(ref r, _) if r == " {abc"
    ));
    assert!(matches!(classify_message("  ", Err(fault(true))), MessageType::Empty));
    let members = vec![
        (String::from("frame"), Some(9u64)),
        (String::from("obj_id"), Some(3u64)),
        (String::from("x"), None),
    ];
    assert!(matches!(
        classify_message("{..}", Ok(members)),
        MessageType::JsonData(TriggerEvent { obj_id: 3, frame: 9 })
    ));
    let members = vec![(String::from("obj_id"), None)];
    assert!(matches!(classify_message("{..}", Ok(members)), MessageType::InvalidJson(_, _)));
}

#[test]
fn only_the_topic_token_is_dropped() {
    assert_eq!(split_topic("trigger {\"a\": 1}", "trigger"), "{\"a\": 1}");
    assert_eq!(split_topic("trigger kill", "trigger"), "kill");
    assert_eq!(split_topic("kill", "trigger"), "kill");
    assert_eq!(split_topic("a b c", "trigger"), "a b c");
    assert_eq!(split_topic("trigger", "trigger"), "trigger");
    assert_eq!(split_topic("triggered x", "trigger"), "triggered x");
    assert_eq!(split_topic("trigger ", "trigger"), "");
    assert_eq!(split_topic("", "trigger"), "");
    assert_eq!(split_topic("{not valid", "trigger"), "{not valid");
}

#[test]
fn unprefixed_text_is_kept_whole() {
    match decode_message("hello world") {
        MessageType::Text(t) => assert_eq!(t, "hello world"),
        other => panic!("expected text, got {:?}", other),
    }
}

#[test]
fn kill_command_is_recognised() {
    assert!(is_kill("kill"));
    assert!(!is_kill("kill "));
    assert!(!is_kill("Kill"));
    assert!(!is_kill(""));
}

#[test]
fn listener_decisions() {
    assert!(matches!(listener_step(None), ListenerAction::Wait));
    assert!(matches!(
        listener_step(Some("trigger kill")),
        ListenerAction::ForwardAndStop(MessageType::Text(ref t)) if t == "kill"
    ));
    assert!(matches!(
        listener_step(Some("trigger {\"obj_id\": 1, \"frame\": 2}")),
        ListenerAction::Forward(MessageType::JsonData(TriggerEvent { obj_id: 1, frame: 2 }))
    ));
    assert!(matches!(listener_step(Some("trigger {oops")), ListenerAction::Forward(MessageType::InvalidJson(_, _))));
}
