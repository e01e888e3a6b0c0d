use artnet_control::controller::{ControllerConfig, ControllerState, LogDirection};
use artnet_control::text::{chars_of, join, parse_number, string_of};
use artnet_control::web::{
    contains_text, flag_request, mapping_tester_request, message_is_chatter,
    power_draw_tester_request, visible_logs, RequestError,
};

#[test]
fn keep_alive_traffic_is_hidden() {
    let config = ControllerConfig { ip: "127.0.0.1".to_string(), port: 1 };
    let mut controller = ControllerState::new("1".to_string(), config);
    let messages = [
        "Sent: Noop",
        "Connection closed",
        "Heartbeat failed: closed",
        "Sent: LcdClear",
        "got a heartbeat",
        "noop",
        "NOOP and HEARTBEAT",
    ];
    for (i, message) in messages.iter().enumerate() {
        controller.add_log_at(LogDirection::Info, message.to_string(), None, i as i64);
    }
    let shown = visible_logs(&controller.log);
    let texts: Vec<&str> = shown.iter().map(|e| e.message.as_str()).collect();
    assert_eq!(
        texts,
        vec!["Connection closed", "Sent: LcdClear", "NOOP and HEARTBEAT"]
    );
    assert_eq!(shown[0].timestamp, 1);
    assert!(message_is_chatter("xxnoopxx"));
    assert!(!message_is_chatter("no op"));
    assert!(!message_is_chatter(""));
}

#[test]
fn text_search() {
    let hay: Vec<char> = "abcabd".chars().collect();
    let find = |needle: &str| contains_text(&hay, &needle.chars().collect());
    assert!(find(""));
    assert!(find("abd"));
    assert!(find("abcabd"));
    assert!(find("d"));
    assert!(!find("abcabda"));
    assert!(!find("ac"));
    assert!(!contains_text(&Vec::new(), &vec!['a']));
    assert!(contains_text(&Vec::new(), &Vec::new()));
}

#[test]
fn text_helpers() {
    assert_eq!(chars_of("häh"), vec!['h', 'ä', 'h']);
    assert_eq!(join("ab", "cd"), "abcd");
    assert_eq!(join("", ""), "");
    let chars: Vec<char> = "x+042y".chars().collect();
    assert_eq!(string_of(&chars, 1, 5), "+042");
    assert_eq!(parse_number(&chars, 1, 5, 255), Some(42));
    assert_eq!(parse_number(&chars, 1, 5, 41), None);
    assert_eq!(parse_number(&chars, 2, 5, 42), Some(42));
    assert_eq!(parse_number(&chars, 1, 2, 255), None);
    assert_eq!(parse_number(&chars, 2, 2, 255), None);
    assert_eq!(parse_number(&chars, 0, 5, 255), None);
    assert_eq!(parse_number(&chars, 2, 6, 255), None);
    let big: Vec<char> = "00000000000000000000000000255".chars().collect();
    assert_eq!(parse_number(&big, 0, big.len(), 255), Some(255));
    let over: Vec<char> = "99999999999999999999999999999".chars().collect();
    assert_eq!(parse_number(&over, 0, over.len(), 255), None);
}

#[test]
fn flags_must_be_there() {
    assert_eq!(flag_request(Some(true), RequestError::MissingEnabled), Ok(true));
    assert_eq!(flag_request(Some(false), RequestError::MissingPaused), Ok(false));
    assert_eq!(
        flag_request(None, RequestError::MissingEnabled),
        Err(RequestError::MissingEnabled)
    );
    assert_eq!(RequestError::MissingEnabled.message(), "Missing 'enabled' field");
    assert_eq!(RequestError::MissingPaused.message(), "Missing 'paused' field");
    assert_eq!(
        RequestError::MissingMappingFields.message(),
        "Missing required fields: orientation, layer, color"
    );
    assert_eq!(
        RequestError::MissingPowerDrawFields.message(),
        "Missing required fields: color, modulation_type, frequency, amplitude, offset, global_brightness"
    );
}

#[test]
fn mapping_tester_requests() {
    let clear = mapping_tester_request(Some(true), None, None, None).unwrap();
    assert_eq!(clear.command_type, "clear");
    assert!(clear.mapping_tester.is_none() && clear.power_draw_tester.is_none());
    let full = mapping_tester_request(
        Some(false),
        Some("xy".to_string()),
        Some(3),
        Some("#112233".to_string()),
    )
    .unwrap();
    assert_eq!(full.command_type, "mapping_tester");
    let tester = full.mapping_tester.unwrap();
    assert_eq!(tester.orientation, "xy");
    assert_eq!(tester.layer, 3);
    assert_eq!(tester.color, "#112233");
    assert!(full.power_draw_tester.is_none());
    let missing = mapping_tester_request(None, Some("xy".to_string()), None, Some("c".to_string()));
    assert!(matches!(missing, Err(RequestError::MissingMappingFields)));
    assert!(matches!(
        mapping_tester_request(None, None, None, None),
        Err(RequestError::MissingMappingFields)
    ));
}

#[test]
fn power_draw_tester_requests() {
    let full = power_draw_tester_request(
        Some("#FFFFFF".to_string()),
        Some("square".to_string()),
        Some(1.5f64.to_bits()),
        Some(0.5f64.to_bits()),
        Some(0.0f64.to_bits()),
        Some(1.0f64.to_bits()),
    )
    .unwrap();
    assert_eq!(full.command_type, "power_draw_tester");
    assert!(full.mapping_tester.is_none());
    let tester = full.power_draw_tester.unwrap();
    assert_eq!(tester.color, "#FFFFFF");
    assert_eq!(tester.modulation_type, "square");
    assert_eq!(f64::from_bits(tester.frequency), 1.5);
    assert_eq!(f64::from_bits(tester.amplitude), 0.5);
    assert_eq!(f64::from_bits(tester.offset), 0.0);
    assert_eq!(f64::from_bits(tester.global_brightness), 1.0);
    let missing = power_draw_tester_request(
        Some("#FFFFFF".to_string()),
        Some("square".to_string()),
        Some(1),
        None,
        Some(1),
        Some(1),
    );
    assert!(matches!(missing, Err(RequestError::MissingPowerDrawFields)));
}
