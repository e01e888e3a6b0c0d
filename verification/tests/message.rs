use artnet_control::message::{
    IncomingMessage, LineFields, MessageError, OutgoingMessage,
};
use bytes::Bytes;

#[test]
fn lcd_write_line() {
    let message = OutgoingMessage::LcdWrite {
        x: 19,
        y: 3,
        text: "a:b é".to_string(),
    };
    assert_eq!(message.to_wire(), "lcd:19:3:a:b é\n".as_bytes().to_vec());
    let far = OutgoingMessage::LcdWrite {
        x: 65_535,
        y: 0,
        text: String::new(),
    };
    assert_eq!(far.to_bytes(), Bytes::from("lcd:65535:0:\n"));
}

#[test]
fn backlight_line() {
    let message = OutgoingMessage::Backlight {
        states: vec![true, false, false, true],
    };
    assert_eq!(message.to_bytes(), Bytes::from("backlight:1:0:0:1\n"));
    let one = OutgoingMessage::Backlight { states: vec![false] };
    assert_eq!(one.to_bytes(), Bytes::from("backlight:0\n"));
    let none = OutgoingMessage::Backlight { states: vec![] };
    assert_eq!(none.to_bytes(), Bytes::from("backlight:\n"));
}

#[test]
fn led_line_is_base64_of_count_and_triplets() {
    let message = OutgoingMessage::Led {
        rgb_values: vec![(255, 0, 16), (1, 2, 3)],
    };
    // 02 00 ff 00 10 01 02 03
    assert_eq!(message.to_bytes(), Bytes::from("led:AgD/ABABAgM=\n"));
    let none = OutgoingMessage::Led { rgb_values: vec![] };
    assert_eq!(none.to_bytes(), Bytes::from("led:AAA=\n"));
    let many = OutgoingMessage::Led {
        rgb_values: vec![(0, 0, 0); 258],
    };
    let line = many.to_wire();
    // 02 01 00 ...: the count is 258, low byte first.
    assert_eq!(&line[..8], b"led:AgEA");
    assert_eq!(line.len(), 4 + 1036 + 1);
}

#[test]
fn led_lists_have_a_limit() {
    assert!(OutgoingMessage::Led { rgb_values: vec![(0, 0, 0); 65_535] }.fits_wire());
    assert!(!OutgoingMessage::Led { rgb_values: vec![(0, 0, 0); 65_536] }.fits_wire());
    assert!(OutgoingMessage::Noop.fits_wire());
    assert!(OutgoingMessage::Noop.is_noop());
    assert!(!OutgoingMessage::LcdClear.is_noop());
}

#[test]
fn heartbeat_is_read() {
    assert!(matches!(
        IncomingMessage::from_json("{\"type\":\"heartbeat\"}"),
        Ok(IncomingMessage::Heartbeat)
    ));
    assert!(matches!(
        IncomingMessage::from_json(" { \"type\" : \"heartbeat\", \"extra\": [1] } "),
        Ok(IncomingMessage::Heartbeat)
    ));
}

#[test]
fn controller_is_read() {
    match IncomingMessage::from_json("{\"type\":\"controller\",\"dip\":\"12\"}") {
        Ok(IncomingMessage::Controller { dip }) => assert_eq!(dip, "12"),
        other => panic!("{:?}", other),
    }
    assert!(matches!(
        IncomingMessage::from_json("{\"type\":\"controller\",\"dip\":12}"),
        Err(MessageError::UnknownFormat)
    ));
    assert!(matches!(
        IncomingMessage::from_json("{\"type\":\"controller\"}"),
        Err(MessageError::UnknownFormat)
    ));
}

#[test]
fn buttons_are_read() {
    match IncomingMessage::from_json("{\"buttons\":[true,false,true]}") {
        Ok(IncomingMessage::Button { buttons }) => assert_eq!(buttons, vec![true, false, true]),
        other => panic!("{:?}", other),
    }
    match IncomingMessage::from_json("{\"buttons\":[0,1,-3,0]}") {
        Ok(IncomingMessage::Button { buttons }) => {
            assert_eq!(buttons, vec![false, true, true, false])
        }
        other => panic!("{:?}", other),
    }
    match IncomingMessage::from_json("{\"buttons\":[],\"type\":\"heartbeat\"}") {
        Ok(IncomingMessage::Button { buttons }) => assert!(buttons.is_empty()),
        other => panic!("{:?}", other),
    }
    // A list that is neither of booleans nor of integers does not count.
    assert!(matches!(
        IncomingMessage::from_json("{\"buttons\":[true,1],\"type\":\"heartbeat\"}"),
        Ok(IncomingMessage::Heartbeat)
    ));
    assert!(matches!(
        IncomingMessage::from_json("{\"buttons\":\"on\"}"),
        Err(MessageError::UnknownFormat)
    ));
}

#[test]
fn other_lines_are_errors() {
    assert!(matches!(
        IncomingMessage::from_json("{\"type\":\"heartbeat\""),
        Err(MessageError::InvalidJson)
    ));
    assert!(matches!(
        IncomingMessage::from_json(""),
        Err(MessageError::InvalidJson)
    ));
    assert!(matches!(
        IncomingMessage::from_json("[1,2]"),
        Err(MessageError::UnknownFormat)
    ));
    assert!(matches!(
        IncomingMessage::from_json("{\"type\":\"Heartbeat\"}"),
        Err(MessageError::UnknownFormat)
    ));
    assert!(matches!(
        IncomingMessage::from_json("{\"type\":7}"),
        Err(MessageError::UnknownFormat)
    ));
}

#[test]
fn fields_decide_in_order() {
    let both = LineFields {
        flags: Some(vec![true]),
        numbers: Some(vec![0]),
        kind: Some("heartbeat".to_string()),
        name: None,
    };
    match IncomingMessage::from_fields(both) {
        Ok(IncomingMessage::Button { buttons }) => assert_eq!(buttons, vec![true]),
        other => panic!("{:?}", other),
    }
    let numbers = LineFields {
        flags: None,
        numbers: Some(vec![0, 7]),
        kind: Some("controller".to_string()),
        name: Some("x".to_string()),
    };
    match IncomingMessage::from_fields(numbers) {
        Ok(IncomingMessage::Button { buttons }) => assert_eq!(buttons, vec![false, true]),
        other => panic!("{:?}", other),
    }
    let nothing = LineFields {
        flags: None,
        numbers: None,
        kind: None,
        name: Some("x".to_string()),
    };
    assert!(matches!(
        IncomingMessage::from_fields(nothing),
        Err(MessageError::UnknownFormat)
    ));
}
