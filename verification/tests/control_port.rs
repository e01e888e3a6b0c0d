use artnet_control::control_port::{ControlPort, ControlPortError};
use artnet_control::controller::{
    ControllerConfig, ControllerState, Ending, LogDirection, SupervisorAction, Tick,
};
use artnet_control::message::OutgoingMessage;
use bytes::Bytes;

fn create_test_controller_state() -> ControllerState {
    let config = ControllerConfig {
        ip: "127.0.0.1".to_string(),
        port: 1234,
    };
    ControllerState::new("test_dip".to_string(), config)
}

#[test]
fn test_lcd_commit_on_empty_buffer_causes_clear_command() {
    let mut controller = create_test_controller_state();

    controller.clear_display();

    let messages = controller.commit_display();

    assert_eq!(messages.len(), 1);
    match &messages[0] {
        OutgoingMessage::LcdClear => {}
        _ => panic!("Expected LcdClear message, got {:?}", messages[0]),
    }
}

#[test]
fn test_lcd_commit_with_changes_causes_lcd_command_to_be_sent() {
    let mut controller = create_test_controller_state();

    controller.write_display(0, 0, "Hello, world!");

    let messages = controller.commit_display();

    assert_eq!(messages.len(), 1);
    match &messages[0] {
        OutgoingMessage::LcdWrite { x, y, text } => {
            assert_eq!(*x, 0);
            assert_eq!(*y, 0);
            assert_eq!(text, "Hello, world!");
        }
        _ => panic!("Expected LcdWrite message, got {:?}", messages[0]),
    }
}

#[test]
fn test_lcd_commit_with_minimal_change_causes_correct_command_sequence() {
    let mut controller = create_test_controller_state();

    controller.write_display(0, 0, "Hello, world!");
    let messages1 = controller.commit_display();

    assert_eq!(messages1.len(), 1);
    match &messages1[0] {
        OutgoingMessage::LcdWrite { x, y, text } => {
            assert_eq!(*x, 0);
            assert_eq!(*y, 0);
            assert_eq!(text, "Hello, world!");
        }
        _ => panic!("Expected LcdWrite message, got {:?}", messages1[0]),
    }

    controller.write_display(0, 0, "Hello, there!");
    let messages2 = controller.commit_display();

    assert_eq!(messages2.len(), 1);
    match &messages2[0] {
        OutgoingMessage::LcdWrite { x, y, text } => {
            assert_eq!(*x, 7);
            assert_eq!(*y, 0);
            assert_eq!(text, "there");
        }
        _ => panic!("Expected LcdWrite message, got {:?}", messages2[0]),
    }
}

#[test]
fn test_lcd_commit_with_multiple_changes_causes_correct_command_sequence() {
    let mut controller = create_test_controller_state();

    controller.write_display(0, 0, "ABCDEFGH");
    controller.write_display(0, 1, "IJKLMNOP");
    let messages1 = controller.commit_display();

    assert_eq!(messages1.len(), 2);

    match &messages1[0] {
        OutgoingMessage::LcdWrite { x, y, text } => {
            assert_eq!(*x, 0);
            assert_eq!(*y, 0);
            assert_eq!(text, "ABCDEFGH");
        }
        _ => panic!("Expected LcdWrite message, got {:?}", messages1[0]),
    }

    match &messages1[1] {
        OutgoingMessage::LcdWrite { x, y, text } => {
            assert_eq!(*x, 0);
            assert_eq!(*y, 1);
            assert_eq!(text, "IJKLMNOP");
        }
        _ => panic!("Expected LcdWrite message, got {:?}", messages1[1]),
    }

    controller.write_display(0, 0, "ABCDEFGG");
    controller.write_display(0, 1, "JJKLMNOP");
    let messages2 = controller.commit_display();

    assert_eq!(messages2.len(), 2);

    match &messages2[0] {
        OutgoingMessage::LcdWrite { x, y, text } => {
            assert_eq!(*x, 7);
            assert_eq!(*y, 0);
            assert_eq!(text, "G");
        }
        _ => panic!("Expected LcdWrite message, got {:?}", messages2[0]),
    }

    match &messages2[1] {
        OutgoingMessage::LcdWrite { x, y, text } => {
            assert_eq!(*x, 0);
            assert_eq!(*y, 1);
            assert_eq!(text, "J");
        }
        _ => panic!("Expected LcdWrite message, got {:?}", messages2[1]),
    }
}

#[test]
fn test_find_contiguous_changes_logic() {
    let controller = create_test_controller_state();

    let mut front_buffer = vec![vec![' '; 20]; 4];
    let mut back_buffer = vec![vec![' '; 20]; 4];

    front_buffer[0][0..8].copy_from_slice(&['A', 'B', 'C', 'D', 'E', 'F', 'G', 'H']);
    front_buffer[1][0..8].copy_from_slice(&['I', 'J', 'K', 'L', 'M', 'N', 'O', 'P']);

    back_buffer[0][0..8].copy_from_slice(&['A', 'B', 'X', 'Y', 'E', 'F', 'G', 'H']);
    back_buffer[1][0..8].copy_from_slice(&['I', 'J', 'K', 'L', 'M', 'N', 'O', 'Q']);

    let changes_row0 = controller.find_contiguous_changes(&front_buffer, &back_buffer, 0);
    assert_eq!(changes_row0, vec![(2, 4)]);

    let changes_row1 = controller.find_contiguous_changes(&front_buffer, &back_buffer, 1);
    assert_eq!(changes_row1, vec![(7, 8)]);
}

#[test]
fn test_contiguous_changes_with_gaps() {
    let controller = create_test_controller_state();

    let mut front_buffer = vec![vec![' '; 20]; 4];
    let mut back_buffer = vec![vec![' '; 20]; 4];

    front_buffer[0][0..8].copy_from_slice(&['A', 'B', 'C', 'D', 'E', 'F', 'G', 'H']);
    back_buffer[0][0..8].copy_from_slice(&['A', 'X', 'C', 'D', 'E', 'Y', 'G', 'H']);

    let changes = controller.find_contiguous_changes(&front_buffer, &back_buffer, 0);
    assert_eq!(changes, vec![(1, 6)]);

    let mut back_buffer2 = vec![vec![' '; 20]; 4];
    back_buffer2[0][0..8].copy_from_slice(&['A', 'X', 'C', 'Y', 'E', 'F', 'G', 'H']);

    let changes2 = controller.find_contiguous_changes(&front_buffer, &back_buffer2, 0);
    assert_eq!(changes2, vec![(1, 4)]);
}

#[test]
fn test_display_buffer_management() {
    let mut controller = create_test_controller_state();

    controller.write_display(5, 2, "TEST");

    assert_eq!(controller.back_buffer[2][5], 'T');
    assert_eq!(controller.back_buffer[2][6], 'E');
    assert_eq!(controller.back_buffer[2][7], 'S');
    assert_eq!(controller.back_buffer[2][8], 'T');

    assert_eq!(controller.front_buffer[2][5], ' ');

    let _ = controller.commit_display();

    assert_eq!(controller.front_buffer[2][5], 'T');
    assert_eq!(controller.front_buffer[2][6], 'E');
    assert_eq!(controller.front_buffer[2][7], 'S');
    assert_eq!(controller.front_buffer[2][8], 'T');
}

#[test]
fn test_outgoing_message_serialization() {
    let clear_msg = OutgoingMessage::LcdClear;
    assert_eq!(clear_msg.to_bytes(), Bytes::from("lcd:clear\n"));

    let write_msg = OutgoingMessage::LcdWrite {
        x: 5,
        y: 2,
        text: "TEST".to_string(),
    };
    assert_eq!(write_msg.to_bytes(), Bytes::from("lcd:5:2:TEST\n"));

    let noop_msg = OutgoingMessage::Noop;
    assert_eq!(noop_msg.to_bytes(), Bytes::from("noop\n"));
}

fn texts(messages: &[OutgoingMessage]) -> Vec<String> {
    messages
        .iter()
        .map(|m| String::from_utf8(m.to_wire()).unwrap())
        .collect()
}

#[test]
fn display_diff_merges_ranges_three_cells_apart() {
    // Front row 0 "ABCDEFGH", back row 0 "AXCDEYGH": the changed cells 1
    // and 5 have three unchanged cells between them.
    let mut controller = create_test_controller_state();
    controller.write_display(0, 0, "ABCDEFGH");
    let _ = controller.commit_display();
    controller.write_display(0, 0, "AXCDEYGH");
    let messages = controller.commit_display();
    assert_eq!(texts(&messages), vec!["lcd:1:0:XCDEY\n".to_string()]);
}

#[test]
fn display_diff_splits_ranges_four_cells_apart() {
    let mut controller = create_test_controller_state();
    controller.write_display(0, 0, "ABCDEFGH");
    let _ = controller.commit_display();
    controller.write_display(0, 0, "AXCDEFYH");
    let messages = controller.commit_display();
    assert_eq!(
        texts(&messages),
        vec!["lcd:1:0:X\n".to_string(), "lcd:6:0:Y\n".to_string()]
    );
}

#[test]
fn display_all_blank_after_content() {
    let mut controller = create_test_controller_state();
    controller.write_display(0, 0, "Hi");
    let first = controller.commit_display();
    assert_eq!(texts(&first), vec!["lcd:0:0:Hi\n".to_string()]);
    controller.clear_display();
    let second = controller.commit_display();
    assert_eq!(texts(&second), vec!["lcd:clear\n".to_string()]);
    assert_eq!(controller.front_buffer, vec![vec![' '; 20]; 4]);
}

#[test]
fn second_identical_commit_sends_nothing() {
    let mut controller = create_test_controller_state();
    controller.write_display(3, 1, "status ok");
    let first = controller.commit_display();
    assert_eq!(texts(&first), vec!["lcd:3:1:status ok\n".to_string()]);
    let second = controller.commit_display();
    assert!(second.is_empty());
}

#[test]
fn write_display_truncates_and_ignores_positions_outside() {
    let mut controller = create_test_controller_state();
    controller.write_display(18, 3, "WXYZ");
    assert_eq!(controller.back_buffer[3][18], 'W');
    assert_eq!(controller.back_buffer[3][19], 'X');
    let before = controller.back_buffer.clone();
    controller.write_display(20, 0, "no");
    controller.write_display(0, 4, "no");
    assert_eq!(controller.back_buffer, before);
}

#[test]
fn refresh_sends_clear_and_trimmed_rows() {
    let mut controller = create_test_controller_state();
    controller.write_display(2, 0, "Hi there");
    controller.write_display(0, 3, "x");
    controller.force_display_refresh_at(1_000);
    assert_eq!(
        texts(&controller.outbox),
        vec![
            "lcd:clear\n".to_string(),
            "lcd:2:0:Hi there\n".to_string(),
            "lcd:0:3:x\n".to_string()
        ]
    );
}

#[test]
fn log_keeps_the_newest_thousand() {
    let mut controller = create_test_controller_state();
    for i in 0..1005 {
        controller.add_log_at(LogDirection::Info, format!("entry {}", i), None, i);
    }
    assert_eq!(controller.log.len(), 1000);
    assert_eq!(controller.log[0].message, "entry 5");
    assert_eq!(controller.log[999].message, "entry 1004");
    assert_eq!(controller.log[999].timestamp, 1004);
}

#[test]
fn noop_is_stamped_and_goes_stale() {
    let mut controller = create_test_controller_state();
    controller.send_message_at(OutgoingMessage::Noop, 10_000);
    assert_eq!(controller.last_noop_sent, Some(10_000));
    assert!(controller.noop_sent_active);
    let sample = controller.update_stats_at(13_000);
    assert!(sample.is_none());
    assert!(controller.stats.noop_sent_active);
    controller.update_stats_at(13_001);
    assert!(!controller.stats.noop_sent_active);
    assert!(!controller.noop_sent_active);
    assert_eq!(controller.stats.noop_sent_age_seconds_at(13_999), Some(3));
    assert_eq!(controller.stats.heartbeat_received_age_seconds_at(13_999), None);
}

#[test]
fn heartbeat_is_answered_with_a_noop() {
    let mut controller = create_test_controller_state();
    let event = controller.process_incoming_message_at("{\"type\":\"heartbeat\"}\n", 5_000);
    assert!(event.is_none());
    assert_eq!(controller.last_heartbeat_received, Some(5_000));
    assert!(controller.heartbeat_received_active);
    assert_eq!(controller.bytes_received, 21);
    assert_eq!(controller.messages_received, 1);
    assert_eq!(texts(&controller.outbox), vec!["noop\n".to_string()]);
    assert_eq!(controller.last_noop_sent, Some(5_000));
}

#[test]
fn buttons_are_handed_out_and_logged() {
    let mut controller = create_test_controller_state();
    let event = controller.process_incoming_message_at("{\"buttons\":[1,0,2]}", 7);
    assert_eq!(event, Some(vec![true, false, true]));
    assert_eq!(controller.log.len(), 1);
    assert_eq!(
        controller.log[0].message,
        "Received: Button state [true, false, true]"
    );
    assert_eq!(controller.log[0].direction, LogDirection::Incoming);
    assert_eq!(
        controller.log[0].raw_data,
        Some("{\"buttons\":[1,0,2]}".to_string())
    );
}

#[test]
fn identification_with_other_dip_is_noted() {
    let mut controller = create_test_controller_state();
    let event =
        controller.process_incoming_message_at("  {\"type\":\"controller\",\"dip\":\"7\"} ", 7);
    assert!(event.is_none());
    assert_eq!(controller.log.len(), 2);
    assert_eq!(
        controller.log[0].message,
        "Received: Controller identification with DIP: 7"
    );
    assert_eq!(
        controller.log[1].message,
        "DIP mismatch: expected test_dip, got 7"
    );
    assert_eq!(controller.log[1].direction, LogDirection::Info);
    // The line is kept without the white space at its ends; all its bytes count.
    assert_eq!(
        controller.log[0].raw_data,
        Some("{\"type\":\"controller\",\"dip\":\"7\"}".to_string())
    );
    assert_eq!(controller.bytes_received, 34);
}

#[test]
fn matching_identification_is_only_logged() {
    let mut controller = create_test_controller_state();
    controller.process_incoming_message_at("{\"type\":\"controller\",\"dip\":\"test_dip\"}", 7);
    assert_eq!(controller.log.len(), 1);
}

#[test]
fn the_clock_stamps_what_is_not_given_a_time() {
    let mut controller = create_test_controller_state();
    controller.add_log(LogDirection::Info, "now".to_string(), None);
    // Some time after the year 2020.
    assert!(controller.log[0].timestamp > 1_577_836_800_000);
    controller.send_message(OutgoingMessage::Noop);
    assert!(controller.last_noop_sent.unwrap() >= controller.log[0].timestamp);
    controller.process_incoming_message("{\"type\":\"heartbeat\"}");
    assert!(controller.last_heartbeat_received.unwrap() >= controller.log[0].timestamp);
    controller.update_stats();
    assert!(controller.stats.heartbeat_received_active);
    assert_eq!(controller.stats.heartbeat_received_age_seconds(), Some(0));
    assert!(controller.stats.noop_sent_age_seconds().unwrap() >= 0);
    controller.force_display_refresh();
    assert_eq!(controller.outbox.len(), 3);
    let mut port = ControlPort::new(
        "9".to_string(),
        ControllerConfig { ip: "h".to_string(), port: 1 },
    );
    port.update_connection_state(true);
    assert!(port.state.connected);
    assert!(port.state.connection_time.unwrap() > 1_577_836_800_000);
    port.start();
    assert_eq!(port.send_message(OutgoingMessage::Noop), Ok(()));
    assert_eq!(port.commit_display(), Ok(()));
}

#[test]
fn unreadable_and_empty_lines() {
    let mut controller = create_test_controller_state();
    assert!(controller.process_incoming_message_at("   \n", 1).is_none());
    assert_eq!(controller.messages_received, 0);
    assert_eq!(controller.log.len(), 0);
    assert!(controller.process_incoming_message_at("not json", 2).is_none());
    assert_eq!(controller.messages_received, 1);
    assert_eq!(controller.bytes_received, 8);
    assert_eq!(controller.log[0].direction, LogDirection::Error);
    assert_eq!(controller.log[0].message, "Failed to parse message: invalid JSON");
    assert!(controller.process_incoming_message_at("{\"a\":1}", 3).is_none());
    assert_eq!(
        controller.log[1].message,
        "Failed to parse message: Unknown message format: {\"a\":1}"
    );
}

#[test]
fn supervisor_decisions() {
    let mut controller = create_test_controller_state();
    assert_eq!(controller.supervise(Tick::Start), SupervisorAction::Connect);
    assert_eq!(controller.supervise(Tick::Reconnect), SupervisorAction::Connect);
    assert_eq!(controller.supervise(Tick::Heartbeat), SupervisorAction::Idle);
    assert_eq!(controller.supervise(Tick::Shutdown), SupervisorAction::Stop);
    let address = controller.begin_attempt();
    assert_eq!(address, "127.0.0.1:1234");
    assert_eq!(controller.connection_attempts, 1);
    controller.attempt_started_at(10);
    assert_eq!(
        controller.log[0].message,
        "Attempting connection to 127.0.0.1:1234"
    );
    controller.send_message_at(OutgoingMessage::LcdClear, 11);
    controller.connection_established_at(12);
    assert!(controller.connected);
    assert!(controller.outbox.is_empty());
    assert_eq!(controller.stats.connection_time, Some(12));
    assert_eq!(controller.supervise(Tick::Reconnect), SupervisorAction::Idle);
    assert_eq!(controller.supervise(Tick::Heartbeat), SupervisorAction::SendNoop);
    controller.refresh_after_connect_at(112);
    assert_eq!(texts(&controller.outbox), vec!["lcd:clear\n".to_string()]);
    controller.connection_ended_at(Ending::ReadError, "reset", 200);
    assert!(!controller.connected);
    let n = controller.log.len();
    assert_eq!(controller.log[n - 2].message, "Read error: reset");
    assert_eq!(controller.log[n - 1].message, "Connection closed");
    controller.attempt_failed_at(false, "refused", 300);
    assert_eq!(controller.log[n].message, "Connection failed: refused");
    controller.attempt_failed_at(true, "refused", 300);
    assert_eq!(controller.log[n + 1].message, "Initial connection failed: refused");
}

#[test]
fn throughput_sample_needs_more_than_a_tenth_of_a_second() {
    let mut controller = create_test_controller_state();
    assert!(controller.update_stats_at(1_000).is_none());
    controller.message_sent(500);
    controller.message_sent(500);
    assert_eq!(controller.bytes_sent, 1000);
    assert_eq!(controller.messages_sent, 2);
    assert!(controller.update_stats_at(1_100).is_none());
    let sample = controller.update_stats_at(1_201).unwrap();
    assert_eq!(sample.elapsed_ms, 101);
    assert_eq!(sample.sent, 1000);
    assert_eq!(sample.received, 0);
    let later = controller.update_stats_at(2_201).unwrap();
    assert_eq!(later.elapsed_ms, 1000);
    assert_eq!(later.sent, 0);
    assert_eq!(controller.stats.bytes_sent, 1000);
}

#[test]
fn queue_is_first_in_first_out() {
    let mut controller = create_test_controller_state();
    controller.send_message_at(OutgoingMessage::LcdClear, 1);
    controller.send_message_at(OutgoingMessage::Noop, 2);
    let first = controller.next_outgoing().unwrap();
    assert!(matches!(first, OutgoingMessage::LcdClear));
    let second = controller.next_outgoing().unwrap();
    assert!(matches!(second, OutgoingMessage::Noop));
    assert!(controller.next_outgoing().is_none());
}

#[test]
fn handle_needs_to_be_started() {
    let config = ControllerConfig {
        ip: "10.0.0.2".to_string(),
        port: 80,
    };
    let mut port = ControlPort::new("3".to_string(), config);
    assert_eq!(
        port.commit_display_at(1),
        Err(ControlPortError::NoControllerState)
    );
    assert_eq!(
        port.send_message_at(OutgoingMessage::Noop, 1),
        Err(ControlPortError::NoControllerState)
    );
    port.write_display(0, 0, "lost");
    assert!(port.get_controller_state().is_none());
    port.start();
    port.write_display(0, 0, "Hi");
    assert_eq!(port.commit_display_at(5), Ok(()));
    port.set_backlights(vec![true, false]);
    port.set_leds(vec![(1, 2, 3)]);
    let state = port.get_controller_state().unwrap();
    assert_eq!(
        texts(&state.outbox),
        vec![
            "lcd:0:0:Hi\n".to_string(),
            "backlight:1:0\n".to_string(),
            "led:AQABAgM=\n".to_string()
        ]
    );
    port.set_leds(vec![(0, 0, 0); 65_536]);
    assert_eq!(port.get_controller_state().unwrap().outbox.len(), 3);
    assert_eq!(
        port.send_message_at(
            OutgoingMessage::Led {
                rgb_values: vec![(0, 0, 0); 65_536]
            },
            9
        ),
        Err(ControlPortError::MessageTooLong)
    );
}

#[test]
fn handle_publishes_what_the_device_state_holds() {
    let config = ControllerConfig {
        ip: "10.0.0.2".to_string(),
        port: 80,
    };
    let mut port = ControlPort::new("3".to_string(), config);
    port.start();
    if let Some(controller) = port.controller_state.as_mut() {
        controller.connection_established_at(100);
        controller.message_sent(10);
    }
    let (stats, sample) = port.get_stats_at(200);
    assert!(sample.is_none());
    assert!(stats.connected);
    assert_eq!(stats.dip, "3");
    assert_eq!(stats.ip, "10.0.0.2");
    assert_eq!(stats.port, 80);
    assert_eq!(stats.bytes_sent, 10);
    assert_eq!(stats.messages_sent, 1);
    assert_eq!(stats.connection_time, Some(100));
    assert_eq!(stats.last_message_time, Some(200));
    assert!(port.state.connected);
    assert_eq!(port.state.connection_time, Some(200));
    assert_eq!(port.logs.len(), 1);
    port.shutdown();
    assert!(!port.state.connected);
    assert_eq!(port.state.last_error, Some("Shutdown".to_string()));
}
