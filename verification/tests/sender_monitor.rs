use artnet_control::sender_monitor::{
    controller_key, key_in_order, parse_ip_for_sorting, sort_by_ip, ControllerStatus, CubeInfo,
    DebugCommand, DebugData, MappingTesterCommand, PowerDrawTesterCommand, SenderMonitor,
};

fn status_of(monitor: &mut SenderMonitor, ip: &str, now: i64) -> ControllerStatus {
    let stats = monitor.get_stats_at(now);
    stats
        .controllers
        .iter()
        .find(|c| c.ip == ip)
        .map(|c| c.copy())
        .unwrap()
}

#[test]
fn cooldown() {
    let mut monitor = SenderMonitor::new_at(0);
    monitor.register_controller_at("1.2.3.4".to_string(), 6454, 0);
    monitor.report_controller_failure_at("1.2.3.4", 6454, "refused", 1_000);
    monitor.report_controller_success_at("1.2.3.4", 6454, 2_000);
    monitor.report_controller_success_at("1.2.3.4", 6454, 30_999);
    let during = status_of(&mut monitor, "1.2.3.4", 30_999);
    assert!(during.is_connecting);
    assert!(!during.is_routable);
    assert_eq!(during.last_success, Some(30_999));
    assert_eq!(during.last_failure, Some(1_000));
    assert_eq!(during.failure_count, 1);
    assert_eq!(during.last_error, Some("refused".to_string()));
    assert_eq!(during.cooldown_until, Some(31_000));
    let after = status_of(&mut monitor, "1.2.3.4", 31_000);
    assert!(after.is_routable);
    assert!(!after.is_connecting);
    assert_eq!(after.cooldown_until, None);
    // The periodic look does not forget the error; a success does.
    assert_eq!(after.last_error, Some("refused".to_string()));
    monitor.report_controller_success_at("1.2.3.4", 6454, 40_000);
    assert_eq!(status_of(&mut monitor, "1.2.3.4", 40_000).last_error, None);
}

#[test]
fn success_at_the_end_of_the_cooldown_connects() {
    let mut monitor = SenderMonitor::new_at(0).with_cooldown_duration(5);
    assert_eq!(monitor.cooldown_ms, 5_000);
    monitor.register_controller_at("10.0.0.1".to_string(), 1, 0);
    monitor.report_controller_failure_at("10.0.0.1", 1, "first", 100);
    monitor.report_controller_failure_at("10.0.0.1", 1, "second", 200);
    assert_eq!(monitor.get_routable_controller_count(), 0);
    monitor.report_controller_success_at("10.0.0.1", 1, 5_199);
    assert_eq!(monitor.get_routable_controller_count(), 0);
    monitor.report_controller_success_at("10.0.0.1", 1, 5_200);
    assert_eq!(monitor.get_routable_controller_count(), 1);
    let status = status_of(&mut monitor, "10.0.0.1", 5_200);
    assert_eq!(status.failure_count, 2);
    assert_eq!(status.last_error, None);
    assert_eq!(status.last_failure, Some(200));
    monitor.set_cooldown_duration(1);
    assert_eq!(monitor.cooldown_ms, 1_000);
}

#[test]
fn unknown_targets_are_ignored() {
    let mut monitor = SenderMonitor::new_at(0);
    monitor.report_controller_failure_at("9.9.9.9", 1, "x", 5);
    monitor.report_controller_success_at("9.9.9.9", 1, 6);
    assert_eq!(monitor.get_controller_count(), 0);
    monitor.register_controller_at("9.9.9.9".to_string(), 1, 7);
    monitor.register_controller_at("9.9.9.9".to_string(), 2, 7);
    assert_eq!(monitor.get_controller_count(), 2);
    monitor.report_controller_failure_at("9.9.9.9", 1, "x", 8);
    // Registering again makes the target as new.
    monitor.register_controller_at("9.9.9.9".to_string(), 1, 9);
    assert_eq!(monitor.get_controller_count(), 2);
    assert_eq!(monitor.get_routable_controller_count(), 2);
    assert_eq!(controller_key("9.9.9.9", 6454), "9.9.9.9:6454");
    assert_eq!(controller_key("host", 0), "host:0");
}

#[test]
fn targets_are_listed_by_address_numbers() {
    let mut monitor = SenderMonitor::new_at(0);
    for ip in ["10.0.0.10", "10.0.0.9", "9.255.0.1", "10.0.0", "192.168.1.1"] {
        monitor.register_controller_at(ip.to_string(), 6454, 0);
    }
    let stats = monitor.get_stats_at(0);
    let order: Vec<&str> = stats.controllers.iter().map(|c| c.ip.as_str()).collect();
    assert_eq!(
        order,
        vec!["9.255.0.1", "10.0.0", "10.0.0.9", "10.0.0.10", "192.168.1.1"]
    );
}

#[test]
fn address_numbers() {
    assert_eq!(parse_ip_for_sorting("10.0.0.7"), vec![10, 0, 0, 7]);
    assert_eq!(parse_ip_for_sorting("255.256.+1.-1.01"), vec![255, 1, 1]);
    assert_eq!(parse_ip_for_sorting(""), Vec::<u8>::new());
    assert_eq!(parse_ip_for_sorting("..5."), vec![5]);
    assert_eq!(parse_ip_for_sorting("localhost"), Vec::<u8>::new());
    assert_eq!(parse_ip_for_sorting("1. 2.3"), vec![1, 3]);
    assert!(key_in_order(&vec![1, 2], &vec![1, 2]));
    assert!(key_in_order(&vec![1, 2], &vec![1, 2, 0]));
    assert!(!key_in_order(&vec![1, 2, 0], &vec![1, 2]));
    assert!(key_in_order(&vec![1, 9], &vec![2]));
    assert!(!key_in_order(&vec![2], &vec![1, 9]));
    assert!(key_in_order(&vec![], &vec![0]));
}

#[test]
fn sorting_keeps_equal_addresses_in_order() {
    let list: Vec<ControllerStatus> = [("b", 1), ("2.0", 2), ("a", 3), ("1.0", 4), ("2.0", 5)]
        .iter()
        .map(|(ip, port)| ControllerStatus::registered(ip.to_string(), *port, 0))
        .collect();
    let sorted = sort_by_ip(list);
    let ports: Vec<u16> = sorted.iter().map(|c| c.port).collect();
    assert_eq!(ports, vec![1, 3, 4, 2, 5]);
}

#[test]
fn frames_and_uptime() {
    let mut monitor = SenderMonitor::new_at(1_000);
    monitor.report_frame();
    monitor.report_frame();
    monitor.report_frame();
    let stats = monitor.get_stats_at(3_500);
    assert_eq!(stats.system.total_frames, 3);
    assert_eq!(stats.system.uptime_ms, 2_500);
    assert_eq!(stats.system.last_update, 3_500);
    assert!(stats.controllers.is_empty());
    monitor.frame_counter = u64::MAX;
    monitor.report_frame();
    assert_eq!(monitor.frame_counter, u64::MAX);
}

#[test]
fn status_transitions() {
    let mut status = ControllerStatus::registered("h".to_string(), 1, 10);
    assert!(status.is_routable && !status.is_connecting);
    assert_eq!(status.last_success, Some(10));
    status.promote(11);
    assert!(status.is_routable);
    status.fail("down", 20, -5);
    assert_eq!(status.cooldown_until, Some(15));
    status.succeed(15);
    assert!(status.is_routable);
    status.fail("down", i64::MAX - 1, 10);
    assert_eq!(status.cooldown_until, Some(i64::MAX));
    assert_eq!(status.failure_count, 2);
    status.promote(i64::MAX - 1);
    assert!(status.is_connecting);
    status.promote(i64::MAX);
    assert!(status.is_routable && !status.is_connecting);
    assert_eq!(status.last_error, Some("down".to_string()));
}

#[test]
fn debug_store() {
    let mut monitor = SenderMonitor::new_at(0);
    assert!(!monitor.is_debug_mode());
    assert!(monitor.get_debug_command().is_none());
    monitor.set_debug_mode(true);
    monitor.set_debug_pause(true);
    assert!(monitor.is_debug_mode() && monitor.is_paused());
    monitor.set_debug_command(DebugCommand {
        command_type: "mapping_tester".to_string(),
        mapping_tester: Some(MappingTesterCommand {
            orientation: "xz".to_string(),
            layer: 4,
            color: "#FF0000".to_string(),
        }),
        power_draw_tester: None,
    });
    let state = monitor.get_debug_state();
    assert_eq!(state.current_debug_command, Some("mapping_tester".to_string()));
    match state.debug_data {
        DebugData::MappingTester { orientation, layer, color } => {
            assert_eq!(orientation, "xz");
            assert_eq!(layer, 4);
            assert_eq!(color, "#FF0000");
        }
        other => panic!("{:?}", other),
    }
    // A clear command is stored and named, and leaves the numbers shown.
    monitor.set_debug_command(DebugCommand {
        command_type: "clear".to_string(),
        mapping_tester: None,
        power_draw_tester: None,
    });
    assert_eq!(monitor.get_debug_command().unwrap().command_type, "clear");
    assert!(matches!(
        monitor.get_debug_state().debug_data,
        DebugData::MappingTester { .. }
    ));
    monitor.set_debug_command(DebugCommand {
        command_type: "power_draw_tester".to_string(),
        mapping_tester: None,
        power_draw_tester: Some(PowerDrawTesterCommand {
            color: "#00FF00".to_string(),
            modulation_type: "sin".to_string(),
            frequency: 2.0f64.to_bits(),
            amplitude: 0.5f64.to_bits(),
            offset: 0.25f64.to_bits(),
            global_brightness: 1.0f64.to_bits(),
        }),
    });
    match monitor.get_debug_state().debug_data {
        DebugData::PowerDrawTester { modulation_type, frequency, .. } => {
            assert_eq!(modulation_type, "sin");
            assert_eq!(f64::from_bits(frequency), 2.0);
        }
        other => panic!("{:?}", other),
    }
    monitor.set_debug_mode(false);
    let off = monitor.get_debug_state();
    assert!(!off.is_debug_mode && !off.is_paused);
    assert_eq!(off.current_debug_command, None);
    assert!(matches!(off.debug_data, DebugData::Empty));
    // The stored command itself stays.
    assert!(monitor.get_debug_command().is_some());
}

#[test]
fn world_and_cubes() {
    let mut monitor = SenderMonitor::new_at(0);
    assert_eq!(monitor.get_world_dimensions(), None);
    monitor.set_world_dimensions(20, 30, 40);
    assert_eq!(monitor.get_world_dimensions(), Some((20, 30, 40)));
    assert!(monitor.get_cube_list().is_empty());
    monitor.set_cube_list(vec![CubeInfo {
        id: "cube_0".to_string(),
        position: (0, 0, 0),
        dimensions: (20, 20, 20),
    }]);
    let cubes = monitor.get_cube_list();
    assert_eq!(cubes.len(), 1);
    assert_eq!(cubes[0].id, "cube_0");
    assert_eq!(cubes[0].dimensions, (20, 20, 20));
}

#[test]
fn the_clock_stamps_reports() {
    let mut monitor = SenderMonitor::new();
    assert!(monitor.start_time > 1_577_836_800_000);
    monitor.register_controller("10.1.1.1".to_string(), 6454);
    monitor.report_controller_failure("10.1.1.1", 6454, "timeout");
    monitor.report_controller_success("10.1.1.1", 6454);
    monitor.update_controller_statuses();
    let stats = monitor.get_stats();
    assert_eq!(stats.controllers.len(), 1);
    let status = &stats.controllers[0];
    // Thirty seconds have not passed.
    assert!(status.is_connecting && !status.is_routable);
    assert_eq!(
        status.cooldown_until,
        Some(status.last_failure.unwrap() + 30_000)
    );
    assert!(status.last_success.unwrap() >= status.last_failure.unwrap());
    assert!(stats.system.uptime_ms >= 0);
}
