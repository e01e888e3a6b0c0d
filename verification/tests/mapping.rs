use artnet_control::leds::{
    clear_all_leds, led_update, LedState, NoteOn, LED_BLUE_ISH, LED_GREEN, LED_OFF, LED_ORANGE,
    LED_RED,
};
use artnet_control::mapping::{lfo_source_of, AppState, Drive, LedUpdateRequest};
use artnet_control::osc::{effect_address, plan_bundle, OscInput, OscItem, OscMessageIn};

fn note_of(r_vis: u8, c_vis: u8) -> u8 {
    (7 - r_vis) * 8 + c_vis
}

fn press(state: &mut AppState, r_vis: u8, c_vis: u8) -> Option<LedUpdateRequest> {
    state.handle_midi(&[0x90, note_of(r_vis, c_vis), 127])
}

fn mapped(state: &AppState, row: usize, col: usize) -> bool {
    state.mapping[row * 32 + col]
}

#[test]
fn start_state() {
    let state = AppState::new();
    assert_eq!(state.current_lfo_bank, 0);
    assert_eq!(state.current_effect_bank, 0);
    assert_eq!(state.mapping, vec![false; 1024]);
    assert_eq!(state.fader_override_active, vec![false; 128]);
    assert_eq!(state.fader_override_value, vec![0u8; 128]);
    assert_eq!(state.latest_lfo_values, vec![0u32; 32]);
    assert_eq!(state.drives(), vec![Drive::Hold; 32]);
}

#[test]
fn mapping_mutex() {
    let mut state = AppState::new();
    assert_eq!(press(&mut state, 0, 0), Some(LedUpdateRequest::FullRefresh));
    assert!(mapped(&state, 0, 0));
    assert_eq!(press(&mut state, 1, 0), Some(LedUpdateRequest::FullRefresh));
    assert!(mapped(&state, 1, 0));
    assert!(!mapped(&state, 0, 0));
}

#[test]
fn exclusivity_is_per_lfo_bank() {
    let mut state = AppState::new();
    press(&mut state, 2, 5);
    // LFO bank 1, same effect column.
    assert_eq!(
        state.handle_midi(&[0x90, 83, 1]),
        Some(LedUpdateRequest::BothRefresh)
    );
    assert_eq!(state.current_lfo_bank, 1);
    press(&mut state, 3, 5);
    press(&mut state, 4, 5);
    assert!(mapped(&state, 2, 5));
    assert!(!mapped(&state, 8 + 3, 5));
    assert!(mapped(&state, 8 + 4, 5));
    for col in 0..32 {
        for bank in 0..4 {
            let rows = (0..8).filter(|r| mapped(&state, bank * 8 + r, col)).count();
            assert!(rows <= 1);
        }
    }
    // Pressing a mapped cell unmaps it.
    press(&mut state, 4, 5);
    assert!(!mapped(&state, 8 + 4, 5));
}

#[test]
fn banks_and_ignored_messages() {
    let mut state = AppState::new();
    assert_eq!(state.handle_midi(&[]), None);
    assert_eq!(state.handle_midi(&[0x90]), None);
    assert_eq!(state.handle_midi(&[0x90, 85]), None);
    assert_eq!(state.handle_midi(&[0x90, 85, 0]), None);
    assert_eq!(state.current_lfo_bank, 0);
    assert_eq!(
        state.handle_midi(&[0x93, 85, 1]),
        Some(LedUpdateRequest::BothRefresh)
    );
    assert_eq!(state.current_lfo_bank, 3);
    assert_eq!(
        state.handle_midi(&[0x90, 88, 64]),
        Some(LedUpdateRequest::BothRefresh)
    );
    assert_eq!(state.current_effect_bank, 2);
    assert_eq!(state.handle_midi(&[0x90, 64, 64]), None);
    assert_eq!(state.handle_midi(&[0x90, 81, 64]), None);
    assert_eq!(state.handle_midi(&[0x90, 90, 64]), None);
    assert_eq!(state.handle_midi(&[0x80, 0, 64]), None);
    assert_eq!(state.handle_midi(&[0xB0, 47, 64]), None);
    assert_eq!(state.handle_midi(&[0xB0, 56, 64]), None);
    assert_eq!(state.mapping, vec![false; 1024]);
    // Top left button: row 0 of LFO bank 3, column 0 of effect bank 2.
    assert_eq!(
        state.handle_midi(&[0x90, 56, 1]),
        Some(LedUpdateRequest::FullRefresh)
    );
    assert!(mapped(&state, 24, 16));
    // Bottom right button.
    state.handle_midi(&[0x90, 7, 1]);
    assert!(mapped(&state, 31, 23));
}

#[test]
fn fader_override() {
    let mut state = AppState::new();
    press(&mut state, 0, 0);
    let quarter = 0.25f32.to_bits();
    state.process_osc_message("/lfo/1", Some(quarter));
    assert_eq!(state.latest_lfo_values[0], quarter);
    assert_eq!(state.drive(0), Drive::Lfo { row: 0, sample: quarter });
    assert_eq!(
        state.handle_midi(&[0xB0, 48, 64]),
        Some(LedUpdateRequest::FaderColumnRefresh { actual_effect_idx: 0 })
    );
    assert_eq!(state.drive(0), Drive::Fader { bank: 0, value: 64 });
    // A press on the column ends the override; the cell was mapped, so the
    // press also unmaps it and the output is held.
    press(&mut state, 0, 0);
    assert!(!state.fader_override_active[0]);
    assert_eq!(state.drive(0), Drive::Hold);
    // Mapped again, the LFO drives the output.
    press(&mut state, 0, 0);
    assert_eq!(state.drive(0), Drive::Lfo { row: 0, sample: quarter });
}

#[test]
fn first_fader_bank_wins_whatever_is_mapped() {
    let mut state = AppState::new();
    // Fader on effect 3 in LFO bank 2, then in LFO bank 1.
    state.handle_midi(&[0x90, 84, 1]);
    state.handle_midi(&[0xB0, 51, 100]);
    state.handle_midi(&[0x90, 83, 1]);
    state.handle_midi(&[0xB0, 51, 20]);
    assert_eq!(state.drive(3), Drive::Fader { bank: 1, value: 20 });
    // Mapping in bank 0 does not matter.
    state.handle_midi(&[0x90, 82, 1]);
    press(&mut state, 6, 3);
    assert!(mapped(&state, 6, 3));
    assert_eq!(state.drive(3), Drive::Fader { bank: 1, value: 20 });
    let all = state.drives();
    assert_eq!(all.len(), 32);
    assert_eq!(all[3], Drive::Fader { bank: 1, value: 20 });
    assert_eq!(all[4], Drive::Hold);
}

#[test]
fn only_the_current_lfo_bank_drives() {
    let mut state = AppState::new();
    press(&mut state, 5, 9 % 8);
    state.process_osc_message("/lfo/6", Some(77));
    assert_eq!(state.drive(1), Drive::Lfo { row: 5, sample: 77 });
    state.handle_midi(&[0x90, 83, 1]);
    assert_eq!(state.drive(1), Drive::Hold);
    // Samples land in the current bank.
    state.process_osc_message("/lfo/6", Some(5));
    assert_eq!(state.latest_lfo_values[13], 5);
    assert_eq!(state.latest_lfo_values[5], 77);
}

#[test]
fn lfo_addresses() {
    assert_eq!(lfo_source_of("/lfo/1"), Some(1));
    assert_eq!(lfo_source_of("/lfo/8"), Some(8));
    assert_eq!(lfo_source_of("/lfo/+3"), Some(3));
    assert_eq!(lfo_source_of("/lfo/007"), Some(7));
    assert_eq!(lfo_source_of("/lfo/0"), None);
    assert_eq!(lfo_source_of("/lfo/9"), None);
    assert_eq!(lfo_source_of("/lfo/18446744073709551617"), None);
    assert_eq!(lfo_source_of("/lfo/"), None);
    assert_eq!(lfo_source_of("/lfo/-1"), None);
    assert_eq!(lfo_source_of("/lfo/1 "), None);
    assert_eq!(lfo_source_of("/lfo/a/1"), None);
    assert_eq!(lfo_source_of("/lfo"), None);
    assert_eq!(lfo_source_of("/LFO/1"), None);
    assert_eq!(lfo_source_of("/_samplerate"), None);
    assert_eq!(lfo_source_of(""), None);
    let mut state = AppState::new();
    state.process_osc_message("/lfo/2", None);
    state.process_osc_message("/lfo/9", Some(1));
    state.process_osc_message("/other", Some(1));
    assert_eq!(state.latest_lfo_values, vec![0u32; 32]);
}

fn osc_message(addr: &str, sample: u32) -> OscMessageIn {
    OscMessageIn { addr: addr.to_string(), sample: Some(sample) }
}

#[test]
fn bundles_are_taken_in_one_level_deep() {
    let mut state = AppState::new();
    let packet = OscInput::Bundle {
        content: vec![
            OscItem::Message(osc_message("/lfo/1", 11)),
            OscItem::Bundle,
            OscItem::Message(osc_message("/lfo/3", 33)),
            OscItem::Message(osc_message("/lfo/1", 44)),
        ],
    };
    state.ingest_packet(&packet);
    assert_eq!(&state.latest_lfo_values[..4], &[44, 0, 33, 0]);
    state.ingest_packet(&OscInput::Message(osc_message("/lfo/2", 5)));
    assert_eq!(&state.latest_lfo_values[..4], &[44, 5, 33, 0]);
}

#[test]
fn datagrams_are_decoded() {
    let mut state = AppState::new();
    let message = rosc::OscPacket::Message(rosc::OscMessage {
        addr: "/lfo/4".to_string(),
        args: vec![rosc::OscType::Float(0.5), rosc::OscType::Int(3)],
    });
    state.handle_osc_input(&rosc::encoder::encode(&message).unwrap());
    assert_eq!(state.latest_lfo_values[3], 0.5f32.to_bits());
    let not_a_number = rosc::OscPacket::Message(rosc::OscMessage {
        addr: "/lfo/5".to_string(),
        args: vec![rosc::OscType::Int(3), rosc::OscType::Float(0.5)],
    });
    state.handle_osc_input(&rosc::encoder::encode(&not_a_number).unwrap());
    assert_eq!(state.latest_lfo_values[4], 0);
    let bundle = rosc::OscPacket::Bundle(rosc::OscBundle {
        timetag: rosc::OscTime { seconds: 0, fractional: 1 },
        content: vec![
            rosc::OscPacket::Message(rosc::OscMessage {
                addr: "/lfo/1".to_string(),
                args: vec![rosc::OscType::Float(-1.5)],
            }),
            rosc::OscPacket::Message(rosc::OscMessage {
                addr: "/lfo/8".to_string(),
                args: vec![rosc::OscType::Float(2.0)],
            }),
        ],
    });
    state.handle_osc_input(&rosc::encoder::encode(&bundle).unwrap());
    assert_eq!(state.latest_lfo_values[0], (-1.5f32).to_bits());
    assert_eq!(state.latest_lfo_values[7], 2.0f32.to_bits());
    let nested = rosc::OscPacket::Bundle(rosc::OscBundle {
        timetag: rosc::OscTime { seconds: 0, fractional: 1 },
        content: vec![bundle.clone()],
    });
    state.latest_lfo_values[0] = 0;
    state.handle_osc_input(&rosc::encoder::encode(&nested).unwrap());
    assert_eq!(state.latest_lfo_values[0], 0);
    let before = state.latest_lfo_values.clone();
    state.handle_osc_input(&[1, 2, 3]);
    state.handle_osc_input(&[]);
    assert_eq!(state.latest_lfo_values, before);
}

#[test]
fn bundle_holds_changed_columns_once() {
    let mut drives = vec![Drive::Hold; 32];
    drives[0] = Drive::Fader { bank: 0, value: 1 };
    drives[5] = Drive::Lfo { row: 2, sample: 9 };
    drives[31] = Drive::Fader { bank: 3, value: 127 };
    let mut differs = vec![false; 32];
    differs[0] = true;
    differs[7] = true;
    differs[31] = true;
    assert_eq!(plan_bundle(&drives, &differs), vec![0, 31]);
    assert_eq!(plan_bundle(&drives, &vec![false; 32]), Vec::<usize>::new());
    assert_eq!(plan_bundle(&drives, &vec![true; 32]), vec![0, 5, 31]);
    assert_eq!(effect_address(0), "/effect/1");
    assert_eq!(effect_address(9), "/effect/10");
    assert_eq!(effect_address(31), "/effect/32");
}

#[test]
fn leds_start_dark_and_are_cleared() {
    let leds = LedState::new();
    assert_eq!(leds.grid, vec![LED_OFF; 64]);
    assert_eq!(leds.lfo_banks, vec![LED_OFF; 4]);
    assert_eq!(leds.effect_banks, vec![LED_OFF; 4]);
    let writes = clear_all_leds();
    assert_eq!(writes.len(), 96);
    assert_eq!(writes[0], NoteOn { note: 0, velocity: 0 });
    assert_eq!(writes[95], NoteOn { note: 95, velocity: 0 });
}

#[test]
fn led_writes_only_where_something_changes() {
    let mut state = AppState::new();
    let mut leds = LedState::new();
    let first = led_update(LedUpdateRequest::BothRefresh, &state, &mut leds);
    assert_eq!(
        first,
        vec![
            NoteOn { note: 82, velocity: LED_ORANGE },
            NoteOn { note: 86, velocity: LED_BLUE_ISH }
        ]
    );
    assert!(led_update(LedUpdateRequest::BothRefresh, &state, &mut leds).is_empty());
    press(&mut state, 0, 0);
    press(&mut state, 7, 7);
    let grid = led_update(LedUpdateRequest::FullRefresh, &state, &mut leds);
    assert_eq!(
        grid,
        vec![
            NoteOn { note: 56, velocity: LED_GREEN },
            NoteOn { note: 7, velocity: LED_GREEN }
        ]
    );
    assert!(led_update(LedUpdateRequest::FullRefresh, &state, &mut leds).is_empty());
    // A fader on column 7 turns the mapped cell red.
    let request = state.handle_midi(&[0xB0, 55, 3]).unwrap();
    assert_eq!(
        led_update(request, &state, &mut leds),
        vec![NoteOn { note: 7, velocity: LED_RED }]
    );
    assert_eq!(leds.grid[63], LED_RED);
    // Another effect bank: the grid goes dark, the bank LED moves.
    state.handle_midi(&[0x90, 87, 1]);
    let moved = led_update(LedUpdateRequest::BothRefresh, &state, &mut leds);
    assert_eq!(
        moved,
        vec![
            NoteOn { note: 86, velocity: LED_OFF },
            NoteOn { note: 87, velocity: LED_BLUE_ISH },
            NoteOn { note: 56, velocity: LED_OFF },
            NoteOn { note: 7, velocity: LED_OFF }
        ]
    );
    // A column of another bank has no LEDs to reconcile.
    assert!(led_update(
        LedUpdateRequest::FaderColumnRefresh { actual_effect_idx: 7 },
        &state,
        &mut leds
    )
    .is_empty());
}

#[test]
fn single_led_writes() {
    let mut leds = LedState::new();
    let mut out = Vec::new();
    leds.send_grid_note_if_changed(&mut out, 1, 2, LED_GREEN);
    leds.send_grid_note_if_changed(&mut out, 1, 2, LED_GREEN);
    leds.send_grid_note_if_changed(&mut out, 8, 0, LED_GREEN);
    leds.send_grid_note_if_changed(&mut out, 0, 8, LED_GREEN);
    leds.send_lfo_bank_note_if_changed(&mut out, 3, LED_ORANGE);
    leds.send_lfo_bank_note_if_changed(&mut out, 4, LED_ORANGE);
    leds.send_effect_bank_note_if_changed(&mut out, 0, LED_BLUE_ISH);
    leds.send_effect_bank_note_if_changed(&mut out, 0, LED_BLUE_ISH);
    assert_eq!(
        out,
        vec![
            NoteOn { note: 50, velocity: 1 },
            NoteOn { note: 85, velocity: 5 },
            NoteOn { note: 86, velocity: 6 }
        ]
    );
    assert_eq!(leds.grid[10], LED_GREEN);
}
