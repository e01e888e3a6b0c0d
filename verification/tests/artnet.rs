use artnet_control::artnet::{
    create_dmx_packet, create_sync_packet, default_layers, encode_layers, parse_axis_token,
    saturate_u8, Axis, AxisToken, Dimmer, Raster, RasterError, Slicing, RGB,
};

fn sync() -> Vec<u8> {
    vec![b'A', b'r', b't', b'-', b'N', b'e', b't', 0, 0x00, 0x52, 0x00, 0x0e, 0x00, 0x00]
}

fn dmx(universe: u16, payload: &[u8]) -> Vec<u8> {
    let mut packet = vec![b'A', b'r', b't', b'-', b'N', b'e', b't', 0, 0x00, 0x50, 0x00, 0x0e, 0, 0];
    packet.push((universe & 0xff) as u8);
    packet.push((universe >> 8) as u8);
    packet.push((payload.len() >> 8) as u8);
    packet.push((payload.len() & 0xff) as u8);
    packet.extend_from_slice(payload);
    packet
}

fn raster_of(width: usize, height: usize, length: usize) -> Raster {
    let mut raster = Raster::new(width, height, length, None).unwrap();
    for i in 0..raster.data.len() {
        let v = (3 * i) as u8;
        raster.data[i] = RGB::new(v + 1, v + 2, v + 3);
    }
    raster
}

#[test]
fn sync_packet_is_fourteen_bytes() {
    assert_eq!(create_sync_packet(), sync());
}

#[test]
fn dmx_packet_layout() {
    let packet = create_dmx_packet(0x0102, &[10, 20, 30]);
    assert_eq!(
        packet,
        vec![
            b'A', b'r', b't', b'-', b'N', b'e', b't', 0, 0x00, 0x50, 0x00, 0x0e, 0x00, 0x00, 0x02,
            0x01, 0x00, 0x03, 10, 20, 30
        ]
    );
    let long = create_dmx_packet(7, &[9; 510]);
    assert_eq!(long.len(), 528);
    assert_eq!(&long[14..18], &[7, 0, 0x01, 0xfe]);
}

#[test]
fn saturation_clamps() {
    assert_eq!(saturate_u8(-5), 0);
    assert_eq!(saturate_u8(0), 0);
    assert_eq!(saturate_u8(128), 128);
    assert_eq!(saturate_u8(255), 255);
    assert_eq!(saturate_u8(256), 255);
    assert_eq!(saturate_u8(i64::MAX), 255);
    assert_eq!(saturate_u8(i64::MIN), 0);
}

#[test]
fn single_layer_frame() {
    let mut raster = Raster::new(2, 1, 1, None).unwrap();
    assert_eq!(raster.set_pix(0, 0, 0, RGB::new(10, 20, 30)), Ok(()));
    assert_eq!(raster.set_pix(1, 0, 0, RGB::new(40, 50, 60)), Ok(()));
    let frame = raster.encode(0, &Dimmer::full(), 510, 3, 1, None).unwrap();
    assert_eq!(
        frame,
        vec![dmx(0, &[0x0A, 0x14, 0x1E, 0x28, 0x32, 0x3C]), sync()]
    );
}

#[test]
fn full_brightness_sends_every_channel_as_it_is() {
    let raster = raster_of(3, 2, 2);
    let frame = raster.encode(4, &Dimmer::full(), 510, 3, 1, None).unwrap();
    let first: Vec<u8> = (1..=18).collect();
    let second: Vec<u8> = (19..=36).collect();
    assert_eq!(frame, vec![dmx(4, &first), dmx(7, &second), sync()]);
}

#[test]
fn layers_are_cut_into_universes() {
    let raster = raster_of(2, 1, 2);
    let frame = raster.encode(10, &Dimmer::full(), 4, 3, 1, None).unwrap();
    assert_eq!(
        frame,
        vec![
            dmx(10, &[1, 2, 3, 4]),
            dmx(11, &[5, 6]),
            dmx(13, &[7, 8, 9, 10]),
            dmx(14, &[11, 12]),
            sync()
        ]
    );
}

#[test]
fn channel_span_groups_output_positions() {
    let raster = raster_of(1, 1, 4);
    assert_eq!(default_layers(4, 2), vec![0, 2]);
    assert_eq!(default_layers(5, 2), vec![0, 2, 4]);
    assert_eq!(default_layers(0, 2), Vec::<usize>::new());
    let frame = raster.encode(0, &Dimmer::full(), 510, 3, 2, None).unwrap();
    // Output positions 0 and 1 both fall into block 0.
    assert_eq!(frame, vec![dmx(0, &[1, 2, 3]), dmx(0, &[7, 8, 9]), sync()]);
    let listed = raster
        .encode(0, &Dimmer::full(), 510, 3, 2, Some(vec![3, 9, 1]))
        .unwrap();
    // Layer 9 lies outside the data and is passed over; position 2 is in block 1.
    assert_eq!(listed, vec![dmx(0, &[10, 11, 12]), dmx(3, &[4, 5, 6]), sync()]);
}

#[test]
fn dimmer_table_is_applied_per_channel() {
    let raster = raster_of(1, 1, 1);
    let halves: Vec<u8> = (0..256).map(|v| (v / 2) as u8).collect();
    let dimmer = Dimmer::from_levels(halves).unwrap();
    assert_eq!(dimmer.apply(255), 127);
    let frame = raster.encode(0, &dimmer, 510, 3, 1, None).unwrap();
    assert_eq!(frame, vec![dmx(0, &[0, 1, 1]), sync()]);
    assert!(Dimmer::from_levels(vec![0; 255]).is_none());
    assert!(Dimmer::from_levels(vec![0; 257]).is_none());
    assert_eq!(Dimmer::full().apply(200), 200);
}

#[test]
fn universes_beyond_sixteen_bits_are_refused() {
    let raster = raster_of(2, 1, 2);
    assert!(raster.encode(65_535, &Dimmer::full(), 510, 0, 1, None).is_some());
    assert!(raster.encode(65_535, &Dimmer::full(), 4, 0, 1, None).is_none());
    assert!(raster.encode(65_533, &Dimmer::full(), 510, 3, 1, None).is_none());
    let last = raster.encode(65_532, &Dimmer::full(), 510, 3, 1, None).unwrap();
    assert_eq!(last.len(), 3);
    assert_eq!(&last[1][14..16], &[0xff, 0xff]);
}

#[test]
fn empty_frame_is_a_sync_packet() {
    let raster = Raster::new(0, 5, 3, None).unwrap();
    assert_eq!(
        raster.encode(0, &Dimmer::full(), 510, 3, 1, None).unwrap(),
        vec![sync()]
    );
    let slicing = Slicing {
        base_universe: 0,
        layer_cells: 2,
        channels_per_universe: 510,
        universes_per_layer: 3,
        channel_span: 1,
    };
    let data = vec![RGB::new(1, 2, 3)];
    assert_eq!(
        encode_layers(&slicing, &data, &Dimmer::full(), &vec![0]).unwrap(),
        vec![sync()]
    );
}

#[test]
fn orientation_tokens() {
    assert_eq!(
        parse_axis_token("X"),
        Some(AxisToken { axis: Axis::X, negative: false })
    );
    assert_eq!(
        parse_axis_token("+Y"),
        Some(AxisToken { axis: Axis::Y, negative: false })
    );
    assert_eq!(
        parse_axis_token("-Z"),
        Some(AxisToken { axis: Axis::Z, negative: true })
    );
    assert_eq!(parse_axis_token(""), None);
    assert_eq!(parse_axis_token("-"), None);
    assert_eq!(parse_axis_token("W"), None);
    let token = AxisToken { axis: Axis::Y, negative: true };
    assert_eq!(token.name(), "-Y");
    assert_eq!(parse_axis_token(&token.name()), Some(token));
}

#[test]
fn raster_construction_errors() {
    assert!(matches!(
        Raster::new(1, 1, 1, Some(vec!["X".to_string(), "Y".to_string()])),
        Err(RasterError::InvalidOrientation)
    ));
    assert!(matches!(
        Raster::new(
            1,
            1,
            1,
            Some(vec!["X".to_string(), "Q".to_string(), "Z".to_string()])
        ),
        Err(RasterError::InvalidAxis)
    ));
    let raster = Raster::new(2, 3, 4, None).unwrap();
    assert_eq!(raster.get_width(), 2);
    assert_eq!(raster.get_height(), 3);
    assert_eq!(raster.get_length(), 4);
    assert_eq!(raster.get_data(), vec![RGB::new(0, 0, 0); 24]);
    assert_eq!(raster.get_orientation(), vec!["X", "Y", "Z"]);
}

#[test]
fn pixels_follow_the_orientation() {
    let names = vec!["-X".to_string(), "Y".to_string(), "-Z".to_string()];
    let mut raster = Raster::new(3, 2, 2, Some(names)).unwrap();
    let color = RGB::new(9, 8, 7);
    assert_eq!(raster.set_pix(0, 1, 0, color), Ok(()));
    // tx = 3 - 1 - 0 = 2, ty = 1, tz = 2 - 1 - 0 = 1: 1 * 3 + 2 + 1 * 6 = 11.
    assert_eq!(raster.data[11], color);
    assert_eq!(raster.get_pix(0, 1, 0), Ok(color));
    assert_eq!(raster.get_pix(1, 1, 0), Ok(RGB::new(0, 0, 0)));
    assert_eq!(raster.get_orientation(), vec!["-X", "Y", "-Z"]);
    raster.clear();
    assert_eq!(raster.data, vec![RGB::new(0, 0, 0); 12]);
}

#[test]
fn pixels_outside_are_turned_down() {
    let mut raster = Raster::new(3, 2, 2, None).unwrap();
    let color = RGB::new(1, 1, 1);
    assert_eq!(raster.set_pix(3, 9, 9, color), Err(RasterError::XOutOfRange));
    assert_eq!(raster.set_pix(2, 2, 9, color), Err(RasterError::YOutOfRange));
    assert_eq!(raster.set_pix(2, 1, 2, color), Err(RasterError::ZOutOfRange));
    assert_eq!(raster.get_pix(0, 0, 2), Err(RasterError::CoordinatesOutOfBounds));
    assert_eq!(
        raster.set_pix_direct(0, 2, 0, color),
        Err(RasterError::CoordinatesOutOfBounds)
    );
    assert_eq!(raster.data, vec![RGB::new(0, 0, 0); 12]);
    assert_eq!(raster.set_pix_direct(2, 1, 1, color), Ok(()));
    assert_eq!(raster.data[11], color);
    // An orientation that swaps x and y leads outside a raster that is not square.
    let swapped = vec!["Y".to_string(), "X".to_string(), "Z".to_string()];
    let mut tall = Raster::new(3, 1, 1, Some(swapped)).unwrap();
    assert_eq!(tall.set_pix(2, 0, 0, color), Err(RasterError::CellOutOfRange));
    assert_eq!(tall.get_pix(2, 0, 0), Err(RasterError::CellOutOfRange));
    assert_eq!(tall.set_pix(0, 0, 0, color), Ok(()));
}
