use dodjtime::display::{
    backlight_pins, be16, draw_rect_ops, Backlight, BusOp, Cmd, DisplayError, Driver, PowerState,
    COLUMN_ADDRESS_SET, DISPLAY_ON, ROW_ADDRESS_SET, SLEEP_IN, SOFTWARE_RESET, WRITE_TO_RAM,
};
use dodjtime::geom::{Point, Rect};

fn data_chunks_after_ram_write(ops: &[BusOp]) -> Vec<&Vec<u8>> {
    let mut seen_ram_write = false;
    let mut chunks = Vec::new();
    for op in ops {
        match op {
            BusOp::Command(c) if *c == WRITE_TO_RAM => seen_ram_write = true,
            BusOp::Data(d) if seen_ram_write => chunks.push(d),
            _ => {}
        }
    }
    chunks
}

#[test]
fn be16_splits_big_endian() {
    assert_eq!(be16(0x1234), (0x12, 0x34));
    assert_eq!(be16(0x00ff), (0x00, 0xff));
}

#[test]
fn a_300_byte_payload_splits_into_255_and_45() {
    // Scenario: 150 pixels = 300 bytes against the 255-byte DMA limit.
    let area = Rect::new(0, 0, 10, 15).unwrap();
    let payload: Vec<u8> = (0..300u32).map(|i| (i % 251) as u8).collect();
    let ops = draw_rect_ops(area, &payload).unwrap();
    let chunks = data_chunks_after_ram_write(&ops);
    assert_eq!(chunks.len(), 2);
    assert_eq!(chunks[0].len(), 255);
    assert_eq!(chunks[1].len(), 45);
    // No byte lost or duplicated, and in order.
    let mut rejoined = chunks[0].clone();
    rejoined.extend_from_slice(chunks[1]);
    assert_eq!(rejoined, payload);
}

#[test]
fn address_window_applies_scroll_offset_and_inclusive_ends() {
    let area = Rect::new(2, 3, 10, 7).unwrap();
    let payload = vec![0u8; 64];
    let ops = draw_rect_ops(area, &payload).unwrap();
    assert_eq!(ops[0], BusOp::SelectChip);
    assert_eq!(ops[1], BusOp::Command(COLUMN_ADDRESS_SET));
    // Columns get the 80-pixel scroll offset; ends are inclusive on the wire.
    assert_eq!(ops[2], BusOp::Data(vec![0, 82, 0, 89]));
    assert_eq!(ops[3], BusOp::Command(ROW_ADDRESS_SET));
    assert_eq!(ops[4], BusOp::Data(vec![0, 3, 0, 6]));
    assert_eq!(ops[5], BusOp::Command(WRITE_TO_RAM));
    assert_eq!(*ops.last().unwrap(), BusOp::DeselectChip);
}

#[test]
fn malformed_rects_are_rejected_before_any_traffic() {
    let backwards = Rect { x0: 10, y0: 0, x1: 5, y1: 5 };
    assert_eq!(
        draw_rect_ops(backwards, &vec![]),
        Err(DisplayError::RectMalformed)
    );
    let negative = Rect::new(-1, 0, 5, 5).unwrap();
    assert_eq!(
        draw_rect_ops(negative, &vec![]),
        Err(DisplayError::RectOutOfRange)
    );
}

#[test]
fn drawing_requires_power_on() {
    let mut driver = Driver::new();
    assert_eq!(driver.power_state(), PowerState::PoweredOff);
    let fill = Cmd::fill_rect_with_color(Rect::new(0, 0, 2, 2).unwrap(), 0xffff);
    assert_eq!(driver.handle(&fill), Err(DisplayError::NotPoweredOn));
    assert!(driver.handle(&Cmd::SleepOff).is_ok());
    assert_eq!(driver.power_state(), PowerState::PoweredOn);
    assert!(driver.handle(&fill).is_ok());
    assert!(driver.handle(&Cmd::SleepOn).is_ok());
    assert_eq!(driver.power_state(), PowerState::PoweredOff);
}

#[test]
fn wake_up_sequence_is_in_exact_order() {
    let mut driver = Driver::new();
    let ops = driver.handle(&Cmd::SleepOff).unwrap();
    // Hardware reset pulse first.
    assert_eq!(ops[0], BusOp::ResetHigh);
    assert_eq!(ops[1], BusOp::DelayMicros(10));
    assert_eq!(ops[2], BusOp::ResetLow);
    assert_eq!(ops[4], BusOp::ResetHigh);
    assert_eq!(ops[6], BusOp::SelectChip);
    assert_eq!(ops[7], BusOp::Command(SOFTWARE_RESET));
    // Pixel format: 65K RGB, 16 bits per pixel.
    assert!(ops.contains(&BusOp::Data(vec![0x55])));
    // Vertical scroll region fields sum to the panel's 320 lines.
    assert!(ops.contains(&BusOp::Data(vec![0, 0, 0x01, 0x40, 0, 0])));
    // Memory access control: column-reversed, page/col exchanged, line-reversed.
    assert!(ops.contains(&BusOp::Data(vec![0xb0])));
    // Display-on comes last before deselect.
    assert_eq!(ops[ops.len() - 2], BusOp::Command(DISPLAY_ON));
    assert_eq!(ops[ops.len() - 1], BusOp::DeselectChip);
}

#[test]
fn sleep_sequence() {
    let mut driver = Driver::new();
    let ops = driver.handle(&Cmd::SleepOn).unwrap();
    assert_eq!(
        ops,
        vec![
            BusOp::SelectChip,
            BusOp::Command(SLEEP_IN),
            BusOp::DelayMicros(10_000),
            BusOp::DeselectChip,
        ]
    );
}

#[test]
fn fill_rect_repeats_the_color_over_every_pixel() {
    let mut driver = Driver::new();
    driver.handle(&Cmd::SleepOff).unwrap();
    let fill = Cmd::fill_rect_with_color(Rect::new(0, 0, 4, 4).unwrap(), 0x1234);
    let ops = driver.handle(&fill).unwrap();
    let chunks = data_chunks_after_ram_write(&ops);
    assert_eq!(chunks.len(), 1);
    let expected: Vec<u8> = std::iter::repeat([0x12u8, 0x34u8])
        .take(16)
        .flatten()
        .collect();
    assert_eq!(*chunks[0], expected);
}

#[test]
fn draw_image_scales_by_pixel_replication() {
    let mut driver = Driver::new();
    driver.handle(&Cmd::SleepOff).unwrap();
    // A 2x1 image: one red-ish pixel, one blue-ish pixel, scaled by 2.
    let cmd = Cmd::DrawImage {
        top_left: Point::new(0, 0),
        image: vec![2, 1, 0xaa, 0xbb, 0xcc, 0xdd],
        scale: 2,
    };
    let ops = driver.handle(&cmd).unwrap();
    let chunks = data_chunks_after_ram_write(&ops);
    assert_eq!(chunks.len(), 1);
    // The scaled image is 4x2 pixels: each source pixel becomes a 2x2 block.
    assert_eq!(
        *chunks[0],
        vec![
            0xaa, 0xbb, 0xaa, 0xbb, 0xcc, 0xdd, 0xcc, 0xdd, // first scaled row
            0xaa, 0xbb, 0xaa, 0xbb, 0xcc, 0xdd, 0xcc, 0xdd, // second scaled row
        ]
    );
}

#[test]
fn malformed_images_are_rejected() {
    let mut driver = Driver::new();
    driver.handle(&Cmd::SleepOff).unwrap();
    // Payload shorter than its header promises.
    let short = Cmd::DrawImage {
        top_left: Point::new(0, 0),
        image: vec![2, 2, 0xaa],
        scale: 1,
    };
    assert_eq!(driver.handle(&short), Err(DisplayError::ImageMalformed));
    // Zero scale.
    let zero_scale = Cmd::DrawImage {
        top_left: Point::new(0, 0),
        image: vec![1, 1, 0xaa, 0xbb],
        scale: 0,
    };
    assert_eq!(driver.handle(&zero_scale), Err(DisplayError::ImageMalformed));
    // Off the addressable range.
    let off_screen = Cmd::DrawImage {
        top_left: Point::new(-1, 0),
        image: vec![1, 1, 0xaa, 0xbb],
        scale: 1,
    };
    assert_eq!(driver.handle(&off_screen), Err(DisplayError::RectOutOfRange));
}

#[test]
fn backlight_levels_drive_at_most_one_pin() {
    assert_eq!(backlight_pins(Backlight::Off), (false, false, false));
    assert_eq!(backlight_pins(Backlight::Low), (true, false, false));
    assert_eq!(backlight_pins(Backlight::Mid), (false, true, false));
    assert_eq!(backlight_pins(Backlight::High), (false, false, true));
    let mut driver = Driver::new();
    let ops = driver
        .handle(&Cmd::SetBacklight { level: Backlight::Mid })
        .unwrap();
    assert_eq!(ops, vec![BusOp::SetBacklightPins(false, true, false)]);
}

#[test]
fn power_on_wakes_clears_white_and_flashes_the_backlight() {
    let mut driver = Driver::new();
    let ops = driver.handle(&Cmd::PowerOn).unwrap();
    assert_eq!(driver.power_state(), PowerState::PoweredOn);
    // It starts with the wake-up sequence...
    assert_eq!(ops[0], BusOp::ResetHigh);
    // ...clears the 240x240 screen to white (115,200 bytes of 0xff)...
    let chunks = data_chunks_after_ram_write(&ops);
    let total: usize = chunks.iter().map(|c| c.len()).sum();
    assert_eq!(total, 240 * 240 * 2);
    assert!(chunks.iter().all(|c| c.iter().all(|b| *b == 0xff)));
    assert!(chunks.iter().all(|c| c.len() <= 255));
    // ...and ends with the three-second backlight flash.
    let n = ops.len();
    assert_eq!(ops[n - 3], BusOp::SetBacklightPins(false, false, true));
    assert_eq!(ops[n - 2], BusOp::DelayMicros(3_000_000));
    assert_eq!(ops[n - 1], BusOp::SetBacklightPins(false, false, false));
}
