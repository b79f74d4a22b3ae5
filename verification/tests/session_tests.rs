use claudioos::display::{
    blend_color, blend_pixel, blend_rect, draw_led_overlay, rgba_to_minifb_pixels,
};
use claudioos::image::{board_image_pixels, decode_board_image, ImageError, PngFrame};
use claudioos::session::{
    blink_event_marks, blink_program, blink_states, event_action, event_port_name, image_led_states, run_blink_program,
    run_image, LedTraceError, GPIOD_BSHR,
};
use claudioos::text::{join_functions, kind_name, pin_cell, pin_row};
use claudioos::{one_dollar_board_pinout, BusFault, PinKind, StopReason};

#[test]
fn blink_program_blinks_once_per_run() {
    assert_eq!(blink_program().len(), 5);
    let (machine, reason) = run_blink_program();
    assert_eq!(reason, StopReason::Ebreak);
    assert_eq!(machine.cycles(), 5);
    assert_eq!(blink_states(3), vec![true, false, true, false, true, false]);
    assert!(blink_states(0).is_empty());
}

fn image_of(words: &[u32]) -> Vec<u8> {
    let mut image = Vec::new();
    for w in words {
        image.extend_from_slice(&w.to_le_bytes());
    }
    image
}

#[test]
fn runs_an_image_and_collects_led_states() {
    // lui x1, 0x40011 ; addi x2, x0, 64 ; sw x2, 0x410(x1) ; lui x3, 0x400 ; sw x3, 0x410(x1) ; ebreak
    let image = image_of(&[
        0x4001_10b7,
        0x0400_0113,
        0x4020_a823,
        0x0040_01b7,
        0x4030_a823,
        0x0010_0073,
    ]);
    let run = run_image::<8>(&image, 100).unwrap();
    assert_eq!(run.reason, StopReason::Ebreak);
    assert_eq!(run.cycles, 6);
    assert_eq!(run.events.len(), 2);
    assert_eq!(run.events[0].address, GPIOD_BSHR);
    // PD6 driven high (LED dark), then low (LED lit): the LED is active-low.
    assert_eq!(image_led_states(&image), Ok(vec![false, true]));
    assert_eq!(event_port_name(run.events[0].address), "GPIOD");
    assert_eq!(event_action(run.events[0].value), "set");
    assert_eq!(event_action(run.events[1].value), "reset");
    assert_eq!(event_action(0), "write");
    assert_eq!(event_port_name(0x4001_1010), "GPIOC");
    assert_eq!(event_port_name(0x4001_100c), "GPIO");
}

#[test]
fn image_without_led_writes_reports_how_it_ended() {
    let image = image_of(&[0x0010_0073]);
    assert_eq!(
        image_led_states(&image),
        Err(LedTraceError::NoLedEvents { reason: StopReason::Ebreak, pc: 0, cycles: 1 })
    );
    let too_big = vec![0u8; 65537];
    assert_eq!(
        image_led_states(&too_big),
        Err(LedTraceError::Load(BusFault::OutOfRange { address: 65537 }))
    );
}

#[test]
fn formats_pinout_cells_and_rows() {
    let pinout = one_dollar_board_pinout();
    assert_eq!(pin_cell(pinout.pin(1)), " 1 PC1  digital ");
    assert_eq!(pin_cell(pinout.pin(19)), "19 PD6  digital ");
    assert_eq!(pin_cell(pinout.pin(20)), "                  ");
    assert_eq!(pin_cell(pinout.pin(10)), "10 +3V3 power   ");
    assert_eq!(kind_name(PinKind::Ground), "ground");
    assert_eq!(join_functions(&["GPIO", "A6", "URX"]), "GPIO,A6,URX");
    assert_eq!(join_functions(&[]), "");
    assert_eq!(
        pin_row(pinout.pin(0).unwrap()),
        " 0 PC0  digital RJ-3   GPIO,T2CH3,NSS,T1CH3,UTX_"
    );
    assert_eq!(pin_row(pinout.pin(12).unwrap()), "12 PD1  digital -      GPIO,SWIO,AETR2,T1CH3N,SCL_,URX_");
}

#[test]
fn composites_and_blends_pixels() {
    // opaque red, transparent anything, half-transparent black
    let pixels = rgba_to_minifb_pixels(&[255, 0, 0, 255, 10, 20, 30, 0, 0, 0, 0, 128, 9]);
    assert_eq!(pixels, vec![0xff0000, 0xffffff, 0x7f7f7f]);
    assert_eq!(blend_color(0x000000, 0xffffff, 255), 0xffffff);
    assert_eq!(blend_color(0x102030, 0xffffff, 0), 0x102030);
    assert_eq!(blend_color(0x000000, 0x12c958, 155), 0x0a7a35);

    let mut buffer = vec![0u32; 6];
    blend_pixel(&mut buffer, 3, 1, 1, 0xffffff, 255);
    assert_eq!(buffer, vec![0, 0, 0, 0, 0xffffff, 0]);
    blend_pixel(&mut buffer, 3, 0, 5, 0xffffff, 255);
    assert_eq!(buffer, vec![0, 0, 0, 0, 0xffffff, 0]);

    let mut buffer = vec![0u32; 9];
    blend_rect(&mut buffer, 3, 1, 1, 2, 2, 0x0000ff, 255);
    assert_eq!(buffer, vec![0, 0, 0, 0, 0xff, 0xff, 0, 0xff, 0xff]);

    let mut image = vec![0u32; 300 * 300];
    draw_led_overlay(&mut image, 300, false);
    assert!(image.iter().all(|p| *p == 0));
    draw_led_overlay(&mut image, 300, true);
    assert_eq!(image[276 * 300 + 112], 0x0a7a35);
    assert_eq!(image[283 * 300 + 123], 0x0a7a35);
    assert_eq!(image[284 * 300 + 112], 0);
    assert_eq!(image.iter().filter(|p| **p != 0).count(), 12 * 8);
}

fn encode_png(width: u32, height: u32, color: png::ColorType, data: &[u8]) -> Vec<u8> {
    let mut out = Vec::new();
    {
        let mut encoder = png::Encoder::new(&mut out, width, height);
        encoder.set_color(color);
        encoder.set_depth(png::BitDepth::Eight);
        let mut writer = encoder.write_header().unwrap();
        writer.write_image_data(data).unwrap();
    }
    out
}

#[test]
fn decodes_the_board_image() {
    let png_bytes = encode_png(2, 1, png::ColorType::Rgba, &[255, 0, 0, 255, 0, 0, 255, 255]);
    assert_eq!(decode_board_image(&png_bytes, 2, 1), Ok(vec![0xff0000, 0x0000ff]));
    assert_eq!(decode_board_image(&png_bytes, 3, 1), Err(ImageError::Dimensions));
    let rgb = encode_png(1, 1, png::ColorType::Rgb, &[1, 2, 3]);
    assert_eq!(decode_board_image(&rgb, 1, 1), Err(ImageError::Format));
    assert!(matches!(decode_board_image(&[1, 2, 3], 1, 1), Err(ImageError::Decode(_))));
}

#[test]
fn board_image_pixels_needs_8_bit_rgba() {
    let frame = |color_type: u8, bit_depth: u8| PngFrame {
        width: 1,
        height: 1,
        color_type,
        bit_depth,
        data: vec![0, 0, 0, 255],
    };
    assert_eq!(board_image_pixels(frame(6, 8), 1, 1), Ok(vec![0]));
    assert_eq!(board_image_pixels(frame(6, 16), 1, 1), Err(ImageError::Format));
    assert_eq!(board_image_pixels(frame(2, 8), 1, 1), Err(ImageError::Format));
    assert_eq!(board_image_pixels(frame(6, 8), 2, 1), Err(ImageError::Dimensions));
}

#[test]
fn blink_event_marks_show_the_led() {
    assert_eq!(blink_event_marks(0), ("off", "."));
    assert_eq!(blink_event_marks(1), ("on", "*"));
}
