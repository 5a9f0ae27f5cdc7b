use gc9a01a::{Line, Orientation, Step, GC9A01A};

fn command(opcode: u8, params: &[u8]) -> Vec<Step> {
    let mut steps: Vec<Step> = vec![
        Step::SetHigh(Line::ChipEnable),
        Step::SetLow(Line::Select),
        Step::SetLow(Line::ChipEnable),
        Step::Write(vec![opcode]),
    ];
    if !params.is_empty() {
        steps.push(Step::SetHigh(Line::Select));
        steps.extend(data(params));
    }
    steps.push(Step::SetHigh(Line::ChipEnable));
    steps
}

fn data(bytes: &[u8]) -> Vec<Step> {
    vec![
        Step::SetHigh(Line::ChipEnable),
        Step::SetHigh(Line::Select),
        Step::SetLow(Line::ChipEnable),
        Step::Write(bytes.to_vec()),
        Step::SetHigh(Line::ChipEnable),
    ]
}

fn window(columns: (u16, u16), rows: (u16, u16)) -> Vec<Step> {
    let mut steps: Vec<Step> = command(0x2A, &[]);
    steps.push(Step::SetHigh(Line::Select));
    steps.extend(data(&columns.0.to_be_bytes()));
    steps.extend(data(&columns.1.to_be_bytes()));
    steps.extend(command(0x2B, &[]));
    steps.push(Step::SetHigh(Line::Select));
    steps.extend(data(&rows.0.to_be_bytes()));
    steps.extend(data(&rows.1.to_be_bytes()));
    steps
}

fn memory_write() -> Vec<Step> {
    let mut steps: Vec<Step> = command(0x2C, &[]);
    steps.push(Step::SetHigh(Line::Select));
    steps
}

fn bus_writes(program: &[Step]) -> Vec<Vec<u8>> {
    let mut writes: Vec<Vec<u8>> = Vec::new();
    for step in program {
        if let Step::Write(bytes) = step {
            writes.push(bytes.clone());
        }
    }
    writes
}

fn bus_bytes(program: &[Step]) -> Vec<u8> {
    bus_writes(program).concat()
}

fn register_program() -> Vec<(u8, Vec<u8>)> {
    vec![
        (0xEF, vec![]),
        (0xEB, vec![0x14]),
        (0xFE, vec![]),
        (0xEF, vec![]),
        (0xEB, vec![0x14]),
        (0x84, vec![0x40]),
        (0x85, vec![0xFF]),
        (0x86, vec![0xFF]),
        (0x87, vec![0xFF]),
        (0x88, vec![0x0A]),
        (0x89, vec![0x21]),
        (0x8A, vec![0x00]),
        (0x8B, vec![0x80]),
        (0x8C, vec![0x01]),
        (0x8D, vec![0x01]),
        (0x8E, vec![0xFF]),
        (0x8F, vec![0xFF]),
        (0xB6, vec![0x00, 0x20]),
        (0x36, vec![0x98]),
        (0x3A, vec![0x05]),
        (0x90, vec![0x08, 0x08, 0x08, 0x08]),
        (0xBD, vec![0x06]),
        (0xBC, vec![0x00]),
        (0xFF, vec![0x60, 0x01, 0x04]),
        (0xC3, vec![0x13]),
        (0xC4, vec![0x13]),
        (0xC9, vec![0x22]),
        (0xBE, vec![0x11]),
        (0xE1, vec![0x10, 0x0E]),
        (0xDF, vec![0x21, 0x0C, 0x02]),
        (0xF0, vec![0x45, 0x09, 0x08, 0x08, 0x26, 0x2A]),
        (0xF1, vec![0x43, 0x70, 0x72, 0x36, 0x37, 0x6F]),
        (0xF2, vec![0x45, 0x09, 0x08, 0x08, 0x26, 0x2A]),
        (0xF3, vec![0x43, 0x70, 0x72, 0x36, 0x37, 0x6F]),
        (0xED, vec![0x1B, 0x0B]),
        (0xAE, vec![0x77]),
        (0xCD, vec![0x63]),
        (0x70, vec![0x07, 0x07, 0x04, 0x0E, 0x0F, 0x09, 0x07, 0x08, 0x03]),
        (0xE8, vec![0x34]),
        (0x62, vec![0x18, 0x0D, 0x71, 0xED, 0x70, 0x70, 0x18, 0x0F, 0x71, 0xEF, 0x70, 0x70]),
        (0x63, vec![0x18, 0x11, 0x71, 0xF1, 0x70, 0x70, 0x18, 0x13, 0x71, 0xF3, 0x70, 0x70]),
        (0x64, vec![0x28, 0x29, 0xF1, 0x01, 0xF1, 0x00, 0x07]),
        (0x66, vec![0x3C, 0x00, 0xCD, 0x67, 0x45, 0x45, 0x10, 0x00, 0x00, 0x00]),
        (0x67, vec![0x00, 0x3C, 0x00, 0x00, 0x00, 0x01, 0x54, 0x10, 0x32, 0x98]),
        (0x74, vec![0x10, 0x85, 0x80, 0x00, 0x00, 0x4E, 0x00]),
        (0x98, vec![0x3E, 0x07]),
        (0x35, vec![]),
        (0x21, vec![]),
        (0x11, vec![]),
        (0x29, vec![]),
    ]
}

#[test]
fn hard_reset_pulses_the_reset_line() {
    let driver = GC9A01A::new(true, 240, 240);
    assert_eq!(
        driver.hard_reset(),
        vec![
            Step::SetHigh(Line::Reset),
            Step::DelayMs(10),
            Step::SetLow(Line::Reset),
            Step::DelayMs(10),
            Step::SetHigh(Line::Reset),
            Step::DelayMs(10),
        ]
    );
}

#[test]
fn init_is_reset_then_the_register_program_then_the_settling_delay() {
    let driver = GC9A01A::new(true, 240, 240);
    let mut expected: Vec<Step> = driver.hard_reset();
    for (opcode, params) in register_program() {
        expected.extend(command(opcode, &params));
    }
    expected.push(Step::DelayMs(200));
    let program = driver.init();
    assert_eq!(program.len(), 515);
    assert_eq!(program, expected);
}

#[test]
fn init_starts_with_the_reset_and_ends_with_sleep_out_and_display_on() {
    let program = GC9A01A::new(false, 240, 240).init();
    assert_eq!(&program[..6], &GC9A01A::new(false, 240, 240).hard_reset()[..]);
    let mut tail: Vec<Step> = command(0x11, &[]);
    tail.extend(command(0x29, &[]));
    tail.push(Step::DelayMs(200));
    assert_eq!(&program[program.len() - 11..], &tail[..]);
}

#[test]
fn init_puts_the_documented_bytes_on_the_bus() {
    let writes = bus_writes(&GC9A01A::new(true, 240, 240).init());
    assert_eq!(writes.len(), 93);
    assert_eq!(writes[0], vec![0xEF]);
    assert_eq!(writes[1], vec![0xEB]);
    assert_eq!(writes[2], vec![0x14]);
    let place = writes.iter().position(|w| w == &vec![0x62]).unwrap();
    assert_eq!(
        writes[place + 1],
        vec![0x18, 0x0D, 0x71, 0xED, 0x70, 0x70, 0x18, 0x0F, 0x71, 0xEF, 0x70, 0x70]
    );
    let tail: Vec<Vec<u8>> = writes[writes.len() - 4..].to_vec();
    assert_eq!(tail, vec![vec![0x35], vec![0x21], vec![0x11], vec![0x29]]);
}

#[test]
fn init_does_not_depend_on_the_settings() {
    let mut moved = GC9A01A::new(false, 128, 160);
    moved.set_offset(7, 9);
    assert_eq!(moved.init(), GC9A01A::new(true, 240, 240).init());
}

#[test]
fn orientation_on_an_rgb_panel_is_the_plain_pattern() {
    let driver = GC9A01A::new(true, 240, 240);
    assert_eq!(driver.set_orientation(&Orientation::Portrait), command(0x36, &[0x00]));
    assert_eq!(driver.set_orientation(&Orientation::Landscape), command(0x36, &[0x60]));
    assert_eq!(driver.set_orientation(&Orientation::PortraitSwapped), command(0x36, &[0xC0]));
    assert_eq!(driver.set_orientation(&Orientation::LandscapeSwapped), command(0x36, &[0xA0]));
}

#[test]
fn orientation_on_a_bgr_panel_sets_the_colour_order_bit() {
    let driver = GC9A01A::new(false, 240, 240);
    assert_eq!(driver.set_orientation(&Orientation::Portrait), command(0x36, &[0x08]));
    assert_eq!(driver.set_orientation(&Orientation::Landscape), command(0x36, &[0x68]));
    assert_eq!(driver.set_orientation(&Orientation::PortraitSwapped), command(0x36, &[0xC8]));
    assert_eq!(driver.set_orientation(&Orientation::LandscapeSwapped), command(0x36, &[0xA8]));
}

#[test]
fn address_window_sends_columns_then_rows() {
    let driver = GC9A01A::new(true, 240, 240);
    let program = driver.set_address_window(1, 2, 0x0103, 0x00EF);
    assert_eq!(program, window((1, 0x0103), (2, 0x00EF)));
    assert_eq!(
        bus_writes(&program),
        vec![
            vec![0x2A],
            vec![0x00, 0x01],
            vec![0x01, 0x03],
            vec![0x2B],
            vec![0x00, 0x02],
            vec![0x00, 0xEF],
        ]
    );
}

#[test]
fn address_window_adds_the_offset_to_every_bound() {
    let mut driver = GC9A01A::new(true, 240, 240);
    driver.set_offset(0x0100, 3);
    assert_eq!(driver.set_address_window(1, 2, 5, 6), window((0x0101, 0x0105), (5, 9)));
    driver.set_offset(0, 0);
    assert_eq!(driver.set_address_window(1, 2, 5, 6), window((1, 5), (2, 6)));
}

#[test]
fn address_window_reaches_the_last_coordinate() {
    let mut driver = GC9A01A::new(true, 240, 240);
    driver.set_offset(0x00FF, 0xFFFF);
    assert!(driver.can_address(0xFF00, 0, 0xFF00, 0));
    assert_eq!(
        driver.set_address_window(0xFF00, 0, 0xFF00, 0),
        window((0xFFFF, 0xFFFF), (0xFFFF, 0xFFFF))
    );
}

#[test]
fn can_address_refuses_what_leaves_sixteen_bits() {
    let mut driver = GC9A01A::new(true, 240, 240);
    assert!(driver.can_address(0, 0, 0xFFFF, 0xFFFF));
    driver.set_offset(1, 0);
    assert!(!driver.can_address(0, 0, 0xFFFF, 0));
    assert!(!driver.can_address(0xFFFF, 0, 0, 0));
    assert!(driver.can_address(0, 0, 0xFFFE, 0xFFFF));
    driver.set_offset(0, 2);
    assert!(!driver.can_address(0, 0xFFFE, 0, 0));
    assert!(!driver.can_address(0, 0, 0, 0xFFFE));
    assert!(driver.can_address(0, 0xFFFD, 0xFFFF, 0xFFFD));
}

#[test]
fn red_pixel_after_init() {
    let driver = GC9A01A::new(true, 240, 240);
    let started = driver.init();
    assert_eq!(started.len(), 515);
    let program = driver.set_pixel(10, 20, 0xF800);
    let mut expected: Vec<Step> = window((10, 10), (20, 20));
    expected.extend(memory_write());
    expected.extend(data(&[0xF8, 0x00]));
    assert_eq!(program, expected);
    assert_eq!(
        bus_writes(&program),
        vec![
            vec![0x2A],
            vec![0x00, 0x0A],
            vec![0x00, 0x0A],
            vec![0x2B],
            vec![0x00, 0x14],
            vec![0x00, 0x14],
            vec![0x2C],
            vec![0xF8, 0x00],
        ]
    );
}

#[test]
fn pixel_at_the_origin_lands_on_the_offset() {
    let mut driver = GC9A01A::new(true, 240, 240);
    driver.set_offset(5, 5);
    let program = driver.set_pixel(0, 0, 0x0000);
    assert_eq!(
        bus_writes(&program),
        vec![
            vec![0x2A],
            vec![0x00, 0x05],
            vec![0x00, 0x05],
            vec![0x2B],
            vec![0x00, 0x05],
            vec![0x00, 0x05],
            vec![0x2C],
            vec![0x00, 0x00],
        ]
    );
}

#[test]
fn write_pixels_sends_one_transaction_per_pixel() {
    let driver = GC9A01A::new(true, 240, 240);
    let mut expected: Vec<Step> = memory_write();
    expected.extend(data(&[0x12, 0x34]));
    expected.extend(data(&[0xAB, 0xCD]));
    expected.extend(data(&[0x00, 0x01]));
    assert_eq!(driver.write_pixels(&[0x1234, 0xABCD, 0x0001]), expected);
    assert_eq!(driver.write_pixels(&[]), memory_write());
}

#[test]
fn write_pixels_buffered_packs_sixteen_pixels_to_a_transaction() {
    let driver = GC9A01A::new(true, 240, 240);
    let colors: Vec<u16> = (0..18u16).map(|i| 0x0100 + i).collect();
    let mut first: Vec<u8> = Vec::new();
    for color in &colors[..16] {
        first.extend(color.to_be_bytes());
    }
    let mut expected: Vec<Step> = memory_write();
    expected.extend(data(&first));
    expected.extend(data(&[0x01, 0x10, 0x01, 0x11]));
    assert_eq!(driver.write_pixels_buffered(&colors), expected);
}

#[test]
fn write_pixels_buffered_of_nothing_still_flushes() {
    let driver = GC9A01A::new(true, 240, 240);
    let mut expected: Vec<Step> = memory_write();
    expected.extend(data(&[]));
    assert_eq!(driver.write_pixels_buffered(&[]), expected);
}

#[test]
fn set_pixels_is_window_then_stream() {
    let mut driver = GC9A01A::new(true, 240, 240);
    driver.set_offset(2, 1);
    let mut expected: Vec<Step> = window((12, 13), (21, 21));
    expected.extend(memory_write());
    expected.extend(data(&[0xF8, 0x00]));
    expected.extend(data(&[0x07, 0xE0]));
    assert_eq!(driver.set_pixels(10, 20, 11, 20, &[0xF800, 0x07E0]), expected);
}

#[test]
fn set_pixels_buffered_is_window_then_packed_stream() {
    let mut driver = GC9A01A::new(true, 240, 240);
    driver.set_offset(2, 1);
    let mut expected: Vec<Step> = window((12, 13), (21, 21));
    expected.extend(memory_write());
    expected.extend(data(&[0xF8, 0x00, 0x07, 0xE0]));
    assert_eq!(driver.set_pixels_buffered(10, 20, 11, 20, &[0xF800, 0x07E0]), expected);
}

#[test]
fn buffered_and_plain_pixels_carry_the_same_bytes() {
    let driver = GC9A01A::new(true, 240, 240);
    let colors: Vec<u16> = (0..50u16).map(|i| i.wrapping_mul(0x0515)).collect();
    let plain = driver.set_pixels(0, 0, 9, 4, &colors);
    let buffered = driver.set_pixels_buffered(0, 0, 9, 4, &colors);
    assert_eq!(bus_bytes(&plain), bus_bytes(&buffered));
    assert_eq!(bus_writes(&plain).len(), 7 + 50);
    assert_eq!(bus_writes(&buffered).len(), 7 + 4);
}

#[test]
fn draw_image_covers_the_panel_and_streams_in_chunks() {
    let driver = GC9A01A::new(true, 240, 240);
    let image: Vec<u8> = (0..70u8).collect();
    let mut expected: Vec<Step> = window((0, 239), (0, 239));
    expected.extend(memory_write());
    expected.extend(data(&image[0..32]));
    expected.extend(data(&image[32..64]));
    expected.extend(data(&image[64..70]));
    assert!(driver.can_draw_image());
    assert_eq!(driver.draw_image(&image), expected);
}

#[test]
fn draw_image_honours_size_and_offset() {
    let mut driver = GC9A01A::new(true, 128, 160);
    driver.set_offset(2, 1);
    let mut expected: Vec<Step> = window((2, 129), (1, 160));
    expected.extend(memory_write());
    assert_eq!(driver.draw_image(&[]), expected);
}

#[test]
fn draw_image_uses_the_low_sixteen_bits_of_the_size() {
    let driver = GC9A01A::new(true, 0x0001_0004, 0x0002_0003);
    assert!(driver.can_draw_image());
    let mut expected: Vec<Step> = window((0, 3), (0, 2));
    expected.extend(memory_write());
    assert_eq!(driver.draw_image(&[]), expected);
}

#[test]
fn can_draw_image_refuses_an_empty_or_displaced_panel() {
    assert!(!GC9A01A::new(true, 0, 240).can_draw_image());
    assert!(!GC9A01A::new(true, 240, 0).can_draw_image());
    assert!(!GC9A01A::new(true, 0x0001_0000, 240).can_draw_image());
    let mut driver = GC9A01A::new(true, 240, 240);
    driver.set_offset(0xFF10, 0);
    assert!(driver.can_draw_image());
    driver.set_offset(0xFF11, 0);
    assert!(!driver.can_draw_image());
    driver.set_offset(0, 0xFF11);
    assert!(!driver.can_draw_image());
}

#[test]
fn show_ignores_offset_and_size() {
    let mut driver = GC9A01A::new(false, 128, 160);
    driver.set_offset(9, 9);
    let buffer: Vec<u8> = (0..100u8).collect();
    let mut expected: Vec<Step> = command(0x2A, &[]);
    expected.extend(data(&[0x00, 0x00, 0x00, 0xEF]));
    expected.extend(command(0x2B, &[]));
    expected.extend(data(&[0x00, 0x00, 0x00, 0xEF]));
    expected.extend(command(0x2C, &[]));
    expected.extend(data(&buffer));
    assert_eq!(driver.show(&buffer), expected);
}

#[test]
fn show_sends_the_buffer_in_one_write() {
    let driver = GC9A01A::new(true, 240, 240);
    let buffer: Vec<u8> = vec![0x5A; 240 * 240 * 2];
    let writes = bus_writes(&driver.show(&buffer));
    assert_eq!(writes.len(), 6);
    assert_eq!(writes[5].len(), 115_200);
}

#[test]
fn show_region_takes_each_row_from_the_full_buffer() {
    let driver = GC9A01A::new(true, 4, 3);
    let buffer: Vec<u8> = (0..24u8).collect();
    assert!(driver.can_show_region(buffer.len(), 1, 1, 2, 2));
    let mut expected: Vec<Step> = window((1, 2), (1, 2));
    expected.extend(memory_write());
    expected.extend(data(&[10, 11, 12, 13]));
    expected.extend(data(&[18, 19, 20, 21]));
    assert_eq!(driver.show_region(&buffer, 1, 1, 2, 2), expected);
}

#[test]
fn show_region_chunks_every_row_on_its_own() {
    let mut driver = GC9A01A::new(true, 40, 2);
    driver.set_offset(1, 2);
    let buffer: Vec<u8> = (0..160u32).map(|i| (i % 251) as u8).collect();
    let mut expected: Vec<Step> = window((4, 23), (2, 3));
    expected.extend(memory_write());
    expected.extend(data(&buffer[6..38]));
    expected.extend(data(&buffer[38..46]));
    expected.extend(data(&buffer[86..118]));
    expected.extend(data(&buffer[118..126]));
    assert_eq!(driver.show_region(&buffer, 3, 0, 20, 2), expected);
}

#[test]
fn show_region_without_rows_only_latches_the_window() {
    let driver = GC9A01A::new(true, 4, 3);
    let buffer: Vec<u8> = (0..24u8).collect();
    assert!(driver.can_show_region(buffer.len(), 1, 1, 2, 0));
    let mut expected: Vec<Step> = window((1, 2), (1, 0));
    expected.extend(memory_write());
    assert_eq!(driver.show_region(&buffer, 1, 1, 2, 0), expected);
}

#[test]
fn can_show_region_refuses_what_does_not_fit() {
    let mut driver = GC9A01A::new(true, 4, 3);
    assert!(driver.can_show_region(24, 0, 0, 4, 3));
    assert!(!driver.can_show_region(23, 0, 0, 4, 3));
    assert!(driver.can_show_region(22, 1, 1, 2, 2));
    assert!(!driver.can_show_region(21, 1, 1, 2, 2));
    assert!(!driver.can_show_region(24, 0, 0, 0, 1));
    assert!(!driver.can_show_region(24, 0, 0, 1, 0));
    assert!(!driver.can_show_region(1 << 20, 0xFFFF, 0, 1, 1));
    assert!(!driver.can_show_region(1 << 20, 0, 0x8000, 1, 0x8000));
    driver.set_offset(0xFFFF, 0);
    assert!(driver.can_show_region(24, 0, 0, 1, 1));
    assert!(!driver.can_show_region(24, 0, 0, 2, 1));
}

#[test]
fn full_region_carries_the_same_bytes_as_the_image() {
    let mut driver = GC9A01A::new(true, 20, 3);
    driver.set_offset(4, 6);
    let buffer: Vec<u8> = (0..120u32).map(|i| (i * 7 % 256) as u8).collect();
    let image = driver.draw_image(&buffer);
    let region = driver.show_region(&buffer, 0, 0, 20, 3);
    assert_eq!(bus_bytes(&region), bus_bytes(&image));
    assert_eq!(&region[..46], &image[..46]);
    let image_sizes: Vec<usize> = bus_writes(&image)[7..].iter().map(|w| w.len()).collect();
    let region_sizes: Vec<usize> = bus_writes(&region)[7..].iter().map(|w| w.len()).collect();
    assert_eq!(image_sizes, vec![32, 32, 32, 24]);
    assert_eq!(region_sizes, vec![32, 8, 32, 8, 32, 8]);
}
