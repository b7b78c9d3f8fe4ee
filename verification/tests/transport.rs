use ls010b7dh01::bus_mode::{mode, Phase, Polarity};
use ls010b7dh01::{reverse_bits, Action, Level, Ls010b7dh01};

fn flatten(actions: &[Action]) -> Vec<u8> {
    let mut bytes = Vec::new();
    for action in actions {
        if let Action::Write(data) = action {
            bytes.extend_from_slice(data);
        }
    }
    bytes
}

#[test]
fn new_drives_both_lines_low() {
    let (_, actions) = Ls010b7dh01::new();
    assert_eq!(actions, vec![Action::PanelEnable(Level::Low), Action::ChipSelect(Level::Low)]);
}

#[test]
fn enable_and_disable_toggle_the_panel_enable_line() {
    let (mut lcd, _) = Ls010b7dh01::new();
    lcd.write_pixel(4, 4, false);
    let before = *lcd.buffer();
    assert_eq!(lcd.enable(), vec![Action::PanelEnable(Level::High)]);
    assert_eq!(lcd.disable(), vec![Action::PanelEnable(Level::Low)]);
    assert_eq!(*lcd.buffer(), before);
}

#[test]
fn clear_sends_command_and_whitens_buffer() {
    let (mut lcd, _) = Ls010b7dh01::new();
    lcd.write_pixel(7, 7, false);
    let actions = lcd.clear();
    assert_eq!(
        actions,
        vec![
            Action::ChipSelect(Level::High),
            Action::Write(vec![0x20, 0x00]),
            Action::ChipSelect(Level::Low),
        ]
    );
    assert_eq!(lcd.buffer().len(), 2048);
    assert!(lcd.buffer().iter().all(|&b| b == 0xFF));
    assert_eq!(lcd.pixel(0, 0), Some(false));
}

#[test]
fn display_mode_sends_command_and_keeps_buffer() {
    let (mut lcd, _) = Ls010b7dh01::new();
    lcd.write_pixel(9, 100, false);
    let before = *lcd.buffer();
    let actions = lcd.display_mode();
    assert_eq!(
        actions,
        vec![
            Action::ChipSelect(Level::High),
            Action::Write(vec![0x00, 0x00]),
            Action::ChipSelect(Level::Low),
        ]
    );
    assert_eq!(*lcd.buffer(), before);
}

#[test]
fn write_spi_brackets_one_write() {
    assert_eq!(
        Ls010b7dh01::write_spi(vec![1, 2, 3]),
        vec![
            Action::ChipSelect(Level::High),
            Action::Write(vec![1, 2, 3]),
            Action::ChipSelect(Level::Low),
        ]
    );
    assert_eq!(
        Ls010b7dh01::write_spi(vec![]),
        vec![Action::ChipSelect(Level::High), Action::Write(vec![]), Action::ChipSelect(Level::Low)]
    );
}

#[test]
fn flush_of_fresh_buffer_is_byte_exact() {
    let (lcd, _) = Ls010b7dh01::new();
    let actions = lcd.flush_buffer();
    assert_eq!(actions.len(), 132);
    assert_eq!(actions[0], Action::ChipSelect(Level::High));
    assert_eq!(actions[131], Action::ChipSelect(Level::Low));
    let writes = actions.iter().filter(|a| matches!(a, Action::Write(_))).count();
    assert_eq!(writes, 130);
    assert_eq!(actions[1], Action::Write(vec![0x80]));
    assert_eq!(actions[130], Action::Write(vec![0x00]));

    let bytes = flatten(&actions);
    assert_eq!(bytes.len(), 2178);
    assert_eq!(bytes[0], 0x80);
    assert_eq!(bytes[2177], 0x00);
    for i in 0..128usize {
        assert_eq!(bytes[1 + i * 17], reverse_bits(i as u8 + 1));
        assert_eq!(bytes[1 + i * 17], (i as u8 + 1).reverse_bits());
        for j in 0..16usize {
            assert_eq!(bytes[1 + i * 17 + 1 + j], 0x00);
        }
    }
    assert_eq!(bytes[1], 0x80);
    assert_eq!(bytes[1 + 17], 0x40);
    assert_eq!(bytes[1 + 127 * 17], 0x01);
}

#[test]
fn flush_sends_rows_in_stored_order() {
    let (mut lcd, _) = Ls010b7dh01::new();
    lcd.write_pixel(0, 0, false);
    lcd.write_pixel(10, 3, false);
    lcd.write_pixel(127, 127, false);
    let before = *lcd.buffer();
    let actions = lcd.flush_buffer();
    assert_eq!(*lcd.buffer(), before);
    assert_eq!(actions.len(), 132);
    for row in 0..128usize {
        let mut record = vec![reverse_bits(row as u8 + 1)];
        record.extend_from_slice(&before[row * 16..row * 16 + 16]);
        assert_eq!(record.len(), 17);
        assert_eq!(actions[2 + row], Action::Write(record));
    }
    let bytes = flatten(&actions);
    assert_eq!(bytes.len(), 2178);
    assert_eq!(bytes[2], 0x01);
    assert_eq!(bytes[1 + 3 * 17 + 1 + 1], 0x04);
    assert_eq!(bytes[1 + 127 * 17 + 1 + 15], 0x80);
    assert_eq!(bytes.iter().filter(|&&b| b != 0).count(), 2 + 128 + 2);
}

#[test]
fn flush_after_clear_sends_all_white() {
    let (mut lcd, _) = Ls010b7dh01::new();
    lcd.clear();
    let bytes = flatten(&lcd.flush_buffer());
    assert_eq!(bytes.len(), 2178);
    for i in 0..128usize {
        for j in 0..16usize {
            assert_eq!(bytes[2 + i * 17 + j], 0xFF);
        }
    }
}

#[test]
fn bus_mode_is_idle_low_second_transition() {
    let m = mode();
    assert_eq!(m.polarity, Polarity::IdleLow);
    assert_eq!(m.phase, Phase::CaptureOnSecondTransition);
}

#[test]
fn dotted_line_is_one_write_of_twenty_bytes() {
    let (lcd, _) = Ls010b7dh01::new();
    let mut data = vec![0x80, 0x82];
    data.extend_from_slice(&[0x33; 16]);
    data.extend_from_slice(&[0x00, 0x00]);
    assert_eq!(data.len(), 20);
    assert_eq!(reverse_bits(65), 0x82);
    assert_eq!(
        lcd.dotted_line(),
        vec![Action::ChipSelect(Level::High), Action::Write(data), Action::ChipSelect(Level::Low)]
    );
    assert!(lcd.buffer().iter().all(|&b| b == 0x00));
}
