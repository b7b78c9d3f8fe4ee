use ls010b7dh01::buffer_position::get_position;
use ls010b7dh01::Ls010b7dh01;

fn white_display() -> Ls010b7dh01 {
    let (mut lcd, _) = Ls010b7dh01::new();
    lcd.reset(0xFF);
    lcd
}

#[test]
fn new_buffer_is_all_black() {
    let (lcd, _) = Ls010b7dh01::new();
    assert!(lcd.buffer().iter().all(|&b| b == 0x00));
    for y in 0..128u8 {
        for x in 0..128u8 {
            assert_eq!(lcd.pixel(x, y), Some(true));
        }
    }
}

#[test]
fn get_position_splits_column() {
    assert_eq!(get_position(0), (0, 0));
    assert_eq!(get_position(7), (7, 0));
    assert_eq!(get_position(8), (0, 1));
    assert_eq!(get_position(10), (2, 1));
    assert_eq!(get_position(127), (7, 15));
}

#[test]
fn write_white_sets_exactly_one_bit() {
    let (mut lcd, _) = Ls010b7dh01::new();
    lcd.write_pixel(10, 3, false);
    for (i, &b) in lcd.buffer().iter().enumerate() {
        if i == 3 * 16 + 1 {
            assert_eq!(b, 0b0000_0100);
        } else {
            assert_eq!(b, 0x00);
        }
    }
}

#[test]
fn write_black_clears_exactly_one_bit() {
    let mut lcd = white_display();
    lcd.write_pixel(127, 127, true);
    for (i, &b) in lcd.buffer().iter().enumerate() {
        if i == 2047 {
            assert_eq!(b, 0b0111_1111);
        } else {
            assert_eq!(b, 0xFF);
        }
    }
}

#[test]
fn written_pixel_reads_back_and_no_other_changes() {
    let coordinates: [u8; 10] = [0, 1, 7, 8, 9, 63, 64, 100, 126, 127];
    for &x in coordinates.iter() {
        for &y in coordinates.iter() {
            let mut lcd = white_display();
            lcd.write_pixel(x, y, true);
            for py in 0..128u8 {
                for px in 0..128u8 {
                    assert_eq!(lcd.pixel(px, py), Some(px == x && py == y));
                }
            }
            lcd.write_pixel(x, y, false);
            assert_eq!(lcd.pixel(x, y), Some(false));
            assert!(lcd.buffer().iter().all(|&b| b == 0xFF));
        }
    }
}

#[test]
fn write_white_on_black_reads_back() {
    let (mut lcd, _) = Ls010b7dh01::new();
    lcd.write_pixel(5, 9, false);
    for py in 0..128u8 {
        for px in 0..128u8 {
            assert_eq!(lcd.pixel(px, py), Some(!(px == 5 && py == 9)));
        }
    }
}

#[test]
fn rewriting_a_pixel_keeps_it() {
    let mut lcd = white_display();
    lcd.write_pixel(20, 30, true);
    let once = *lcd.buffer();
    lcd.write_pixel(20, 30, true);
    assert_eq!(*lcd.buffer(), once);
}

#[test]
fn out_of_range_write_changes_nothing() {
    let mut lcd = white_display();
    lcd.write_pixel(3, 4, true);
    let before = *lcd.buffer();
    for &(x, y) in [(128u8, 0u8), (0, 128), (128, 128), (255, 255), (200, 5), (5, 200), (127, 128)]
        .iter()
    {
        lcd.write_pixel(x, y, true);
        assert_eq!(*lcd.buffer(), before);
        lcd.write_pixel(x, y, false);
        assert_eq!(*lcd.buffer(), before);
    }
}

#[test]
fn out_of_range_pixel_reads_none() {
    let (lcd, _) = Ls010b7dh01::new();
    assert_eq!(lcd.pixel(128, 0), None);
    assert_eq!(lcd.pixel(0, 128), None);
    assert_eq!(lcd.pixel(255, 255), None);
    assert_eq!(lcd.pixel(127, 127), Some(true));
}

#[test]
fn reset_fills_every_byte() {
    let (mut lcd, _) = Ls010b7dh01::new();
    lcd.write_pixel(1, 1, false);
    lcd.reset(0xA5);
    assert_eq!(lcd.buffer().len(), 2048);
    assert!(lcd.buffer().iter().all(|&b| b == 0xA5));
    // 0xA5 is 1010_0101: bits 0, 2, 5 and 7 are set, so those columns are white.
    assert_eq!(lcd.pixel(0, 0), Some(false));
    assert_eq!(lcd.pixel(1, 0), Some(true));
    assert_eq!(lcd.pixel(2, 0), Some(false));
    assert_eq!(lcd.pixel(7, 0), Some(false));
    assert_eq!(lcd.pixel(14, 77), Some(true));
}
