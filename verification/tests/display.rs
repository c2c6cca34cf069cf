use chip8::Screen;

#[test]
fn new_screen_is_clear_and_dirty() {
    let s = Screen::new();
    for y in 0..32 {
        for x in 0..64 {
            assert_eq!(s.get_pixel(x, y), 0);
        }
    }
    assert!(s.is_dirty());
}

#[test]
fn set_and_get_pixel() {
    let mut s = Screen::new();
    s.set_dirty(false);
    s.set_pixel(3, 4, true);
    assert_eq!(s.get_pixel(3, 4), 1);
    assert_eq!(s.get_pixel(4, 3), 0);
    assert!(s.is_dirty());
    s.set_pixel(3, 4, false);
    assert_eq!(s.get_pixel(3, 4), 0);
}

#[test]
fn acknowledge_dirty_flag() {
    let mut s = Screen::new();
    assert!(s.is_dirty());
    s.set_dirty(false);
    assert!(!s.is_dirty());
    s.set_pixel(0, 0, true);
    assert!(s.is_dirty());
}

#[test]
fn clear_zeroes_every_pixel() {
    let mut s = Screen::new();
    s.set_pixel(10, 20, true);
    s.set_pixel(63, 31, true);
    s.set_dirty(false);
    s.clear();
    for y in 0..32 {
        for x in 0..64 {
            assert_eq!(s.get_pixel(x, y), 0);
        }
    }
    assert!(s.is_dirty());
}

#[test]
fn draw_sets_bits_most_significant_first() {
    let mut s = Screen::new();
    let collision = s.draw((0, 0), &[0xA5]);
    assert!(!collision);
    let expected = [1, 0, 1, 0, 0, 1, 0, 1];
    for x in 0..8 {
        assert_eq!(s.get_pixel(x, 0), expected[x]);
    }
    assert_eq!(s.get_pixel(8, 0), 0);
}

#[test]
fn draw_second_row_lands_one_line_down() {
    let mut s = Screen::new();
    let collision = s.draw((4, 7), &[0x80, 0x80]);
    assert!(!collision);
    assert_eq!(s.get_pixel(4, 7), 1);
    assert_eq!(s.get_pixel(4, 8), 1);
    assert_eq!(s.get_pixel(4, 9), 0);
}

#[test]
fn draw_same_sprite_twice_collides_and_cancels() {
    let mut s = Screen::new();
    let first = s.draw((12, 5), &[0x80]);
    assert!(!first);
    assert_eq!(s.get_pixel(12, 5), 1);
    let second = s.draw((12, 5), &[0x80]);
    assert!(second);
    assert_eq!(s.get_pixel(12, 5), 0);
}

#[test]
fn draw_wraps_columns_at_right_edge() {
    let mut s = Screen::new();
    let collision = s.draw((63, 31), &[0xFF]);
    assert!(!collision);
    assert_eq!(s.get_pixel(63, 31), 1);
    for x in 0..7 {
        assert_eq!(s.get_pixel(x, 31), 1);
    }
    assert_eq!(s.get_pixel(7, 31), 0);
}

#[test]
fn draw_wraps_rows_at_bottom_edge() {
    let mut s = Screen::new();
    let collision = s.draw((63, 31), &[0x80, 0x80]);
    assert!(!collision);
    assert_eq!(s.get_pixel(63, 31), 1);
    assert_eq!(s.get_pixel(63, 0), 1);
    assert_eq!(s.get_pixel(63, 1), 0);
}

#[test]
fn draw_zero_bits_leave_pixels_untouched() {
    let mut s = Screen::new();
    s.set_pixel(1, 0, true);
    let collision = s.draw((0, 0), &[0x00]);
    assert!(!collision);
    assert_eq!(s.get_pixel(1, 0), 1);
}

#[test]
fn draw_origin_wraps_beyond_grid() {
    let mut s = Screen::new();
    let collision = s.draw((64, 32), &[0x80]);
    assert!(!collision);
    assert_eq!(s.get_pixel(0, 0), 1);
}
