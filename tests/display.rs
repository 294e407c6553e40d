use chip8::display::{Display, Sprite, REAL_HEIGHT, REAL_WIDTH};
use chip8::memory::Memory;

fn lit(d: &Display, r: usize, c: usize) -> bool {
    d.pixel(r, c)
}

#[test]
fn drawing_twice_restores_and_collides() {
    let mut d = Display::default();
    let first = d.add_sprite(Sprite::from_slice(&[0xF0, 0x90], 10, 5));
    assert!(!first);
    assert!(lit(&d, 5, 10) && lit(&d, 5, 13) && !lit(&d, 5, 14));
    assert!(lit(&d, 6, 10) && !lit(&d, 6, 11) && lit(&d, 6, 13));
    let second = d.add_sprite(Sprite::from_slice(&[0xF0, 0x90], 10, 5));
    assert!(second);
    for r in 0..32 {
        for c in 0..64 {
            assert!(!lit(&d, r, c));
        }
    }
}

#[test]
fn columns_wrap_at_right_edge() {
    let mut d = Display::default();
    d.add_sprite(Sprite::from_slice(&[0xFF], 60, 0));
    for c in [60, 61, 62, 63, 0, 1, 2, 3] {
        assert!(lit(&d, 0, c));
    }
    assert!(!lit(&d, 0, 4));
    assert!(!lit(&d, 0, 59));
}

#[test]
fn rows_clip_at_bottom_edge() {
    let mut d = Display::default();
    let collision = d.add_sprite(Sprite::from_slice(&[0x80, 0x80], 0, 31));
    assert!(!collision);
    assert!(lit(&d, 31, 0));
    assert!(!lit(&d, 0, 0));
}

#[test]
fn clear_turns_every_pixel_off() {
    let mut d = Display::default();
    d.add_sprite(Sprite::from_slice(&[0xFF, 0xFF, 0xFF], 3, 3));
    d.clear_display();
    for r in 0..32 {
        for c in 0..64 {
            assert!(!lit(&d, r, c));
        }
    }
}

#[test]
fn screen_blocks_follow_changed_cells() {
    let mut d = Display::default();
    d.add_sprite(Sprite::from_slice(&[0x80], 1, 2));
    let mut screen = vec![0u32; REAL_WIDTH * REAL_HEIGHT];
    d.draw(&mut screen);
    let corner = 2 * 10 * REAL_WIDTH + 10;
    for a in 0..10 {
        for b in 0..10 {
            assert_eq!(screen[corner + a * REAL_WIDTH + b], 0xFFFF_FFFF);
        }
    }
    assert_eq!(screen[corner - 1], 0);
    assert_eq!(screen[corner + 10], 0);
    let before = screen.clone();
    d.draw(&mut screen);
    assert_eq!(screen, before);
    d.clear_display();
    d.draw(&mut screen);
    assert!(screen.iter().all(|p| *p == 0));
}

#[test]
fn sprite_keeps_its_bytes() {
    let s = Sprite::from_slice(&[1, 2, 3], 7, 9);
    assert_eq!(s.as_slice(), &[1, 2, 3]);
    assert_eq!(s.get_x(), 7);
    assert_eq!(s.get_y(), 9);
}

#[test]
fn font_is_loaded_at_startup() {
    let mem = Memory::new();
    assert_eq!(mem.read_16bit(0x50), 0xF090);
    let mut glyph = [0u8; 5];
    mem.read_slice(0x82, &mut glyph);
    assert_eq!(glyph, [0xF0, 0x90, 0xF0, 0x90, 0x90]);
    assert_eq!(mem.read_16bit(0x200), 0);
}
