use chip8::engine::screen::{DrawMessage, PixelState, Screen, SCREEN_HEIGHT, SCREEN_WIDTH};

fn lit_pixels(screen: &Screen) -> Vec<(u8, u8)> {
    let mut lit = Vec::new();
    for y in 0..SCREEN_HEIGHT as u8 {
        for x in 0..SCREEN_WIDTH as u8 {
            if screen.pixel(x, y) {
                lit.push((x, y));
            }
        }
    }
    lit
}

#[test]
fn fresh_screen_is_dark() {
    let screen = Screen::new();
    assert!(lit_pixels(&screen).is_empty());
    assert_eq!(SCREEN_WIDTH, 64);
    assert_eq!(SCREEN_HEIGHT, 32);
}

#[test]
fn sprite_wraps_around_right_edge() {
    let mut screen = Screen::new();
    let (messages, erased) = screen.draw((60, 0), &[0xFF]);
    assert!(!erased);
    let columns: Vec<u8> = messages.iter().map(|m| m.pos.0).collect();
    assert_eq!(columns, vec![60, 61, 62, 63, 0, 1, 2, 3]);
    assert!(messages.iter().all(|m| m.pos.1 == 0 && m.state == PixelState::Drawn));
    assert_eq!(
        lit_pixels(&screen),
        vec![(0, 0), (1, 0), (2, 0), (3, 0), (60, 0), (61, 0), (62, 0), (63, 0)]
    );
}

#[test]
fn drawing_twice_erases() {
    let mut screen = Screen::new();
    screen.draw((60, 0), &[0xFF]);
    let (messages, erased) = screen.draw((60, 0), &[0xFF]);
    assert!(erased);
    assert_eq!(messages.len(), 8);
    assert!(messages.iter().all(|m| m.state == PixelState::Erased));
    assert!(lit_pixels(&screen).is_empty());
}

#[test]
fn drawing_twice_restores_any_picture() {
    let mut screen = Screen::new();
    screen.draw((3, 4), &[0xA5, 0x3C, 0x81]);
    let before = lit_pixels(&screen);
    let sprite: Vec<u8> = (0..40u8).map(|i| i.wrapping_mul(37) ^ 0x5A).collect();
    screen.draw((62, 30), &sprite);
    screen.draw((62, 30), &sprite);
    assert_eq!(lit_pixels(&screen), before);
}

#[test]
fn only_set_bits_are_reported() {
    let mut screen = Screen::new();
    let (messages, erased) = screen.draw((0, 0), &[0b1000_0001, 0x00, 0b0100_0000]);
    assert!(!erased);
    assert_eq!(
        messages,
        vec![
            DrawMessage { pos: (0, 0), state: PixelState::Drawn },
            DrawMessage { pos: (7, 0), state: PixelState::Drawn },
            DrawMessage { pos: (1, 2), state: PixelState::Drawn },
        ]
    );
}

#[test]
fn partial_overlap_erases_and_draws() {
    let mut screen = Screen::new();
    screen.draw((0, 0), &[0xF0]);
    let (messages, erased) = screen.draw((2, 0), &[0xF0]);
    assert!(erased);
    assert_eq!(
        messages,
        vec![
            DrawMessage { pos: (2, 0), state: PixelState::Erased },
            DrawMessage { pos: (3, 0), state: PixelState::Erased },
            DrawMessage { pos: (4, 0), state: PixelState::Drawn },
            DrawMessage { pos: (5, 0), state: PixelState::Drawn },
        ]
    );
    assert_eq!(lit_pixels(&screen), vec![(0, 0), (1, 0), (4, 0), (5, 0)]);
}

#[test]
fn sprite_wraps_around_bottom_edge() {
    let mut screen = Screen::new();
    screen.draw((0, 31), &[0x80, 0x80]);
    assert_eq!(lit_pixels(&screen), vec![(0, 0), (0, 31)]);
}

#[test]
fn origin_is_wrapped_onto_the_screen() {
    let mut screen = Screen::new();
    let (messages, _) = screen.draw((64 + 5, 32 + 7), &[0x80]);
    assert_eq!(messages, vec![DrawMessage { pos: (5, 7), state: PixelState::Drawn }]);
    let (messages, _) = screen.draw((255, 255), &[0xC0]);
    assert_eq!(
        messages,
        vec![
            DrawMessage { pos: (63, 31), state: PixelState::Drawn },
            DrawMessage { pos: (0, 31), state: PixelState::Drawn },
        ]
    );
}

#[test]
fn empty_sprite_changes_nothing() {
    let mut screen = Screen::new();
    let (messages, erased) = screen.draw((1, 1), &[]);
    assert!(messages.is_empty());
    assert!(!erased);
    assert!(lit_pixels(&screen).is_empty());
}

#[test]
fn tall_sprite_hits_a_pixel_twice() {
    let mut screen = Screen::new();
    let sprite = vec![0x80u8; 33];
    let (messages, erased) = screen.draw((0, 0), &sprite);
    assert_eq!(messages.len(), 33);
    assert!(erased);
    assert_eq!(messages[32], DrawMessage { pos: (0, 0), state: PixelState::Erased });
    assert!(!screen.pixel(0, 0));
    assert!(screen.pixel(0, 1));
}

#[test]
fn single_pixel_toggle() {
    let mut screen = Screen::new();
    assert_eq!(screen.draw_xor((63, 31)), PixelState::Drawn);
    assert!(screen.pixel(63, 31));
    assert_eq!(lit_pixels(&screen), vec![(63, 31)]);
    assert_eq!(screen.draw_xor((63, 31)), PixelState::Erased);
    assert!(!screen.pixel(63, 31));
}

#[test]
fn clear_turns_everything_off() {
    let mut screen = Screen::new();
    screen.draw((10, 10), &[0xFF, 0xFF, 0xFF]);
    assert_eq!(lit_pixels(&screen).len(), 24);
    screen.clear();
    assert!(lit_pixels(&screen).is_empty());
}
