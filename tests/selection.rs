use notcurses::error::Error;
use notcurses::event::{KEY_BASE, KEY_MOUSE_FIRST, KEYMOD_CTRL};
use notcurses::{Blitter, Capabilities, Event, InputType, Key, Position, RawInput, Received};

fn caps() -> Capabilities {
    Capabilities {
        halfblock: true,
        quadrant: true,
        sextant: true,
        braille: false,
        utf8: true,
        images: false,
        videos: false,
        pixel: false,
        truecolor: true,
        fade: false,
        palette_change: false,
        palette_size: 256,
    }
}

#[test]
fn braille_degrades_to_sextant_and_stays() {
    let c = caps();
    let first = Blitter::Braille.select(&c, true).unwrap();
    assert_eq!(first, Blitter::Sextant);
    assert_eq!(first.select(&c, true), Ok(Blitter::Sextant));
    assert_eq!(first.select(&c, false), Ok(Blitter::Sextant));
}

#[test]
fn ladder_steps_down_to_space() {
    let mut c = caps();
    c.sextant = false;
    c.quadrant = false;
    assert_eq!(Blitter::Pixel.select(&c, true), Ok(Blitter::Half));
    c.halfblock = false;
    assert_eq!(Blitter::Braille.select(&c, true), Ok(Blitter::Space));
    assert_eq!(Blitter::Default.select(&c, false), Ok(Blitter::Space));
    c.pixel = true;
    assert_eq!(Blitter::Default.select(&c, true), Ok(Blitter::Pixel));
}

#[test]
fn no_degrade_fails_on_unsupported() {
    let c = caps();
    assert_eq!(Blitter::Braille.select(&c, false), Err(Error::UnsupportedBlitter));
    assert_eq!(Blitter::Quadrant.select(&c, false), Ok(Blitter::Quadrant));
    assert_eq!(Blitter::Default.select(&c, false), Ok(Blitter::Sextant));
}

#[test]
fn blitter_codes() {
    assert_eq!(Blitter::default(), Blitter::Default);
    assert_eq!(Blitter::Sextant.code(), 4);
    assert_eq!(Blitter::from_code(5), Blitter::Braille);
    assert_eq!(Blitter::from_code(99), Blitter::Default);
}

fn raw(y: i32, x: i32, ypx: i32, xpx: i32) -> RawInput {
    RawInput { modifiers: KEYMOD_CTRL, evtype: 1, y, x, ypx, xpx }
}

#[test]
fn mouse_event_cell_defined_or_not() {
    let mouse = Received::Key(Key { code: KEY_MOUSE_FIRST + 1 });
    let e = Event::from_input(mouse, raw(-1, -1, -1, -1));
    assert_eq!(e.cell, None);
    assert_eq!(e.offset, None);
    let e = Event::from_input(mouse, raw(5, 3, -1, -1));
    assert_eq!(e.cell, Some(Position { y: 5, x: 3 }));
    assert_eq!(e.offset, None);
    let e = Event::from_input(mouse, raw(5, 3, 7, 2));
    assert_eq!(e.offset, Some(Position { y: 7, x: 2 }));
    assert_eq!(e.itype, InputType::Press);
    assert_eq!(e.keymod.bits, KEYMOD_CTRL);
}

#[test]
fn key_and_char_events_carry_no_position() {
    let key = Key { code: KEY_BASE + 5 };
    let e = Event::from_input(Received::Key(key), raw(5, 3, 1, 1));
    assert_eq!((e.cell, e.offset), (None, None));
    assert!(e.is_received() && e.has_key() && e.is_key(key) && !e.has_char());
    let e = Event::from_input(Received::Char('q'), RawInput { evtype: 3, ..raw(5, 3, 1, 1) });
    assert_eq!(e.cell, None);
    assert!(e.has_char() && e.is_char('q') && !e.is_char('r') && !e.has_key());
    assert_eq!(e.itype, InputType::Release);
    let e = Event::from_input(Received::NoInput, RawInput { evtype: 9, ..raw(0, 0, 0, 0) });
    assert!(!e.is_received());
    assert_eq!(e.itype, InputType::Unknown);
}

#[test]
fn mouse_codes_match_input_service() {
    // button 1 as the input service sends it
    let button1 = Key { code: 1_115_201 };
    assert!(button1.is_mouse());
    assert!(Key { code: 1_115_200 }.is_mouse());
    assert!(Key { code: 1_115_211 }.is_mouse());
    assert!(!Key { code: 1_115_212 }.is_mouse());
    assert!(!Key { code: 1_115_199 }.is_mouse());
    let e = Event::from_input(Received::Key(button1), raw(5, 3, -1, -1));
    assert_eq!(e.cell, Some(Position { y: 5, x: 3 }));
}
