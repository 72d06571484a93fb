use notcurses::cell::{BACKSTOP, BACKSTOP_MARK};
use notcurses::channel::{
    channel_alpha, channel_from_rgb8, channel_mix, channel_rgb, channel_set_alpha, channel_set_rgb,
    channels_bg, channels_combine, channels_fg,
};
use notcurses::error::Error;
use notcurses::style::{STYLE_BOLD, STYLE_ITALIC, STYLE_UNDERLINE};
use notcurses::{Alpha, Cell, Pile, Style};

#[test]
fn channel_parts() {
    let c = channel_from_rgb8(0x12, 0x34, 0x56);
    assert_eq!(c, 0x0012_3456);
    assert_eq!(channel_alpha(c), Alpha::Opaque);
    let b = channel_set_alpha(c, Alpha::Blend);
    assert_eq!(b, 0x1012_3456);
    assert_eq!(channel_alpha(b), Alpha::Blend);
    let t = channel_set_alpha(b, Alpha::Transparent);
    assert_eq!(t, 0x2012_3456);
    assert_eq!(channel_alpha(t), Alpha::Transparent);
    assert_eq!(channel_alpha(0x3000_0000), Alpha::Opaque);
    assert_eq!(channel_rgb(t), 0x12_3456);
    assert_eq!(channel_set_rgb(t, 0xff_abcdef), 0x20ab_cdef);
}

#[test]
fn channel_pair_halves() {
    let pair = channels_combine(0x0011_2233, 0x2044_5566);
    assert_eq!(pair, 0x0011_2233_2044_5566);
    assert_eq!(channels_fg(pair), 0x0011_2233);
    assert_eq!(channels_bg(pair), 0x2044_5566);
}

#[test]
fn style_add_then_remove_restores() {
    let start = Style::from_bits(STYLE_UNDERLINE);
    let s = Style::from_bits(STYLE_BOLD | STYLE_ITALIC);
    let mut cell = Cell::new('a', 1, start, 0);
    cell.add_styles(s);
    assert_eq!(cell.styles().bits, STYLE_UNDERLINE | STYLE_BOLD | STYLE_ITALIC);
    cell.remove_styles(s);
    assert_eq!(cell.styles(), start);
    assert_eq!(cell, Cell::new('a', 1, start, 0));
    cell.set_styles(s);
    assert_eq!(cell.styles(), s);
    assert!(cell.styles().contains(Style::from_bits(STYLE_BOLD)));
    assert_eq!(cell.egc(), 'a');
}

#[test]
fn wide_glyph_at_last_column_is_out_of_bounds() {
    let mut pile = Pile::new();
    let p = pile.create(None, 2, 4, 0, 0).unwrap();
    let wide = Cell::new('\u{754c}', 2, Style::from_bits(STYLE_BOLD), 0x0000_00ff_0000_ff00);
    assert_eq!(pile.write_cell(p, 0, 3, wide), Err(Error::OutOfBounds));
    assert_eq!(pile.cell_at(p, 0, 3).unwrap().egc(), ' ');
    assert_eq!(pile.write_cell(p, 0, 2, wide), Ok(()));
    assert_eq!(pile.cell_at(p, 0, 2), Ok(wide));
    let trail = pile.cell_at(p, 0, 3).unwrap();
    assert!(trail.is_backstop());
    assert!(!wide.is_backstop());
    assert_eq!(trail.egc(), '\0');
    assert_eq!(trail.width(), 0);
    assert_eq!(trail.styles(), wide.styles());
    assert_eq!(trail.channels(), wide.channels());
    assert_ne!(BACKSTOP, BACKSTOP_MARK);
}

#[test]
fn write_outside_plane_is_out_of_bounds() {
    let mut pile = Pile::new();
    let p = pile.create(None, 2, 2, 0, 0).unwrap();
    let c = Cell::new('x', 1, Style::from_bits(0), 0);
    assert_eq!(pile.write_cell(p, 2, 0, c), Err(Error::OutOfBounds));
    assert_eq!(pile.write_cell(p, 0, 2, c), Err(Error::OutOfBounds));
    assert_eq!(pile.cell_at(p, 5, 5), Err(Error::OutOfBounds));
    assert_eq!(pile.write_cell(p, 1, 1, c), Ok(()));
    assert_eq!(pile.cell_at(p, 1, 1), Ok(c));
}

#[test]
fn base_cell_fills_unwritten_positions_only() {
    let mut pile = Pile::new();
    let p = pile.create(None, 1, 2, 0, 0).unwrap();
    let c = Cell::new('x', 1, Style::from_bits(0), 0);
    pile.write_cell(p, 0, 0, c).unwrap();
    pile.set_base(p, '.', Style::from_bits(STYLE_ITALIC), 7);
    assert_eq!(pile.cell_at(p, 0, 0), Ok(c));
    assert_eq!(pile.cell_at(p, 0, 1), Ok(Cell::new('.', 1, Style::from_bits(STYLE_ITALIC), 7)));
}

#[test]
fn channel_mix_by_alpha() {
    assert_eq!(channel_mix(0x00ab_cdef, 0x0012_3456), 0x00ab_cdef);
    assert_eq!(channel_mix(0x20ab_cdef, 0x0012_3456), 0x0012_3456);
    assert_eq!(channel_mix(0x1010_2030, 0x0030_4050), 0x0020_3040);
    assert_eq!(channel_mix(0x10ff_ffff, 0x00ff_ffff), 0x00ff_ffff);
}
