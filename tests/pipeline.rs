use notcurses::blitter::Blitter;
use notcurses::channel::channels_combine;
use notcurses::error::Error;
use notcurses::raster::{push_decimal, push_utf8};
use notcurses::style::{STYLE_BOLD, STYLE_ITALIC};
use notcurses::visual::TRANSPARENT_CHANNEL;
use notcurses::{rasterize, Capabilities, Cell, Nc, Pile, Style, Visual};

fn caps() -> Capabilities {
    Capabilities {
        halfblock: false,
        quadrant: false,
        sextant: false,
        braille: false,
        utf8: true,
        images: false,
        videos: false,
        pixel: false,
        truecolor: true,
        fade: false,
        palette_change: false,
        palette_size: 256,
    }
}

#[test]
fn render_empty_pile_then_with_plane() {
    let mut pile = Pile::new();
    assert_eq!(pile.render().err(), Some(Error::PileEmpty));
    pile.create(None, 2, 3, 0, 0).unwrap();
    let f = pile.render().unwrap();
    assert_eq!((f.rows, f.cols), (2, 3));
    assert_eq!(f.cells.len(), 2);
    assert_eq!(f.cells[1].len(), 3);
    assert_eq!(f.cells[1][2], Cell::new(' ', 1, Style::from_bits(0), 0));
}

#[test]
fn render_puts_later_planes_on_top() {
    let mut pile = Pile::new();
    let root = pile.create(None, 3, 3, 0, 0).unwrap();
    pile.set_base(root, '.', Style::from_bits(0), 0);
    let child = pile.attach_child(root, 2, 2, 1, 1).unwrap();
    pile.set_base(child, 'c', Style::from_bits(0), 0);
    let x = Cell::new('x', 1, Style::from_bits(0), 0);
    pile.write_cell(child, 1, 1, x).unwrap();
    let clear = Cell::new('t', 1, Style::from_bits(0), channels_combine(TRANSPARENT_CHANNEL, TRANSPARENT_CHANNEL));
    pile.write_cell(child, 0, 0, clear).unwrap();
    let f = pile.render().unwrap();
    assert_eq!(f.cells[0][0].egc(), '.');
    assert_eq!(f.cells[1][1].egc(), '.');
    assert_eq!(f.cells[1][2].egc(), 'c');
    assert_eq!(f.cells[2][2].egc(), 'x');
    assert_eq!(f.cells[2][1].egc(), 'c');
}

#[test]
fn render_blends_and_lets_transparent_channels_through() {
    let mut pile = Pile::new();
    let root = pile.create(None, 1, 2, 0, 0).unwrap();
    pile.set_base(root, '.', Style::from_bits(0), channels_combine(0x0011_1111, 0x0020_4060));
    let top = pile.attach_child(root, 1, 2, 0, 0).unwrap();
    let blend = Cell::new('b', 1, Style::from_bits(0), channels_combine(0x00ff_ffff, 0x1040_2000));
    pile.write_cell(top, 0, 0, blend).unwrap();
    let glass = Cell::new('g', 1, Style::from_bits(0), channels_combine(0x0000_00ff, TRANSPARENT_CHANNEL));
    pile.write_cell(top, 0, 1, glass).unwrap();
    let f = pile.render().unwrap();
    assert_eq!(f.cells[0][0].egc(), 'b');
    assert_eq!(f.cells[0][0].channels(), channels_combine(0x00ff_ffff, 0x0030_3030));
    assert_eq!(f.cells[0][1].egc(), 'g');
    assert_eq!(f.cells[0][1].channels(), channels_combine(0x0000_00ff, 0x0020_4060));
}

#[test]
fn render_clips_planes_outside_the_frame() {
    let mut pile = Pile::new();
    let root = pile.create(None, 2, 2, 0, 0).unwrap();
    let far = pile.attach_child(root, 2, 2, 1, 1).unwrap();
    pile.set_base(far, 'f', Style::from_bits(0), 0);
    pile.move_relative(far, -2, -2);
    let f = pile.render().unwrap();
    assert_eq!(f.cells[0][0].egc(), 'f');
    assert_eq!(f.cells[0][1].egc(), ' ');
    assert_eq!(f.cells[1][1].egc(), ' ');
}

#[test]
fn rasterize_exact_bytes() {
    let mut pile = Pile::new();
    let p = pile.create(None, 1, 3, 0, 0).unwrap();
    let styled = Cell::new('A', 1, Style::from_bits(STYLE_BOLD | STYLE_ITALIC), channels_combine(0x00ff_0000, 0x0000_0a0b));
    pile.write_cell(p, 0, 0, styled).unwrap();
    let wide = Cell::new('\u{754c}', 2, Style::from_bits(0), 0);
    pile.write_cell(p, 0, 1, wide).unwrap();
    let bytes = rasterize(&pile.render().unwrap());
    let mut expected: Vec<u8> = b"\x1b[1;1H".to_vec();
    expected.extend_from_slice(b"\x1b[0;1;3;38;2;255;0;0;48;2;0;10;11mA");
    expected.extend_from_slice(b"\x1b[0;38;2;0;0;0;48;2;0;0;0m");
    expected.extend_from_slice(&[0xe7, 0x95, 0x8c]);
    assert_eq!(bytes, expected);
}

#[test]
fn rasterize_moves_to_each_row() {
    let mut pile = Pile::new();
    pile.create(None, 2, 1, 0, 0).unwrap();
    let bytes = rasterize(&pile.render().unwrap());
    let cell = "\x1b[0;38;2;0;0;0;48;2;0;0;0m ";
    let expected = format!("\x1b[1;1H{}\x1b[2;1H{}", cell, cell);
    assert_eq!(bytes, expected.into_bytes());
}

#[test]
fn decimal_and_utf8_encodings() {
    let mut out: Vec<u8> = Vec::new();
    push_decimal(&mut out, 0);
    push_decimal(&mut out, 4096);
    assert_eq!(out, b"04096".to_vec());
    let mut u: Vec<u8> = Vec::new();
    for c in ['a', '\u{e9}', '\u{754c}', '\u{1f600}'] {
        push_utf8(&mut u, c);
    }
    let mut want: Vec<u8> = Vec::new();
    for c in ['a', '\u{e9}', '\u{754c}', '\u{1f600}'] {
        let mut buf = [0u8; 4];
        want.extend_from_slice(c.encode_utf8(&mut buf).as_bytes());
    }
    assert_eq!(u, want);
}

#[test]
fn render_raster_of_nc_pile() {
    let mut nc = Nc::new(caps());
    assert_eq!(nc.render_raster(0).err(), Some(Error::PileEmpty));
    assert_eq!(nc.render_raster(7).err(), Some(Error::UseAfterDrop));
    let p = nc.create_plane(0, None, 1, 1, 0, 0).unwrap();
    nc.write_cell(p, 0, 0, Cell::new('z', 1, Style::from_bits(0), 0)).unwrap();
    let bytes = nc.render_raster(0).unwrap();
    assert_eq!(bytes, b"\x1b[1;1H\x1b[0;38;2;0;0;0;48;2;0;0;0mz".to_vec());
}

#[test]
fn visual_needs_four_bytes_per_pixel() {
    let v = Visual::build().from_rgba(&[1, 2, 3], 1, 1);
    assert_eq!(v.err(), Some(Error::InvalidGeometry));
    let v = Visual::build().from_rgba(&[], 0, 0);
    assert_eq!(v.err(), Some(Error::InvalidGeometry));
    let mut v = Visual::build().from_rgba(&[1, 2, 3, 4], 1, 1).unwrap();
    assert_eq!(v.set_from_rgba(&[0; 7], 1, 2), Err(Error::InvalidGeometry));
    assert_eq!(v.size(), (1, 1));
    assert_eq!(v.set_from_rgba(&[9; 10], 2, 1), Ok(()));
    assert_eq!(v.size(), (1, 2));
}

#[test]
fn visual_spaces_one_pixel_per_cell() {
    let mut nc = Nc::new(caps());
    let rgba = [0x10, 0x20, 0x30, 0xff, 0x40, 0x50, 0x60, 0x00];
    let v = Visual::build().from_rgba(&rgba, 2, 1).unwrap();
    let (id, _) = v.render(&mut nc, 0, 0, 0).unwrap();
    assert_eq!(nc.plane_yx(id), Ok((0, 0)));
    let f = nc.render(0).unwrap();
    assert_eq!((f.rows, f.cols), (1, 2));
    assert_eq!(f.cells[0][0].egc(), ' ');
    assert_eq!(f.cells[0][0].channels(), channels_combine(0x0010_2030, 0x0010_2030));
    // The second pixel is transparent, so the root's base cell shows there:
    // the drawn plane is the root itself, whose base is an opaque space.
    assert_eq!(f.cells[0][1], Cell::new(' ', 1, Style::from_bits(0), 0));
}

#[test]
fn visual_half_blocks_two_rows_per_cell() {
    let mut c = caps();
    c.halfblock = true;
    let mut nc = Nc::new(c);
    let rgba = [1, 2, 3, 255, 4, 5, 6, 255, 7, 8, 9, 255];
    let v = Visual::build().blitter(Blitter::Quadrant).from_rgba(&rgba, 1, 3).unwrap();
    let (id, _) = v.render(&mut nc, 0, 0, 0).unwrap();
    let f = nc.render(id.pile).unwrap();
    assert_eq!((f.rows, f.cols), (2, 1));
    assert_eq!(f.cells[0][0].egc(), '\u{2580}');
    assert_eq!(f.cells[0][0].channels(), channels_combine(0x0001_0203, 0x0004_0506));
    assert_eq!(f.cells[1][0].egc(), '\u{2580}');
    // The missing lower pixel is transparent: the base beneath shows through.
    assert_eq!(f.cells[1][0].channels(), channels_combine(0x0007_0809, 0));
}

#[test]
fn visual_without_degrade_is_unsupported() {
    let mut nc = Nc::new(caps());
    let mut v = Visual::build().degrade(false).from_rgba(&[0; 4], 1, 1).unwrap();
    v.set_blitter(Blitter::Braille);
    assert_eq!(v.render(&mut nc, 0, 0, 0), Err(Error::UnsupportedBlitter));
    v.set_degrade(true);
    v.set_interpolate(false);
    assert!(!v.options().interpolate);
    assert_eq!(v.render(&mut nc, 0, 0, 0).map(|r| r.1), Ok(Blitter::Space));
}

#[test]
fn visual_from_bgra_swaps_red_and_blue() {
    let mut v = Visual::build().from_rgba(&[0; 4], 1, 1).unwrap();
    assert_eq!(v.set_from_bgra(&[1, 2, 3, 4, 5, 6, 7, 8], 2, 1), Ok(()));
    let mut nc = Nc::new(caps());
    v.render(&mut nc, 0, 0, 0).unwrap();
    let f = nc.render(0).unwrap();
    assert_eq!(f.cells[0][0].channels(), channels_combine(0x0003_0201, 0x0003_0201));
    assert_eq!(f.cells[0][1].channels(), channels_combine(0x0007_0605, 0x0007_0605));
}

fn full_caps() -> Capabilities {
    let mut c = caps();
    c.halfblock = true;
    c.quadrant = true;
    c.sextant = true;
    c
}

fn px(color: u32) -> [u8; 4] {
    [(color >> 16) as u8, (color >> 8) as u8, color as u8, 255]
}

fn image(pixels: &[u32]) -> Vec<u8> {
    let mut out: Vec<u8> = Vec::new();
    for p in pixels {
        out.extend_from_slice(&px(*p));
    }
    out
}

#[test]
fn visual_braille_degrades_to_sextant_at_render() {
    let mut nc = Nc::new(full_caps());
    let a = 0x00aa_0000;
    let b = 0x0000_00bb;
    // left column one color, right column the other
    let rgba = image(&[a, b, a, b, a, b]);
    let mut v = Visual::build().from_rgba(&rgba, 2, 3).unwrap();
    v.set_blitter(Blitter::Braille);
    let (id, mode) = v.render(&mut nc, 0, 0, 0).unwrap();
    assert_eq!(mode, Blitter::Sextant);
    assert_eq!(Blitter::Sextant.select(&full_caps(), true), Ok(mode));
    let f = nc.render(id.pile).unwrap();
    assert_eq!((f.rows, f.cols), (1, 1));
    assert_eq!(f.cells[0][0].egc(), '\u{258c}');
    assert_eq!(f.cells[0][0].channels(), channels_combine(a, b));
}

#[test]
fn visual_sextant_glyphs() {
    let mut nc = Nc::new(full_caps());
    let a = 0x0011_2233;
    let b = 0x0044_5566;
    // only the upper-left pixel has the first color: the first sextant
    let rgba = image(&[a, b, b, b, b, b]);
    let v = Visual::build().blitter(Blitter::Sextant).from_rgba(&rgba, 2, 3).unwrap();
    let (_, mode) = v.render(&mut nc, 0, 0, 0).unwrap();
    assert_eq!(mode, Blitter::Sextant);
    let f = nc.render(0).unwrap();
    assert_eq!(f.cells[0][0].egc(), '\u{1fb00}');
    // upper row and lower-left: 1 + 2 + 16 = 19
    let mut nc = Nc::new(full_caps());
    let v = Visual::build().blitter(Blitter::Sextant).from_rgba(&image(&[a, a, b, b, a, b]), 2, 3).unwrap();
    v.render(&mut nc, 0, 0, 0).unwrap();
    assert_eq!(nc.render(0).unwrap().cells[0][0].egc(), '\u{1fb12}');
}

#[test]
fn visual_quadrant_glyphs() {
    let mut nc = Nc::new(full_caps());
    let a = 0x0001_0101;
    let b = 0x0002_0202;
    // diagonal: upper-left and lower-right share the first color
    let rgba = image(&[a, b, b, a, a, a]);
    let v = Visual::build().blitter(Blitter::Quadrant).degrade(false).from_rgba(&rgba, 2, 3).unwrap();
    let (_, mode) = v.render(&mut nc, 0, 0, 0).unwrap();
    assert_eq!(mode, Blitter::Quadrant);
    let f = nc.render(0).unwrap();
    assert_eq!((f.rows, f.cols), (2, 1));
    assert_eq!(f.cells[0][0].egc(), '\u{259a}');
    assert_eq!(f.cells[0][0].channels(), channels_combine(a, b));
    // the last row has one pixel row: the upper half in the first color
    assert_eq!(f.cells[1][0].egc(), '\u{2580}');
    assert_eq!(f.cells[1][0].channels(), channels_combine(a, 0));
}

#[test]
fn visual_braille_when_supported() {
    let mut c = full_caps();
    c.braille = true;
    let mut nc = Nc::new(c);
    let a = 0x0000_ff00;
    let b = 0x0000_0000;
    // 4 rows by 2 columns; only the upper-right and lower-left pixels differ
    let rgba = image(&[a, b, a, a, a, a, b, a]);
    let v = Visual::build().blitter(Blitter::Braille).degrade(false).from_rgba(&rgba, 2, 4).unwrap();
    let (_, mode) = v.render(&mut nc, 0, 0, 0).unwrap();
    assert_eq!(mode, Blitter::Braille);
    let f = nc.render(0).unwrap();
    // all dots but dot 4 (weight 8) and dot 7 (weight 64)
    assert_eq!(f.cells[0][0].egc(), char::from_u32(0x2800 + 255 - 8 - 64).unwrap());
    assert_eq!(f.cells[0][0].channels(), channels_combine(a, b));
}

#[test]
fn visual_default_picks_best_supported() {
    let mut nc = Nc::new(full_caps());
    let v = Visual::build().from_rgba(&image(&[1, 2, 3, 4, 5, 6]), 2, 3).unwrap();
    let (_, mode) = v.render(&mut nc, 0, 0, 0).unwrap();
    assert_eq!(mode, Blitter::Sextant);
}

#[test]
fn visual_keeps_only_the_image_bytes() {
    let v = Visual::build().from_rgba(&[1, 2, 3, 4, 5, 6, 7, 8, 9], 1, 2).unwrap();
    assert_eq!(v.rgba(), &vec![1, 2, 3, 4, 5, 6, 7, 8]);
}
