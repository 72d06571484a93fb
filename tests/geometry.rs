use notcurses::error::Error;
use notcurses::{Nc, Pile};
use notcurses::Capabilities;

fn no_caps() -> Capabilities {
    Capabilities {
        halfblock: false,
        quadrant: false,
        sextant: false,
        braille: false,
        utf8: false,
        images: false,
        videos: false,
        pixel: false,
        truecolor: false,
        fade: false,
        palette_change: false,
        palette_size: 0,
    }
}

#[test]
fn child_absolute_position_adds_parent_origin() {
    let mut pile = Pile::new();
    let p1 = pile.create(None, 3, 3, 1, 1).unwrap();
    let p2 = pile.attach_child(p1, 2, 2, 2, 2).unwrap();
    assert_eq!(pile.relative_position(p1), (1, 1));
    assert_eq!(pile.relative_position(p2), (2, 2));
    assert_eq!(pile.absolute_position(p1), (1, 1));
    assert_eq!(pile.absolute_position(p2), (3, 3));
}

#[test]
fn absolute_position_is_sum_over_chain() {
    let mut pile = Pile::new();
    let a = pile.create(None, 4, 4, 1, -2).unwrap();
    let b = pile.attach_child(a, 4, 4, 10, 20).unwrap();
    let c = pile.attach_child(b, 4, 4, -3, 7).unwrap();
    assert_eq!(pile.absolute_position(c), (1 + 10 - 3, -2 + 20 + 7));
    pile.move_relative(a, 5, 5);
    assert_eq!(pile.absolute_position(c), (13, 30));
    assert_eq!(pile.relative_position(c), (-3, 7));
}

#[test]
fn translate_absolute_examples() {
    let mut pile = Pile::new();
    let p = pile.create(None, 5, 5, 10, 10).unwrap();
    assert_eq!(pile.translate_absolute(p, 10, 10), ((0, 0), true));
    assert_eq!(pile.translate_absolute(p, 14, 14), ((4, 4), true));
    assert_eq!(pile.translate_absolute(p, 2, 2), ((-8, -8), false));
    assert_eq!(pile.translate_absolute(p, 20, 20), ((10, 10), false));
}

#[test]
fn translate_absolute_corners() {
    let mut pile = Pile::new();
    let root = pile.create(None, 8, 8, 2, 3).unwrap();
    let p = pile.attach_child(root, 3, 6, 1, 1).unwrap();
    let (ar, ac) = pile.absolute_position(p);
    assert_eq!((ar, ac), (3, 4));
    assert_eq!(pile.translate_absolute(p, ar as i32, ac as i32), ((0, 0), true));
    assert_eq!(pile.translate_absolute(p, ar as i32 + 3, ac as i32 + 6), ((3, 6), false));
    assert_eq!(pile.translate_absolute(p, ar as i32 + 2, ac as i32 + 5), ((2, 5), true));
}

#[test]
fn zero_sized_plane_is_invalid_geometry() {
    let mut pile = Pile::new();
    assert_eq!(pile.create(None, 0, 4, 0, 0), Err(Error::InvalidGeometry));
    assert_eq!(pile.create(None, 4, 0, 0, 0), Err(Error::InvalidGeometry));
    assert_eq!(pile.len(), 0);
}

#[test]
fn cursor_moves_within_plane() {
    let mut pile = Pile::new();
    let p = pile.create(None, 2, 3, 0, 0).unwrap();
    assert_eq!(pile.cursor_yx(p), (0, 0));
    assert_eq!(pile.cursor_move_yx(p, 1, 2), Ok(()));
    assert_eq!(pile.cursor_yx(p), (1, 2));
    assert_eq!(pile.cursor_move_yx(p, 2, 0), Err(Error::OutOfBounds));
    assert_eq!(pile.cursor_yx(p), (1, 2));
}

#[test]
fn nc_positions_through_handles() {
    let mut nc = Nc::new(no_caps());
    let p1 = nc.create_plane(0, None, 4, 4, 1, 1).unwrap();
    let p2 = nc.create_plane(0, Some(p1), 2, 2, 2, 2).unwrap();
    assert_eq!(nc.plane_yx(p2), Ok((2, 2)));
    assert_eq!(nc.plane_abs_yx(p2), Ok((3, 3)));
    assert_eq!(nc.plane_translate_abs(p2, 3, 3), Ok(((0, 0), true)));
}

#[test]
fn handles_fail_after_drop_planes() {
    let mut nc = Nc::new(no_caps());
    let p = nc.create_plane(0, None, 4, 4, 0, 0).unwrap();
    assert!(nc.is_valid(p));
    nc.drop_planes();
    assert!(!nc.is_valid(p));
    assert_eq!(nc.plane_yx(p), Err(Error::UseAfterDrop));
    assert_eq!(nc.plane_abs_yx(p), Err(Error::UseAfterDrop));
    assert_eq!(nc.create_plane(0, Some(p), 1, 1, 0, 0), Err(Error::UseAfterDrop));
    assert_eq!(nc.render(0).err(), Some(Error::PileEmpty));
    let q = nc.create_plane(0, None, 1, 1, 0, 0).unwrap();
    assert_eq!(q.generation, 1);
    assert_eq!(nc.plane_yx(q), Ok((0, 0)));
}

#[test]
fn missing_pile_is_refused() {
    let mut nc = Nc::without_altscreen(no_caps());
    assert!(!nc.uses_altscreen());
    assert_eq!(nc.create_plane(3, None, 1, 1, 0, 0), Err(Error::UseAfterDrop));
    let pile = nc.new_pile();
    assert_eq!(pile, 1);
    assert!(nc.create_plane(pile, None, 1, 1, 0, 0).is_ok());
    assert_eq!(nc.term_capabilities(), no_caps());
}

#[test]
fn nc_moves_and_bases_through_handles() {
    let mut nc = Nc::new(no_caps());
    let root = nc.create_plane(0, None, 2, 2, 0, 0).unwrap();
    let child = nc.create_plane(0, Some(root), 1, 1, 0, 0).unwrap();
    assert_eq!(nc.plane_move_rel(child, 1, 1), Ok(()));
    assert_eq!(nc.plane_abs_yx(child), Ok((1, 1)));
    assert_eq!(nc.plane_set_base(child, 'k', notcurses::Style::from_bits(0), 0), Ok(()));
    let f = nc.render(0).unwrap();
    assert_eq!(f.cells[1][1].egc(), 'k');
    assert_eq!(f.cells[0][0].egc(), ' ');
    nc.drop_planes();
    assert_eq!(nc.plane_move_rel(child, 1, 1), Err(Error::UseAfterDrop));
    assert_eq!(nc.plane_set_base(child, 'k', notcurses::Style::from_bits(0), 0), Err(Error::UseAfterDrop));
}

#[test]
fn nc_cells_and_cursor_through_handles() {
    let mut nc = Nc::new(no_caps());
    assert_eq!(nc.plane_count(0), Some(0));
    assert_eq!(nc.plane_count(4), None);
    let p = nc.create_plane(0, None, 2, 3, 0, 0).unwrap();
    assert_eq!(nc.plane_count(0), Some(1));
    let c = notcurses::Cell::new('q', 1, notcurses::Style::from_bits(0), 0);
    nc.write_cell(p, 1, 2, c).unwrap();
    assert_eq!(nc.plane_cell_at(p, 1, 2), Ok(c));
    assert_eq!(nc.plane_cell_at(p, 0, 0).map(|c| c.egc()), Ok(' '));
    assert_eq!(nc.plane_cell_at(p, 2, 0), Err(Error::OutOfBounds));
    assert_eq!(nc.plane_cursor_move_yx(p, 1, 1), Ok(()));
    assert_eq!(nc.plane_cursor_move_yx(p, 1, 3), Err(Error::OutOfBounds));
    nc.drop_planes();
    assert_eq!(nc.plane_cell_at(p, 1, 2), Err(Error::UseAfterDrop));
    assert_eq!(nc.plane_cursor_move_yx(p, 0, 0), Err(Error::UseAfterDrop));
}

#[test]
fn mouse_hit_at_plane_corners() {
    let mut pile = Pile::new();
    let root = pile.create(None, 10, 10, 2, 1).unwrap();
    let p = pile.attach_child(root, 5, 5, 3, 3).unwrap();
    let mouse = notcurses::Received::Key(notcurses::Key { code: notcurses::event::KEY_MOUSE_FIRST + 1 });
    let (ar, ac) = pile.absolute_position(p);
    let input = notcurses::RawInput { modifiers: 0, evtype: 1, y: ar as i32, x: ac as i32, ypx: -1, xpx: -1 };
    let e = notcurses::Event::from_input(mouse, input);
    let cell = e.cell.unwrap();
    assert_eq!(pile.translate_absolute(p, cell.y, cell.x), ((0, 0), true));
    let far = notcurses::RawInput { y: ar as i32 + 5, x: ac as i32 + 5, ..input };
    let cell = notcurses::Event::from_input(mouse, far).cell.unwrap();
    assert_eq!(pile.translate_absolute(p, cell.y, cell.x), ((5, 5), false));
}
