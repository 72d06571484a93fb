use vstd::prelude::*;

use crate::cell::Cell;
use crate::channel::{
    bg_spec, channel_mix, channels_bg, channels_combine, channels_fg, fg_spec, mix_spec, pair_spec,
};
use crate::error::Error;
use crate::event::{event_spec, is_mouse_event, Position, RawInput, Received};
use crate::style::Style;

verus! {

/// The most planes one pile can hold.
pub const MAX_PLANES: usize = 0x8000_0000;

/// One rectangular grid of cells. Its origin `(y, x)` is relative to its
/// parent, or to the pile's origin for a plane without a parent. A grid
/// position holds `None` until it is written; it then shows the base cell.
pub struct Plane {
    pub rows: u32,
    pub cols: u32,
    pub y: i32,
    pub x: i32,
    pub parent: Option<usize>,
    pub grid: Vec<Vec<Option<Cell>>>,
    pub base: Cell,
    pub cursor_y: u32,
    pub cursor_x: u32,
}

/// An arena of planes rendered together. A plane is named by its index; a
/// parent always comes before its children, and the first plane is the
/// pile's root, whose size is the size of a rendered frame.
pub struct Pile {
    planes: Vec<Plane>,
}

/// A rendered frame: the visible cell of each position, row by row.
pub struct Frame {
    pub rows: u32,
    pub cols: u32,
    pub cells: Vec<Vec<Cell>>,
}

impl View for Pile {
    type V = Seq<Plane>;

    closed spec fn view(&self) -> Seq<Plane> {
        self.planes@
    }
}

/// The grid of a plane as a sequence of rows.
pub open spec fn grid_view(p: Plane) -> Seq<Seq<Option<Cell>>> {
    Seq::new(p.grid@.len(), |r: int| p.grid@[r]@)
}

pub open spec fn plane_wf(p: Plane, i: int) -> bool {
    &&& p.rows >= 1
    &&& p.cols >= 1
    &&& p.grid@.len() == p.rows
    &&& forall|r: int| 0 <= r < p.rows ==> #[trigger] p.grid@[r]@.len() == p.cols
    &&& (p.parent matches Some(q) ==> q < i)
    &&& p.cursor_y < p.rows
    &&& p.cursor_x < p.cols
}

pub open spec fn planes_wf(s: Seq<Plane>) -> bool {
    &&& s.len() <= MAX_PLANES
    &&& forall|i: int| 0 <= i < s.len() ==> #[trigger] plane_wf(s[i], i)
}

/// The absolute row of plane `i`: its origin plus its parent's absolute row.
pub open spec fn abs_y(s: Seq<Plane>, i: int) -> int
    decreases i,
{
    if 0 <= i < s.len() {
        match s[i].parent {
            Some(q) => if (q as int) < i {
                abs_y(s, q as int) + s[i].y
            } else {
                s[i].y as int
            },
            None => s[i].y as int,
        }
    } else {
        0
    }
}

/// The absolute column of plane `i`.
pub open spec fn abs_x(s: Seq<Plane>, i: int) -> int
    decreases i,
{
    if 0 <= i < s.len() {
        match s[i].parent {
            Some(q) => if (q as int) < i {
                abs_x(s, q as int) + s[i].x
            } else {
                s[i].x as int
            },
            None => s[i].x as int,
        }
    } else {
        0
    }
}

/// Plane `i` and its ancestors, nearest first, up to a plane without a parent.
pub open spec fn ancestors(s: Seq<Plane>, i: int) -> Seq<int>
    decreases i,
{
    if 0 <= i < s.len() {
        match s[i].parent {
            Some(q) => if (q as int) < i {
                seq![i].add(ancestors(s, q as int))
            } else {
                seq![i]
            },
            None => seq![i],
        }
    } else {
        seq![]
    }
}

/// The sum of the relative rows of the planes in `chain`.
pub open spec fn sum_y(s: Seq<Plane>, chain: Seq<int>) -> int
    decreases chain.len(),
{
    if chain.len() == 0 {
        0
    } else {
        s[chain[0]].y + sum_y(s, chain.drop_first())
    }
}

/// The sum of the relative columns of the planes in `chain`.
pub open spec fn sum_x(s: Seq<Plane>, chain: Seq<int>) -> int
    decreases chain.len(),
{
    if chain.len() == 0 {
        0
    } else {
        s[chain[0]].x + sum_x(s, chain.drop_first())
    }
}

/// An absolute position in the local coordinates of plane `i`, and whether it
/// lies inside the plane.
pub open spec fn translate_spec(s: Seq<Plane>, i: int, ty: int, tx: int) -> ((int, int), bool) {
    let ly = ty - abs_y(s, i);
    let lx = tx - abs_x(s, i);
    ((ly, lx), 0 <= ly < s[i].rows && 0 <= lx < s[i].cols)
}

/// The cell that a plane shows at a local position.
pub open spec fn shown(p: Plane, r: int, c: int) -> Cell {
    match p.grid@[r]@[c] {
        Some(cell) => cell,
        None => p.base,
    }
}

/// The cell seen where cell `top` lies over cell `below`: `below` when `top`
/// is fully transparent, else `top` with each channel mixed over the one
/// beneath it.
pub open spec fn over(top: Cell, below: Cell) -> Cell {
    if top.is_transparent_spec() {
        below
    } else {
        top.with_channels(
            pair_spec(
                mix_spec(fg_spec(top.channels_spec()), fg_spec(below.channels_spec())),
                mix_spec(bg_spec(top.channels_spec()), bg_spec(below.channels_spec())),
            ),
        )
    }
}

/// What `over` gives: the cell beneath where the top cell is fully
/// transparent, else the top cell's glyph, width and style with each channel
/// mixed over the one beneath.
pub proof fn lemma_over_parts(top: Cell, below: Cell)
    ensures
        top.is_transparent_spec() ==> over(top, below) == below,
        !top.is_transparent_spec() ==> {
            let o = over(top, below);
            &&& o.glyph_spec() == top.glyph_spec()
            &&& o.width_spec() == top.width_spec()
            &&& o.style_spec() == top.style_spec()
            &&& o.is_backstop_spec() == top.is_backstop_spec()
            &&& o.channels_spec() == pair_spec(
                mix_spec(fg_spec(top.channels_spec()), fg_spec(below.channels_spec())),
                mix_spec(bg_spec(top.channels_spec()), bg_spec(below.channels_spec())),
            )
        },
{
    crate::cell::lemma_cell_parts(
        top,
        ' ',
        1,
        top.style_spec(),
        pair_spec(
            mix_spec(fg_spec(top.channels_spec()), fg_spec(below.channels_spec())),
            mix_spec(bg_spec(top.channels_spec()), bg_spec(below.channels_spec())),
        ),
    );
}

/// The cell seen at an absolute position when the first `k` planes are drawn
/// in order over the root's base cell, each over the ones before it.
pub open spec fn visible(s: Seq<Plane>, k: int, y: int, x: int) -> Cell
    decreases k,
{
    if k <= 0 || k > s.len() {
        s[0].base
    } else {
        let i = k - 1;
        let below = visible(s, k - 1, y, x);
        let ly = y - abs_y(s, i);
        let lx = x - abs_x(s, i);
        if 0 <= ly < s[i].rows && 0 <= lx < s[i].cols {
            over(shown(s[i], ly, lx), below)
        } else {
            below
        }
    }
}

/// `f` is the frame of a pile of planes `s`: the root's size, and at each
/// position the visible cell.
pub open spec fn rendered(s: Seq<Plane>, f: Frame) -> bool {
    &&& s.len() > 0
    &&& f.rows == s[0].rows
    &&& f.cols == s[0].cols
    &&& f.cells@.len() == f.rows
    &&& forall|y: int| 0 <= y < f.rows ==> (#[trigger] f.cells@[y])@.len() == f.cols
    &&& forall|y: int, x: int|
        0 <= y < f.rows && 0 <= x < f.cols ==> (#[trigger] f.cells@[y]@[x]) == visible(
            s,
            s.len() as int,
            y,
            x,
        )
}

/// The base cell of a new plane: an opaque space.
pub open spec fn default_base() -> Cell {
    Cell::new_spec(' ', 1, Style { bits: 0 }, 0)
}

/// A plane just created with these parameters: nothing written yet.
pub open spec fn fresh_plane(
    p: Plane,
    parent: Option<usize>,
    rows: u32,
    cols: u32,
    y: i32,
    x: i32,
) -> bool {
    &&& p.rows == rows
    &&& p.cols == cols
    &&& p.y == y
    &&& p.x == x
    &&& p.parent == parent
    &&& p.base == default_base()
    &&& p.cursor_y == 0
    &&& p.cursor_x == 0
    &&& p.grid@.len() == rows
    &&& forall|r: int, c: int|
        0 <= r < rows && 0 <= c < cols ==> (#[trigger] p.grid@[r]@[c]) is None
}

/// Whether `cell` can be written at `(row, col)` of `p`: the position and, for
/// a wide glyph, the position to its right lie inside the plane.
pub open spec fn write_fits(p: Plane, row: int, col: int, cell: Cell) -> bool {
    &&& 0 <= row < p.rows
    &&& 0 <= col < p.cols
    &&& cell.width_spec() == 2 ==> col + 1 < p.cols
}

/// The grid of `p` after `cell` was written at `(row, col)`.
pub open spec fn written(p: Plane, row: int, col: int, cell: Cell) -> Seq<Seq<Option<Cell>>> {
    let line = grid_view(p)[row].update(col, Some(cell));
    let line = if cell.width_spec() == 2 {
        line.update(col + 1, Some(Cell::backstop_of(cell)))
    } else {
        line
    };
    grid_view(p).update(row, line)
}

/// Plane `a` and `b` agree on everything but their grids.
pub open spec fn same_but_grid(a: Plane, b: Plane) -> bool {
    &&& a.rows == b.rows
    &&& a.cols == b.cols
    &&& a.y == b.y
    &&& a.x == b.x
    &&& a.parent == b.parent
    &&& a.base == b.base
    &&& a.cursor_y == b.cursor_y
    &&& a.cursor_x == b.cursor_x
}

/// Absolute positions stay within a bound that grows with the plane's index.
pub proof fn lemma_abs_bound(s: Seq<Plane>, i: int)
    requires
        planes_wf(s),
        0 <= i < s.len(),
    ensures
        -(i + 1) * 0x8000_0000 <= abs_y(s, i) <= (i + 1) * 0x8000_0000,
        -(i + 1) * 0x8000_0000 <= abs_x(s, i) <= (i + 1) * 0x8000_0000,
    decreases i,
{
    assert(plane_wf(s[i], i));
    if let Some(q) = s[i].parent {
        lemma_abs_bound(s, q as int);
    }
}

/// The absolute position of a plane is the sum of the relative positions of
/// the plane and all its ancestors.
pub proof fn lemma_absolute_is_chain_sum(s: Seq<Plane>, i: int)
    requires
        planes_wf(s),
        0 <= i < s.len(),
    ensures
        ancestors(s, i).len() >= 1,
        ancestors(s, i)[0] == i,
        s[ancestors(s, i).last()].parent is None,
        abs_y(s, i) == sum_y(s, ancestors(s, i)),
        abs_x(s, i) == sum_x(s, ancestors(s, i)),
    decreases i,
{
    assert(plane_wf(s[i], i));
    let chain = ancestors(s, i);
    if let Some(q) = s[i].parent {
        lemma_absolute_is_chain_sum(s, q as int);
        let rest = ancestors(s, q as int);
        assert(chain == seq![i].add(rest));
        assert(chain.drop_first() =~= rest);
        assert(chain.last() == rest.last());
    } else {
        assert(chain == seq![i]);
        assert(chain.drop_first() =~= Seq::<int>::empty());
    }
    assert(sum_y(s, chain) == s[i].y + sum_y(s, chain.drop_first()));
    assert(sum_x(s, chain) == s[i].x + sum_x(s, chain.drop_first()));
}

/// Translation is the inverse of absolute positioning: translating a plane's
/// absolute position moved by `(ly, lx)` gives back `(ly, lx)`, inside the
/// plane exactly when it lies in `[0, rows) x [0, cols)`. So the plane's own
/// absolute position gives its upper-left local corner, inside the plane, and
/// the position just past its lower-right corner gives `(rows, cols)`, outside.
pub proof fn lemma_translate_corners(s: Seq<Plane>, i: int, ly: int, lx: int)
    requires
        planes_wf(s),
        0 <= i < s.len(),
    ensures
        translate_spec(s, i, abs_y(s, i) + ly, abs_x(s, i) + lx) == (
            (ly, lx),
            0 <= ly < s[i].rows && 0 <= lx < s[i].cols,
        ),
        translate_spec(s, i, abs_y(s, i), abs_x(s, i)) == ((0int, 0int), true),
        translate_spec(s, i, abs_y(s, i) + s[i].rows, abs_x(s, i) + s[i].cols) == (
            (s[i].rows as int, s[i].cols as int),
            false,
        ),
{
    assert(plane_wf(s[i], i));
}

/// Hit-testing a mouse event: a mouse record whose row is defined carries
/// its position as the event's cell, and translating that cell into plane
/// `i` gives its offset `(ly, lx)` from the plane's absolute position, inside
/// the plane exactly when it lies in `[0, rows) x [0, cols)`.
pub proof fn lemma_mouse_hit(s: Seq<Plane>, i: int, received: Received, input: RawInput, ly: int, lx: int)
    requires
        planes_wf(s),
        0 <= i < s.len(),
        is_mouse_event(received),
        input.y != -1,
        input.y == abs_y(s, i) + ly,
        input.x == abs_x(s, i) + lx,
    ensures
        event_spec(received, input).cell == Some(Position { y: input.y, x: input.x }),
        translate_spec(s, i, input.y as int, input.x as int) == (
            (ly, lx),
            0 <= ly < s[i].rows && 0 <= lx < s[i].cols,
        ),
{
    lemma_translate_corners(s, i, ly, lx);
}

/// A grid of `rows` rows of `cols` empty positions.
fn blank_grid(rows: u32, cols: u32) -> (g: Vec<Vec<Option<Cell>>>)
    ensures
        g@.len() == rows,
        forall|r: int| 0 <= r < rows ==> #[trigger] g@[r]@.len() == cols,
        forall|r: int, c: int| 0 <= r < rows && 0 <= c < cols ==> (#[trigger] g@[r]@[c]) is None,
{
    let mut g: Vec<Vec<Option<Cell>>> = Vec::new();
    let mut r: u32 = 0;
    while r < rows
        invariant
            r <= rows,
            g@.len() == r,
            forall|k: int| 0 <= k < r ==> #[trigger] g@[k]@.len() == cols,
            forall|k: int, c: int| 0 <= k < r && 0 <= c < cols ==> (#[trigger] g@[k]@[c]) is None,
        decreases rows - r,
    {
        let mut line: Vec<Option<Cell>> = Vec::new();
        let mut c: u32 = 0;
        while c < cols
            invariant
                c <= cols,
                line@.len() == c,
                forall|k: int| 0 <= k < c ==> (#[trigger] line@[k]) is None,
            decreases cols - c,
        {
            line.push(None);
            c = c + 1;
        }
        g.push(line);
        r = r + 1;
    }
    g
}

impl Pile {
    pub open spec fn wf(&self) -> bool {
        planes_wf(self@)
    }

    /// A pile with no planes.
    pub fn new() -> (r: Pile)
        ensures
            r.wf(),
            r@ == Seq::<Plane>::empty(),
    {
        let r = Pile { planes: Vec::new() };
        assert(r@ =~= Seq::<Plane>::empty());
        r
    }

    /// The number of planes.
    pub fn len(&self) -> (r: usize)
        ensures
            r == self@.len(),
    {
        self.planes.len()
    }

    /// Adds a plane of `rows` by `cols` at `(y, x)` relative to `parent`, or to
    /// the pile's origin, and returns its index. Fails with `InvalidGeometry`
    /// when either size is zero.
    pub fn create(&mut self, parent: Option<usize>, rows: u32, cols: u32, y: i32, x: i32) -> (r:
        Result<usize, Error>)
        requires
            old(self).wf(),
            old(self)@.len() < MAX_PLANES,
            parent matches Some(q) ==> q < old(self)@.len(),
        ensures
            final(self).wf(),
            rows == 0 || cols == 0 ==> r == Err::<usize, Error>(Error::InvalidGeometry)
                && final(self)@ == old(self)@,
            rows > 0 && cols > 0 ==> r == Ok::<usize, Error>(old(self)@.len() as usize)
                && final(self)@.len() == old(self)@.len() + 1
                && final(self)@.drop_last() == old(self)@
                && fresh_plane(final(self)@.last(), parent, rows, cols, y, x),
    {
        if rows == 0 || cols == 0 {
            return Err(Error::InvalidGeometry);
        }
        let base = Cell::new(' ', 1, Style { bits: 0 }, 0);
        let grid = blank_grid(rows, cols);
        let index = self.planes.len();
        let plane = Plane { rows, cols, y, x, parent, grid, base, cursor_y: 0, cursor_x: 0 };
        self.planes.push(plane);
        proof {
            assert(self@.drop_last() =~= old(self)@);
            assert forall|i: int| 0 <= i < self@.len() implies #[trigger] plane_wf(self@[i], i) by {
                if i < index {
                    assert(self@[i] == old(self)@[i]);
                }
            }
        }
        Ok(index)
    }

    /// Adds a plane whose parent is plane `parent`; see `create`.
    pub fn attach_child(&mut self, parent: usize, rows: u32, cols: u32, y: i32, x: i32) -> (r:
        Result<usize, Error>)
        requires
            old(self).wf(),
            old(self)@.len() < MAX_PLANES,
            parent < old(self)@.len(),
        ensures
            final(self).wf(),
            rows == 0 || cols == 0 ==> r == Err::<usize, Error>(Error::InvalidGeometry)
                && final(self)@ == old(self)@,
            rows > 0 && cols > 0 ==> r == Ok::<usize, Error>(old(self)@.len() as usize)
                && final(self)@.len() == old(self)@.len() + 1
                && final(self)@.drop_last() == old(self)@
                && fresh_plane(final(self)@.last(), Some(parent), rows, cols, y, x),
    {
        self.create(Some(parent), rows, cols, y, x)
    }

    /// The origin of plane `i`, relative to its parent or the pile's origin.
    pub fn relative_position(&self, i: usize) -> (r: (i32, i32))
        requires
            i < self@.len(),
        ensures
            r == (self@[i as int].y, self@[i as int].x),
    {
        (self.planes[i].y, self.planes[i].x)
    }

    /// The size of plane `i` as `(rows, cols)`.
    pub fn size(&self, i: usize) -> (r: (u32, u32))
        requires
            i < self@.len(),
        ensures
            r == (self@[i as int].rows, self@[i as int].cols),
    {
        (self.planes[i].rows, self.planes[i].cols)
    }

    /// The parent of plane `i`.
    pub fn parent(&self, i: usize) -> (r: Option<usize>)
        requires
            i < self@.len(),
        ensures
            r == self@[i as int].parent,
    {
        self.planes[i].parent
    }

    /// The position of plane `i` relative to the pile's origin, computed anew
    /// from the origins of the plane and its ancestors.
    pub fn absolute_position(&self, i: usize) -> (r: (i64, i64))
        requires
            self.wf(),
            i < self@.len(),
        ensures
            r.0 == abs_y(self@, i as int),
            r.1 == abs_x(self@, i as int),
        decreases i,
    {
        proof {
            assert(plane_wf(self@[i as int], i as int));
        }
        let y = self.planes[i].y as i64;
        let x = self.planes[i].x as i64;
        match self.planes[i].parent {
            Some(q) => {
                proof {
                    lemma_abs_bound(self@, q as int);
                }
                let (ay, ax) = self.absolute_position(q);
                (ay + y, ax + x)
            },
            None => (y, x),
        }
    }

    /// Moves plane `i` by `(dy, dx)` relative to where it stands; its
    /// descendants move with it.
    pub fn move_relative(&mut self, i: usize, dy: i32, dx: i32)
        requires
            old(self).wf(),
            i < old(self)@.len(),
            i32::MIN <= old(self)@[i as int].y + dy <= i32::MAX,
            i32::MIN <= old(self)@[i as int].x + dx <= i32::MAX,
        ensures
            final(self).wf(),
            final(self)@ == old(self)@.update(i as int, final(self)@[i as int]),
            final(self)@[i as int].y == old(self)@[i as int].y + dy,
            final(self)@[i as int].x == old(self)@[i as int].x + dx,
            final(self)@[i as int].grid == old(self)@[i as int].grid,
            final(self)@[i as int].rows == old(self)@[i as int].rows,
            final(self)@[i as int].cols == old(self)@[i as int].cols,
            final(self)@[i as int].parent == old(self)@[i as int].parent,
            final(self)@[i as int].base == old(self)@[i as int].base,
            final(self)@[i as int].cursor_y == old(self)@[i as int].cursor_y,
            final(self)@[i as int].cursor_x == old(self)@[i as int].cursor_x,
    {
        self.planes[i].y = self.planes[i].y + dy;
        self.planes[i].x = self.planes[i].x + dx;
        proof {
            assert(self@ =~= old(self)@.update(i as int, self@[i as int]));
            assert forall|k: int| 0 <= k < self@.len() implies #[trigger] plane_wf(self@[k], k) by {
                assert(plane_wf(old(self)@[k], k));
            }
        }
    }

    /// Converts the absolute position `(ty, tx)` to the local coordinates of
    /// plane `i`, with whether it lies inside the plane.
    pub fn translate_absolute(&self, i: usize, ty: i32, tx: i32) -> (r: ((i64, i64), bool))
        requires
            self.wf(),
            i < self@.len(),
        ensures
            r.0.0 == translate_spec(self@, i as int, ty as int, tx as int).0.0,
            r.0.1 == translate_spec(self@, i as int, ty as int, tx as int).0.1,
            r.1 == translate_spec(self@, i as int, ty as int, tx as int).1,
    {
        let (ay, ax) = self.absolute_position(i);
        proof {
            lemma_abs_bound(self@, i as int);
        }
        let ly = ty as i64 - ay;
        let lx = tx as i64 - ax;
        let rows = self.planes[i].rows as i64;
        let cols = self.planes[i].cols as i64;
        ((ly, lx), 0 <= ly && ly < rows && 0 <= lx && lx < cols)
    }
    /// Writes `cell` at `(row, col)` of plane `i`. A wide glyph also fills the
    /// position to its right with its backstop. Fails with `OutOfBounds`, and
    /// changes nothing, when either position lies outside the plane.
    pub fn write_cell(&mut self, i: usize, row: u32, col: u32, cell: Cell) -> (r: Result<(), Error>)
        requires
            old(self).wf(),
            i < old(self)@.len(),
        ensures
            final(self).wf(),
            write_fits(old(self)@[i as int], row as int, col as int, cell) <==> r is Ok,
            r is Err ==> r == Err::<(), Error>(Error::OutOfBounds) && final(self)@ == old(self)@,
            r is Ok ==> final(self)@ == old(self)@.update(i as int, final(self)@[i as int])
                && same_but_grid(final(self)@[i as int], old(self)@[i as int])
                && grid_view(final(self)@[i as int]) == written(
                old(self)@[i as int],
                row as int,
                col as int,
                cell,
            ),
    {
        let rows = self.planes[i].rows;
        let cols = self.planes[i].cols;
        if row >= rows || col >= cols {
            return Err(Error::OutOfBounds);
        }
        let wide = cell.width() == 2;
        if wide && col >= cols - 1 {
            return Err(Error::OutOfBounds);
        }
        proof {
            assert(plane_wf(old(self)@[i as int], i as int));
            assert(old(self)@[i as int].grid@[row as int]@.len() == cols);
        }
        self.planes[i].grid[row as usize][col as usize] = Some(cell);
        if wide {
            let trail = cell.backstop_for();
            self.planes[i].grid[row as usize][col as usize + 1] = Some(trail);
        }
        proof {
            let p = self@[i as int];
            let o = old(self)@[i as int];
            assert(self@ =~= old(self)@.update(i as int, p));
            assert(grid_view(p) =~= written(o, row as int, col as int, cell));
            assert forall|k: int| 0 <= k < self@.len() implies #[trigger] plane_wf(self@[k], k) by {
                assert(plane_wf(old(self)@[k], k));
                if k == i {
                    assert forall|rr: int| 0 <= rr < p.rows implies #[trigger] p.grid@[rr]@.len()
                        == p.cols by {
                        assert(o.grid@[rr]@.len() == o.cols);
                    }
                }
            }
        }
        Ok(())
    }

    /// Sets the base cell of plane `i`, shown where nothing was written.
    /// Written positions keep their cells.
    pub fn set_base(&mut self, i: usize, glyph: char, style: Style, channels: u64)
        requires
            old(self).wf(),
            i < old(self)@.len(),
        ensures
            final(self).wf(),
            final(self)@ == old(self)@.update(i as int, final(self)@[i as int]),
            final(self)@[i as int].base == Cell::new_spec(glyph, 1, style, channels),
            final(self)@[i as int].grid == old(self)@[i as int].grid,
            final(self)@[i as int].rows == old(self)@[i as int].rows,
            final(self)@[i as int].cols == old(self)@[i as int].cols,
            final(self)@[i as int].y == old(self)@[i as int].y,
            final(self)@[i as int].x == old(self)@[i as int].x,
            final(self)@[i as int].parent == old(self)@[i as int].parent,
            final(self)@[i as int].cursor_y == old(self)@[i as int].cursor_y,
            final(self)@[i as int].cursor_x == old(self)@[i as int].cursor_x,
    {
        self.planes[i].base = Cell::new(glyph, 1, style, channels);
        proof {
            assert(self@ =~= old(self)@.update(i as int, self@[i as int]));
            assert forall|k: int| 0 <= k < self@.len() implies #[trigger] plane_wf(self@[k], k) by {
                assert(plane_wf(old(self)@[k], k));
            }
        }
    }

    /// The cell that plane `i` shows at `(row, col)`: the one written there,
    /// else its base cell. Fails with `OutOfBounds` outside the plane.
    pub fn cell_at(&self, i: usize, row: u32, col: u32) -> (r: Result<Cell, Error>)
        requires
            self.wf(),
            i < self@.len(),
        ensures
            row < self@[i as int].rows && col < self@[i as int].cols ==> r == Ok::<Cell, Error>(
                shown(self@[i as int], row as int, col as int),
            ),
            !(row < self@[i as int].rows && col < self@[i as int].cols) ==> r == Err::<Cell, Error>(
                Error::OutOfBounds,
            ),
    {
        if row >= self.planes[i].rows || col >= self.planes[i].cols {
            return Err(Error::OutOfBounds);
        }
        proof {
            assert(plane_wf(self@[i as int], i as int));
            assert(self@[i as int].grid@[row as int]@.len() == self@[i as int].cols);
        }
        match self.planes[i].grid[row as usize][col as usize] {
            Some(c) => Ok(c),
            None => Ok(self.planes[i].base),
        }
    }

    /// The cursor of plane `i` as `(row, col)`.
    pub fn cursor_yx(&self, i: usize) -> (r: (u32, u32))
        requires
            i < self@.len(),
        ensures
            r == (self@[i as int].cursor_y, self@[i as int].cursor_x),
    {
        (self.planes[i].cursor_y, self.planes[i].cursor_x)
    }

    /// Moves the cursor of plane `i` to `(row, col)`. Fails with
    /// `OutOfBounds`, and leaves it where it was, outside the plane.
    pub fn cursor_move_yx(&mut self, i: usize, row: u32, col: u32) -> (r: Result<(), Error>)
        requires
            old(self).wf(),
            i < old(self)@.len(),
        ensures
            final(self).wf(),
            (row < old(self)@[i as int].rows && col < old(self)@[i as int].cols) <==> r is Ok,
            r is Err ==> r == Err::<(), Error>(Error::OutOfBounds) && final(self)@ == old(self)@,
            r is Ok ==> final(self)@ == old(self)@.update(
                i as int,
                final(self)@[i as int],
            ) && final(self)@[i as int].cursor_y == row && final(self)@[i as int].cursor_x == col
                && final(self)@[i as int].grid == old(self)@[i as int].grid
                && final(self)@[i as int].rows == old(self)@[i as int].rows
                && final(self)@[i as int].cols == old(self)@[i as int].cols
                && final(self)@[i as int].y == old(self)@[i as int].y
                && final(self)@[i as int].x == old(self)@[i as int].x
                && final(self)@[i as int].parent == old(self)@[i as int].parent
                && final(self)@[i as int].base == old(self)@[i as int].base,
    {
        if row >= self.planes[i].rows || col >= self.planes[i].cols {
            return Err(Error::OutOfBounds);
        }
        self.planes[i].cursor_y = row;
        self.planes[i].cursor_x = col;
        proof {
            assert(self@ =~= old(self)@.update(i as int, self@[i as int]));
            assert forall|k: int| 0 <= k < self@.len() implies #[trigger] plane_wf(self@[k], k) by {
                assert(plane_wf(old(self)@[k], k));
            }
        }
        Ok(())
    }

    /// The cell seen at absolute position `(y, x)` with every plane drawn.
    fn visible_at(&self, y: u32, x: u32) -> (r: Cell)
        requires
            self.wf(),
            self@.len() > 0,
        ensures
            r == visible(self@, self@.len() as int, y as int, x as int),
    {
        let n = self.planes.len();
        let mut cell = self.planes[0].base;
        let mut k: usize = 0;
        while k < n
            invariant
                self.wf(),
                n == self@.len(),
                n > 0,
                k <= n,
                cell == visible(self@, k as int, y as int, x as int),
            decreases n - k,
        {
            let (ay, ax) = self.absolute_position(k);
            proof {
                lemma_abs_bound(self@, k as int);
                assert(plane_wf(self@[k as int], k as int));
            }
            let ly = y as i64 - ay;
            let lx = x as i64 - ax;
            let p = &self.planes[k];
            if 0 <= ly && ly < p.rows as i64 && 0 <= lx && lx < p.cols as i64 {
                proof {
                    assert(p.grid@[ly as int]@.len() == p.cols);
                }
                let top = match p.grid[ly as usize][lx as usize] {
                    Some(c) => c,
                    None => p.base,
                };
                if !top.is_transparent() {
                    let below = cell.channels();
                    let fg = channel_mix(channels_fg(top.channels()), channels_fg(below));
                    let bg = channel_mix(channels_bg(top.channels()), channels_bg(below));
                    let mut mixed = top;
                    mixed.set_channels(channels_combine(fg, bg));
                    cell = mixed;
                }
            }
            k = k + 1;
        }
        cell
    }

    /// Composites the pile into a frame of the root plane's size. Planes are
    /// drawn in order over the root's base cell, later ones above earlier
    /// ones; a fully transparent cell leaves what lies beneath, and each
    /// channel of any other cell is mixed over the one beneath it.
    /// Fails with `PileEmpty` on a pile without planes.
    pub fn render(&self) -> (r: Result<Frame, Error>)
        requires
            self.wf(),
        ensures
            self@.len() == 0 <==> r is Err,
            r is Err ==> r == Err::<Frame, Error>(Error::PileEmpty),
            r matches Ok(f) ==> rendered(self@, f),
    {
        if self.planes.len() == 0 {
            return Err(Error::PileEmpty);
        }
        let rows = self.planes[0].rows;
        let cols = self.planes[0].cols;
        let mut cells: Vec<Vec<Cell>> = Vec::new();
        let mut y: u32 = 0;
        while y < rows
            invariant
                self.wf(),
                self@.len() > 0,
                rows == self@[0].rows,
                cols == self@[0].cols,
                y <= rows,
                cells@.len() == y,
                forall|k: int| 0 <= k < y ==> (#[trigger] cells@[k])@.len() == cols,
                forall|k: int, x: int|
                    0 <= k < y && 0 <= x < cols ==> (#[trigger] cells@[k]@[x]) == visible(
                        self@,
                        self@.len() as int,
                        k,
                        x,
                    ),
            decreases rows - y,
        {
            let mut line: Vec<Cell> = Vec::new();
            let mut x: u32 = 0;
            while x < cols
                invariant
                    self.wf(),
                    self@.len() > 0,
                    x <= cols,
                    line@.len() == x,
                    forall|k: int|
                        0 <= k < x ==> (#[trigger] line@[k]) == visible(
                            self@,
                            self@.len() as int,
                            y as int,
                            k,
                        ),
                decreases cols - x,
            {
                line.push(self.visible_at(y, x));
                x = x + 1;
            }
            cells.push(line);
            y = y + 1;
        }
        Ok(Frame { rows, cols, cells })
    }
}

} // verus!
