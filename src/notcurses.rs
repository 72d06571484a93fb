use vstd::prelude::*;

use crate::blitter::Capabilities;
use crate::cell::Cell;
use crate::error::Error;
use crate::style::Style;
use crate::raster::{frame_bytes, frame_rows, rasterize};
use crate::pile::{rendered, shown, abs_y, abs_x, plane_wf, planes_wf, grid_view, same_but_grid, translate_spec, write_fits, written, Frame, Pile, Plane, MAX_PLANES};

verus! {

/// A handle on a plane: its pile, its index there, and the generation of
/// planes it belongs to.
#[derive(Clone, Copy, Debug, PartialEq, Eq, Structural)]
pub struct PlaneId {
    pub pile: usize,
    pub index: usize,
    pub generation: u64,
}

/// The engine's context: its piles, the current generation of planes, and
/// what the terminal can draw. Dropping all planes starts a new generation,
/// and handles of an earlier one are refused from then on.
pub struct Nc {
    piles: Vec<Pile>,
    generation: u64,
    caps: Capabilities,
    altscreen: bool,
}

impl Nc {
    pub closed spec fn piles_spec(&self) -> Seq<Seq<Plane>> {
        Seq::new(self.piles@.len(), |p: int| self.piles@[p]@)
    }

    pub closed spec fn generation_spec(&self) -> u64 {
        self.generation
    }

    pub closed spec fn caps_spec(&self) -> Capabilities {
        self.caps
    }

    pub closed spec fn altscreen_spec(&self) -> bool {
        self.altscreen
    }

    pub closed spec fn wf(&self) -> bool {
        forall|p: int| 0 <= p < self.piles@.len() ==> (#[trigger] self.piles@[p]).wf()
    }

    /// Whether `id` names a plane of the current generation.
    pub open spec fn valid(&self, id: PlaneId) -> bool {
        &&& id.generation == self.generation_spec()
        &&& id.pile < self.piles_spec().len()
        &&& id.index < self.piles_spec()[id.pile as int].len()
    }

    /// The planes of the pile of `id`.
    pub open spec fn planes_of(&self, id: PlaneId) -> Seq<Plane> {
        self.piles_spec()[id.pile as int]
    }

    /// A plane that a valid handle names is well formed.
    pub proof fn lemma_valid_plane(&self, id: PlaneId)
        requires
            self.wf(),
            self.valid(id),
        ensures
            planes_wf(self.planes_of(id)),
            plane_wf(self.planes_of(id)[id.index as int], id.index as int),
    {
        assert(self.piles_spec()[id.pile as int] == self.piles@[id.pile as int]@);
        assert(self.piles@[id.pile as int].wf());
    }

    /// A context with one empty pile, drawing on the alternate screen.
    pub fn new(caps: Capabilities) -> (r: Nc)
        ensures
            r.wf(),
            r.piles_spec().len() == 1,
            r.piles_spec()[0].len() == 0,
            r.generation_spec() == 0,
            r.caps_spec() == caps,
            r.altscreen_spec(),
    {
        let mut piles: Vec<Pile> = Vec::new();
        piles.push(Pile::new());
        let r = Nc { piles, generation: 0, caps, altscreen: true };
        assert(r.piles_spec()[0] == r.piles@[0]@);
        r
    }

    /// A context with one empty pile, drawing without the alternate screen.
    pub fn without_altscreen(caps: Capabilities) -> (r: Nc)
        ensures
            r.wf(),
            r.piles_spec().len() == 1,
            r.piles_spec()[0].len() == 0,
            r.generation_spec() == 0,
            r.caps_spec() == caps,
            !r.altscreen_spec(),
    {
        let mut r = Nc::new(caps);
        r.altscreen = false;
        r
    }

    /// Whether this context draws on the alternate screen.
    pub fn uses_altscreen(&self) -> (r: bool)
        ensures
            r == self.altscreen_spec(),
    {
        self.altscreen
    }

    /// Returns the capabilities of the terminal.
    pub fn term_capabilities(&self) -> (r: Capabilities)
        ensures
            r == self.caps_spec(),
    {
        self.caps
    }

    /// The current generation of planes.
    pub fn generation(&self) -> (r: u64)
        ensures
            r == self.generation_spec(),
    {
        self.generation
    }

    /// Adds an empty pile and returns its index.
    pub fn new_pile(&mut self) -> (r: usize)
        requires
            old(self).wf(),
        ensures
            final(self).wf(),
            r == old(self).piles_spec().len(),
            final(self).piles_spec() == old(self).piles_spec().push(Seq::<Plane>::empty()),
            final(self).generation_spec() == old(self).generation_spec(),
            final(self).caps_spec() == old(self).caps_spec(),
            final(self).altscreen_spec() == old(self).altscreen_spec(),
    {
        let r = self.piles.len();
        self.piles.push(Pile::new());
        assert(self.piles_spec() =~= old(self).piles_spec().push(Seq::<Plane>::empty()));
        r
    }

    /// Whether `id` names a plane of the current generation.
    pub fn is_valid(&self, id: PlaneId) -> (r: bool)
        ensures
            r == self.valid(id),
    {
        id.generation == self.generation && id.pile < self.piles.len() && id.index
            < self.piles[id.pile].len()
    }

    /// Adds a plane of `rows` by `cols` at `(y, x)` to pile `pile`, with
    /// `parent` as its parent if given. Fails with `UseAfterDrop` for a pile
    /// that does not exist or a parent that is not a plane of the current
    /// generation in that pile, and with `InvalidGeometry` when either size is
    /// zero.
    pub fn create_plane(
        &mut self,
        pile: usize,
        parent: Option<PlaneId>,
        rows: u32,
        cols: u32,
        y: i32,
        x: i32,
    ) -> (r: Result<PlaneId, Error>)
        requires
            old(self).wf(),
            pile < old(self).piles_spec().len() ==> old(self).piles_spec()[pile as int].len()
                < MAX_PLANES,
        ensures
            final(self).wf(),
            final(self).generation_spec() == old(self).generation_spec(),
            final(self).caps_spec() == old(self).caps_spec(),
            final(self).altscreen_spec() == old(self).altscreen_spec(),
            final(self).piles_spec().len() == old(self).piles_spec().len(),
            ({
                let linked = pile < old(self).piles_spec().len() && match parent {
                    Some(p) => old(self).valid(p) && p.pile == pile,
                    None => true,
                };
                &&& !linked ==> r == Err::<PlaneId, Error>(Error::UseAfterDrop)
                &&& linked && (rows == 0 || cols == 0) ==> r == Err::<PlaneId, Error>(
                    Error::InvalidGeometry,
                )
                &&& r is Err ==> final(self).piles_spec() == old(self).piles_spec()
                &&& linked && rows > 0 && cols > 0 ==> r is Ok
                &&& r matches Ok(id) ==> {
                    &&& id.pile == pile
                    &&& id.index == old(self).piles_spec()[pile as int].len()
                    &&& id.generation == old(self).generation_spec()
                    &&& final(self).valid(id)
                    &&& final(self).piles_spec()[pile as int].drop_last() == old(self).piles_spec()[pile as int]
                    &&& final(self).piles_spec()[pile as int].last().parent == match parent {
                        Some(p) => Some(p.index),
                        None => None::<usize>,
                    }
                    &&& final(self).piles_spec()[pile as int].last().rows == rows
                    &&& final(self).piles_spec()[pile as int].last().cols == cols
                    &&& final(self).piles_spec()[pile as int].last().y == y
                    &&& final(self).piles_spec()[pile as int].last().x == x
                    &&& forall|q: int|
                        0 <= q < old(self).piles_spec().len() && q != pile ==> final(self).piles_spec()[q] == old(self).piles_spec()[q]
                }
            }),
    {
        if pile >= self.piles.len() {
            return Err(Error::UseAfterDrop);
        }
        let parent_index = match parent {
            Some(p) => {
                if !self.is_valid(p) || p.pile != pile {
                    return Err(Error::UseAfterDrop);
                }
                Some(p.index)
            },
            None => None,
        };
        proof {
            assert(self.piles_spec()[pile as int] == self.piles@[pile as int]@);
            assert(self.piles@[pile as int].wf());
        }
        let r = self.piles[pile].create(parent_index, rows, cols, y, x);
        proof {
            assert(self.piles_spec() =~= old(self).piles_spec().update(pile as int, self.piles@[pile as int]@));
            assert forall|p: int| 0 <= p < self.piles@.len() implies (#[trigger] self.piles@[p]).wf() by {
                if p != pile {
                    assert(self.piles@[p] == old(self).piles@[p]);
                    assert(old(self).piles@[p].wf());
                }
            }
        }
        match r {
            Ok(index) => Ok(PlaneId { pile, index, generation: self.generation }),
            Err(e) => Err(e),
        }
    }

    /// The origin of plane `id` relative to its parent.
    pub fn plane_yx(&self, id: PlaneId) -> (r: Result<(i32, i32), Error>)
        requires
            self.wf(),
        ensures
            !self.valid(id) ==> r == Err::<(i32, i32), Error>(Error::UseAfterDrop),
            self.valid(id) ==> r == Ok::<(i32, i32), Error>(
                (self.planes_of(id)[id.index as int].y, self.planes_of(id)[id.index as int].x),
            ),
    {
        if !self.is_valid(id) {
            return Err(Error::UseAfterDrop);
        }
        proof {
            assert(self.piles_spec()[id.pile as int] == self.piles@[id.pile as int]@);
        }
        Ok(self.piles[id.pile].relative_position(id.index))
    }

    /// The position of plane `id` relative to its pile's origin.
    pub fn plane_abs_yx(&self, id: PlaneId) -> (r: Result<(i64, i64), Error>)
        requires
            self.wf(),
        ensures
            !self.valid(id) ==> r == Err::<(i64, i64), Error>(Error::UseAfterDrop),
            self.valid(id) ==> (r matches Ok(a) && a.0 == abs_y(self.planes_of(id), id.index as int)
                && a.1 == abs_x(self.planes_of(id), id.index as int)),
    {
        if !self.is_valid(id) {
            return Err(Error::UseAfterDrop);
        }
        proof {
            assert(self.piles_spec()[id.pile as int] == self.piles@[id.pile as int]@);
            assert(self.piles@[id.pile as int].wf());
        }
        Ok(self.piles[id.pile].absolute_position(id.index))
    }

    /// The absolute position `(ty, tx)` in the local coordinates of plane
    /// `id`, with whether it lies inside the plane.
    pub fn plane_translate_abs(&self, id: PlaneId, ty: i32, tx: i32) -> (r: Result<
        ((i64, i64), bool),
        Error,
    >)
        requires
            self.wf(),
        ensures
            !self.valid(id) ==> r == Err::<((i64, i64), bool), Error>(Error::UseAfterDrop),
            self.valid(id) ==> (r matches Ok(t) && {
                let s = translate_spec(self.planes_of(id), id.index as int, ty as int, tx as int);
                t.0.0 == s.0.0 && t.0.1 == s.0.1 && t.1 == s.1
            }),
    {
        if !self.is_valid(id) {
            return Err(Error::UseAfterDrop);
        }
        proof {
            assert(self.piles_spec()[id.pile as int] == self.piles@[id.pile as int]@);
            assert(self.piles@[id.pile as int].wf());
        }
        Ok(self.piles[id.pile].translate_absolute(id.index, ty, tx))
    }

    /// Writes `cell` at `(row, col)` of plane `id`; see `Pile::write_cell`.
    pub fn write_cell(&mut self, id: PlaneId, row: u32, col: u32, cell: Cell) -> (r: Result<
        (),
        Error,
    >)
        requires
            old(self).wf(),
        ensures
            final(self).wf(),
            final(self).generation_spec() == old(self).generation_spec(),
            final(self).caps_spec() == old(self).caps_spec(),
            final(self).altscreen_spec() == old(self).altscreen_spec(),
            final(self).piles_spec().len() == old(self).piles_spec().len(),
            !old(self).valid(id) ==> r == Err::<(), Error>(Error::UseAfterDrop),
            old(self).valid(id) ==> (r is Ok <==> write_fits(
                old(self).planes_of(id)[id.index as int],
                row as int,
                col as int,
                cell,
            )),
            old(self).valid(id) && r is Err ==> r == Err::<(), Error>(Error::OutOfBounds),
            old(self).valid(id) && r is Ok ==> {
                let before = old(self).planes_of(id);
                let after = final(self).planes_of(id);
                &&& after == before.update(id.index as int, after[id.index as int])
                &&& same_but_grid(after[id.index as int], before[id.index as int])
                &&& grid_view(after[id.index as int]) == written(
                    before[id.index as int],
                    row as int,
                    col as int,
                    cell,
                )
            },
            r is Err ==> final(self).piles_spec() == old(self).piles_spec(),
            forall|q: int|
                0 <= q < old(self).piles_spec().len() && q != id.pile ==> final(self).piles_spec()[q] == old(self).piles_spec()[q],
    {
        if !self.is_valid(id) {
            return Err(Error::UseAfterDrop);
        }
        proof {
            assert(self.piles_spec()[id.pile as int] == self.piles@[id.pile as int]@);
            assert(self.piles@[id.pile as int].wf());
        }
        let r = self.piles[id.pile].write_cell(id.index, row, col, cell);
        proof {
            assert(self.piles_spec() =~= old(self).piles_spec().update(
                id.pile as int,
                self.piles@[id.pile as int]@,
            ));
            assert forall|p: int| 0 <= p < self.piles@.len() implies (#[trigger] self.piles@[p]).wf() by {
                if p != id.pile {
                    assert(self.piles@[p] == old(self).piles@[p]);
                    assert(old(self).piles@[p].wf());
                }
            }
        }
        r
    }

    /// Moves plane `id` by `(dy, dx)`; see `Pile::move_relative`.
    pub fn plane_move_rel(&mut self, id: PlaneId, dy: i32, dx: i32) -> (r: Result<(), Error>)
        requires
            old(self).wf(),
            old(self).valid(id) ==> i32::MIN <= old(self).planes_of(id)[id.index as int].y + dy
                <= i32::MAX,
            old(self).valid(id) ==> i32::MIN <= old(self).planes_of(id)[id.index as int].x + dx
                <= i32::MAX,
        ensures
            final(self).wf(),
            final(self).generation_spec() == old(self).generation_spec(),
            final(self).caps_spec() == old(self).caps_spec(),
            final(self).altscreen_spec() == old(self).altscreen_spec(),
            final(self).piles_spec().len() == old(self).piles_spec().len(),
            !old(self).valid(id) ==> r == Err::<(), Error>(Error::UseAfterDrop)
                && final(self).piles_spec() == old(self).piles_spec(),
            old(self).valid(id) ==> r is Ok && {
                let before = old(self).planes_of(id);
                let after = final(self).planes_of(id);
                &&& after == before.update(id.index as int, after[id.index as int])
                &&& after[id.index as int].y == before[id.index as int].y + dy
                &&& after[id.index as int].x == before[id.index as int].x + dx
                &&& after[id.index as int].grid == before[id.index as int].grid
                &&& after[id.index as int].rows == before[id.index as int].rows
                &&& after[id.index as int].cols == before[id.index as int].cols
                &&& after[id.index as int].parent == before[id.index as int].parent
                &&& after[id.index as int].base == before[id.index as int].base
            },
            forall|q: int|
                0 <= q < old(self).piles_spec().len() && q != id.pile ==> final(self).piles_spec()[q]
                    == old(self).piles_spec()[q],
    {
        if !self.is_valid(id) {
            return Err(Error::UseAfterDrop);
        }
        proof {
            assert(self.piles_spec()[id.pile as int] == self.piles@[id.pile as int]@);
            assert(self.piles@[id.pile as int].wf());
        }
        self.piles[id.pile].move_relative(id.index, dy, dx);
        proof {
            assert(self.piles_spec() =~= old(self).piles_spec().update(
                id.pile as int,
                self.piles@[id.pile as int]@,
            ));
            assert forall|p: int| 0 <= p < self.piles@.len() implies (#[trigger] self.piles@[p]).wf() by {
                if p != id.pile {
                    assert(self.piles@[p] == old(self).piles@[p]);
                    assert(old(self).piles@[p].wf());
                }
            }
        }
        Ok(())
    }

    /// Sets the base cell of plane `id`; see `Pile::set_base`.
    pub fn plane_set_base(&mut self, id: PlaneId, glyph: char, style: Style, channels: u64) -> (r:
        Result<(), Error>)
        requires
            old(self).wf(),
        ensures
            final(self).wf(),
            final(self).generation_spec() == old(self).generation_spec(),
            final(self).caps_spec() == old(self).caps_spec(),
            final(self).altscreen_spec() == old(self).altscreen_spec(),
            final(self).piles_spec().len() == old(self).piles_spec().len(),
            !old(self).valid(id) ==> r == Err::<(), Error>(Error::UseAfterDrop)
                && final(self).piles_spec() == old(self).piles_spec(),
            old(self).valid(id) ==> r is Ok && {
                let before = old(self).planes_of(id);
                let after = final(self).planes_of(id);
                &&& after == before.update(id.index as int, after[id.index as int])
                &&& after[id.index as int].base == Cell::new_spec(glyph, 1, style, channels)
                &&& after[id.index as int].grid == before[id.index as int].grid
                &&& after[id.index as int].rows == before[id.index as int].rows
                &&& after[id.index as int].cols == before[id.index as int].cols
                &&& after[id.index as int].y == before[id.index as int].y
                &&& after[id.index as int].x == before[id.index as int].x
                &&& after[id.index as int].parent == before[id.index as int].parent
            },
            forall|q: int|
                0 <= q < old(self).piles_spec().len() && q != id.pile ==> final(self).piles_spec()[q]
                    == old(self).piles_spec()[q],
    {
        if !self.is_valid(id) {
            return Err(Error::UseAfterDrop);
        }
        proof {
            assert(self.piles_spec()[id.pile as int] == self.piles@[id.pile as int]@);
            assert(self.piles@[id.pile as int].wf());
        }
        self.piles[id.pile].set_base(id.index, glyph, style, channels);
        proof {
            assert(self.piles_spec() =~= old(self).piles_spec().update(
                id.pile as int,
                self.piles@[id.pile as int]@,
            ));
            assert forall|p: int| 0 <= p < self.piles@.len() implies (#[trigger] self.piles@[p]).wf() by {
                if p != id.pile {
                    assert(self.piles@[p] == old(self).piles@[p]);
                    assert(old(self).piles@[p].wf());
                }
            }
        }
        Ok(())
    }

    /// The number of planes of pile `pile`, or `None` for a pile that does
    /// not exist.
    pub fn plane_count(&self, pile: usize) -> (r: Option<usize>)
        ensures
            pile < self.piles_spec().len() ==> r == Some(self.piles_spec()[pile as int].len() as usize),
            pile >= self.piles_spec().len() ==> r is None,
    {
        if pile >= self.piles.len() {
            return None;
        }
        proof {
            assert(self.piles_spec()[pile as int] == self.piles@[pile as int]@);
        }
        Some(self.piles[pile].len())
    }

    /// The cell that plane `id` shows at `(row, col)`; see `Pile::cell_at`.
    pub fn plane_cell_at(&self, id: PlaneId, row: u32, col: u32) -> (r: Result<Cell, Error>)
        requires
            self.wf(),
        ensures
            !self.valid(id) ==> r == Err::<Cell, Error>(Error::UseAfterDrop),
            self.valid(id) ==> {
                let p = self.planes_of(id)[id.index as int];
                &&& row < p.rows && col < p.cols ==> r == Ok::<Cell, Error>(
                    shown(p, row as int, col as int),
                )
                &&& !(row < p.rows && col < p.cols) ==> r == Err::<Cell, Error>(Error::OutOfBounds)
            },
    {
        if !self.is_valid(id) {
            return Err(Error::UseAfterDrop);
        }
        proof {
            assert(self.piles_spec()[id.pile as int] == self.piles@[id.pile as int]@);
            assert(self.piles@[id.pile as int].wf());
        }
        self.piles[id.pile].cell_at(id.index, row, col)
    }

    /// Moves the cursor of plane `id` to `(row, col)`; see
    /// `Pile::cursor_move_yx`.
    pub fn plane_cursor_move_yx(&mut self, id: PlaneId, row: u32, col: u32) -> (r: Result<(), Error>)
        requires
            old(self).wf(),
        ensures
            final(self).wf(),
            final(self).generation_spec() == old(self).generation_spec(),
            final(self).caps_spec() == old(self).caps_spec(),
            final(self).altscreen_spec() == old(self).altscreen_spec(),
            final(self).piles_spec().len() == old(self).piles_spec().len(),
            !old(self).valid(id) ==> r == Err::<(), Error>(Error::UseAfterDrop),
            old(self).valid(id) ==> (r is Ok <==> (row < old(self).planes_of(id)[id.index as int].rows
                && col < old(self).planes_of(id)[id.index as int].cols)),
            old(self).valid(id) && r is Err ==> r == Err::<(), Error>(Error::OutOfBounds),
            r is Err ==> final(self).piles_spec() == old(self).piles_spec(),
            r is Ok ==> {
                let before = old(self).planes_of(id);
                let after = final(self).planes_of(id);
                &&& after == before.update(id.index as int, after[id.index as int])
                &&& after[id.index as int].cursor_y == row
                &&& after[id.index as int].cursor_x == col
                &&& after[id.index as int].grid == before[id.index as int].grid
                &&& after[id.index as int].rows == before[id.index as int].rows
                &&& after[id.index as int].cols == before[id.index as int].cols
                &&& after[id.index as int].y == before[id.index as int].y
                &&& after[id.index as int].x == before[id.index as int].x
                &&& after[id.index as int].parent == before[id.index as int].parent
                &&& after[id.index as int].base == before[id.index as int].base
            },
            forall|q: int|
                0 <= q < old(self).piles_spec().len() && q != id.pile ==> final(self).piles_spec()[q]
                    == old(self).piles_spec()[q],
    {
        if !self.is_valid(id) {
            return Err(Error::UseAfterDrop);
        }
        proof {
            assert(self.piles_spec()[id.pile as int] == self.piles@[id.pile as int]@);
            assert(self.piles@[id.pile as int].wf());
        }
        let r = self.piles[id.pile].cursor_move_yx(id.index, row, col);
        proof {
            assert(self.piles_spec() =~= old(self).piles_spec().update(
                id.pile as int,
                self.piles@[id.pile as int]@,
            ));
            assert forall|p: int| 0 <= p < self.piles@.len() implies (#[trigger] self.piles@[p]).wf() by {
                if p != id.pile {
                    assert(self.piles@[p] == old(self).piles@[p]);
                    assert(old(self).piles@[p].wf());
                }
            }
        }
        r
    }

    /// Renders pile `pile`; see `Pile::render`. Fails with `UseAfterDrop` for
    /// a pile that does not exist.
    pub fn render(&self, pile: usize) -> (r: Result<Frame, Error>)
        requires
            self.wf(),
        ensures
            pile >= self.piles_spec().len() ==> r == Err::<Frame, Error>(Error::UseAfterDrop),
            pile < self.piles_spec().len() ==> (r is Err <==> self.piles_spec()[pile as int].len()
                == 0),
            pile < self.piles_spec().len() && r is Err ==> r == Err::<Frame, Error>(Error::PileEmpty),
            r matches Ok(f) ==> rendered(self.piles_spec()[pile as int], f),
    {
        if pile >= self.piles.len() {
            return Err(Error::UseAfterDrop);
        }
        proof {
            assert(self.piles_spec()[pile as int] == self.piles@[pile as int]@);
        }
        self.piles[pile].render()
    }

    /// Renders pile `pile` and serialises the frame into terminal output, as
    /// `render` and `rasterize` say; the bytes are for the output sink.
    pub fn render_raster(&self, pile: usize) -> (r: Result<Vec<u8>, Error>)
        requires
            self.wf(),
        ensures
            pile >= self.piles_spec().len() ==> r == Err::<Vec<u8>, Error>(Error::UseAfterDrop),
            pile < self.piles_spec().len() ==> (r is Err <==> self.piles_spec()[pile as int].len()
                == 0),
            pile < self.piles_spec().len() && r is Err ==> r == Err::<Vec<u8>, Error>(
                Error::PileEmpty,
            ),
            r matches Ok(bytes) ==> exists|f: Frame|
                {
                    &&& #[trigger] rendered(self.piles_spec()[pile as int], f)
                    &&& bytes@ == frame_bytes(frame_rows(f), f.cells@.len() as int)
                },
    {
        match self.render(pile) {
            Ok(f) => {
                let bytes = rasterize(&f);
                proof {
                    assert(self.piles_spec()[pile as int] == self.piles@[pile as int]@);
                    assert(rendered(self.piles_spec()[pile as int], f));
                }
                Ok(bytes)
            },
            Err(e) => Err(e),
        }
    }

    /// Destroys every plane of every pile. Handles to them are refused from
    /// then on.
    pub fn drop_planes(&mut self)
        requires
            old(self).wf(),
            old(self).generation_spec() < u64::MAX,
        ensures
            final(self).wf(),
            final(self).generation_spec() == old(self).generation_spec() + 1,
            final(self).piles_spec().len() == old(self).piles_spec().len(),
            forall|p: int|
                0 <= p < final(self).piles_spec().len() ==> (#[trigger] final(self).piles_spec()[p]).len() == 0,
            forall|id: PlaneId|
                id.generation <= old(self).generation_spec() ==> !(#[trigger] final(self).valid(
                    id,
                )),
            final(self).caps_spec() == old(self).caps_spec(),
            final(self).altscreen_spec() == old(self).altscreen_spec(),
    {
        let n = self.piles.len();
        let mut piles: Vec<Pile> = Vec::new();
        let mut k: usize = 0;
        while k < n
            invariant
                k <= n,
                piles@.len() == k,
                forall|p: int| 0 <= p < k ==> (#[trigger] piles@[p]).wf() && piles@[p]@.len() == 0,
            decreases n - k,
        {
            piles.push(Pile::new());
            k = k + 1;
        }
        self.piles = piles;
        self.generation = self.generation + 1;
    }
}

} // verus!
