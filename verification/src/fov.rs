//! Which cells of the level the player can see right now.
//!
//! The library does not work out the field of view itself. Whoever does
//! records the outcome here, cell by cell, and the rules read it.

use vstd::prelude::*;

verus! {

fn set_cell(cells: &mut Vec<Vec<bool>>, x: usize, y: usize, value: bool)
    requires
        x < old(cells)@.len(),
        y < old(cells)@[x as int]@.len(),
    ensures
        final(cells)@.len() == old(cells)@.len(),
        final(cells)@[x as int]@ == old(cells)@[x as int]@.update(y as int, value),
        forall|cx: int|
            0 <= cx < old(cells)@.len() && cx != x ==> #[trigger] final(cells)@[cx] == old(
                cells,
            )@[cx],
    no_unwind
{
    cells[x][y] = value;
}

/// A grid of marks, one per cell: seen or not seen.
pub struct FovMap {
    cells: Vec<Vec<bool>>,
}

impl FovMap {
    #[verifier::type_invariant]
    spec fn well_formed(self) -> bool {
        &&& 0 < self.cells@.len() <= i32::MAX
        &&& 0 < self.cells@[0]@.len() <= i32::MAX
        &&& forall|x: int|
            0 <= x < self.cells@.len() ==> (#[trigger] self.cells@[x])@.len()
                == self.cells@[0]@.len()
    }

    /// The number of columns.
    pub closed spec fn width(&self) -> int {
        self.cells@.len() as int
    }

    /// The number of rows.
    pub closed spec fn height(&self) -> int {
        self.cells@[0]@.len() as int
    }

    /// Whether the cell `(x, y)` is marked as seen.
    pub closed spec fn visible(&self, x: int, y: int) -> bool {
        self.cells@[x]@[y]
    }

    /// Whether `(x, y)` is a cell of this grid.
    pub open spec fn contains(&self, x: int, y: int) -> bool {
        0 <= x < self.width() && 0 <= y < self.height()
    }

    /// A grid of the given size on which nothing is seen.
    pub fn new(width: i32, height: i32) -> (fov: Self)
        requires
            width > 0,
            height > 0,
        ensures
            fov.width() == width,
            fov.height() == height,
            forall|x: int, y: int| fov.contains(x, y) ==> !fov.visible(x, y),
    {
        FovMap { cells: vec![vec![false; height as usize]; width as usize] }
    }

    /// The number of columns and the number of rows.
    pub fn size(&self) -> (size: (i32, i32))
        ensures
            size.0 == self.width(),
            size.1 == self.height(),
    {
        proof {
            use_type_invariant(self);
        }
        (self.cells.len() as i32, self.cells[0].len() as i32)
    }

    /// Whether `(x, y)` is a cell of this grid.
    pub fn has_cell(&self, x: i32, y: i32) -> (inside: bool)
        ensures
            inside == self.contains(x as int, y as int),
    {
        let (width, height) = self.size();
        0 <= x && x < width && 0 <= y && y < height
    }

    /// Marks the cell `(x, y)` as seen or as not seen.
    pub fn set_in_fov(&mut self, x: i32, y: i32, visible: bool)
        requires
            old(self).contains(x as int, y as int),
        ensures
            final(self).width() == old(self).width(),
            final(self).height() == old(self).height(),
            forall|cx: int, cy: int|
                final(self).contains(cx, cy) ==> final(self).visible(cx, cy) == if cx == x && cy
                    == y {
                    visible
                } else {
                    old(self).visible(cx, cy)
                },
    {
        proof {
            use_type_invariant(&*self);
        }
        set_cell(&mut self.cells, x as usize, y as usize, visible);
    }

    /// Whether the cell `(x, y)` is marked as seen.
    pub fn is_in_fov(&self, x: i32, y: i32) -> (seen: bool)
        requires
            self.contains(x as int, y as int),
        ensures
            seen == self.visible(x as int, y as int),
    {
        proof {
            use_type_invariant(self);
        }
        self.cells[x as usize][y as usize]
    }
}

} // verus!
