//! The display surface: a 64x32 monochrome bitmap, row-major, mutated only
//! by XOR toggles. Painting the bitmap to a window is the driver's business;
//! the library owns just the pixel state.

use vstd::pervasive::VecAdditionalExecFns;
use vstd::prelude::*;

verus! {

pub const COLS: u16 = 64;
pub const ROWS: u16 = 32;

/// Where a toggle request for coordinates (x, y) lands in the row-major
/// bitmap. A coordinate strictly beyond the edge is pulled back once by the
/// surface width (or height), and an index that still falls outside the
/// bitmap is clamped to the last cell.
pub open spec fn px_index(x: u16, y: u16) -> int {
    let xa = if x > 64 { x - 64 } else { x as int };
    let ya = if y > 32 { y - 32 } else { y as int };
    let i = xa + ya * 64;
    if i >= 2048 {
        2047
    } else {
        i
    }
}

/// The bitmap after one XOR toggle at (x, y).
pub open spec fn toggled(d: Seq<u16>, x: u16, y: u16) -> Seq<u16> {
    d.update(px_index(x, y), d[px_index(x, y)] ^ 1)
}

/// Whether the toggle at (x, y) reports a collision: the toggled cell did
/// not end up lit.
pub open spec fn toggle_collides(d: Seq<u16>, x: u16, y: u16) -> bool {
    (d[px_index(x, y)] ^ 1) != 1
}

/// The 64x32 bitmap. The view is the sequence of its 2048 cells, each 0 or 1.
pub struct Monitor {
    pub cols: u16,
    pub rows: u16,
    pub display: Vec<u16>,
}

impl View for Monitor {
    type V = Seq<u16>;

    open spec fn view(&self) -> Seq<u16> {
        self.display@
    }
}

impl Monitor {
    pub open spec fn wf(&self) -> bool {
        &&& self.cols == 64
        &&& self.rows == 32
        &&& self@.len() == 2048
        &&& forall|i: int| 0 <= i < 2048 ==> self@[i] <= 1
    }

    /// A surface with every pixel off.
    pub fn new() -> (m: Monitor)
        ensures
            m.wf(),
            forall|i: int| 0 <= i < 2048 ==> m@[i] == 0,
    {
        let mut display: Vec<u16> = Vec::new();
        while display.len() < 2048
            invariant
                display@.len() <= 2048,
                forall|i: int| 0 <= i < display@.len() ==> display@[i] == 0,
            decreases 2048 - display@.len(),
        {
            display.push(0);
        }
        Monitor { cols: COLS, rows: ROWS, display }
    }

    /// XOR-toggle the pixel addressed by (x, y) and report whether it ended
    /// up off (a collision for the caller's purposes).
    pub fn set_pixel(&mut self, x: u16, y: u16) -> (collided: bool)
        requires
            old(self).wf(),
        ensures
            final(self).wf(),
            final(self)@ == toggled(old(self)@, x, y),
            collided == toggle_collides(old(self)@, x, y),
    {
        let xa: usize = if x > self.cols {
            (x - self.cols) as usize
        } else {
            x as usize
        };
        let ya: usize = if y > self.rows {
            (y - self.rows) as usize
        } else {
            y as usize
        };
        let mut index: usize = xa + ya * 64;
        if index >= 2048 {
            index = 2047;
        }
        assert(index == px_index(x, y));
        let cell = self.display[index];
        assert(cell ^ 1 <= 1) by (bit_vector)
            requires
                cell <= 1,
        ;
        self.display.set(index, cell ^ 1);
        self.display[index] != 1
    }

    /// Reset every pixel to off.
    pub fn clear(&mut self)
        requires
            old(self).wf(),
        ensures
            final(self).wf(),
            final(self)@.len() == 2048,
            forall|i: int| 0 <= i < 2048 ==> final(self)@[i] == 0,
    {
        let mut i: usize = 0;
        while i < 2048
            invariant
                old(self).wf(),
                self@.len() == 2048,
                i <= 2048,
                forall|j: int| 0 <= j < i ==> self@[j] == 0,
                forall|j: int| 0 <= j < 2048 ==> self@[j] <= 1,
                self.cols == 64,
                self.rows == 32,
            decreases 2048 - i,
        {
            self.display.set(i, 0);
            i = i + 1;
        }
    }
}

} // verus!
