use vstd::prelude::*;

use crate::position::Position;

verus! {

pub const MAX_WIDTH: usize = 10;

pub const MAX_HEIGHT: usize = 13;

pub const MAX_CELL_COUNT: usize = 130;

/// What occupies a cell of the level.
#[derive(Clone, Copy, Debug, PartialEq, Eq, Structural)]
pub enum Cell {
    Empty,
    Wall,
    Portal,
    Player,
    Rat,
    Web,
}

/// The mathematical content of a grid: its cells in row-major order
/// (padded to the fixed capacity) and its dimensions.
pub struct GridView {
    pub cells: Seq<Cell>,
    pub width: u8,
    pub height: u8,
}

impl GridView {
    /// The storage holds the full capacity and the visible area fits in it.
    pub open spec fn wf(self) -> bool {
        &&& self.cells.len() == MAX_CELL_COUNT
        &&& self.width * self.height <= MAX_CELL_COUNT
        &&& self.width <= i8::MAX
        &&& self.height <= i8::MAX
    }

    pub open spec fn in_bounds(self, p: Position) -> bool {
        0 <= p.x < self.width && 0 <= p.y < self.height
    }

    /// Row-major index of an in-bounds position.
    pub open spec fn index_of(self, p: Position) -> int {
        p.y * self.width + p.x
    }

    /// The cell at `p`; everything outside the grid reads as a wall.
    pub open spec fn cell_at(self, p: Position) -> Cell {
        if self.in_bounds(p) {
            self.cells[self.index_of(p)]
        } else {
            Cell::Wall
        }
    }

    /// The grid with the cell at `p` replaced; writes outside the grid are ignored.
    pub open spec fn with_cell(self, p: Position, c: Cell) -> GridView {
        if self.in_bounds(p) {
            GridView { cells: self.cells.update(self.index_of(p), c), ..self }
        } else {
            self
        }
    }

    /// How many of the visible (in-bounds) cells hold `c`.
    pub open spec fn count_of(self, c: Cell) -> nat {
        count_in(self.cells.subrange(0, self.width * self.height), c)
    }
}

/// Number of occurrences of `c` in `s`.
pub open spec fn count_in(s: Seq<Cell>, c: Cell) -> nat
    decreases s.len(),
{
    if s.len() == 0 {
        0
    } else {
        count_in(s.drop_last(), c) + if s.last() == c {
            1nat
        } else {
            0nat
        }
    }
}

/// Reading back a cell that was just written gives the written value, and
/// writing leaves every other position unchanged.
pub proof fn lemma_read_after_write(g: GridView, p: Position, q: Position, c: Cell)
    requires
        g.wf(),
        g.in_bounds(p),
    ensures
        g.with_cell(p, c).cell_at(p) == c,
        q != p ==> g.with_cell(p, c).cell_at(q) == g.cell_at(q),
        g.with_cell(p, c).wf(),
{
    lemma_index_injective(g, p, q);
    if g.in_bounds(q) {
        lemma_index_injective(g, q, q);
    }
}

/// Distinct in-bounds positions have distinct indices inside the storage.
pub proof fn lemma_index_injective(g: GridView, p: Position, q: Position)
    requires
        g.wf(),
        g.in_bounds(p),
    ensures
        0 <= g.index_of(p) < g.width * g.height,
        g.width * g.height <= MAX_CELL_COUNT,
        g.in_bounds(q) && q != p ==> g.index_of(q) != g.index_of(p),
{
    let w = g.width as int;
    let h = g.height as int;
    assert(0 <= p.y * w + p.x < w * h) by (nonlinear_arith)
        requires
            0 <= p.x < w,
            0 <= p.y < h,
    ;
    if g.in_bounds(q) && q != p {
        assert(q.y * w + q.x != p.y * w + p.x) by (nonlinear_arith)
            requires
                0 <= p.x < w,
                0 <= q.x < w,
                q.x != p.x || q.y != p.y,
        ;
    }
}

/// A level grid of cells with fixed capacity.
pub struct Grid {
    cells: Vec<Cell>,
    width: u8,
    height: u8,
}

impl View for Grid {
    type V = GridView;

    closed spec fn view(&self) -> GridView {
        GridView { cells: self.cells@, width: self.width, height: self.height }
    }
}

impl Grid {
    /// Every grid holds the full capacity, and its visible area fits in it.
    #[verifier::type_invariant]
    spec fn inv(self) -> bool {
        self@.wf()
    }

    /// A grid of the given dimensions over `cells` (row-major, padded to capacity).
    pub fn new(width: u8, height: u8, cells: Vec<Cell>) -> (g: Self)
        requires
            width * height <= MAX_CELL_COUNT,
            width <= i8::MAX,
            height <= i8::MAX,
            cells.len() == MAX_CELL_COUNT,
        ensures
            g@ == (GridView { cells: cells@, width, height }),
            g@.wf(),
    {
        Grid { cells, width, height }
    }

    pub fn width(&self) -> (w: u8)
        ensures
            w == self@.width,
    {
        self.width
    }

    pub fn height(&self) -> (h: u8)
        ensures
            h == self@.height,
    {
        self.height
    }

    /// The cell at `position`; positions outside the grid read as walls.
    pub fn cell(&self, position: Position) -> (c: Cell)
        ensures
            c == self@.cell_at(position),
    {
        proof {
            use_type_invariant(self);
        }
        match self.index(position) {
            Some(index) => self.cells[index],
            None => Cell::Wall,
        }
    }

    /// Replace the cell at `position`; positions outside the grid are ignored.
    pub fn set_cell(&mut self, position: Position, cell: Cell)
        ensures
            final(self)@ == old(self)@.with_cell(position, cell),
            final(self)@.wf(),
        no_unwind
    {
        proof {
            use_type_invariant(&*self);
        }
        if let Some(index) = self.index(position) {
            self.cells[index] = cell;
        }
    }

    /// Row-major storage index of `position`, or `None` outside the grid.
    fn index(&self, position: Position) -> (r: Option<usize>)
        ensures
            r is Some <==> self@.in_bounds(position),
            r matches Some(i) ==> i == self@.index_of(position) && i < self.width * self.height
                && i < MAX_CELL_COUNT,
        no_unwind
    {
        proof {
            use_type_invariant(self);
        }
        if position.x < 0 || position.x >= self.width as i8 || position.y < 0 || position.y
            >= self.height as i8 {
            None
        } else {
            proof {
                lemma_index_injective(self@, position, position);
            }
            Some(position.y as usize * self.width as usize + position.x as usize)
        }
    }

    /// An independent copy of the grid.
    pub fn copy(&self) -> (g: Grid)
        ensures
            g@ == self@,
    {
        proof {
            use_type_invariant(self);
        }
        let mut cells: Vec<Cell> = Vec::new();
        let mut i: usize = 0;
        while i < self.cells.len()
            invariant
                0 <= i <= self.cells.len(),
                cells@ == self.cells@.subrange(0, i as int),
            decreases self.cells.len() - i,
        {
            cells.push(self.cells[i]);
            assert(cells@ =~= self.cells@.subrange(0, i + 1));
            i = i + 1;
        }
        assert(cells@ =~= self.cells@);
        Grid { cells, width: self.width, height: self.height }
    }

    /// Overwrite every stored cell with `cell`.
    pub fn fill(&mut self, cell: Cell)
        ensures
            final(self)@.wf(),
            final(self)@.width == old(self)@.width,
            final(self)@.height == old(self)@.height,
            final(self)@.cells == Seq::new(MAX_CELL_COUNT as nat, |i: int| cell),
    {
        proof {
            use_type_invariant(&*self);
        }
        let mut i: usize = 0;
        while i < self.cells.len()
            invariant
                self.cells.len() == MAX_CELL_COUNT,
                self.width == old(self).width,
                self.height == old(self).height,
                old(self)@.wf(),
                0 <= i <= MAX_CELL_COUNT,
                forall|j: int| 0 <= j < i ==> self.cells@[j] == cell,
            decreases MAX_CELL_COUNT - i,
        {
            self.cells[i] = cell;
            i = i + 1;
        }
        assert(self.cells@ =~= Seq::new(MAX_CELL_COUNT as nat, |i: int| cell));
    }

    /// How many visible cells hold `cell`.
    pub fn count(&self, cell: Cell) -> (n: usize)
        ensures
            n == self@.count_of(cell),
    {
        proof {
            use_type_invariant(self);
        }
        let total = self.width as usize * self.height as usize;
        let mut n: usize = 0;
        let mut i: usize = 0;
        while i < total
            invariant
                total == self.width * self.height,
                total <= MAX_CELL_COUNT,
                self.cells.len() == MAX_CELL_COUNT,
                0 <= i <= total,
                n == count_in(self.cells@.subrange(0, i as int), cell),
                n <= i,
            decreases total - i,
        {
            proof {
                assert(self.cells@.subrange(0, i + 1).drop_last() =~= self.cells@.subrange(
                    0,
                    i as int,
                ));
            }
            if self.cells[i] == cell {
                n = n + 1;
            }
            i = i + 1;
        }
        n
    }
}

} // verus!
