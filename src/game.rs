//! Cells, the survival rule, and generations of living cells.
use vstd::prelude::*;

verus! {

/// A cell of the unbounded grid, named by its coordinates.
#[derive(PartialEq, Eq, Structural, Debug, Clone, Copy)]
pub struct Cell {
    pub x: i32,
    pub y: i32,
}

/// `a` and `b` are distinct and lie within one step of each other on both axes
/// (the Moore neighbourhood).
pub open spec fn is_neighbour(a: Cell, b: Cell) -> bool {
    &&& -1 <= a.x - b.x <= 1
    &&& -1 <= a.y - b.y <= 1
    &&& a != b
}

/// How many entries of `cells` are neighbours of `c`; copies of `c` itself never count.
pub open spec fn neighbour_count(c: Cell, cells: Seq<Cell>) -> nat
    decreases cells.len(),
{
    if cells.len() == 0 {
        0
    } else {
        neighbour_count(c, cells.drop_last()) + if is_neighbour(c, cells.last()) {
            1nat
        } else {
            0nat
        }
    }
}

/// Whether `c` is alive in the generation after the one whose living cells are `cells`:
/// a living cell stays with two or three neighbours, a dead one is born with three.
pub open spec fn survives(c: Cell, cells: Seq<Cell>) -> bool {
    let n = neighbour_count(c, cells);
    if cells.contains(c) {
        1 < n < 4
    } else {
        n == 3
    }
}

impl Cell {
    /// The cell at `(x, y)`.
    pub fn new(x: i32, y: i32) -> (r: Cell)
        ensures
            r.x == x,
            r.y == y,
    {
        Cell { x, y }
    }

    /// Whether this cell is alive in the generation after the one whose living cells
    /// are `cells`; the neighbours are counted with every copy of this cell left out.
    pub fn will_survive_in(&self, cells: &Vec<Cell>) -> (r: bool)
        ensures
            r == survives(*self, cells@),
    {
        let mut count: usize = 0;
        let mut i: usize = 0;
        while i < cells.len()
            invariant
                i <= cells.len(),
                count == neighbour_count(*self, cells@.subrange(0, i as int)),
                count <= i,
            decreases cells.len() - i,
        {
            assert(cells@.subrange(0, i + 1).drop_last() =~= cells@.subrange(0, i as int));
            if self.is_neighbour_to(&cells[i]) {
                count = count + 1;
            }
            i = i + 1;
        }
        assert(cells@.subrange(0, cells.len() as int) =~= cells@);
        if self.is_alive(cells) {
            return count > 1 && count < 4;
        }
        count == 3
    }

    /// Whether `other` is one of the eight cells around this one; the difference of
    /// the coordinates is taken in 64 bits, so no coordinate can overflow it.
    pub fn is_neighbour_to(&self, other: &Cell) -> (r: bool)
        ensures
            r == is_neighbour(*self, *other),
    {
        let dx: i64 = self.x as i64 - other.x as i64;
        let dy: i64 = self.y as i64 - other.y as i64;
        -1 <= dx && dx <= 1 && -1 <= dy && dy <= 1 && *self != *other
    }

    /// Whether some entry of `cells` equals this cell.
    pub fn is_alive(&self, cells: &Vec<Cell>) -> (r: bool)
        ensures
            r == cells@.contains(*self),
    {
        let mut i: usize = 0;
        while i < cells.len()
            invariant
                i <= cells.len(),
                forall|j: int| 0 <= j < i ==> cells@[j] != *self,
            decreases cells.len() - i,
        {
            if cells[i] == *self {
                return true;
            }
            i = i + 1;
        }
        false
    }
}

/// One generation: the living cells, in order, duplicates kept as given.
pub struct World {
    pub cells: Vec<Cell>,
}

impl View for World {
    type V = Seq<Cell>;

    open spec fn view(&self) -> Seq<Cell> {
        self.cells@
    }
}

/// The cells of `cells` that live on into the next generation, in their order.
pub open spec fn next_generation(cells: Seq<Cell>) -> Seq<Cell> {
    cells.filter(|c: Cell| survives(c, cells))
}

impl World {
    /// The generation whose living cells are `cells`, taken as given.
    pub fn new(cells: Vec<Cell>) -> (r: World)
        ensures
            r@ == cells@,
    {
        World { cells }
    }

    /// A copy of the living cells, in order.
    pub fn living_cells(&self) -> (r: Vec<Cell>)
        ensures
            r@ == self@,
    {
        let mut out: Vec<Cell> = Vec::new();
        let mut i: usize = 0;
        while i < self.cells.len()
            invariant
                i <= self.cells.len(),
                out@ == self.cells@.subrange(0, i as int),
            decreases self.cells.len() - i,
        {
            out.push(self.cells[i]);
            i = i + 1;
            assert(out@ =~= self.cells@.subrange(0, i as int));
        }
        assert(self.cells@.subrange(0, i as int) =~= self.cells@);
        out
    }

    /// The next generation: each living cell, in order, that survives among all living cells.
    pub fn spawn(&self) -> (r: World)
        ensures
            r@ == next_generation(self@),
    {
        let ghost all = self.cells@;
        let ghost pred = |c: Cell| survives(c, all);
        let mut next_gen: Vec<Cell> = Vec::new();
        let mut i: usize = 0;
        while i < self.cells.len()
            invariant
                i <= self.cells.len(),
                all == self.cells@,
                pred == (|c: Cell| survives(c, all)),
                next_gen@ == all.subrange(0, i as int).filter(pred),
            decreases self.cells.len() - i,
        {
            let c = self.cells[i];
            let keep = c.will_survive_in(&self.cells);
            proof {
                assert(all.subrange(0, i + 1) =~= all.subrange(0, i as int).push(c));
                all.subrange(0, i as int).lemma_filter_push(c, pred);
            }
            if keep {
                next_gen.push(c);
            }
            i = i + 1;
        }
        assert(all.subrange(0, i as int) =~= all);
        self.seed(next_gen)
    }

    /// A fresh generation holding `cells`.
    fn seed(&self, cells: Vec<Cell>) -> (r: World)
        ensures
            r@ == cells@,
    {
        World { cells }
    }
}

/// Being neighbours is symmetric, and no cell is its own neighbour.
pub proof fn lemma_neighbour_symmetric(a: Cell, b: Cell)
    ensures
        is_neighbour(a, b) == is_neighbour(b, a),
        !is_neighbour(a, a),
{
}

/// No cell is alive next in a generation with no living cells.
pub proof fn lemma_survives_empty(c: Cell)
    ensures
        !survives(c, Seq::<Cell>::empty()),
{
    assert(!Seq::<Cell>::empty().contains(c));
}

/// The next generation holds only cells that are living now: nothing is born.
pub proof fn lemma_next_generation_within(cells: Seq<Cell>, c: Cell)
    requires
        next_generation(cells).contains(c),
    ensures
        cells.contains(c),
{
    cells.lemma_filter_contains_rev(|d: Cell| survives(d, cells), c);
}

} // verus!
