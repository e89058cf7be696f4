//! The grid engine: a wrapping matrix of cells and its generation step.

use crate::cell::Cell;
use vstd::prelude::*;

verus! {

/// The mathematical content of a [`Grid`]: its dimensions and its cells in
/// row-major order.
pub struct GridView {
    pub width: nat,
    pub height: nat,
    pub cells: Seq<Cell>,
}

impl GridView {
    /// Both dimensions are positive, there is one cell per position, and
    /// every position can be numbered in 32 bits.
    pub open spec fn wf(self) -> bool {
        &&& self.width > 0
        &&& self.height > 0
        &&& self.cells.len() == self.width * self.height
        &&& self.width * self.height <= u32::MAX
    }

    /// The grid whose cell `i` is alive iff `i` is a multiple of `seed_a` or
    /// of `seed_b`.
    pub open spec fn seeded(width: nat, height: nat, seed_a: nat, seed_b: nat) -> GridView {
        GridView {
            width,
            height,
            cells: Seq::new(
                width * height,
                |i: int|
                    if i % (seed_a as int) == 0 || i % (seed_b as int) == 0 {
                        Cell::Alive
                    } else {
                        Cell::Dead
                    },
            ),
        }
    }

    /// The position of cell `(row, column)` in the row-major sequence.
    pub open spec fn index(self, row: int, column: int) -> int {
        row * self.width + column
    }

    /// `1` if the cell reached from `(row, column)` by wrapping both
    /// coordinates round the torus is alive, else `0`.
    pub open spec fn population_at(self, row: int, column: int) -> nat {
        self.cells[self.index(row % (self.height as int), column % (self.width as int))].population()
    }

    /// What the neighbour of `(row, column)` at the offset
    /// `(delta_row, delta_column)` adds to the count of live neighbours:
    /// its population, or nothing where the offset is `(0, 0)`, which is
    /// the cell itself.
    pub open spec fn neighbour(self, row: int, column: int, delta_row: int, delta_column: int) -> nat {
        if delta_row == 0 && delta_column == 0 {
            0
        } else {
            self.population_at(row + delta_row, column + delta_column)
        }
    }

    /// The live neighbours of `(row, column)` in the row at offset
    /// `delta_row`: those at the column offsets `width - 1` (one step back
    /// round the torus), `0` and `1`.
    pub open spec fn neighbours_in_row(self, row: int, column: int, delta_row: int) -> nat {
        self.neighbour(row, column, delta_row, self.width - 1) + self.neighbour(
            row,
            column,
            delta_row,
            0,
        ) + self.neighbour(row, column, delta_row, 1)
    }

    /// The number of live cells among the neighbours of `(row, column)` on
    /// the torus: those in the rows at the offsets `height - 1` (one step
    /// back round the torus), `0` and `1`. On a grid with a single row or
    /// column an offset of one step back is `0`, so that fewer than eight
    /// offsets differ from `(0, 0)` and are counted.
    pub open spec fn live_neighbours(self, row: int, column: int) -> nat {
        self.neighbours_in_row(row, column, self.height - 1) + self.neighbours_in_row(
            row,
            column,
            0,
        ) + self.neighbours_in_row(row, column, 1)
    }

    /// The state of cell `i` in the next generation.
    pub open spec fn successor_cell(self, i: int) -> Cell {
        self.cells[i].successor(
            self.live_neighbours(i / (self.width as int), i % (self.width as int)),
        )
    }

    /// The next generation: every cell replaced by its successor, all read
    /// from the present generation.
    pub open spec fn successor(self) -> GridView {
        GridView {
            width: self.width,
            height: self.height,
            cells: Seq::new(self.cells.len(), |i: int| self.successor_cell(i)),
        }
    }

    /// The number of live cells.
    pub open spec fn live_count(self) -> nat {
        count_alive(self.cells)
    }

    /// The glyphs of the first `columns` cells of row `row`.
    pub open spec fn row_glyphs(self, row: int, columns: nat) -> Seq<char> {
        Seq::new(columns, |column: int| self.cells[self.index(row, column)].glyph())
    }

    /// The text of the first `rows` rows: for each row its glyphs, then a
    /// line break.
    pub open spec fn rows_text(self, rows: nat) -> Seq<char>
        decreases rows,
    {
        if rows == 0 {
            Seq::empty()
        } else {
            self.rows_text((rows - 1) as nat) + self.row_glyphs(rows - 1, self.width) + seq!['\n']
        }
    }

    /// The text form of the grid: one line per row, one glyph per cell.
    pub open spec fn rendering(self) -> Seq<char> {
        self.rows_text(self.height)
    }
}

/// The number of live cells in a sequence of cells.
pub open spec fn count_alive(cells: Seq<Cell>) -> nat
    decreases cells.len(),
{
    if cells.len() == 0 {
        0
    } else {
        count_alive(cells.drop_last()) + cells.last().population()
    }
}

/// A sequence of cells holds at most as many live cells as it has cells.
pub proof fn lemma_count_alive_bounded(cells: Seq<Cell>)
    ensures
        count_alive(cells) <= cells.len(),
    decreases cells.len(),
{
    if cells.len() > 0 {
        lemma_count_alive_bounded(cells.drop_last());
    }
}

/// A position inside the grid has its index inside the cell sequence.
pub proof fn lemma_index_in_range(width: int, height: int, row: int, column: int)
    requires
        0 <= row < height,
        0 <= column < width,
    ensures
        0 <= row * width + column < width * height,
{
    assert(row * width + column < width * height) by (nonlinear_arith)
        requires
            0 <= row < height,
            0 <= column < width,
    ;
    assert(0 <= row * width) by (nonlinear_arith)
        requires
            0 <= row,
            0 <= width,
    ;
}

/// In the next generation the cell at `(row, column)` is alive iff it has
/// exactly three live neighbours now, or is alive now and has exactly two.
pub proof fn lemma_successor_at(grid: GridView, row: int, column: int)
    requires
        grid.wf(),
        0 <= row < grid.height,
        0 <= column < grid.width,
    ensures
        0 <= grid.index(row, column) < grid.cells.len(),
        grid.successor().wf(),
        grid.successor().cells[grid.index(row, column)] == grid.cells[grid.index(
            row,
            column,
        )].successor(grid.live_neighbours(row, column)),
        grid.successor().cells[grid.index(row, column)] == Cell::Alive <==> {
            ||| grid.live_neighbours(row, column) == 3
            ||| grid.cells[grid.index(row, column)] == Cell::Alive && grid.live_neighbours(
                row,
                column,
            ) == 2
        },
{
    lemma_index_in_range(grid.width as int, grid.height as int, row, column);
    vstd::arithmetic::div_mod::lemma_fundamental_div_mod_converse(
        grid.index(row, column),
        grid.width as int,
        row,
        column,
    );
}

/// The text of one cell's glyph.
fn glyph_text(cell: Cell) -> (text: &'static str)
    ensures
        text@ == seq![cell.glyph()],
{
    proof {
        reveal_strlit("\u{25fb}");
        reveal_strlit("\u{25fc}");
    }
    match cell {
        Cell::Dead => {
            let text = "\u{25fb}";
            assert(text@ =~= seq![cell.glyph()]);
            text
        },
        Cell::Alive => {
            let text = "\u{25fc}";
            assert(text@ =~= seq![cell.glyph()]);
            text
        },
    }
}

/// The text that ends a row.
fn line_break() -> (text: &'static str)
    ensures
        text@ == seq!['\n'],
{
    proof {
        reveal_strlit("\n");
    }
    let text = "\n";
    assert(text@ =~= seq!['\n']);
    text
}

/// A rectangular grid of cells whose edges wrap round.
pub struct Grid {
    width: u32,
    height: u32,
    cells: Vec<Cell>,
}

impl View for Grid {
    type V = GridView;

    closed spec fn view(&self) -> GridView {
        GridView { width: self.width as nat, height: self.height as nat, cells: self.cells@ }
    }
}

impl Grid {
    /// The invariant of a grid: positive dimensions, one cell per position,
    /// and at most `u32::MAX` cells.
    pub open spec fn wf(&self) -> bool {
        self@.wf()
    }

    /// Builds the grid whose cell `i` is alive iff `i` is a multiple of
    /// `seed_a` or of `seed_b`.
    pub fn new(width: u32, height: u32, seed_a: u32, seed_b: u32) -> (grid: Grid)
        requires
            width > 0,
            height > 0,
            seed_a != 0,
            seed_b != 0,
            width * height <= u32::MAX,
        ensures
            grid.wf(),
            grid@ == GridView::seeded(width as nat, height as nat, seed_a as nat, seed_b as nat),
    {
        let total: u32 = width * height;
        let mut cells: Vec<Cell> = Vec::new();
        let mut i: u32 = 0;
        while i < total
            invariant
                i <= total,
                total == width * height,
                seed_a != 0,
                seed_b != 0,
                cells@.len() == i,
                forall|k: int|
                    0 <= k < i ==> cells@[k] == GridView::seeded(
                        width as nat,
                        height as nat,
                        seed_a as nat,
                        seed_b as nat,
                    ).cells[k],
            decreases total - i,
        {
            let cell = if i % seed_a == 0 || i % seed_b == 0 {
                Cell::Alive
            } else {
                Cell::Dead
            };
            cells.push(cell);
            i = i + 1;
        }
        let grid = Grid { width, height, cells };
        assert(grid@.cells =~= GridView::seeded(
            width as nat,
            height as nat,
            seed_a as nat,
            seed_b as nat,
        ).cells);
        grid
    }

    /// The number of columns.
    pub fn width(&self) -> (width: u32)
        ensures
            width == self@.width,
    {
        self.width
    }

    /// The number of rows.
    pub fn height(&self) -> (height: u32)
        ensures
            height == self@.height,
    {
        self.height
    }

    /// The position of cell `(row, column)` in the row-major sequence.
    fn get_index(&self, row: u32, column: u32) -> (index: usize)
        requires
            self.wf(),
            row < self.height,
            column < self.width,
        ensures
            index == self@.index(row as int, column as int),
            index < self.cells@.len(),
    {
        proof {
            lemma_index_in_range(
                self.width as int,
                self.height as int,
                row as int,
                column as int,
            );
        }
        (row * self.width + column) as usize
    }

    /// `1` if the cell reached from `(row, column)` by wrapping both
    /// coordinates round the torus is alive, else `0`.
    fn population_at(&self, row: u64, column: u64) -> (population: u8)
        requires
            self.wf(),
        ensures
            population == self@.population_at(row as int, column as int),
            population <= 1,
    {
        let wrapped_row = (row % (self.height as u64)) as u32;
        let wrapped_column = (column % (self.width as u64)) as u32;
        match self.cells[self.get_index(wrapped_row, wrapped_column)] {
            Cell::Alive => 1,
            Cell::Dead => 0,
        }
    }

    /// What the neighbour of `(row, column)` at the given offset adds to
    /// the count of live neighbours.
    fn neighbour(&self, row: u32, column: u32, delta_row: u32, delta_column: u32) -> (population: u8)
        requires
            self.wf(),
        ensures
            population == self@.neighbour(
                row as int,
                column as int,
                delta_row as int,
                delta_column as int,
            ),
            population <= 1,
    {
        if delta_row == 0 && delta_column == 0 {
            0
        } else {
            self.population_at(row as u64 + delta_row as u64, column as u64 + delta_column as u64)
        }
    }

    /// The live neighbours of `(row, column)` in the row at offset
    /// `delta_row`.
    fn neighbours_in_row(&self, row: u32, column: u32, delta_row: u32) -> (count: u8)
        requires
            self.wf(),
        ensures
            count == self@.neighbours_in_row(row as int, column as int, delta_row as int),
            count <= 3,
    {
        self.neighbour(row, column, delta_row, self.width - 1) + self.neighbour(
            row,
            column,
            delta_row,
            0,
        ) + self.neighbour(row, column, delta_row, 1)
    }

    /// Counts the live cells among the neighbours of `(row, column)` on the
    /// torus.
    pub fn live_neighbour_count(&self, row: u32, column: u32) -> (count: u8)
        requires
            self.wf(),
            row < self@.height,
            column < self@.width,
        ensures
            count == self@.live_neighbours(row as int, column as int),
            count <= 8,
    {
        let back = self.neighbours_in_row(row, column, self.height - 1);
        let level = self.neighbours_in_row(row, column, 0);
        let forward = self.neighbours_in_row(row, column, 1);
        proof {
            assert(self@.neighbour(row as int, column as int, 0, 0) == 0);
        }
        back + level + forward
    }

    /// Replaces the grid by its next generation and returns the number of
    /// cells that were alive before the step.
    pub fn advance(&mut self) -> (alive_before: u32)
        requires
            old(self).wf(),
        ensures
            final(self).wf(),
            final(self)@ == old(self)@.successor(),
            alive_before == old(self)@.live_count(),
            alive_before <= old(self)@.width * old(self)@.height,
    {
        let ghost before = self@;
        let mut next: Vec<Cell> = Vec::new();
        let mut total_alive: u32 = 0;
        let mut row: u32 = 0;
        while row < self.height
            invariant
                self.wf(),
                self@ == before,
                row <= self.height,
                next@.len() == row * self.width,
                forall|k: int| 0 <= k < next@.len() ==> next@[k] == before.successor_cell(k),
                total_alive == count_alive(before.cells.take(next@.len() as int)),
                total_alive <= next@.len(),
            decreases self.height - row,
        {
            let mut column: u32 = 0;
            while column < self.width
                invariant
                    self.wf(),
                    self@ == before,
                    row < self.height,
                    column <= self.width,
                    next@.len() == row * self.width + column,
                    forall|k: int| 0 <= k < next@.len() ==> next@[k] == before.successor_cell(k),
                    total_alive == count_alive(before.cells.take(next@.len() as int)),
                    total_alive <= next@.len(),
                decreases self.width - column,
            {
                let index = self.get_index(row, column);
                let cell = self.cells[index];
                proof {
                    vstd::arithmetic::div_mod::lemma_fundamental_div_mod_converse(
                        index as int,
                        self.width as int,
                        row as int,
                        column as int,
                    );
                    let taken = before.cells.take(index + 1);
                    assert(taken.drop_last() =~= before.cells.take(index as int));
                    assert(taken.last() == cell);
                }
                if cell.is_alive() {
                    total_alive = total_alive + 1;
                }
                let live_neighbours = self.live_neighbour_count(row, column);
                next.push(cell.next_state(live_neighbours));
                column = column + 1;
            }
            assert((row + 1) * self.width == row * self.width + self.width) by (nonlinear_arith);
            row = row + 1;
        }
        proof {
            assert(self.height * self.width == self.width * self.height) by (nonlinear_arith);
            assert(before.cells.take(next@.len() as int) =~= before.cells);
            assert(next@ =~= before.successor().cells);
        }
        self.cells = next;
        total_alive
    }

    /// Renders the grid as text: one line per row, one glyph per cell, a
    /// line break after each row.
    pub fn render(&self) -> (text: String)
        requires
            self.wf(),
        ensures
            text@ == self@.rendering(),
    {
        let mut text = String::new();
        let mut row: u32 = 0;
        while row < self.height
            invariant
                self.wf(),
                row <= self.height,
                text@ == self@.rows_text(row as nat),
            decreases self.height - row,
        {
            let ghost done = text@;
            let mut column: u32 = 0;
            while column < self.width
                invariant
                    self.wf(),
                    row < self.height,
                    column <= self.width,
                    text@ == done + self@.row_glyphs(row as int, column as nat),
                decreases self.width - column,
            {
                let cell = self.cells[self.get_index(row, column)];
                text.append(glyph_text(cell));
                assert(self@.row_glyphs(row as int, (column + 1) as nat) =~= self@.row_glyphs(
                    row as int,
                    column as nat,
                ) + seq![cell.glyph()]);
                assert(text@ =~= done + self@.row_glyphs(row as int, (column + 1) as nat));
                column = column + 1;
            }
            text.append(line_break());
            row = row + 1;
        }
        text
    }

    /// The cell at `(row, column)`.
    pub fn cell(&self, row: u32, column: u32) -> (cell: Cell)
        requires
            self.wf(),
            row < self@.height,
            column < self@.width,
        ensures
            cell == self@.cells[self@.index(row as int, column as int)],
    {
        self.cells[self.get_index(row, column)]
    }
}

} // verus!
