//! The grid data model and the generation-update rule.
//!
//! Cells are stored in row-major order: the cell at `(x, y)` lives at linear
//! index `x + y * width`. A cell's boolean value denotes LIVE (`true`) or
//! DEAD (`false`). Out-of-range neighbour lookups wrap around toroidally.

use vstd::prelude::*;
use vstd::arithmetic::div_mod::lemma_fundamental_div_mod;
use vstd::arithmetic::div_mod::lemma_fundamental_div_mod_converse;
use vstd::arithmetic::div_mod::lemma_mod_pos_bound;

verus! {

/// Reduces a coordinate one step out of range back onto the torus.
///
/// For `-n <= i < 2 * n` (which covers every coordinate reachable by a
/// single-step neighbour offset) this is the coordinate modulo `n`.
pub open spec fn wrap_coord(i: int, n: int) -> int {
    if i < 0 {
        i + n
    } else if n <= i {
        i - n
    } else {
        i
    }
}

/// The stored value of the cell at `(x, y)` in a row-major cell sequence.
pub open spec fn cell_at(cells: Seq<bool>, width: int, x: int, y: int) -> bool {
    cells[x + y * width]
}

/// 1 if the neighbour of `(x, y)` at offset `(dx, dy)` is LIVE, else 0.
/// The neighbour coordinate is resolved through toroidal wraparound.
pub open spec fn neighbour_live(
    cells: Seq<bool>,
    width: int,
    height: int,
    x: int,
    y: int,
    dx: int,
    dy: int,
) -> int {
    if cell_at(cells, width, wrap_coord(x + dx, width), wrap_coord(y + dy, height)) {
        1
    } else {
        0
    }
}

/// How many of the eight neighbours of `(x, y)` are LIVE.
pub open spec fn live_neighbour_count(
    cells: Seq<bool>,
    width: int,
    height: int,
    x: int,
    y: int,
) -> int {
    neighbour_live(cells, width, height, x, y, -1, -1)
        + neighbour_live(cells, width, height, x, y, 0, -1)
        + neighbour_live(cells, width, height, x, y, 1, -1)
        + neighbour_live(cells, width, height, x, y, -1, 0)
        + neighbour_live(cells, width, height, x, y, 1, 0)
        + neighbour_live(cells, width, height, x, y, -1, 1)
        + neighbour_live(cells, width, height, x, y, 0, 1)
        + neighbour_live(cells, width, height, x, y, 1, 1)
}

/// The B3/S23 transition rule: a LIVE cell survives on 2 or 3 live
/// neighbours, a DEAD cell is born on exactly 3 live neighbours.
pub open spec fn next_state(live: bool, live_neighbours: int) -> bool {
    if live {
        live_neighbours == 2 || live_neighbours == 3
    } else {
        live_neighbours == 3
    }
}

/// One full generation step over a row-major cell sequence.
pub open spec fn step_cells(cells: Seq<bool>, width: int, height: int) -> Seq<bool>
    recommends
        0 <= width,
        0 <= height,
        cells.len() == width * height,
{
    Seq::new(
        (width * height) as nat,
        |i: int|
            next_state(
                cell_at(cells, width, i % width, i / width),
                live_neighbour_count(cells, width, height, i % width, i / width),
            ),
    )
}

/// `n` generation steps in a row.
pub open spec fn step_n(cells: Seq<bool>, width: int, height: int, n: nat) -> Seq<bool>
    decreases n,
{
    if n == 0 {
        cells
    } else {
        step_cells(step_n(cells, width, height, (n - 1) as nat), width, height)
    }
}

/// Every cell of the sequence is DEAD.
pub open spec fn all_dead(cells: Seq<bool>) -> bool {
    forall|i: int| 0 <= i < cells.len() ==> !cells[i]
}

/// A row-major index built from in-range coordinates is itself in range.
proof fn lemma_index_bound(x: int, y: int, width: int, height: int)
    by (nonlinear_arith)
    requires
        0 <= x < width,
        0 <= y < height,
    ensures
        0 <= x + y * width < width * height,
{
}

/// The row-major coordinates of a linear cell index are in range, and the
/// index decomposes into them.
proof fn lemma_cell_num_coords(cell_num: int, width: int, height: int)
    requires
        0 <= width,
        0 <= height,
        0 <= cell_num < width * height,
    ensures
        0 < width,
        0 < height,
        0 <= cell_num % width < width,
        0 <= cell_num / width < height,
        cell_num == width * (cell_num / width) + cell_num % width,
{
    assert(0 < width && 0 < height) by (nonlinear_arith)
        requires
            0 <= width,
            0 <= height,
            0 <= cell_num < width * height,
    ;
    lemma_fundamental_div_mod(cell_num, width);
    lemma_mod_pos_bound(cell_num, width);
    assert(0 <= cell_num / width < height) by (nonlinear_arith)
        requires
            0 < width,
            cell_num == width * (cell_num / width) + cell_num % width,
            0 <= cell_num % width < width,
            0 <= cell_num < width * height,
    ;
}

/// Numerator of the chance that a freshly created cell starts LIVE.
pub const LIVE_CHANCE_NUMERATOR: u32 = 1;

/// Denominator of the chance that a freshly created cell starts LIVE.
pub const LIVE_CHANCE_DENOMINATOR: u32 = 10;

/// A 2D boolean field with toroidal neighbour lookups.
pub struct Grid {
    width: usize,
    height: usize,
    cells: Vec<bool>,
}

impl Grid {
    /// The grid's width, in cells.
    pub closed spec fn spec_width(&self) -> int {
        self.width as int
    }

    /// The grid's height, in cells.
    pub closed spec fn spec_height(&self) -> int {
        self.height as int
    }

    /// The stored cells, row-major.
    pub closed spec fn spec_cells(&self) -> Seq<bool> {
        self.cells@
    }

    /// The grid invariant: the cell store holds exactly `width * height`
    /// cells. Every constructor establishes it and every generation keeps it.
    pub open spec fn wf(&self) -> bool {
        &&& 0 <= self.spec_width()
        &&& 0 <= self.spec_height()
        &&& self.spec_cells().len() == self.spec_width() * self.spec_height()
    }

    /// The stored value of the cell at in-range coordinates `(x, y)`.
    pub open spec fn spec_cell(&self, x: int, y: int) -> bool
        recommends
            self.wf(),
            0 <= x < self.spec_width(),
            0 <= y < self.spec_height(),
    {
        cell_at(self.spec_cells(), self.spec_width(), x, y)
    }

    /// How many of the eight neighbours of `(x, y)` are LIVE.
    pub open spec fn spec_live_neighbours(&self, x: int, y: int) -> int {
        live_neighbour_count(
            self.spec_cells(),
            self.spec_width(),
            self.spec_height(),
            x,
            y,
        )
    }

    /// The cell sequence of the next generation.
    pub open spec fn spec_step(&self) -> Seq<bool> {
        step_cells(self.spec_cells(), self.spec_width(), self.spec_height())
    }

    /// Builds a grid directly from a row-major cell sequence.
    pub fn from_cells(width: usize, height: usize, cells: Vec<bool>) -> (grid: Grid)
        requires
            cells@.len() == width * height,
        ensures
            grid.wf(),
            grid.spec_width() == width,
            grid.spec_height() == height,
            grid.spec_cells() == cells@,
    {
        Grid { width, height, cells }
    }

    /// Builds a grid of the given dimensions with a randomized initial
    /// state: each cell is drawn independently from the random source and
    /// starts LIVE with probability
    /// `LIVE_CHANCE_NUMERATOR / LIVE_CHANCE_DENOMINATOR`.
    pub fn new(width: usize, height: usize, rng: &mut rand::rngs::ThreadRng) -> (grid: Grid)
        requires
            width * height <= usize::MAX,
        ensures
            grid.wf(),
            grid.spec_width() == width,
            grid.spec_height() == height,
    {
        let num_cells = width * height;
        let mut cells: Vec<bool> = Vec::new();
        let mut i: usize = 0;
        while i < num_cells
            invariant
                i <= num_cells,
                cells@.len() == i,
            decreases num_cells - i,
        {
            cells.push(crate::rng::draw_live(rng, LIVE_CHANCE_NUMERATOR, LIVE_CHANCE_DENOMINATOR));
            i += 1;
        }
        Grid { width, height, cells }
    }

    /// The total number of cells, `width * height` for a well-formed grid.
    pub fn num_cells(&self) -> (n: usize)
        ensures
            n == self.spec_cells().len(),
            self.wf() ==> n == self.spec_width() * self.spec_height(),
    {
        self.cells.len()
    }

    /// The stored state of the cell at in-range coordinates `(x, y)`.
    pub fn cell_state(&self, x: usize, y: usize) -> (state: bool)
        requires
            self.wf(),
            x < self.spec_width(),
            y < self.spec_height(),
        ensures
            state == self.spec_cell(x as int, y as int),
    {
        let num_cells = self.cells.len();
        proof {
            lemma_index_bound(x as int, y as int, self.width as int, self.height as int);
        }
        let cell_num = x + y * self.width;
        assert(cell_num < num_cells);
        self.cells[cell_num]
    }

    /// Counts the LIVE cells among the eight neighbours of `(x, y)`, each
    /// resolved through toroidal wraparound.
    #[verifier::rlimit(30)]
    pub fn num_live_neighbours(&self, x: usize, y: usize) -> (count: usize)
        requires
            self.wf(),
            x < self.spec_width(),
            y < self.spec_height(),
        ensures
            count == self.spec_live_neighbours(x as int, y as int),
            count <= 8,
    {
        let x_left = if x == 0 { self.width - 1 } else { x - 1 };
        let x_right = if x + 1 == self.width { 0 } else { x + 1 };
        let y_up = if y == 0 { self.height - 1 } else { y - 1 };
        let y_down = if y + 1 == self.height { 0 } else { y + 1 };
        proof {
            assert(x_left as int == wrap_coord(x as int - 1, self.spec_width()));
            assert(x_right as int == wrap_coord(x as int + 1, self.spec_width()));
            assert(y_up as int == wrap_coord(y as int - 1, self.spec_height()));
            assert(y_down as int == wrap_coord(y as int + 1, self.spec_height()));
        }
        let mut count: usize = 0;
        if self.cell_state(x_left, y_up) {
            count += 1;
        }
        if self.cell_state(x, y_up) {
            count += 1;
        }
        if self.cell_state(x_right, y_up) {
            count += 1;
        }
        if self.cell_state(x_left, y) {
            count += 1;
        }
        if self.cell_state(x_right, y) {
            count += 1;
        }
        if self.cell_state(x_left, y_down) {
            count += 1;
        }
        if self.cell_state(x, y_down) {
            count += 1;
        }
        if self.cell_state(x_right, y_down) {
            count += 1;
        }
        count
    }

    /// The next generation's state of the cell at `(x, y)`, by the B3/S23
    /// rule applied to the current generation.
    pub fn next_state_of_cell(&self, x: usize, y: usize) -> (state: bool)
        requires
            self.wf(),
            x < self.spec_width(),
            y < self.spec_height(),
        ensures
            state == next_state(
                self.spec_cell(x as int, y as int),
                self.spec_live_neighbours(x as int, y as int),
            ),
    {
        let current_state = self.cell_state(x, y);
        let num_live_neighbours = self.num_live_neighbours(x, y);
        if current_state && (num_live_neighbours == 2 || num_live_neighbours == 3) {
            true
        } else if !current_state && num_live_neighbours == 3 {
            true
        } else {
            false
        }
    }

    /// The next generation's state of the cell at linear index `cell_num`.
    pub fn next_state_of_cell_num(&self, cell_num: usize) -> (state: bool)
        requires
            self.wf(),
            cell_num < self.spec_cells().len(),
        ensures
            state == self.spec_step()[cell_num as int],
    {
        proof {
            lemma_cell_num_coords(cell_num as int, self.width as int, self.height as int);
        }
        let x = cell_num % self.width;
        let y = cell_num / self.width;
        self.next_state_of_cell(x, y)
    }

    /// Computes the next generation: a brand-new grid of the same
    /// dimensions in which every cell holds the B3/S23 successor of its
    /// state in `self`, each neighbour count taken from the pre-update
    /// snapshot. `self` is unchanged.
    pub fn update(&self) -> (next: Grid)
        requires
            self.wf(),
        ensures
            next.wf(),
            next.spec_width() == self.spec_width(),
            next.spec_height() == self.spec_height(),
            next.spec_cells() == self.spec_step(),
            forall|x: int, y: int|
                0 <= x < self.spec_width() && 0 <= y < self.spec_height() ==> next.spec_cell(x, y)
                    == next_state(self.spec_cell(x, y), self.spec_live_neighbours(x, y)),
    {
        let num_cells = self.num_cells();
        let mut cells: Vec<bool> = Vec::new();
        let mut cell_num: usize = 0;
        while cell_num < num_cells
            invariant
                self.wf(),
                num_cells == self.spec_cells().len(),
                cell_num <= num_cells,
                cells@.len() == cell_num,
                forall|j: int| 0 <= j < cell_num ==> cells@[j] == self.spec_step()[j],
            decreases num_cells - cell_num,
        {
            cells.push(self.next_state_of_cell_num(cell_num));
            cell_num += 1;
        }
        proof {
            assert(cells@ =~= self.spec_step());
        }
        let next = Grid { width: self.width, height: self.height, cells };
        proof {
            assert forall|x: int, y: int|
                0 <= x < self.spec_width() && 0 <= y < self.spec_height() implies next.spec_cell(
                x,
                y,
            ) == next_state(self.spec_cell(x, y), self.spec_live_neighbours(x, y)) by {
                lemma_index_bound(x, y, self.spec_width(), self.spec_height());
                lemma_fundamental_div_mod_converse(
                    x + y * self.spec_width(),
                    self.spec_width(),
                    y,
                    x,
                );
            }
        }
        next
    }
}

/// The glyph that renders a cell: `'X'` for LIVE, a space for DEAD.
pub open spec fn spec_glyph(state: bool) -> char {
    if state {
        'X'
    } else {
        ' '
    }
}

/// A rendered border row: `'+'`, `width` dashes, `'+'`, and a newline.
pub open spec fn spec_border_row(width: int) -> Seq<char>
    recommends
        0 <= width,
{
    seq!['+'] + Seq::new(width as nat, |i: int| '-') + seq!['+', '\n']
}

/// Relies on `String::push`: appends the given char to the end of the
/// string.
#[verifier::external_body]
fn push_char(out: &mut String, c: char)
    ensures
        final(out)@ == old(out)@.push(c),
{
    out.push(c);
}

/// The glyph that renders a cell: `'X'` for LIVE, a space for DEAD.
pub fn state_to_char(state: bool) -> (c: char)
    ensures
        c == spec_glyph(state),
{
    if state {
        'X'
    } else {
        ' '
    }
}

/// Appends a border row of the given inner length to `out`.
pub fn write_top_or_bottom_border(out: &mut String, length: usize)
    ensures
        final(out)@ == old(out)@ + spec_border_row(length as int),
{
    push_char(out, '+');
    let mut i: usize = 0;
    while i < length
        invariant
            i <= length,
            out@ == old(out)@ + seq!['+'] + Seq::new(i as nat, |j: int| '-'),
        decreases length - i,
    {
        push_char(out, '-');
        i += 1;
        proof {
            assert(Seq::new(i as nat, |j: int| '-') =~= Seq::new(
                (i - 1) as nat,
                |j: int| '-',
            ).push('-'));
            assert(out@ =~= old(out)@ + seq!['+'] + Seq::new(i as nat, |j: int| '-'));
        }
    }
    push_char(out, '+');
    push_char(out, '\n');
    proof {
        assert(out@ =~= old(out)@ + spec_border_row(length as int));
    }
}

impl Grid {
    /// One rendered cell row: `'|'`, a glyph per cell, `'|'`, and a newline.
    pub open spec fn spec_rendered_row(&self, y: int) -> Seq<char>
        recommends
            self.wf(),
            0 <= y < self.spec_height(),
    {
        seq!['|'] + Seq::new(
            self.spec_width() as nat,
            |x: int| spec_glyph(self.spec_cell(x, y)),
        ) + seq!['|', '\n']
    }

    /// The first `k` rendered cell rows, concatenated.
    pub open spec fn spec_rendered_rows_up_to(&self, k: int) -> Seq<char>
        recommends
            self.wf(),
            0 <= k <= self.spec_height(),
        decreases k,
    {
        if k <= 0 {
            Seq::empty()
        } else {
            self.spec_rendered_rows_up_to(k - 1) + self.spec_rendered_row(k - 1)
        }
    }

    /// The full rendered snapshot: a top border, one row per grid row, and a
    /// bottom border.
    pub open spec fn spec_render(&self) -> Seq<char>
        recommends
            self.wf(),
    {
        spec_border_row(self.spec_width()) + self.spec_rendered_rows_up_to(self.spec_height())
            + spec_border_row(self.spec_width())
    }

    /// Produces the bordered textual snapshot of the grid: a pure function
    /// of the grid's state.
    pub fn render(&self) -> (text: String)
        requires
            self.wf(),
        ensures
            text@ == self.spec_render(),
    {
        let mut out = String::new();
        write_top_or_bottom_border(&mut out, self.width);
        let mut y: usize = 0;
        while y < self.height
            invariant
                self.wf(),
                y <= self.spec_height(),
                out@ == spec_border_row(self.spec_width()) + self.spec_rendered_rows_up_to(
                    y as int,
                ),
            decreases self.height - y,
        {
            push_char(&mut out, '|');
            let mut x: usize = 0;
            while x < self.width
                invariant
                    self.wf(),
                    x <= self.spec_width(),
                    y < self.spec_height(),
                    out@ == spec_border_row(self.spec_width()) + self.spec_rendered_rows_up_to(
                        y as int,
                    ) + seq!['|'] + Seq::new(
                        x as nat,
                        |j: int| spec_glyph(self.spec_cell(j, y as int)),
                    ),
                decreases self.width - x,
            {
                push_char(&mut out, state_to_char(self.cell_state(x, y)));
                x += 1;
                proof {
                    assert(Seq::new(
                        x as nat,
                        |j: int| spec_glyph(self.spec_cell(j, y as int)),
                    ) =~= Seq::new(
                        (x - 1) as nat,
                        |j: int| spec_glyph(self.spec_cell(j, y as int)),
                    ).push(spec_glyph(self.spec_cell(x - 1, y as int))));
                    assert(out@ =~= spec_border_row(self.spec_width())
                        + self.spec_rendered_rows_up_to(y as int) + seq!['|'] + Seq::new(
                        x as nat,
                        |j: int| spec_glyph(self.spec_cell(j, y as int)),
                    ));
                }
            }
            push_char(&mut out, '|');
            push_char(&mut out, '\n');
            y += 1;
            proof {
                assert(out@ =~= spec_border_row(self.spec_width())
                    + self.spec_rendered_rows_up_to(y as int));
            }
        }
        write_top_or_bottom_border(&mut out, self.width);
        proof {
            assert(out@ =~= self.spec_render());
        }
        out
    }
}

/// Birth rule: a DEAD cell becomes LIVE in the next generation exactly when
/// it has 3 LIVE neighbours; with any other count it stays DEAD.
pub proof fn lemma_birth_rule(live_neighbours: int)
    ensures
        next_state(false, live_neighbours) == (live_neighbours == 3),
{
}

/// Survival rule: a LIVE cell stays LIVE in the next generation exactly when
/// it has 2 or 3 LIVE neighbours; with any other count (1, 4, ...) it dies.
pub proof fn lemma_survival_rule(live_neighbours: int)
    ensures
        next_state(true, live_neighbours) == (live_neighbours == 2 || live_neighbours == 3),
{
}

/// Determinism of the generation rule: two grids with the same width, height
/// and cells step to the same next generation. Since `update` pins its
/// result's fields to exactly this step, `update` applied twice to equal
/// grids yields equal grids.
pub proof fn lemma_update_deterministic(a: Grid, b: Grid)
    requires
        a.spec_width() == b.spec_width(),
        a.spec_height() == b.spec_height(),
        a.spec_cells() == b.spec_cells(),
    ensures
        a.spec_step() == b.spec_step(),
{
}

/// Toroidal boundary policy: the neighbourhood of the corner cell `(0, 0)`
/// wraps around to the opposite edges, so a LIVE cell at `(width - 1, 0)` or
/// at `(0, height - 1)` is counted among its live neighbours.
pub proof fn lemma_toroidal_wraparound(grid: Grid)
    requires
        grid.wf(),
        2 <= grid.spec_width(),
        2 <= grid.spec_height(),
    ensures
        wrap_coord(-1, grid.spec_width()) == grid.spec_width() - 1,
        wrap_coord(-1, grid.spec_height()) == grid.spec_height() - 1,
        grid.spec_cell(grid.spec_width() - 1, 0) ==> grid.spec_live_neighbours(0, 0) >= 1,
        grid.spec_cell(0, grid.spec_height() - 1) ==> grid.spec_live_neighbours(0, 0) >= 1,
{
}

/// No neighbour of any cell of an all-DEAD grid is LIVE.
proof fn lemma_all_dead_neighbour_count(cells: Seq<bool>, width: int, height: int, x: int, y: int)
    requires
        cells.len() == width * height,
        all_dead(cells),
        0 <= x < width,
        0 <= y < height,
    ensures
        live_neighbour_count(cells, width, height, x, y) == 0,
{
    lemma_index_bound(wrap_coord(x - 1, width), wrap_coord(y - 1, height), width, height);
    lemma_index_bound(wrap_coord(x, width), wrap_coord(y - 1, height), width, height);
    lemma_index_bound(wrap_coord(x + 1, width), wrap_coord(y - 1, height), width, height);
    lemma_index_bound(wrap_coord(x - 1, width), wrap_coord(y, height), width, height);
    lemma_index_bound(wrap_coord(x + 1, width), wrap_coord(y, height), width, height);
    lemma_index_bound(wrap_coord(x - 1, width), wrap_coord(y + 1, height), width, height);
    lemma_index_bound(wrap_coord(x, width), wrap_coord(y + 1, height), width, height);
    lemma_index_bound(wrap_coord(x + 1, width), wrap_coord(y + 1, height), width, height);
}

/// One generation step of an all-DEAD grid is all-DEAD and keeps the cell
/// count.
proof fn lemma_extinction_step(cells: Seq<bool>, width: int, height: int)
    requires
        0 <= width,
        0 <= height,
        cells.len() == width * height,
        all_dead(cells),
    ensures
        step_cells(cells, width, height).len() == width * height,
        all_dead(step_cells(cells, width, height)),
{
    assert forall|i: int| 0 <= i < width * height implies !step_cells(cells, width, height)[i] by {
        lemma_cell_num_coords(i, width, height);
        lemma_all_dead_neighbour_count(cells, width, height, i % width, i / width);
    }
}

/// Extinction: an all-DEAD grid remains all-DEAD after any number of
/// generation steps.
pub proof fn lemma_extinction(cells: Seq<bool>, width: int, height: int, n: nat)
    requires
        0 <= width,
        0 <= height,
        cells.len() == width * height,
        all_dead(cells),
    ensures
        step_n(cells, width, height, n).len() == width * height,
        all_dead(step_n(cells, width, height, n)),
    decreases n,
{
    if n > 0 {
        lemma_extinction(cells, width, height, (n - 1) as nat);
        lemma_extinction_step(step_n(cells, width, height, (n - 1) as nat), width, height);
    }
}

} // verus!
