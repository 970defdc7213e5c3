//! A hunt board: a grid of cells, some dead, and the set of cells where
//! the quarry could still be.  Each compass move maps every possible
//! cell one step and discards the ones that leave the grid or land on a
//! dead cell.

use vstd::prelude::*;

use crate::coord::Coord;
use crate::direction::{spec_xdelta, spec_ydelta, xdelta, ydelta, Direction};
use crate::result::{Error, ZResult};

verus! {

broadcast use vstd::seq_lib::group_seq_properties;

/// Whether `c` lies on a `rows` by `cols` grid.
pub open spec fn in_grid(rows: i8, cols: i8, c: Coord) -> bool {
    0 <= c.row < rows && 0 <= c.col < cols
}

pub struct Board {
    num_rows: i8,
    num_cols: i8,
    possible_cells: Vec<Coord>,
    dead_cells: Vec<Coord>,
}

impl Board {
    pub closed spec fn spec_rows(&self) -> i8 {
        self.num_rows
    }

    pub closed spec fn spec_cols(&self) -> i8 {
        self.num_cols
    }

    /// The cells the quarry could occupy.
    pub closed spec fn possible(&self) -> Seq<Coord> {
        self.possible_cells@
    }

    /// The dead cells of the board.
    pub closed spec fn dead(&self) -> Seq<Coord> {
        self.dead_cells@
    }

    /// A cell is on the grid and not dead.
    pub open spec fn spec_valid(&self, c: Coord) -> bool {
        in_grid(self.spec_rows(), self.spec_cols(), c) && !self.dead().contains(c)
    }

    /// A board whose possible cells are every grid cell not listed dead.
    pub fn new(rows: i8, cols: i8, dead_cells: Vec<Coord>) -> (r: Board)
        requires
            0 <= rows,
            0 <= cols,
        ensures
            r.spec_rows() == rows,
            r.spec_cols() == cols,
            r.dead() == dead_cells@,
            forall|c: Coord|
                r.possible().contains(c) <==> in_grid(rows, cols, c) && !dead_cells@.contains(c),
    {
        let mut possible_cells: Vec<Coord> = Vec::new();
        let mut row: i8 = 0;
        while row < rows
            invariant
                0 <= row <= rows,
                0 <= cols,
                forall|c: Coord| #[trigger]
                    possible_cells@.contains(c) ==> c.row < row && in_grid(rows, cols, c)
                        && !dead_cells@.contains(c),
                forall|c: Coord|
                    in_grid(rows, cols, c) && c.row < row && !dead_cells@.contains(c)
                        ==> #[trigger] possible_cells@.contains(c),
            decreases rows - row,
        {
            let mut col: i8 = 0;
            while col < cols
                invariant
                    0 <= row < rows,
                    0 <= col <= cols,
                    0 <= cols,
                    forall|c: Coord| #[trigger]
                        possible_cells@.contains(c) ==> (c.row < row || (c.row == row && c.col
                            < col)) && in_grid(rows, cols, c) && !dead_cells@.contains(c),
                    forall|c: Coord|
                        in_grid(rows, cols, c) && (c.row < row || (c.row == row && c.col < col))
                            && !dead_cells@.contains(c) ==> #[trigger] possible_cells@.contains(c),
                decreases cols - col,
            {
                let c = Coord::new(row, col);
                if !contains_coord(&dead_cells, c) {
                    possible_cells.push(c);
                    proof {
                        assert(possible_cells@.last() == c);
                    }
                }
                col = col + 1;
            }
            row = row + 1;
        }
        Board { num_rows: rows, num_cols: cols, possible_cells, dead_cells }
    }

    /// Parse a board description: `rows * cols` characters in row-major
    /// order, `X` marking a dead cell.  A shorter string is rejected.
    pub fn parse(rows: i8, cols: i8, s: &Vec<u8>) -> (r: ZResult<Board>)
        requires
            0 <= rows,
            0 <= cols,
        ensures
            match r {
                Ok(b) => {
                    &&& b.spec_rows() == rows
                    &&& b.spec_cols() == cols
                    &&& rows * cols <= s@.len()
                    &&& forall|c: Coord|
                        b.dead().contains(c) ==> in_grid(rows, cols, c) && s@[c.row * cols + c.col]
                            == 88
                    &&& forall|c: Coord|
                        in_grid(rows, cols, c) && s@[c.row * cols + c.col] == 88
                            ==> b.dead().contains(c)
                },
                Err(e) => e == Error::BoardParseError && s@.len() < rows * cols,
            },
    {
        let slen = s.len();
        proof {
            assert(rows as usize * cols as usize <= 127 * 127) by (nonlinear_arith)
                requires
                    0 <= (rows as usize) <= 127,
                    0 <= (cols as usize) <= 127,
            ;
        }
        if slen < rows as usize * cols as usize {
            proof {
                assert(rows as usize * cols as usize == rows * cols) by (nonlinear_arith)
                    requires
                        0 <= rows,
                        0 <= cols,
                ;
            }
            return Err(Error::BoardParseError);
        }
        proof {
            assert(rows as usize * cols as usize == rows * cols) by (nonlinear_arith)
                requires
                    0 <= rows,
                    0 <= cols,
            ;
        }
        let mut dead_cells: Vec<Coord> = Vec::new();
        let mut row: i8 = 0;
        while row < rows
            invariant
                0 <= row <= rows,
                0 <= cols,
                rows * cols <= s@.len(),
                forall|c: Coord| #[trigger]
                    dead_cells@.contains(c) ==> in_grid(rows, cols, c) && c.row < row && s@[c.row
                        * cols + c.col] == 88,
                forall|c: Coord|
                    in_grid(rows, cols, c) && c.row < row && s@[c.row * cols + c.col] == 88
                        ==> #[trigger] dead_cells@.contains(c),
            decreases rows - row,
        {
            let mut col: i8 = 0;
            while col < cols
                invariant
                    0 <= row < rows,
                    0 <= col <= cols,
                    0 <= cols,
                    0 <= rows,
                    rows * cols <= s@.len(),
                    forall|c: Coord| #[trigger]
                        dead_cells@.contains(c) ==> in_grid(rows, cols, c) && (c.row < row || (
                        c.row == row && c.col < col)) && s@[c.row * cols + c.col] == 88,
                    forall|c: Coord|
                        in_grid(rows, cols, c) && (c.row < row || (c.row == row && c.col < col))
                            && s@[c.row * cols + c.col] == 88 ==> #[trigger] dead_cells@.contains(
                            c,
                        ),
                decreases cols - col,
            {
                proof {
                    assert(0 <= row * cols + col < rows * cols) by (nonlinear_arith)
                        requires
                            0 <= row < rows,
                            0 <= col < cols,
                    ;
                    assert((row as int) * (cols as int) <= 127 * 127) by (nonlinear_arith)
                        requires
                            0 <= (row as int) <= 127,
                            0 <= (cols as int) <= 127,
                    ;
                    assert((row as usize) * (cols as usize) == (row as int) * (cols as int));
                }
                let idx: usize = row as usize * cols as usize + col as usize;
                let ch = s[idx];
                if ch == 88 {
                    let c = Coord::new(row, col);
                    dead_cells.push(c);
                    proof {
                        assert(dead_cells@.last() == c);
                    }
                }
                col = col + 1;
            }
            row = row + 1;
        }
        Ok(Board::new(rows, cols, dead_cells))
    }

    /// The cells of the description string holding character `ch`.
    pub fn coords_for_string(&self, s: &Vec<u8>, ch: u8) -> (r: ZResult<Vec<Coord>>)
        ensures
            r.is_err() ==> r.unwrap_err() == Error::BoardParseError,
    {
        let rows = self.num_rows;
        let cols = self.num_cols;
        if rows < 0 || cols < 0 {
            return Err(Error::BoardParseError);
        }
        proof {
            assert(rows as usize * cols as usize <= 127 * 127) by (nonlinear_arith)
                requires
                    0 <= (rows as usize) <= 127,
                    0 <= (cols as usize) <= 127,
            ;
        }
        if s.len() < rows as usize * cols as usize {
            return Err(Error::BoardParseError);
        }
        let mut out: Vec<Coord> = Vec::new();
        let mut row: i8 = 0;
        while row < rows
            invariant
                0 <= row <= rows,
                0 <= cols,
                rows as usize * cols as usize <= s@.len(),
            decreases rows - row,
        {
            let mut col: i8 = 0;
            while col < cols
                invariant
                    0 <= row < rows,
                    0 <= col <= cols,
                    rows as usize * cols as usize <= s@.len(),
                decreases cols - col,
            {
                proof {
                    assert((row as usize) * (cols as usize) + (col as usize) < (rows as usize) * (
                    cols as usize)) by (nonlinear_arith)
                        requires
                            0 <= (row as usize) < (rows as usize),
                            0 <= (col as usize) < (cols as usize),
                    ;
                    assert((rows as usize) * (cols as usize) <= 127 * 127) by (nonlinear_arith)
                        requires
                            0 <= (rows as usize) <= 127,
                            0 <= (cols as usize) <= 127,
                    ;
                }
                let idx: usize = row as usize * cols as usize + col as usize;
                if s[idx] == ch {
                    out.push(Coord::new(row, col));
                }
                col = col + 1;
            }
            row = row + 1;
        }
        Ok(out)
    }

    /// The board with the dead cells of a fixed fifteen by fifteen
    /// hunting ground.
    pub fn alpha() -> (r: ZResult<Board>) {
        let mut desc: Vec<u8> = Vec::new();
        // Each mask has a set bit per dead cell of its row.
        push_row(&mut desc, 0);
        push_row(&mut desc, 0x3044);  // ..X...X.....XX.
        push_row(&mut desc, 0x1104);  // ..X.....X...X..
        push_row(&mut desc, 0x0100);  // ........X......
        push_row(&mut desc, 0);
        push_row(&mut desc, 0);
        push_row(&mut desc, 0x014a);  // .X.X..X.X......
        push_row(&mut desc, 0x004a);  // .X.X..X........
        push_row(&mut desc, 0x3888);  // ...X...X...XXX.
        push_row(&mut desc, 0);
        push_row(&mut desc, 0x0008);  // ...X...........
        push_row(&mut desc, 0x0884);  // ..X....X...X...
        push_row(&mut desc, 0x1001);  // X...........X..
        push_row(&mut desc, 0x2144);  // ..X...X.X....X.
        push_row(&mut desc, 0x0008);  // ...X...........
        Board::parse(15, 15, &desc)
    }

    /// The number of rows.
    pub fn rows(&self) -> (r: i8)
        ensures
            r == self.spec_rows(),
    {
        self.num_rows
    }

    /// The number of columns.
    pub fn cols(&self) -> (r: i8)
        ensures
            r == self.spec_cols(),
    {
        self.num_cols
    }

    /// The cells the quarry could occupy.
    pub fn possible_locations(&self) -> (r: Vec<Coord>)
        ensures
            r@ == self.possible(),
    {
        let mut out: Vec<Coord> = Vec::new();
        let mut i: usize = 0;
        while i < self.possible_cells.len()
            invariant
                i <= self.possible_cells@.len(),
                out@ == self.possible_cells@.subrange(0, i as int),
            decreases self.possible_cells@.len() - i,
        {
            let c = self.possible_cells[i];
            out.push(c);
            i = i + 1;
            proof {
                assert(out@ =~= self.possible_cells@.subrange(0, i as int));
            }
        }
        proof {
            assert(self.possible_cells@.subrange(0, self.possible_cells@.len() as int)
                =~= self.possible_cells@);
        }
        out
    }

    /// Whether `coord` is on the grid and alive.
    pub fn is_valid_coord(&self, coord: Coord) -> (r: bool)
        ensures
            r == self.spec_valid(coord),
    {
        coord.row >= 0 && coord.row < self.num_rows && coord.col >= 0 && coord.col < self.num_cols
            && !contains_coord(&self.dead_cells, coord)
    }

    pub fn north(&mut self)
        ensures
            moved_rel(*old(self), *final(self), Direction::North),
    {
        self.move_in_direction(Direction::North);
    }

    pub fn south(&mut self)
        ensures
            moved_rel(*old(self), *final(self), Direction::South),
    {
        self.move_in_direction(Direction::South);
    }

    pub fn east(&mut self)
        ensures
            moved_rel(*old(self), *final(self), Direction::East),
    {
        self.move_in_direction(Direction::East);
    }

    pub fn west(&mut self)
        ensures
            moved_rel(*old(self), *final(self), Direction::West),
    {
        self.move_in_direction(Direction::West);
    }

    /// Move every possible cell one step in `dir`, keeping the moves
    /// that stay on the grid and off the dead cells.
    pub fn move_in_direction(&mut self, dir: Direction)
        ensures
            moved_rel(*old(self), *final(self), dir),
    {
        let mut new_active_cells: Vec<Coord> = Vec::new();
        let n = self.possible_cells.len();
        let mut i: usize = 0;
        while i < n
            invariant
                n == self.possible_cells@.len(),
                i <= n,
                self.num_rows == old(self).spec_rows(),
                self.num_cols == old(self).spec_cols(),
                self.possible_cells@ == old(self).possible(),
                self.dead_cells@ == old(self).dead(),
                forall|c: Coord| #[trigger]
                    new_active_cells@.contains(c) ==> old(self).spec_valid(c) && exists|j: int|
                        0 <= j < i && step_to(#[trigger] old(self).possible()[j], dir, c),
                forall|j: int|
                    0 <= j < i ==> (forall|c: Coord|
                        step_to(#[trigger] old(self).possible()[j], dir, c) && old(
                            self,
                        ).spec_valid(c) ==> new_active_cells@.contains(c)),
            decreases n - i,
        {
            let coord = self.possible_cells[i];
            if let Some(new_coord) = step(coord, dir) {
                if self.is_valid_coord(new_coord) {
                    new_active_cells.push(new_coord);
                    proof {
                        assert(new_active_cells@.last() == new_coord);
                    }
                }
            }
            i = i + 1;
        }
        self.possible_cells = new_active_cells;
    }
}

/// `c` stepped one place in `dir` is `t`: on the board, north and south
/// move along rows and east and west along columns.
pub open spec fn step_to(c: Coord, dir: Direction, t: Coord) -> bool {
    t.row == c.row + spec_ydelta(dir) && t.col == c.col + spec_xdelta(dir)
}

/// How a compass move transforms the board: the grid and dead cells are
/// kept, and a cell is possible afterwards exactly when some previously
/// possible cell steps onto it and it is alive.
pub open spec fn moved_rel(pre: Board, post: Board, dir: Direction) -> bool {
    &&& post.spec_rows() == pre.spec_rows()
    &&& post.spec_cols() == pre.spec_cols()
    &&& post.dead() == pre.dead()
    &&& forall|c: Coord|
        post.possible().contains(c) <==> (pre.spec_valid(c) && exists|j: int|
            0 <= j < pre.possible().len() && step_to(#[trigger] pre.possible()[j], dir, c))
}

/// The neighbouring coordinate, or `None` where the step leaves the i8
/// range (and so certainly the grid).
fn step(c: Coord, dir: Direction) -> (r: Option<Coord>)
    ensures
        match r {
            Some(t) => step_to(c, dir, t),
            None => forall|t: Coord| !step_to(c, dir, t),
        },
{
    let dr = ydelta(dir);
    let dc = xdelta(dir);
    if (dr == 1 && c.row == i8::MAX) || (dr == -1 && c.row == i8::MIN) {
        return None;
    }
    if (dc == 1 && c.col == i8::MAX) || (dc == -1 && c.col == i8::MIN) {
        return None;
    }
    Some(Coord::new(c.row + dr, c.col + dc))
}

/// Whether `cells` holds `c`.
fn contains_coord(cells: &Vec<Coord>, c: Coord) -> (r: bool)
    ensures
        r == cells@.contains(c),
{
    let mut i: usize = 0;
    while i < cells.len()
        invariant
            i <= cells@.len(),
            forall|j: int| 0 <= j < i ==> cells@[j] != c,
        decreases cells@.len() - i,
    {
        if cells[i].row == c.row && cells[i].col == c.col {
            proof {
                assert(cells@[i as int] == c);
            }
            return true;
        }
        i = i + 1;
    }
    false
}

/// Append one fifteen-cell description row; bit `col` of `mask` marks a
/// dead cell.
fn push_row(out: &mut Vec<u8>, mask: u16)
    ensures
        final(out)@.len() == old(out)@.len() + 15,
{
    let mut col: u16 = 0;
    while col < 15
        invariant
            col <= 15,
            out@.len() == old(out)@.len() + col,
        decreases 15 - col,
    {
        if (mask >> col) % 2 == 1 {
            out.push(88);
        } else {
            out.push(46);
        }
        col = col + 1;
    }
}

} // verus!
