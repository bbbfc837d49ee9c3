use vstd::prelude::*;

verus! {

use crate::error::GameError;
use crate::piece::{Piece, line_wins, lemma_shared_property_and};

/// A zero-based grid coordinate pair `(x, y)`.
pub type Pos = (usize, usize);

/// The playing field of a quarto game: a 4x4 grid of cells, each either
/// empty or holding one piece, plus the optional square win rule.
pub struct Field {
    /// The sixteen cells, row by row: cell `(x, y)` sits at index `y * 4 + x`.
    cells: [Option<Piece>; 16],
    /// If true, 2x2 sub-squares also count as winning lines.
    pub square_mode: bool,
}

/// All four cells of a line are occupied and the pieces share a property.
pub open spec fn quad_wins(a: Option<Piece>, b: Option<Piece>, c: Option<Piece>, d: Option<
    Piece,
>) -> bool {
    a is Some && b is Some && c is Some && d is Some && line_wins(
        a->Some_0,
        b->Some_0,
        c->Some_0,
        d->Some_0,
    )
}

/// Bitwise AND of the encodings of the pieces in the first `n` cells
/// of a line (255 when `n` is zero, as the AND of no operands).
pub open spec fn and_prefix(s: Seq<Option<Piece>>, n: int) -> u8
    decreases n,
{
    if n <= 0 {
        255
    } else {
        and_prefix(s, n - 1) & s[n - 1]->Some_0.encoding()
    }
}

/// All four cells of a line are occupied.
pub open spec fn quad_full(a: Option<Piece>, b: Option<Piece>, c: Option<Piece>, d: Option<
    Piece,
>) -> bool {
    a is Some && b is Some && c is Some && d is Some
}

impl Field {
    /// The side length of the grid.
    pub const SIZE: usize = 4;

    /// The piece (if any) at column `x`, row `y`.
    pub closed spec fn cell(self, x: int, y: int) -> Option<Piece> {
        self.cells@[y * 4 + x]
    }

    /// Whether the 2x2 sub-square win rule is enabled.
    pub closed spec fn squares_enabled(self) -> bool {
        self.square_mode
    }

    /// Row `y` is a winning line.
    pub open spec fn row_wins(self, y: int) -> bool {
        quad_wins(self.cell(0, y), self.cell(1, y), self.cell(2, y), self.cell(3, y))
    }

    /// Column `x` is a winning line.
    pub open spec fn col_wins(self, x: int) -> bool {
        quad_wins(self.cell(x, 0), self.cell(x, 1), self.cell(x, 2), self.cell(x, 3))
    }

    /// The main diagonal is a winning line.
    pub open spec fn diag_wins(self) -> bool {
        quad_wins(self.cell(0, 0), self.cell(1, 1), self.cell(2, 2), self.cell(3, 3))
    }

    /// The anti-diagonal is a winning line.
    pub open spec fn anti_diag_wins(self) -> bool {
        quad_wins(self.cell(3, 0), self.cell(2, 1), self.cell(1, 2), self.cell(0, 3))
    }

    /// The 2x2 sub-square with top-left corner at column `k`, row `i`
    /// is a winning line.
    pub open spec fn square_wins(self, i: int, k: int) -> bool {
        quad_wins(
            self.cell(k, i),
            self.cell(k + 1, i),
            self.cell(k, i + 1),
            self.cell(k + 1, i + 1),
        )
    }

    /// Row `y` is fully occupied.
    pub open spec fn row_full(self, y: int) -> bool {
        quad_full(self.cell(0, y), self.cell(1, y), self.cell(2, y), self.cell(3, y))
    }

    /// Column `x` is fully occupied.
    pub open spec fn col_full(self, x: int) -> bool {
        quad_full(self.cell(x, 0), self.cell(x, 1), self.cell(x, 2), self.cell(x, 3))
    }

    /// The main diagonal is fully occupied.
    pub open spec fn diag_full(self) -> bool {
        quad_full(self.cell(0, 0), self.cell(1, 1), self.cell(2, 2), self.cell(3, 3))
    }

    /// The anti-diagonal is fully occupied.
    pub open spec fn anti_diag_full(self) -> bool {
        quad_full(self.cell(3, 0), self.cell(2, 1), self.cell(1, 2), self.cell(0, 3))
    }

    /// The 2x2 sub-square at `(i, k)` is fully occupied.
    pub open spec fn square_full(self, i: int, k: int) -> bool {
        quad_full(
            self.cell(k, i),
            self.cell(k + 1, i),
            self.cell(k, i + 1),
            self.cell(k + 1, i + 1),
        )
    }

    /// The win condition: some row, column, diagonal or — when the square
    /// rule is on — 2x2 sub-square is fully occupied by pieces that share
    /// at least one property value.
    pub open spec fn wins(self) -> bool {
        (exists|y: int| 0 <= y < 4 && self.row_wins(y)) || (exists|x: int|
            0 <= x < 4 && self.col_wins(x)) || self.diag_wins() || self.anti_diag_wins() || (
        self.squares_enabled() && exists|i: int, k: int|
            0 <= i < 3 && 0 <= k < 3 && self.square_wins(i, k))
    }

    /// An empty board with the square rule switched off.
    pub fn new() -> (r: Field)
        ensures
            forall|x: int, y: int| 0 <= x < 4 && 0 <= y < 4 ==> #[trigger] r.cell(x, y) is None,
            !r.squares_enabled(),
    {
        Field {
            cells: [
                None, None, None, None, None, None, None, None, None, None, None, None, None,
                None, None, None,
            ],
            square_mode: false,
        }
    }

    /// Places `piece` at `pos` if that cell is still empty; an occupied
    /// cell is reported as an error and leaves the board untouched.
    pub fn put(&mut self, pos: Pos, piece: Piece) -> (r: Result<(), GameError>)
        requires
            pos.0 < 4,
            pos.1 < 4,
        ensures
            final(self).squares_enabled() == old(self).squares_enabled(),
            old(self).cell(pos.0 as int, pos.1 as int) is None ==> r is Ok && final(self).cell(
                pos.0 as int,
                pos.1 as int,
            ) == Some(piece) && forall|x: int, y: int|
                0 <= x < 4 && 0 <= y < 4 && !(x == pos.0 && y == pos.1)
                    ==> #[trigger] final(self).cell(x, y) == old(self).cell(x, y),
            old(self).cell(pos.0 as int, pos.1 as int) is Some ==> r == Err::<(), GameError>(
                GameError::OccupiedCell,
            ) && *final(self) == *old(self),
    {
        let idx = pos.1 * 4 + pos.0;
        if self.cells[idx].is_none() {
            self.cells[idx] = Some(piece);
            Ok(())
        } else {
            Err(GameError::OccupiedCell)
        }
    }

    /// The piece (if any) currently at `pos`.
    pub fn get(&self, pos: Pos) -> (r: Option<Piece>)
        requires
            pos.0 < 4,
            pos.1 < 4,
        ensures
            r == self.cell(pos.0 as int, pos.1 as int),
    {
        self.cells[pos.1 * 4 + pos.0]
    }

    /// Decides whether a line of four cells is fully occupied by pieces
    /// that share at least one property value, by folding the bitwise AND
    /// of the pieces' encodings and testing it against zero.
    pub fn check_array_for_win(ary: &[Option<Piece>]) -> (r: bool)
        requires
            ary@.len() == 4,
        ensures
            r == quad_wins(ary@[0], ary@[1], ary@[2], ary@[3]),
    {
        let mut ret: u8 = u8::MAX;
        let mut idx: usize = 0;
        while idx < 4
            invariant
                idx <= 4,
                ary@.len() == 4,
                forall|j: int| 0 <= j < idx ==> (#[trigger] ary@[j]) is Some,
                forall|j: int| 0 <= j < idx ==> (#[trigger] ary@[j])->Some_0.well_formed(),
                ret == and_prefix(ary@, idx as int),
            decreases 4 - idx,
        {
            match ary[idx] {
                Some(piece) => {
                    ret = ret & piece.props();
                },
                None => {
                    return false;
                },
            }
            idx += 1;
        }
        proof {
            let s = ary@;
            assert(and_prefix(s, 0) == 255);
            assert(and_prefix(s, 1) == 255u8 & s[0]->Some_0.encoding());
            assert(and_prefix(s, 2) == and_prefix(s, 1) & s[1]->Some_0.encoding());
            assert(and_prefix(s, 3) == and_prefix(s, 2) & s[2]->Some_0.encoding());
            assert(and_prefix(s, 4) == and_prefix(s, 3) & s[3]->Some_0.encoding());
            lemma_shared_property_and(
                s[0]->Some_0,
                s[1]->Some_0,
                s[2]->Some_0,
                s[3]->Some_0,
            );
        }
        ret != 0
    }

    /// Evaluates every win-eligible line — the four rows, the four
    /// columns, both diagonals, and, when the square rule is on, all nine
    /// overlapping 2x2 sub-squares — and reports whether any of them wins.
    pub fn check_field_for_win(&self) -> (r: bool)
        ensures
            r == self.wins(),
    {
        let mut y: usize = 0;
        while y < 4
            invariant
                y <= 4,
                forall|yy: int| 0 <= yy < y ==> !self.row_wins(yy),
            decreases 4 - y,
        {
            let row: [Option<Piece>; 4] = [
                self.cells[y * 4],
                self.cells[y * 4 + 1],
                self.cells[y * 4 + 2],
                self.cells[y * 4 + 3],
            ];
            if Self::check_array_for_win(row.as_slice()) {
                proof {
                    assert(self.row_wins(y as int));
                }
                return true;
            }
            y += 1;
        }
        let mut x: usize = 0;
        while x < 4
            invariant
                x <= 4,
                forall|yy: int| 0 <= yy < 4 ==> !self.row_wins(yy),
                forall|xx: int| 0 <= xx < x ==> !self.col_wins(xx),
            decreases 4 - x,
        {
            let col: [Option<Piece>; 4] = [
                self.cells[x],
                self.cells[4 + x],
                self.cells[8 + x],
                self.cells[12 + x],
            ];
            if Self::check_array_for_win(col.as_slice()) {
                proof {
                    assert(self.col_wins(x as int));
                }
                return true;
            }
            x += 1;
        }
        let diagonal: [Option<Piece>; 4] = [
            self.cells[0],
            self.cells[5],
            self.cells[10],
            self.cells[15],
        ];
        if Self::check_array_for_win(diagonal.as_slice()) {
            proof {
                assert(self.diag_wins());
            }
            return true;
        }
        let diagonal: [Option<Piece>; 4] = [
            self.cells[3],
            self.cells[6],
            self.cells[9],
            self.cells[12],
        ];
        if Self::check_array_for_win(diagonal.as_slice()) {
            proof {
                assert(self.anti_diag_wins());
            }
            return true;
        }
        if self.square_mode {
            let mut i: usize = 0;
            while i < 3
                invariant
                    i <= 3,
                    self.squares_enabled(),
                    forall|yy: int| 0 <= yy < 4 ==> !self.row_wins(yy),
                    forall|xx: int| 0 <= xx < 4 ==> !self.col_wins(xx),
                    !self.diag_wins(),
                    !self.anti_diag_wins(),
                    forall|ii: int, kk: int|
                        0 <= ii < i && 0 <= kk < 3 ==> !self.square_wins(ii, kk),
                decreases 3 - i,
            {
                let mut k: usize = 0;
                while k < 3
                    invariant
                        i < 3,
                        k <= 3,
                        self.squares_enabled(),
                        forall|yy: int| 0 <= yy < 4 ==> !self.row_wins(yy),
                        forall|xx: int| 0 <= xx < 4 ==> !self.col_wins(xx),
                        !self.diag_wins(),
                        !self.anti_diag_wins(),
                        forall|ii: int, kk: int|
                            0 <= ii < i && 0 <= kk < 3 ==> !self.square_wins(ii, kk),
                        forall|kk: int| 0 <= kk < k ==> !self.square_wins(i as int, kk),
                    decreases 3 - k,
                {
                    let flattened_square: [Option<Piece>; 4] = [
                        self.cells[i * 4 + k],
                        self.cells[i * 4 + k + 1],
                        self.cells[(i + 1) * 4 + k],
                        self.cells[(i + 1) * 4 + k + 1],
                    ];
                    if Self::check_array_for_win(flattened_square.as_slice()) {
                        proof {
                            assert(self.square_wins(i as int, k as int));
                        }
                        return true;
                    }
                    k += 1;
                }
                i += 1;
            }
        }
        false
    }

    /// The empty cells at and after `(x, y)` in the column-major scan
    /// order that `empty_spaces` uses: all of column `x` from row `y`
    /// down, then the remaining columns in full.
    pub open spec fn empties_from(self, x: int, y: int) -> Seq<Pos>
        decreases 4 - x, 4 - y,
    {
        if x < 0 || y < 0 || x >= 4 {
            Seq::empty()
        } else if y >= 4 {
            self.empties_from(x + 1, 0)
        } else {
            (if self.cell(x, y) is None {
                seq![(x as usize, y as usize)]
            } else {
                Seq::empty()
            }) + self.empties_from(x, y + 1)
        }
    }

    /// Every currently-empty cell, in column-major scan order.
    pub fn empty_spaces(&self) -> (r: Vec<Pos>)
        ensures
            r@ == self.empties_from(0, 0),
    {
        let mut ret: Vec<Pos> = Vec::with_capacity(16);
        let mut x: usize = 0;
        while x < 4
            invariant
                x <= 4,
                self.empties_from(0, 0) == ret@ + self.empties_from(x as int, 0),
            decreases 4 - x,
        {
            let mut y: usize = 0;
            while y < 4
                invariant
                    x < 4,
                    y <= 4,
                    self.empties_from(0, 0) == ret@ + self.empties_from(x as int, y as int),
                decreases 4 - y,
            {
                if self.cells[y * 4 + x].is_none() {
                    let ghost prev = ret@;
                    ret.push((x, y));
                    proof {
                        assert(ret@ + self.empties_from(x as int, y as int + 1) == (prev + seq![
                            (x, y),
                        ]) + self.empties_from(x as int, y as int + 1));
                        assert((prev + seq![(x, y)]) + self.empties_from(x as int, y as int + 1)
                            =~= prev + (seq![(x, y)] + self.empties_from(x as int, y as int + 1)));
                    }
                } else {
                    proof {
                        assert(Seq::<Pos>::empty() + self.empties_from(x as int, y as int + 1)
                            =~= self.empties_from(x as int, y as int + 1));
                    }
                }
                y += 1;
            }
            x += 1;
        }
        proof {
            assert(ret@ + self.empties_from(4, 0) =~= ret@);
        }
        ret
    }

    /// Empties the cell at `pos`, returning the piece that was there.
    pub fn clear(&mut self, pos: Pos) -> (r: Option<Piece>)
        requires
            pos.0 < 4,
            pos.1 < 4,
        ensures
            r == old(self).cell(pos.0 as int, pos.1 as int),
            final(self).cell(pos.0 as int, pos.1 as int) is None,
            final(self).squares_enabled() == old(self).squares_enabled(),
            forall|x: int, y: int|
                0 <= x < 4 && 0 <= y < 4 && !(x == pos.0 && y == pos.1)
                    ==> #[trigger] final(self).cell(x, y) == old(self).cell(x, y),
    {
        let ret = self.get(pos);
        self.cells[pos.1 * 4 + pos.0] = None;
        ret
    }
}

impl Default for Field {
    /// Same as `Field::new`: an empty board without the square rule.
    fn default() -> (r: Field)
        ensures
            forall|x: int, y: int| 0 <= x < 4 && 0 <= y < 4 ==> #[trigger] r.cell(x, y) is None,
            !r.squares_enabled(),
    {
        Field::new()
    }
}

} // verus!
