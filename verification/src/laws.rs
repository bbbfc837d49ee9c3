use vstd::prelude::*;

verus! {

use crate::field::{Field, Pos};
use crate::piece::{Piece, line_wins, pieces_agree};

/// Four pieces that agree on the truth value of some property form a
/// winning line.
pub proof fn lemma_line_shared_wins(a: Piece, b: Piece, c: Piece, d: Piece, i: u8)
    requires
        i < 4,
        pieces_agree(a, b, c, d, i),
    ensures
        line_wins(a, b, c, d),
{
}

/// Four pieces with no unanimous property do not form a winning line.
pub proof fn lemma_line_no_shared(a: Piece, b: Piece, c: Piece, d: Piece)
    requires
        forall|i: u8| i < 4 ==> !pieces_agree(a, b, c, d, i),
    ensures
        !line_wins(a, b, c, d),
{
}

/// A winning row wins the game.
pub proof fn lemma_row_win(f: Field, y: int)
    requires
        0 <= y < 4,
        f.row_wins(y),
    ensures
        f.wins(),
{
}

/// A winning column wins the game.
pub proof fn lemma_col_win(f: Field, x: int)
    requires
        0 <= x < 4,
        f.col_wins(x),
    ensures
        f.wins(),
{
}

/// A winning main diagonal wins the game.
pub proof fn lemma_diag_win(f: Field)
    requires
        f.diag_wins(),
    ensures
        f.wins(),
{
}

/// A winning anti-diagonal wins the game.
pub proof fn lemma_anti_diag_win(f: Field)
    requires
        f.anti_diag_wins(),
    ensures
        f.wins(),
{
}

/// A board where every win-eligible line still has an empty cell is not
/// winning.
pub proof fn lemma_no_full_line_no_win(f: Field)
    requires
        forall|y: int| 0 <= y < 4 ==> !f.row_full(y),
        forall|x: int| 0 <= x < 4 ==> !f.col_full(x),
        !f.diag_full(),
        !f.anti_diag_full(),
        forall|i: int, k: int| 0 <= i < 3 && 0 <= k < 3 ==> !f.square_full(i, k),
    ensures
        !f.wins(),
{
    if f.wins() {
        if exists|y: int| 0 <= y < 4 && f.row_wins(y) {
            let y = choose|y: int| 0 <= y < 4 && f.row_wins(y);
            assert(f.row_full(y));
        } else if exists|x: int| 0 <= x < 4 && f.col_wins(x) {
            let x = choose|x: int| 0 <= x < 4 && f.col_wins(x);
            assert(f.col_full(x));
        } else if f.diag_wins() {
            assert(f.diag_full());
        } else if f.anti_diag_wins() {
            assert(f.anti_diag_full());
        } else {
            let (i, k) = choose|i: int, k: int| 0 <= i < 3 && 0 <= k < 3 && f.square_wins(i, k);
            assert(f.square_full(i, k));
        }
    }
}

/// An entirely empty board is not winning.
pub proof fn lemma_empty_board_no_win(f: Field)
    requires
        forall|x: int, y: int| 0 <= x < 4 && 0 <= y < 4 ==> #[trigger] f.cell(x, y) is None,
    ensures
        !f.wins(),
{
    assert forall|y: int| 0 <= y < 4 implies !f.row_full(y) by {
        assert(f.cell(0, y) is None);
    }
    assert forall|x: int| 0 <= x < 4 implies !f.col_full(x) by {
        assert(f.cell(x, 0) is None);
    }
    assert(f.cell(0, 0) is None);
    assert(f.cell(3, 0) is None);
    assert forall|i: int, k: int| 0 <= i < 3 && 0 <= k < 3 implies !f.square_full(i, k) by {
        assert(f.cell(k, i) is None);
    }
    lemma_no_full_line_no_win(f);
}

/// The square rule gates exactly the sub-square wins: two boards with the
/// same cells, where a sub-square wins but no row, column or diagonal
/// does, are decided by the flag alone — no win with it off, a win with
/// it on.
pub proof fn lemma_square_mode_gates(off: Field, on: Field, i: int, k: int)
    requires
        !off.squares_enabled(),
        on.squares_enabled(),
        forall|x: int, y: int|
            0 <= x < 4 && 0 <= y < 4 ==> #[trigger] off.cell(x, y) == on.cell(x, y),
        0 <= i < 3,
        0 <= k < 3,
        on.square_wins(i, k),
        forall|y: int| 0 <= y < 4 ==> !off.row_wins(y),
        forall|x: int| 0 <= x < 4 ==> !off.col_wins(x),
        !off.diag_wins(),
        !off.anti_diag_wins(),
    ensures
        !off.wins(),
        on.wins(),
{
    if off.wins() {
        if exists|y: int| 0 <= y < 4 && off.row_wins(y) {
            let y = choose|y: int| 0 <= y < 4 && off.row_wins(y);
            assert(!off.row_wins(y));
        } else if exists|x: int| 0 <= x < 4 && off.col_wins(x) {
            let x = choose|x: int| 0 <= x < 4 && off.col_wins(x);
            assert(!off.col_wins(x));
        }
    }
}

proof fn lemma_empties_from_contains(f: Field, x: int, y: int, px: usize, py: usize)
    requires
        0 <= x <= 4,
        0 <= y <= 4,
        px < 4,
        py < 4,
    ensures
        f.empties_from(x, y).contains((px, py)) <==> (f.cell(px as int, py as int) is None && (
        px > x || (px == x && py >= y))),
    decreases 4 - x, 4 - y,
{
    let p: Pos = (px, py);
    if x >= 4 {
        assert(!f.empties_from(x, y).contains(p));
    } else if y >= 4 {
        lemma_empties_from_contains(f, x + 1, 0, px, py);
    } else {
        lemma_empties_from_contains(f, x, y + 1, px, py);
        let head: Seq<Pos> = if f.cell(x, y) is None {
            seq![(x as usize, y as usize)]
        } else {
            Seq::empty()
        };
        let tail = f.empties_from(x, y + 1);
        assert(f.empties_from(x, y) == head + tail);
        if (head + tail).contains(p) {
            let idx = choose|idx: int| 0 <= idx < (head + tail).len() && (head + tail)[idx] == p;
            if idx < head.len() {
                assert(head[idx] == p);
                assert(f.cell(x, y) is None && px == x && py == y);
            } else {
                assert(tail[idx - head.len()] == p);
                assert(tail.contains(p));
            }
        }
        if f.cell(px as int, py as int) is None && (px > x || (px == x && py >= y)) {
            if px == x && py == y {
                assert(head[0] == p);
                assert((head + tail)[0] == p);
                assert((head + tail).contains(p));
            } else {
                assert(tail.contains(p));
                let idx = choose|idx: int| 0 <= idx < tail.len() && tail[idx] == p;
                assert((head + tail)[head.len() + idx] == p);
                assert((head + tail).contains(p));
            }
        }
    }
}

/// The scan behind `empty_spaces` lists exactly the empty cells: a
/// position occurs in it precisely when its cell holds no piece.
pub proof fn lemma_empty_spaces_exact(f: Field, px: usize, py: usize)
    requires
        px < 4,
        py < 4,
    ensures
        f.empties_from(0, 0).contains((px, py)) <==> f.cell(px as int, py as int) is None,
{
    lemma_empties_from_contains(f, 0, 0, px, py);
}

} // verus!
