//! The Game of Life as mathematics: boards, neighbourhoods and generations.
use vstd::prelude::*;

verus! {

/// A board: rows of cells, `true` for a living cell.
pub type Board = Seq<Seq<bool>>;

/// A board with at least one row and one column, all rows of one length.
pub open spec fn is_rectangular(b: Board) -> bool {
    &&& b.len() >= 1
    &&& b[0].len() >= 1
    &&& forall|i: int| 0 <= i < b.len() ==> (#[trigger] b[i]).len() == b[0].len()
}

/// Whether position `(i, j)` lies on the board and holds a living cell.
/// Positions off the board count as dead: the board does not wrap around.
pub open spec fn alive_at(b: Board, i: int, j: int) -> bool {
    0 <= i < b.len() && 0 <= j < b[i].len() && b[i][j]
}

/// One for a living cell, zero otherwise.
pub open spec fn one_if(alive: bool) -> nat {
    if alive {
        1
    } else {
        0
    }
}

/// The number of living cells among the eight that surround `(i, j)`.
pub open spec fn live_neighbors(b: Board, i: int, j: int) -> nat {
    one_if(alive_at(b, i - 1, j - 1)) + one_if(alive_at(b, i - 1, j)) + one_if(
        alive_at(b, i - 1, j + 1),
    ) + one_if(alive_at(b, i, j - 1)) + one_if(alive_at(b, i, j + 1)) + one_if(
        alive_at(b, i + 1, j - 1),
    ) + one_if(alive_at(b, i + 1, j)) + one_if(alive_at(b, i + 1, j + 1))
}

/// Conway's rule: a living cell survives with two or three living neighbours,
/// a dead cell comes alive with exactly three.
pub open spec fn survives(alive: bool, n: nat) -> bool {
    if alive {
        n == 2 || n == 3
    } else {
        n == 3
    }
}

/// The next generation of a board: every cell follows the rule at once,
/// each on the neighbourhood that it had before.
pub open spec fn step(b: Board) -> Board {
    Seq::new(
        b.len(),
        |i: int| Seq::new(b[i].len(), |j: int| survives(b[i][j], live_neighbors(b, i, j))),
    )
}

/// The board after `n` generations.
pub open spec fn evolve(b: Board, n: nat) -> Board
    decreases n,
{
    if n == 0 {
        b
    } else {
        step(evolve(b, (n - 1) as nat))
    }
}

/// The rule table, cell by cell: a living cell with no living neighbour dies,
/// one with two or three survives, one with any other count dies; a dead cell
/// comes alive with exactly three living neighbours and stays dead otherwise.
pub proof fn lemma_rule_table(b: Board, i: int, j: int)
    requires
        0 <= i < b.len(),
        0 <= j < b[i].len(),
    ensures
        b[i][j] && live_neighbors(b, i, j) == 0 ==> !step(b)[i][j],
        b[i][j] && (live_neighbors(b, i, j) == 2 || live_neighbors(b, i, j) == 3)
            ==> step(b)[i][j],
        b[i][j] && live_neighbors(b, i, j) != 2 && live_neighbors(b, i, j) != 3
            ==> !step(b)[i][j],
        !b[i][j] && live_neighbors(b, i, j) == 3 ==> step(b)[i][j],
        !b[i][j] && live_neighbors(b, i, j) != 3 ==> !step(b)[i][j],
{
}

} // verus!
