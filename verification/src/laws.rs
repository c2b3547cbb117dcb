//! General properties of the engine, stated and proved once for all
//! boards, marks, and move sequences.

use vstd::prelude::*;

use crate::board::{Cell, Player, full, idx, in_bounds, init_board, is_board, wins};
use crate::game::{place_allowed, step_active, step_cells};

verus! {

/// A fresh board is not full and has no winner, whichever mark is asked
/// about.
pub proof fn lemma_fresh_board(p: Player)
    ensures
        !full(init_board()),
        !wins(init_board(), p),
{
    assert(init_board()[0] == Cell::Empty);
    assert(init_board()[4] == Cell::Empty);
}

/// Toggling strictly alternates: the active mark always changes, and two
/// toggles return to the mark that began.
pub proof fn lemma_toggle_alternates(p: Player)
    ensures
        p.spec_toggle() != p,
        p.spec_toggle().spec_toggle() == p,
{
}

/// A placement aimed at an occupied cell is refused and changes neither
/// the board nor the active mark.
pub proof fn lemma_occupied_refused(b: Seq<Cell>, p: Player, r: int, c: int)
    requires
        is_board(b),
        in_bounds(r, c),
        b[idx(r, c)] != Cell::Empty,
    ensures
        !place_allowed(b, r, c),
        step_cells(b, p, r, c) == b,
        step_active(b, p, r, c) == p,
{
}

/// Repeating a successful placement is refused: after the first placement
/// the cell is occupied, so the second and every later attempt at the same
/// cell fails and leaves board and active mark exactly as the first
/// placement left them.
pub proof fn lemma_place_idempotent_refusing(b: Seq<Cell>, p: Player, r: int, c: int)
    requires
        is_board(b),
        place_allowed(b, r, c),
    ensures
        ({
            let b1 = step_cells(b, p, r, c);
            let p1 = step_active(b, p, r, c);
            &&& !place_allowed(b1, r, c)
            &&& step_cells(b1, p1, r, c) == b1
            &&& step_active(b1, p1, r, c) == p1
        }),
{
}

/// The board and active mark reached by attempting a sequence of
/// placements in order, each move given as a row and column pair.
pub open spec fn run(b: Seq<Cell>, p: Player, moves: Seq<(int, int)>) -> (Seq<Cell>, Player)
    decreases moves.len(),
{
    if moves.len() == 0 {
        (b, p)
    } else {
        let prev = run(b, p, moves.drop_last());
        let m = moves.last();
        (step_cells(prev.0, prev.1, m.0, m.1), step_active(prev.0, prev.1, m.0, m.1))
    }
}

/// Running moves never changes the number of cells.
proof fn lemma_run_is_board(b: Seq<Cell>, p: Player, moves: Seq<(int, int)>)
    requires
        is_board(b),
    ensures
        is_board(run(b, p, moves).0),
    decreases moves.len(),
{
    if moves.len() > 0 {
        lemma_run_is_board(b, p, moves.drop_last());
    }
}

/// A cell that is already marked keeps its mark through any run of moves:
/// the board only ever grows fuller.
pub proof fn lemma_run_preserves_marked(b: Seq<Cell>, p: Player, moves: Seq<(int, int)>, k: int)
    requires
        is_board(b),
        0 <= k < 9,
        b[k] != Cell::Empty,
    ensures
        run(b, p, moves).0[k] == b[k],
    decreases moves.len(),
{
    if moves.len() > 0 {
        lemma_run_is_board(b, p, moves.drop_last());
        lemma_run_preserves_marked(b, p, moves.drop_last(), k);
    }
}

/// A cell that no move targets keeps its contents through the run.
proof fn lemma_run_untouched(b: Seq<Cell>, p: Player, moves: Seq<(int, int)>, k: int)
    requires
        is_board(b),
        0 <= k < 9,
        forall|j: int| 0 <= j < moves.len() ==> idx(moves[j].0, moves[j].1) != k,
    ensures
        run(b, p, moves).0[k] == b[k],
    decreases moves.len(),
{
    if moves.len() > 0 {
        let ms = moves.drop_last();
        assert(forall|j: int| 0 <= j < ms.len() ==> ms[j] == moves[j]);
        lemma_run_is_board(b, p, ms);
        lemma_run_untouched(b, p, ms, k);
        assert(idx(moves.last().0, moves.last().1) != k);
    }
}

/// Running one more move steps the run state by exactly that move.
proof fn lemma_run_step(b: Seq<Cell>, p: Player, moves: Seq<(int, int)>, j: int)
    requires
        0 <= j < moves.len(),
    ensures
        run(b, p, moves.take(j + 1)) == (
            step_cells(
                run(b, p, moves.take(j)).0,
                run(b, p, moves.take(j)).1,
                moves[j].0,
                moves[j].1,
            ),
            step_active(
                run(b, p, moves.take(j)).0,
                run(b, p, moves.take(j)).1,
                moves[j].0,
                moves[j].1,
            ),
        ),
{
    let pre = moves.take(j + 1);
    assert(pre.drop_last() =~= moves.take(j));
    assert(pre.last() == moves[j]);
}

/// Running a concatenation of two move sequences is running the first and
/// then the second.
proof fn lemma_run_append(b: Seq<Cell>, p: Player, ms1: Seq<(int, int)>, ms2: Seq<(int, int)>)
    ensures
        run(b, p, ms1 + ms2) == run(run(b, p, ms1).0, run(b, p, ms1).1, ms2),
    decreases ms2.len(),
{
    if ms2.len() == 0 {
        assert(ms1 + ms2 =~= ms1);
    } else {
        lemma_run_append(b, p, ms1, ms2.drop_last());
        assert((ms1 + ms2).drop_last() =~= ms1 + ms2.drop_last());
        assert((ms1 + ms2).last() == ms2.last());
    }
}

/// For every sequence of placements aimed at distinct, initially empty,
/// in-range cells: each placement succeeds, the active mark strictly
/// alternates after each one, and the mark finally found at each targeted
/// cell is exactly the mark that was active immediately before that
/// placement.
pub proof fn lemma_alternation(b: Seq<Cell>, p: Player, moves: Seq<(int, int)>)
    requires
        is_board(b),
        forall|j: int| 0 <= j < moves.len() ==> in_bounds(moves[j].0, moves[j].1),
        forall|j: int, k: int| 0 <= j < k < moves.len() ==> moves[j] != moves[k],
        forall|j: int| 0 <= j < moves.len() ==> b[idx(moves[j].0, moves[j].1)] == Cell::Empty,
    ensures
        forall|j: int|
            #![trigger moves[j]]
            0 <= j < moves.len() ==> place_allowed(
                run(b, p, moves.take(j)).0,
                moves[j].0,
                moves[j].1,
            ),
        forall|j: int|
            #![trigger moves[j]]
            0 <= j < moves.len() ==> run(b, p, moves.take(j + 1)).1 == run(
                b,
                p,
                moves.take(j),
            ).1.spec_toggle(),
        forall|j: int|
            #![trigger moves[j]]
            0 <= j < moves.len() ==> run(b, p, moves).0[idx(moves[j].0, moves[j].1)] == Cell::Taken(
                run(b, p, moves.take(j)).1,
            ),
{
    let n = moves.len() as int;
    // Each placement finds its cell still empty: no earlier move targets
    // the same cell, so the run over the earlier moves leaves it as it
    // was in the initial board.
    assert forall|j: int|
        #![trigger moves[j]]
        0 <= j < n implies place_allowed(run(b, p, moves.take(j)).0, moves[j].0, moves[j].1) by {
        let pre = moves.take(j);
        assert forall|i: int| 0 <= i < pre.len() implies idx(pre[i].0, pre[i].1) != idx(
            moves[j].0,
            moves[j].1,
        ) by {
            assert(pre[i] == moves[i]);
            assert(moves[i] != moves[j]);
            assert(in_bounds(moves[i].0, moves[i].1));
            assert(in_bounds(moves[j].0, moves[j].1));
        }
        lemma_run_untouched(b, p, pre, idx(moves[j].0, moves[j].1));
    }
    // On a successful placement the turn toggles, never otherwise.
    assert forall|j: int|
        #![trigger moves[j]]
        0 <= j < n implies run(b, p, moves.take(j + 1)).1 == run(
        b,
        p,
        moves.take(j),
    ).1.spec_toggle() by {
        lemma_run_step(b, p, moves, j);
        assert(place_allowed(run(b, p, moves.take(j)).0, moves[j].0, moves[j].1));
    }
    // The mark each placement writes is still on the board when the whole
    // sequence has run: later moves target other cells and never erase.
    assert forall|j: int|
        #![trigger moves[j]]
        0 <= j < n implies run(b, p, moves).0[idx(moves[j].0, moves[j].1)] == Cell::Taken(
        run(b, p, moves.take(j)).1,
    ) by {
        let k = idx(moves[j].0, moves[j].1);
        lemma_run_step(b, p, moves, j);
        assert(place_allowed(run(b, p, moves.take(j)).0, moves[j].0, moves[j].1));
        lemma_run_is_board(b, p, moves.take(j));
        assert(run(b, p, moves.take(j + 1)).0[k] == Cell::Taken(run(b, p, moves.take(j)).1));
        assert(moves =~= moves.take(j + 1) + moves.skip(j + 1));
        lemma_run_append(b, p, moves.take(j + 1), moves.skip(j + 1));
        lemma_run_is_board(b, p, moves.take(j + 1));
        lemma_run_preserves_marked(
            run(b, p, moves.take(j + 1)).0,
            run(b, p, moves.take(j + 1)).1,
            moves.skip(j + 1),
            k,
        );
    }
}

/// Winning is monotonic: a board that extends a winning board by marking
/// further cells, without altering any already-marked cell, still has the
/// same winning line for the same mark.
pub proof fn lemma_wins_monotonic(b1: Seq<Cell>, b2: Seq<Cell>, p: Player)
    requires
        is_board(b1),
        is_board(b2),
        forall|i: int| 0 <= i < 9 && b1[i] != Cell::Empty ==> b2[i] == b1[i],
        wins(b1, p),
    ensures
        wins(b2, p),
{
}

} // verus!
