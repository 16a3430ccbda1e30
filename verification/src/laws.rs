//! What holds of every game: the invariant of the states that play reaches,
//! and what a move, a pass and a roll do to them.

use vstd::prelude::*;
use crate::model::{
    all_home, captured, indices, lemma_indices_empty, lemma_indices_step, GameView, CENTER,
    MAX_ROLL, PIECES_PER_SIDE,
};
use crate::player::Player;

verus! {

/// The state at the start of a game satisfies the invariant.
pub proof fn lemma_fresh_wf()
    ensures
        GameView::fresh().wf(),
{
    let v = GameView::fresh();
    assert(!all_home(v.light)) by {
        assert(v.light[0] == 0);
    }
    assert(!all_home(v.dark)) by {
        assert(v.dark[0] == 0);
    }
}

/// What is kept of the first `n` indices is in strictly ascending order and
/// holds exactly the indices under `n` that `keep` accepts.
proof fn lemma_kept_indices(n: nat, keep: spec_fn(usize) -> bool)
    requires
        n <= usize::MAX,
    ensures
        forall|x: usize| #[trigger] indices(n).filter(keep).contains(x) <==> x < n && keep(x),
        forall|a: int, b: int|
            0 <= a < b < indices(n).filter(keep).len() ==> indices(n).filter(keep)[a] < indices(
                n,
            ).filter(keep)[b],
        forall|a: int| 0 <= a < indices(n).filter(keep).len() ==> indices(n).filter(keep)[a] < n,
    decreases n,
{
    if n == 0 {
        lemma_indices_empty(keep);
    } else {
        let m = (n - 1) as nat;
        lemma_kept_indices(m, keep);
        lemma_indices_step(m, keep);
        let before = indices(m).filter(keep);
        let after = indices(n).filter(keep);
        assert forall|x: usize| #[trigger] after.contains(x) <==> x < n && keep(x) by {
            if keep(m as usize) {
                assert(after == before.push(m as usize));
                assert(after[before.len() as int] == m as usize);
                if after.contains(x) {
                    let w = choose|w: int| 0 <= w < after.len() && after[w] == x;
                    if w < before.len() {
                        assert(before[w] == x);
                        assert(before.contains(x));
                    }
                }
                if x < n && keep(x) && x != m {
                    assert(before.contains(x));
                    let w = choose|w: int| 0 <= w < before.len() && before[w] == x;
                    assert(after[w] == x);
                }
            }
        }
    }
}

/// The list of valid moves holds exactly the pieces that can be moved, each
/// once, in ascending order of their indices.
pub proof fn lemma_valid_moves_exact(v: GameView)
    requires
        v.own().len() <= usize::MAX,
    ensures
        forall|x: usize| #[trigger] v.valid_moves().contains(x) <==> v.can_move(x as int),
        forall|a: int, b: int|
            0 <= a < b < v.valid_moves().len() ==> v.valid_moves()[a] < v.valid_moves()[b],
{
    lemma_kept_indices(v.own().len(), v.movable());
}

/// A move that is allowed leads from a state that satisfies the invariant
/// to one that does.
pub proof fn lemma_move_keeps_wf(v: GameView, i: int)
    requires
        v.wf(),
        v.can_move(i),
    ensures
        v.after_move(i).wf(),
{
    let dest = v.destination(i) as usize;
    let rival = if dest < CENTER {
        captured(v.rival(), dest)
    } else {
        v.rival()
    };
    // The side that waits was not home before the move, and none of its
    // pieces has advanced.
    assert(!all_home(v.rival())) by {
        if all_home(v.rival()) {
            assert(v.winner == Some(v.current_player.other()));
        }
    }
    let behind = choose|j: int| 0 <= j < v.rival().len() && v.rival()[j] < CENTER;
    assert(rival[behind] < CENTER);
}

/// Giving up a roll leads from a state that satisfies the invariant to one
/// that does.
pub proof fn lemma_pass_keeps_wf(v: GameView)
    requires
        v.wf(),
    ensures
        v.after_pass().wf(),
{
}

/// A roll that shows 1 to 6 leads from a state that satisfies the invariant
/// to one that does.
pub proof fn lemma_roll_keeps_wf(v: GameView, face: u8)
    requires
        v.wf(),
        1 <= face <= MAX_ROLL,
    ensures
        v.after_roll(face).wf(),
{
}

/// In every state that play reaches the game is over exactly when it has a
/// winner, and all six pieces of a winner stand at the centre.
pub proof fn lemma_winner_is_home(v: GameView)
    requires
        v.wf(),
    ensures
        v.game_over <==> v.winner.is_some(),
        forall|p: Player, j: int|
            v.winner == Some(p) && 0 <= j < PIECES_PER_SIDE ==> #[trigger] v.pieces_of(p)[j]
                == CENTER,
{
    assert forall|p: Player, j: int|
        v.winner == Some(p) && 0 <= j < PIECES_PER_SIDE implies #[trigger] v.pieces_of(p)[j]
        == CENTER by {
        assert(all_home(v.pieces_of(p)));
    }
}

/// A move advances the moved piece by the roll and no other piece: the
/// mover's other pieces stay, each piece of the other side stays or is back
/// at the start, and the roll is used up.
pub proof fn lemma_move_advances_one_piece(v: GameView, i: int)
    requires
        v.can_move(i),
    ensures
        v.after_move(i).pieces_of(v.current_player).len() == v.own().len(),
        v.after_move(i).pieces_of(v.current_player)[i] == v.own()[i] + v.dice_value,
        forall|j: int|
            0 <= j < v.own().len() && j != i ==> #[trigger] v.after_move(i).pieces_of(
                v.current_player,
            )[j] == v.own()[j],
        v.after_move(i).pieces_of(v.current_player.other()).len() == v.rival().len(),
        forall|j: int|
            0 <= j < v.rival().len() ==> {
                let now = #[trigger] v.after_move(i).pieces_of(v.current_player.other())[j];
                now == v.rival()[j] || now == 0
            },
        v.after_move(i).dice_value == 0,
{
}

/// After a move to a square of the track no piece of the other side stands
/// on that square, so at most one does, and every piece of the other side
/// that stood there is back at the start.
pub proof fn lemma_capture_clears_square(v: GameView, i: int)
    requires
        v.wf(),
        v.can_move(i),
        v.destination(i) < CENTER,
    ensures
        forall|j: int|
            0 <= j < v.rival().len() ==> #[trigger] v.after_move(i).pieces_of(
                v.current_player.other(),
            )[j] != v.destination(i),
        forall|j: int|
            0 <= j < v.rival().len() && v.rival()[j] == v.destination(i)
                ==> #[trigger] v.after_move(i).pieces_of(v.current_player.other())[j] == 0,
{
}

/// A move that wins leaves the turn with the mover, who is the winner; any
/// other move hands the turn to the other side.
pub proof fn lemma_move_hands_turn(v: GameView, i: int)
    requires
        v.wf(),
        v.can_move(i),
    ensures
        v.after_move(i).game_over ==> v.after_move(i).current_player == v.current_player
            && v.after_move(i).winner == Some(v.current_player),
        !v.after_move(i).game_over ==> v.after_move(i).current_player
            == v.current_player.other(),
{
    lemma_move_keeps_wf(v, i);
    let after = v.after_move(i);
    if after.winner == Some(v.current_player.other()) {
        assert(all_home(after.pieces_of(v.current_player.other())));
        assert(!all_home(v.rival())) by {
            if all_home(v.rival()) {
                assert(v.winner == Some(v.current_player.other()));
            }
        }
        let w = choose|j: int| 0 <= j < v.rival().len() && v.rival()[j] < CENTER;
        lemma_move_advances_one_piece(v, i);
        assert(after.pieces_of(v.current_player.other())[w] < CENTER);
    }
}

/// Giving up a pending roll hands the turn to the other side and uses up
/// the roll.
pub proof fn lemma_pass_hands_turn(v: GameView)
    requires
        v.dice_value != 0,
    ensures
        v.after_pass().current_player == v.current_player.other(),
        v.after_pass().dice_value == 0,
{
}

} // verus!
