//! What a front end draws of a game: the squares of the board with what
//! stands on them, the pieces that wait at the start, and those that have
//! reached the centre.

use vstd::prelude::*;
use crate::laws::lemma_valid_moves_exact;
use crate::layout::BOARD_SQUARES;
use crate::model::{indices, lemma_indices_empty, lemma_indices_step, GameView, CENTER};
use crate::player::Player;
use crate::state::GameState;

verus! {

/// Content of a square that holds no piece.
pub const EMPTY_SQUARE: u8 = 0;

/// Content of a square that holds a piece of Light.
pub const LIGHT_SQUARE: u8 = 1;

/// Content of a square that holds a piece of Dark.
pub const DARK_SQUARE: u8 = 2;

/// One square of the board as it is drawn.
#[derive(Debug, Clone, Copy, PartialEq, Eq, Structural)]
pub struct SquareData {
    /// What the square holds: 0 nothing, 1 a piece of Light, 2 one of Dark.
    pub square_type: u8,
    /// Whether a piece on the square can be moved by the pending roll.
    pub is_valid_move: bool,
    /// Whether the square is the centre of the board and shows a piece.
    pub is_center: bool,
}

/// A piece that has reached the centre.
#[derive(Debug, Clone, Copy, PartialEq, Eq, Structural)]
pub struct CenterPiece {
    pub player: Player,
    pub index: usize,
}

/// A piece of the player to move that waits at the start.
#[derive(Debug, Clone, Copy, PartialEq, Eq, Structural)]
pub struct StartPiece {
    pub index: usize,
    /// Whether the piece can be moved by the pending roll.
    pub is_valid_move: bool,
}

/// Whether a piece of `side` shows on the square of index `square`, which
/// is the track position `square + 1`.
pub open spec fn occupies(side: Seq<usize>, square: int) -> bool {
    exists|j: int| 0 <= j < side.len() && #[trigger] side[j] == square + 1
}

/// The pieces of `side` that stand at `position`, as a predicate on their
/// indices.
pub open spec fn stands_at(side: Seq<usize>, position: usize) -> spec_fn(usize) -> bool {
    |j: usize| side[j as int] == position
}

/// The pieces of `side` that have reached the centre, in ascending order
/// of their indices.
pub open spec fn finished(side: Seq<usize>, player: Player) -> Seq<CenterPiece> {
    indices(side.len()).filter(stands_at(side, CENTER)).map_values(
        |j: usize| (CenterPiece { player, index: j }),
    )
}

impl GameView {
    /// What the square of index `square` holds. Where both sides show on
    /// one square, it is Dark's.
    pub open spec fn square_type(self, square: int) -> u8 {
        if occupies(self.dark, square) {
            DARK_SQUARE
        } else if occupies(self.light, square) {
            LIGHT_SQUARE
        } else {
            EMPTY_SQUARE
        }
    }

    /// The content of the 36 squares of the board, by index.
    pub open spec fn board(self) -> Seq<u8> {
        Seq::new(BOARD_SQUARES as nat, |k: int| self.square_type(k))
    }

    /// Whether the square of index `square` holds a piece that the player
    /// to move may move by the pending roll.
    pub open spec fn square_movable(self, square: int) -> bool {
        &&& self.square_type(square) != EMPTY_SQUARE
        &&& exists|j: int|
            0 <= j < self.own().len() && #[trigger] self.own()[j] == square + 1 && self.can_move(j)
    }

    /// The square of index `square` as it is drawn.
    pub open spec fn square_data(self, square: int) -> SquareData {
        SquareData {
            square_type: self.square_type(square),
            is_valid_move: self.square_movable(square),
            is_center: square == BOARD_SQUARES - 1 && (self.square_type(square) != EMPTY_SQUARE
                || self.square_movable(square)),
        }
    }

    /// The 36 squares of the board as they are drawn, by index.
    pub open spec fn squares(self) -> Seq<SquareData> {
        Seq::new(BOARD_SQUARES as nat, |k: int| self.square_data(k))
    }

    /// The pieces that have reached the centre: those of Light, then those
    /// of Dark, each side in ascending order of the indices.
    pub open spec fn center_pieces(self) -> Seq<CenterPiece> {
        finished(self.light, Player::Light) + finished(self.dark, Player::Dark)
    }

    /// The pieces of the player to move that wait at the start, in
    /// ascending order of their indices, each with whether it can be moved.
    pub open spec fn start_pieces(self) -> Seq<StartPiece> {
        indices(self.own().len()).filter(stands_at(self.own(), 0)).map_values(
            |j: usize| (StartPiece { index: j, is_valid_move: self.can_move(j as int) }),
        )
    }
}

/// Marks on `board` the squares on which the pieces of `side` show.
fn mark_pieces(board: &mut Vec<u8>, side: &Vec<usize>, mark: u8)
    requires
        old(board).len() == BOARD_SQUARES,
    ensures
        final(board).len() == BOARD_SQUARES,
        forall|k: int|
            0 <= k < BOARD_SQUARES ==> #[trigger] final(board)@[k] == if occupies(side@, k) {
                mark
            } else {
                old(board)@[k]
            },
{
    let mut j: usize = 0;
    while j < side.len()
        invariant
            j <= side.len(),
            board.len() == BOARD_SQUARES,
            forall|k: int|
                0 <= k < BOARD_SQUARES ==> #[trigger] board@[k] == if occupies(
                    side@.take(j as int),
                    k,
                ) {
                    mark
                } else {
                    old(board)@[k]
                },
        decreases side.len() - j,
    {
        let pos = side[j];
        let ghost before = board@;
        if pos > 0 && pos <= CENTER {
            board.set(pos - 1, mark);
        }
        proof {
            let seen = side@.take(j as int);
            let next = side@.take(j + 1);
            assert forall|k: int| 0 <= k < BOARD_SQUARES implies occupies(next, k) == (occupies(
                seen,
                k,
            ) || pos == k + 1) by {
                if occupies(seen, k) {
                    let w = choose|w: int| 0 <= w < seen.len() && seen[w] == k + 1;
                    assert(next[w] == k + 1);
                }
                if pos == k + 1 {
                    assert(next[j as int] == k + 1);
                }
                if occupies(next, k) {
                    let w = choose|w: int| 0 <= w < next.len() && next[w] == k + 1;
                    if w < j {
                        assert(seen[w] == k + 1);
                    }
                }
            }
        }
        j += 1;
    }
    assert(side@.take(side.len() as int) =~= side@);
}

/// Whether `moves` holds the piece index `piece`.
fn holds(moves: &Vec<usize>, piece: usize) -> (found: bool)
    ensures
        found == moves@.contains(piece),
{
    let mut j: usize = 0;
    while j < moves.len()
        invariant
            j <= moves.len(),
            forall|k: int| 0 <= k < j ==> moves@[k] != piece,
        decreases moves.len() - j,
    {
        if moves[j] == piece {
            return true;
        }
        j += 1;
    }
    false
}

/// Appends to `pieces` the pieces of `side` that have reached the centre.
fn push_finished(pieces: &mut Vec<CenterPiece>, side: &Vec<usize>, player: Player)
    ensures
        final(pieces)@ == old(pieces)@ + finished(side@, player),
{
    let ghost at_center = stands_at(side@, CENTER);
    let ghost tag = |j: usize| (CenterPiece { player, index: j });
    proof {
        lemma_indices_empty(at_center);
        assert(pieces@ =~= old(pieces)@ + indices(0).filter(at_center).map_values(tag));
    }
    let mut i: usize = 0;
    while i < side.len()
        invariant
            i <= side.len(),
            at_center == stands_at(side@, CENTER),
            tag == |j: usize| (CenterPiece { player, index: j }),
            pieces@ == old(pieces)@ + indices(i as nat).filter(at_center).map_values(tag),
        decreases side.len() - i,
    {
        proof {
            lemma_indices_step(i as nat, at_center);
        }
        let ghost kept = indices(i as nat).filter(at_center);
        if side[i] == CENTER {
            pieces.push(CenterPiece { player, index: i });
            assert(pieces@ =~= old(pieces)@ + kept.push(i).map_values(tag));
        }
        i += 1;
    }
}

impl GameState {
    /// The content of the 36 squares of the board, by index: 0 for an empty
    /// square, 1 for a piece of Light, 2 for a piece of Dark. The square of
    /// index `k` is the track position `k + 1`; pieces at the start show
    /// nowhere.
    pub fn get_board(&self) -> (board: Vec<u8>)
        ensures
            board@ == self@.board(),
    {
        let mut board: Vec<u8> = Vec::new();
        while board.len() < BOARD_SQUARES
            invariant
                board.len() <= BOARD_SQUARES,
                forall|k: int| 0 <= k < board.len() ==> board@[k] == EMPTY_SQUARE,
            decreases BOARD_SQUARES - board.len(),
        {
            board.push(EMPTY_SQUARE);
        }
        mark_pieces(&mut board, &self.light_pieces, LIGHT_SQUARE);
        mark_pieces(&mut board, &self.dark_pieces, DARK_SQUARE);
        assert(board@ =~= self@.board());
        board
    }

    /// The 36 squares of the board as they are drawn, by index: what each
    /// holds, whether a piece on it can be moved by the pending roll, and
    /// for the last square whether the centre shows a piece.
    pub fn get_square_data(&self) -> (squares: Vec<SquareData>)
        ensures
            squares@ == self@.squares(),
    {
        let board = self.get_board();
        let valid_moves = self.get_valid_moves();
        let player_pieces = match self.current_player {
            Player::Light => &self.light_pieces,
            Player::Dark => &self.dark_pieces,
        };
        proof {
            assert(self@.own().len() == player_pieces.len());
            lemma_valid_moves_exact(self@);
        }
        let mut squares: Vec<SquareData> = Vec::new();
        let mut square: usize = 0;
        while square < BOARD_SQUARES
            invariant
                square <= BOARD_SQUARES,
                board@ == self@.board(),
                valid_moves@ == self@.valid_moves(),
                player_pieces@ == self@.own(),
                forall|x: usize| self@.valid_moves().contains(x) <==> self@.can_move(x as int),
                squares.len() == square,
                forall|k: int| 0 <= k < square ==> squares@[k] == self@.square_data(k),
            decreases BOARD_SQUARES - square,
        {
            let square_type = board[square];
            let mut is_valid_move = false;
            if square_type != EMPTY_SQUARE {
                let mut i: usize = 0;
                while i < player_pieces.len()
                    invariant_except_break
                        !is_valid_move,
                        forall|j: int|
                            0 <= j < i ==> !(#[trigger] self@.own()[j] == square + 1
                                && self@.can_move(j)),
                    invariant
                        i <= player_pieces.len(),
                        square < BOARD_SQUARES,
                        player_pieces@ == self@.own(),
                        valid_moves@ == self@.valid_moves(),
                        forall|x: usize| self@.valid_moves().contains(x) <==> self@.can_move(x as int),
                        square_type == self@.square_type(square as int),
                        square_type != EMPTY_SQUARE,
                    ensures
                        is_valid_move == self@.square_movable(square as int),
                    decreases player_pieces.len() - i,
                {
                    let piece_pos = player_pieces[i];
                    if piece_pos == square + 1 && holds(&valid_moves, i) {
                        is_valid_move = true;
                        break;
                    }
                    i += 1;
                }
            }
            let is_center = square == BOARD_SQUARES - 1 && (square_type != EMPTY_SQUARE
                || is_valid_move);
            squares.push(SquareData { square_type, is_valid_move, is_center });
            square += 1;
        }
        assert(squares@ =~= self@.squares());
        squares
    }

    /// The pieces that have reached the centre: those of Light, then those
    /// of Dark, each side in ascending order of the indices.
    pub fn get_center_pieces(&self) -> (pieces: Vec<CenterPiece>)
        ensures
            pieces@ == self@.center_pieces(),
    {
        let mut pieces: Vec<CenterPiece> = Vec::new();
        push_finished(&mut pieces, &self.light_pieces, Player::Light);
        push_finished(&mut pieces, &self.dark_pieces, Player::Dark);
        assert(pieces@ =~= self@.center_pieces());
        pieces
    }

    /// The pieces of the player to move that wait at the start, in
    /// ascending order of their indices, each with whether it can be moved
    /// by the pending roll.
    pub fn get_start_pieces(&self) -> (pieces: Vec<StartPiece>)
        ensures
            pieces@ == self@.start_pieces(),
    {
        let valid_moves = self.get_valid_moves();
        let own = match self.current_player {
            Player::Light => &self.light_pieces,
            Player::Dark => &self.dark_pieces,
        };
        let ghost waiting = stands_at(self@.own(), 0);
        let ghost tag = |j: usize| (StartPiece { index: j, is_valid_move: self@.can_move(j as int) });
        proof {
            assert(self@.own().len() == own.len());
            lemma_valid_moves_exact(self@);
            lemma_indices_empty(waiting);
        }
        let mut pieces: Vec<StartPiece> = Vec::new();
        assert(pieces@ =~= indices(0).filter(waiting).map_values(tag));
        let mut i: usize = 0;
        while i < own.len()
            invariant
                i <= own.len(),
                own@ == self@.own(),
                valid_moves@ == self@.valid_moves(),
                forall|x: usize| self@.valid_moves().contains(x) <==> self@.can_move(x as int),
                waiting == stands_at(self@.own(), 0),
                tag == |j: usize| (StartPiece { index: j, is_valid_move: self@.can_move(j as int) }),
                pieces@ == indices(i as nat).filter(waiting).map_values(tag),
            decreases own.len() - i,
        {
            proof {
                lemma_indices_step(i as nat, waiting);
            }
            let ghost kept = indices(i as nat).filter(waiting);
            if own[i] == 0 {
                pieces.push(StartPiece { index: i, is_valid_move: holds(&valid_moves, i) });
                assert(pieces@ =~= kept.push(i).map_values(tag));
            }
            i += 1;
        }
        pieces
    }
}

} // verus!
