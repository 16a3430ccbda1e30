//! The game state and the operations that play a game.

use vstd::prelude::*;
use crate::laws::{lemma_move_keeps_wf, lemma_fresh_wf};
use crate::model::{
    all_home, captured, indices, lemma_indices_empty, lemma_indices_step, GameView, CENTER,
    MAX_ROLL,
};
use crate::player::Player;

verus! {

/// The state of one game.
///
/// A state starts fresh and changes only by rolls, moves and passes. Each
/// of them keeps [`GameView::wf`], so every state that play reaches
/// satisfies it.
#[derive(Debug, Clone)]
pub struct GameState {
    pub(crate) current_player: Player,
    pub(crate) dice_value: u8,
    pub(crate) game_over: bool,
    pub(crate) winner: Option<Player>,
    pub(crate) light_pieces: Vec<usize>,
    pub(crate) dark_pieces: Vec<usize>,
}

/// The positions of both sides' pieces, in the order of the pieces.
#[derive(Debug, Clone)]
pub struct Pieces {
    pub light: Vec<usize>,
    pub dark: Vec<usize>,
}

impl View for GameState {
    type V = GameView;

    open(crate) spec fn view(&self) -> GameView {
        GameView {
            current_player: self.current_player,
            dice_value: self.dice_value,
            game_over: self.game_over,
            winner: self.winner,
            light: self.light_pieces@,
            dark: self.dark_pieces@,
        }
    }
}

/// Whether every piece of `side` has reached the centre.
fn all_at_center(side: &Vec<usize>) -> (home: bool)
    ensures
        home == all_home(side@),
{
    let mut j: usize = 0;
    while j < side.len()
        invariant
            j <= side.len(),
            forall|k: int| 0 <= k < j ==> #[trigger] side@[k] >= CENTER,
        decreases side.len() - j,
    {
        if side[j] < CENTER {
            return false;
        }
        j += 1;
    }
    true
}

/// Sends the first piece of `side` that stands on `square` back to the
/// start.
fn capture(side: &mut Vec<usize>, square: usize)
    ensures
        final(side)@ == captured(old(side)@, square),
{
    let mut j: usize = 0;
    while j < side.len()
        invariant
            j <= side.len(),
            side@ == old(side)@,
            forall|k: int| 0 <= k < j ==> #[trigger] side@[k] != square,
        decreases side.len() - j,
    {
        if side[j] == square {
            side.set(j, 0);
            assert(side@ =~= captured(old(side)@, square));
            return;
        }
        j += 1;
    }
    assert(side@ =~= captured(old(side)@, square));
}

impl GameState {
    /// A game at its start: every piece waits at position 0, Light is to
    /// move, no roll is pending and nobody has won.
    pub fn new() -> (r: GameState)
        ensures
            r@ == GameView::fresh(),
            r@.wf(),
    {
        let r = GameState {
            current_player: Player::Light,
            dice_value: 0,
            game_over: false,
            winner: None,
            light_pieces: vec![0, 0, 0, 0, 0, 0],
            dark_pieces: vec![0, 0, 0, 0, 0, 0],
        };
        proof {
            assert(r@.light =~= GameView::fresh().light);
            assert(r@.dark =~= GameView::fresh().dark);
            lemma_fresh_wf();
        }
        r
    }

    /// The player whose turn it is.
    pub fn current_player(&self) -> (r: Player)
        ensures
            r == self@.current_player,
    {
        self.current_player
    }

    /// The pending roll, or 0 when none is pending.
    pub fn dice_value(&self) -> (r: u8)
        ensures
            r == self@.dice_value,
    {
        self.dice_value
    }

    /// Whether the game has been won.
    pub fn game_over(&self) -> (r: bool)
        ensures
            r == self@.game_over,
    {
        self.game_over
    }

    /// The player who has won, if any.
    pub fn winner(&self) -> (r: Option<Player>)
        ensures
            r == self@.winner,
    {
        self.winner
    }

    /// Whether the player to move may move piece `piece_index` by the
    /// pending roll. An index that names no piece gives `false`.
    pub fn can_move(&self, piece_index: usize) -> (ok: bool)
        ensures
            ok == self@.can_move(piece_index as int),
    {
        if self.game_over || self.dice_value == 0 {
            return false;
        }
        let pieces = match self.current_player {
            Player::Light => &self.light_pieces,
            Player::Dark => &self.dark_pieces,
        };
        assert(pieces@ == self@.own());
        if piece_index >= pieces.len() {
            return false;
        }
        let current_pos = pieces[piece_index];
        if current_pos >= CENTER {
            return false;
        }
        let new_pos = current_pos + self.dice_value as usize;
        if new_pos > CENTER {
            return false;
        }
        if new_pos < CENTER {
            let mut j: usize = 0;
            while j < pieces.len()
                invariant
                    j <= pieces.len(),
                    pieces@ == self@.own(),
                    new_pos < CENTER,
                    new_pos == self@.destination(piece_index as int),
                    forall|k: int| 0 <= k < j ==> #[trigger] self@.own()[k] != new_pos,
                decreases pieces.len() - j,
            {
                if pieces[j] == new_pos {
                    assert(self@.own()[j as int] == self@.destination(piece_index as int));
                    return false;
                }
                j += 1;
            }
        }
        true
    }

    /// The pieces that the player to move may move by the pending roll, in
    /// ascending order of their indices.
    pub fn get_valid_moves(&self) -> (moves: Vec<usize>)
        ensures
            moves@ == self@.valid_moves(),
    {
        let mut moves: Vec<usize> = Vec::new();
        let count = match self.current_player {
            Player::Light => self.light_pieces.len(),
            Player::Dark => self.dark_pieces.len(),
        };
        proof {
            lemma_indices_empty(self@.movable());
        }
        let mut i: usize = 0;
        while i < count
            invariant
                i <= count,
                count == self@.own().len(),
                moves@ == indices(i as nat).filter(self@.movable()),
            decreases count - i,
        {
            proof {
                lemma_indices_step(i as nat, self@.movable());
            }
            if self.can_move(i) {
                moves.push(i);
            }
            i += 1;
        }
        moves
    }

    /// Moves piece `piece_index` of the player to move by the pending roll,
    /// if [`GameState::can_move`] allows it, and says whether it did.
    ///
    /// A refused move changes nothing. A move puts the piece on its
    /// destination, sends a piece of the other side found there back to the
    /// start, uses up the roll, and then either records victory or hands the
    /// turn to the other side.
    pub fn make_move(&mut self, piece_index: usize) -> (moved: bool)
        ensures
            moved == old(self)@.can_move(piece_index as int),
            moved ==> final(self)@ == old(self)@.after_move(piece_index as int),
            !moved ==> final(self)@ == old(self)@,
            old(self)@.wf() ==> final(self)@.wf(),
    {
        if !self.can_move(piece_index) {
            return false;
        }
        match self.current_player {
            Player::Light => {
                let new_pos = self.light_pieces[piece_index] + self.dice_value as usize;
                self.light_pieces.set(piece_index, new_pos);
                if new_pos < CENTER {
                    capture(&mut self.dark_pieces, new_pos);
                }
            },
            Player::Dark => {
                let new_pos = self.dark_pieces[piece_index] + self.dice_value as usize;
                self.dark_pieces.set(piece_index, new_pos);
                if new_pos < CENTER {
                    capture(&mut self.light_pieces, new_pos);
                }
            },
        }
        self.dice_value = 0;
        self.check_win_condition();
        if !self.game_over {
            self.switch_player();
        }
        proof {
            if old(self)@.wf() {
                lemma_move_keeps_wf(old(self)@, piece_index as int);
            }
        }
        true
    }

    /// Gives up the pending roll and hands the turn to the other side. With
    /// no roll pending it does nothing.
    pub fn pass_turn(&mut self)
        ensures
            final(self)@ == old(self)@.after_pass(),
            old(self)@.wf() ==> final(self)@.wf(),
    {
        if self.dice_value != 0 {
            self.dice_value = 0;
            self.switch_player();
        }
    }

    /// Records a roll that showed `face` as the pending roll, and returns it.
    ///
    /// The state does not refuse a roll while another is pending or after
    /// the game has ended: the new value replaces the old.
    pub fn roll_dice(&mut self, face: u8) -> (r: u8)
        requires
            1 <= face <= MAX_ROLL,
        ensures
            r == face,
            final(self)@ == old(self)@.after_roll(face),
            old(self)@.wf() ==> final(self)@.wf(),
    {
        self.dice_value = face;
        self.dice_value
    }

    /// Starts the game anew.
    pub fn reset(&mut self)
        ensures
            final(self)@ == GameView::fresh(),
            final(self)@.wf(),
    {
        *self = GameState::new();
    }

    /// The positions of all pieces.
    pub fn get_pieces(&self) -> (r: Pieces)
        ensures
            r.light@ == self@.light,
            r.dark@ == self@.dark,
    {
        Pieces { light: self.light_pieces.clone(), dark: self.dark_pieces.clone() }
    }

    fn switch_player(&mut self)
        ensures
            final(self)@ == old(self)@.switched(),
    {
        self.current_player = self.current_player.opponent();
    }

    fn check_win_condition(&mut self)
        ensures
            final(self)@ == old(self)@.win_checked(),
    {
        let light_won = all_at_center(&self.light_pieces);
        let dark_won = all_at_center(&self.dark_pieces);
        if light_won {
            self.game_over = true;
            self.winner = Some(Player::Light);
        } else if dark_won {
            self.game_over = true;
            self.winner = Some(Player::Dark);
        }
    }
}

} // verus!
