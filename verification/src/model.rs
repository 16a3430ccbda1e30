//! The mathematical model of a game: what a state is, which moves it
//! admits, and what each transition makes of it.

use vstd::prelude::*;
use crate::player::Player;

verus! {

/// Number of pieces each side plays with.
pub const PIECES_PER_SIDE: usize = 6;

/// Track position of the centre, where a piece has finished.
pub const CENTER: usize = 36;

/// Largest value a roll can show.
pub const MAX_ROLL: u8 = 6;

/// A game as a mathematical value.
///
/// A position is 0 for a piece still waiting at the start, 1 to 35 for a
/// square of the track, and 36 for a piece that has reached the centre.
pub struct GameView {
    pub current_player: Player,
    /// The pending roll, or 0 when the player to move has yet to roll.
    pub dice_value: u8,
    pub game_over: bool,
    pub winner: Option<Player>,
    pub light: Seq<usize>,
    pub dark: Seq<usize>,
}

/// The indices of `n` pieces, in ascending order.
pub open spec fn indices(n: nat) -> Seq<usize> {
    Seq::new(n, |j: int| j as usize)
}

/// Of no indices none is kept, whatever the choice.
pub proof fn lemma_indices_empty(keep: spec_fn(usize) -> bool)
    ensures
        indices(0).filter(keep) == Seq::<usize>::empty(),
{
    reveal(Seq::filter);
    assert(indices(0) =~= Seq::<usize>::empty());
}

/// Choosing among the first `n + 1` indices is choosing among the first
/// `n` and then deciding on index `n`.
pub proof fn lemma_indices_step(n: nat, keep: spec_fn(usize) -> bool)
    ensures
        indices(n + 1) == indices(n).push(n as usize),
        indices(n + 1).filter(keep) == if keep(n as usize) {
            indices(n).filter(keep).push(n as usize)
        } else {
            indices(n).filter(keep)
        },
{
    assert(indices(n + 1) =~= indices(n).push(n as usize));
    indices(n).lemma_filter_push(n as usize, keep);
}

/// Whether every piece of a side has reached the centre.
pub open spec fn all_home(side: Seq<usize>) -> bool {
    forall|j: int| 0 <= j < side.len() ==> #[trigger] side[j] >= CENTER
}

/// Whether no two pieces of one side stand on the same track square.
pub open spec fn squares_exclusive(side: Seq<usize>) -> bool {
    forall|j: int, k: int|
        0 <= j < side.len() && 0 <= k < side.len() && j != k && #[trigger] side[j] == #[trigger] side[k]
            ==> side[j] == 0 || side[j] == CENTER
}

/// Whether no track square holds pieces of both sides.
pub open spec fn squares_unshared(a: Seq<usize>, b: Seq<usize>) -> bool {
    forall|j: int, k: int|
        0 <= j < a.len() && 0 <= k < b.len() && #[trigger] a[j] == #[trigger] b[k]
            ==> a[j] == 0 || a[j] == CENTER
}

/// Whether piece `k` of `side` is the first, in the order of the pieces,
/// that stands on `square`.
pub open spec fn first_on(side: Seq<usize>, square: usize, k: int) -> bool {
    &&& 0 <= k < side.len()
    &&& side[k] == square
    &&& forall|j: int| 0 <= j < k ==> #[trigger] side[j] != square
}

/// A side after a capture on `square`: its first piece there is back at
/// the start, and every other piece is where it was.
pub open spec fn captured(side: Seq<usize>, square: usize) -> Seq<usize> {
    Seq::new(side.len(), |k: int| if first_on(side, square, k) { 0usize } else { side[k] })
}

impl GameView {
    /// The state at the start of a game.
    pub open spec fn fresh() -> GameView {
        GameView {
            current_player: Player::Light,
            dice_value: 0,
            game_over: false,
            winner: None,
            light: Seq::new(PIECES_PER_SIDE as nat, |j: int| 0usize),
            dark: Seq::new(PIECES_PER_SIDE as nat, |j: int| 0usize),
        }
    }

    /// The positions of one side's pieces.
    pub open spec fn pieces_of(self, p: Player) -> Seq<usize> {
        match p {
            Player::Light => self.light,
            Player::Dark => self.dark,
        }
    }

    /// The positions of the pieces of the player to move.
    pub open spec fn own(self) -> Seq<usize> {
        self.pieces_of(self.current_player)
    }

    /// The positions of the pieces of the player who waits.
    pub open spec fn rival(self) -> Seq<usize> {
        self.pieces_of(self.current_player.other())
    }

    /// The invariant of every state that play can reach.
    pub open spec fn wf(self) -> bool {
        &&& self.light.len() == PIECES_PER_SIDE
        &&& self.dark.len() == PIECES_PER_SIDE
        &&& forall|j: int| 0 <= j < self.light.len() ==> #[trigger] self.light[j] <= CENTER
        &&& forall|j: int| 0 <= j < self.dark.len() ==> #[trigger] self.dark[j] <= CENTER
        &&& self.dice_value <= MAX_ROLL
        &&& squares_exclusive(self.light)
        &&& squares_exclusive(self.dark)
        &&& squares_unshared(self.light, self.dark)
        &&& self.game_over <==> self.winner.is_some()
        &&& self.winner == Some(Player::Light) <==> all_home(self.light)
        &&& self.winner == Some(Player::Dark) <==> all_home(self.dark)
    }

    /// Where piece `i` of the player to move would land with the pending roll.
    pub open spec fn destination(self, i: int) -> int {
        self.own()[i] + self.dice_value
    }

    /// Whether the player to move may move piece `i` by the pending roll.
    ///
    /// A piece of the other side on the destination never blocks: it is
    /// captured.
    pub open spec fn can_move(self, i: int) -> bool {
        &&& !self.game_over
        &&& self.dice_value != 0
        &&& 0 <= i < self.own().len()
        &&& self.own()[i] < CENTER
        &&& self.destination(i) <= CENTER
        &&& self.destination(i) < CENTER ==> forall|j: int|
            0 <= j < self.own().len() ==> #[trigger] self.own()[j] != self.destination(i)
    }

    /// [`GameView::can_move`] as a predicate on piece indices.
    pub open spec fn movable(self) -> spec_fn(usize) -> bool {
        |j: usize| self.can_move(j as int)
    }

    /// The pieces that the player to move may move by the pending roll, in
    /// ascending order of their indices.
    pub open spec fn valid_moves(self) -> Seq<usize> {
        indices(self.own().len()).filter(self.movable())
    }

    /// The same game with the pieces of the player to move at `own` and
    /// those of the player who waits at `rival`.
    pub open spec fn with_pieces(self, own: Seq<usize>, rival: Seq<usize>) -> GameView {
        match self.current_player {
            Player::Light => GameView { light: own, dark: rival, ..self },
            Player::Dark => GameView { light: rival, dark: own, ..self },
        }
    }

    /// The game with victory recorded: a side with every piece at the centre
    /// has won and the game is over. Light is looked at first. Without such
    /// a side nothing changes.
    pub open spec fn win_checked(self) -> GameView {
        if all_home(self.light) {
            GameView { game_over: true, winner: Some(Player::Light), ..self }
        } else if all_home(self.dark) {
            GameView { game_over: true, winner: Some(Player::Dark), ..self }
        } else {
            self
        }
    }

    /// The game with the turn handed to the other side.
    pub open spec fn switched(self) -> GameView {
        GameView { current_player: self.current_player.other(), ..self }
    }

    /// What the end of a move makes of the game once the pieces stand where
    /// the move put them: the roll is used up and victory is looked for; a
    /// game that is over stays with the mover, any other passes to the
    /// other side.
    pub open spec fn settled(self) -> GameView {
        let checked = GameView { dice_value: 0, ..self }.win_checked();
        if checked.game_over {
            checked
        } else {
            checked.switched()
        }
    }

    /// The game after the player to move has moved piece `i` by the pending
    /// roll.
    pub open spec fn after_move(self, i: int) -> GameView
        recommends
            self.can_move(i),
    {
        let dest = self.destination(i) as usize;
        let own = self.own().update(i, dest);
        let rival = if dest < CENTER {
            captured(self.rival(), dest)
        } else {
            self.rival()
        };
        self.with_pieces(own, rival).settled()
    }

    /// The game after the player to move has given up a pending roll. With
    /// no roll pending nothing changes.
    pub open spec fn after_pass(self) -> GameView {
        if self.dice_value != 0 {
            GameView { dice_value: 0, ..self }.switched()
        } else {
            self
        }
    }

    /// The game after a roll that shows `face`.
    pub open spec fn after_roll(self, face: u8) -> GameView {
        GameView { dice_value: face, ..self }
    }
}

} // verus!
