//! What holds of every game, however the dice fall.

use vstd::prelude::*;
use crate::state::{GameView, PLAYER_COUNT};

verus! {

impl GameView {
    /// The game after one turn for each pair of rolls, in their order. A turn
    /// that wins the game moves nobody, and the turns after it are played
    /// all the same.
    pub open spec fn play(self, rolls: Seq<(u8, u8)>) -> GameView
        decreases rolls.len(),
    {
        if rolls.len() == 0 {
            self
        } else {
            self.play(rolls.drop_last()).after_turn(rolls.last().0, rolls.last().1)
        }
    }

    /// The highest space that player `i` has reached: the best space at the
    /// outset, or the highest space onto which the player stepped in one of
    /// the turns played with the given rolls, whether or not the player was
    /// sent back afterwards.
    pub open spec fn peak(self, rolls: Seq<(u8, u8)>, i: int) -> nat
        decreases rolls.len(),
    {
        if rolls.len() == 0 {
            self.players[i].best
        } else {
            let earlier = self.peak(rolls.drop_last(), i);
            let before = self.play(rolls.drop_last());
            if before.advances(rolls.last().0) && before.actor() == i && before.landing()
                > earlier {
                before.landing()
            } else {
                earlier
            }
        }
    }

    /// Nobody stands beyond the best space they have reached.
    pub open spec fn scores_cover_spaces(self) -> bool {
        forall|i: int|
            0 <= i < self.players.len() ==> (#[trigger] self.players[i]).space
                <= self.players[i].best
    }
}

/// Every turn is counted exactly once: after any number of turns the turn
/// counter has grown by that number, whatever was rolled.
pub proof fn lemma_turns_are_counted(game: GameView, rolls: Seq<(u8, u8)>)
    ensures
        game.play(rolls).turn == game.turn + rolls.len(),
        game.play(rolls).players.len() == game.players.len(),
    decreases rolls.len(),
{
    if rolls.len() > 0 {
        lemma_turns_are_counted(game, rolls.drop_last());
    }
}

/// A turn keeps the players on the board: nobody is ever put on the space
/// past the last one.
pub proof fn lemma_turn_stays_on_board(game: GameView, first: u8, second: u8)
    requires
        game.valid(),
    ensures
        game.after_turn(first, second).valid(),
{
    let next = game.after_turn(first, second);
    assert(game.players[game.actor()].on_board());
    assert forall|i: int| 0 <= i < next.players.len() implies (#[trigger] next.players[i]).on_board() by {
        assert(game.players[i].on_board());
    }
}

/// However many turns are played and whatever is rolled, the players stay
/// on the board.
pub proof fn lemma_play_stays_on_board(game: GameView, rolls: Seq<(u8, u8)>)
    requires
        game.valid(),
    ensures
        game.play(rolls).valid(),
    decreases rolls.len(),
{
    if rolls.len() > 0 {
        lemma_play_stays_on_board(game, rolls.drop_last());
        lemma_turn_stays_on_board(
            game.play(rolls.drop_last()),
            rolls.last().0,
            rolls.last().1,
        );
    }
}

/// After a turn with a collision, the player who moved and every player who
/// stood on the space where they met are at the start.
pub proof fn lemma_collision_sends_everyone_back(game: GameView, first: u8, second: u8, i: int)
    requires
        0 <= i < game.players.len(),
        game.outcome(first, second) is Collided,
        i == game.actor() || game.meets(i),
    ensures
        game.after_turn(first, second).players[i].space == 0,
{
}

/// A turn never lowers a best space.
pub proof fn lemma_turn_keeps_best(game: GameView, first: u8, second: u8, i: int)
    requires
        0 <= i < game.players.len(),
    ensures
        game.after_turn(first, second).players[i].best >= game.players[i].best,
{
}

/// A best space never falls, and it is always the highest space that the
/// player has reached so far.
pub proof fn lemma_best_is_peak(game: GameView, rolls: Seq<(u8, u8)>, i: int)
    requires
        0 <= i < game.players.len(),
    ensures
        game.play(rolls).players[i].best == game.peak(rolls, i),
        game.play(rolls).players[i].best >= game.players[i].best,
    decreases rolls.len(),
{
    if rolls.len() > 0 {
        lemma_best_is_peak(game, rolls.drop_last(), i);
        lemma_turns_are_counted(game, rolls.drop_last());
    }
}

/// If nobody stands beyond their best space before a turn, nobody does
/// after it.
pub proof fn lemma_turn_keeps_scores_above_spaces(game: GameView, first: u8, second: u8)
    requires
        game.players.len() == PLAYER_COUNT,
        game.scores_cover_spaces(),
    ensures
        game.after_turn(first, second).scores_cover_spaces(),
{
    let next = game.after_turn(first, second);
    assert forall|i: int| 0 <= i < next.players.len() implies (#[trigger] next.players[i]).space
        <= next.players[i].best by {
        assert(game.players[i].space <= game.players[i].best);
    }
}

} // verus!
