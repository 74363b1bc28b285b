//! The state of a game: a turn counter and two players.

use vstd::prelude::*;

verus! {

/// The number of players. The race is a two-player game at heart.
pub const PLAYER_COUNT: usize = 2;

/// The last space of the board. A player who moves past it has won.
pub const BOARD_SIZE: u16 = 100;

/// One player: where the player stands and the best space ever reached.
#[derive(Debug, Clone, Copy, PartialEq, Eq, Structural)]
pub struct Player {
    /// The space the player is on; zero is the start.
    pub current_space: u16,
    /// The best space the player has ever been on.
    pub high_score: u16,
}

/// A game: the number of turns played so far and the players.
#[derive(Debug, Clone, Copy, PartialEq, Eq)]
pub struct Game {
    /// The number of turns played so far.
    pub turn_count: u128,
    /// The players, in the order in which they take their turns.
    pub players: [Player; PLAYER_COUNT],
}

/// The mathematical model of a player.
pub ghost struct PlayerView {
    pub space: nat,
    pub best: nat,
}

/// The mathematical model of a game.
pub ghost struct GameView {
    pub turn: nat,
    pub players: Seq<PlayerView>,
}

impl View for Player {
    type V = PlayerView;

    open spec fn view(&self) -> PlayerView {
        PlayerView { space: self.current_space as nat, best: self.high_score as nat }
    }
}

impl View for Game {
    type V = GameView;

    open spec fn view(&self) -> GameView {
        GameView {
            turn: self.turn_count as nat,
            players: Seq::new(PLAYER_COUNT as nat, |i: int| self.players[i]@),
        }
    }
}

impl PlayerView {
    /// A player who stands at the start and has never left it.
    pub open spec fn fresh() -> PlayerView {
        PlayerView { space: 0, best: 0 }
    }

    /// Both the space and the best space lie on the board.
    pub open spec fn on_board(self) -> bool {
        self.space <= BOARD_SIZE && self.best <= BOARD_SIZE
    }
}

impl GameView {
    /// The game before its first turn: no turn played, everyone at the start.
    pub open spec fn fresh() -> GameView {
        GameView { turn: 0, players: Seq::new(PLAYER_COUNT as nat, |i: int| PlayerView::fresh()) }
    }

    /// The game has its two players and each of them is on the board.
    pub open spec fn valid(self) -> bool {
        &&& self.players.len() == PLAYER_COUNT
        &&& forall|i: int| 0 <= i < self.players.len() ==> (#[trigger] self.players[i]).on_board()
    }
}

impl Game {
    /// The game stands before its first turn: the same as `GameView::fresh`,
    /// said of the fields.
    pub open spec fn is_fresh(self) -> bool {
        &&& self.turn_count == 0
        &&& forall|i: int|
            0 <= i < PLAYER_COUNT ==> (#[trigger] self.players[i])@ == PlayerView::fresh()
    }
}

impl Default for Player {
    fn default() -> (player: Player)
        ensures
            player@ == PlayerView::fresh(),
    {
        Player { current_space: 0, high_score: 0 }
    }
}

impl Default for Game {
    fn default() -> (game: Game)
        ensures
            game@ == GameView::fresh(),
            game@.valid(),
            game.is_fresh(),
    {
        let game = Game {
            turn_count: 0,
            players: [Player { current_space: 0, high_score: 0 }; PLAYER_COUNT],
        };
        assert(game@.players =~= GameView::fresh().players);
        game
    }
}

/// Two games with the same view are the same game.
pub proof fn lemma_view_is_injective(a: Game, b: Game)
    requires
        a@ == b@,
    ensures
        a == b,
{
    assert forall|i: int| 0 <= i < PLAYER_COUNT implies a.players[i] == b.players[i] by {
        assert(a@.players[i] == a.players[i]@);
        assert(b@.players[i] == b.players[i]@);
    }
    assert(a.players =~= b.players);
}

} // verus!
