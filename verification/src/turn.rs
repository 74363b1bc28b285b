//! The rules of a turn.

use vstd::prelude::*;
use crate::dice::{is_d6, roll_d6};
use crate::laws::lemma_turn_stays_on_board;
use crate::state::{Game, GameView, PlayerView, BOARD_SIZE, PLAYER_COUNT};

verus! {

/// The one face of the die that moves a player.
pub const LUCKY_ROLL: u8 = 5;

/// How a turn ended for the player who took it.
#[derive(Debug, Clone, Copy, PartialEq, Eq, Structural)]
pub enum Outcome {
    /// The first roll was no five: nobody moved.
    Passed,
    /// The player stepped past the last space of the board and won the game.
    Won,
    /// The player stepped onto an occupied space: everyone there went back to
    /// the start, and so did the player.
    Collided,
    /// The second roll was a five too: the player keeps the new space.
    Stayed,
    /// The second roll was no five: the player went back to the start.
    SentBack,
}

/// What happened in one turn.
#[derive(Debug, Clone, Copy, PartialEq, Eq)]
pub struct TurnReport {
    /// The index of the player who took the turn.
    pub player: usize,
    /// The number of the turn, counted from one.
    pub turn: u128,
    /// How the turn ended.
    pub outcome: Outcome,
    /// The space onto which the player stepped after rolling a five, whether
    /// or not the player could keep it; `None` where no five was rolled.
    pub landing: Option<u16>,
    /// The space on which the player stands now that the turn is over.
    pub space: u16,
    /// The game as it stood when the player reached a new best space, before
    /// anything else was settled. It is set exactly when a new best space was
    /// reached, and is what should be written to the save file.
    pub checkpoint: Option<Game>,
}

/// The mathematical model of a turn report.
pub ghost struct TurnReportView {
    pub player: int,
    pub turn: nat,
    pub outcome: Outcome,
    pub landing: Option<nat>,
    pub space: nat,
    pub checkpoint: Option<GameView>,
}

impl View for TurnReport {
    type V = TurnReportView;

    open spec fn view(&self) -> TurnReportView {
        TurnReportView {
            player: self.player as int,
            turn: self.turn as nat,
            outcome: self.outcome,
            landing: match self.landing {
                Some(space) => Some(space as nat),
                None => None,
            },
            space: self.space as nat,
            checkpoint: match self.checkpoint {
                Some(game) => Some(game@),
                None => None,
            },
        }
    }
}

impl GameView {
    /// The index of the player who takes the next turn: the number of that
    /// turn modulo the number of players.
    pub open spec fn actor(self) -> int {
        ((self.turn + 1) as int) % (PLAYER_COUNT as int)
    }

    /// The space onto which the next player steps after rolling a five.
    pub open spec fn landing(self) -> nat {
        self.players[self.actor()].space + 1
    }

    /// Player `i` stands where the next player would land, away from the start.
    pub open spec fn meets(self, i: int) -> bool {
        &&& 0 <= i < self.players.len()
        &&& self.players[i].space == self.landing()
        &&& self.players[i].space != 0
    }

    /// Somebody stands where the next player would land.
    pub open spec fn collides(self) -> bool {
        exists|i: int| self.meets(i)
    }

    /// The next turn can be counted and its step can be stored.
    pub open spec fn can_play(self) -> bool {
        &&& self.players.len() == PLAYER_COUNT
        &&& self.turn < u128::MAX
        &&& self.landing() <= u16::MAX
    }

    /// A five was rolled and the step does not end the game.
    pub open spec fn advances(self, first: u8) -> bool {
        first == LUCKY_ROLL && self.landing() != BOARD_SIZE + 1
    }

    /// The next turn needs a second roll of the die.
    pub open spec fn awaits_second_roll(self, first: u8) -> bool {
        self.advances(first) && !self.collides()
    }

    /// How the next turn ends with the given rolls. The second roll counts
    /// only where `awaits_second_roll` holds.
    pub open spec fn outcome(self, first: u8, second: u8) -> Outcome {
        if first != LUCKY_ROLL {
            Outcome::Passed
        } else if self.landing() == BOARD_SIZE + 1 {
            Outcome::Won
        } else if self.collides() {
            Outcome::Collided
        } else if second == LUCKY_ROLL {
            Outcome::Stayed
        } else {
            Outcome::SentBack
        }
    }

    /// The best space of player `i` after the next turn.
    pub open spec fn best_after(self, i: int, first: u8) -> nat {
        if self.advances(first) && i == self.actor() && self.landing() > self.players[i].best {
            self.landing()
        } else {
            self.players[i].best
        }
    }

    /// The space of player `i` after the next turn.
    pub open spec fn space_after(self, i: int, first: u8, second: u8) -> nat {
        match self.outcome(first, second) {
            Outcome::Passed | Outcome::Won => self.players[i].space,
            Outcome::Stayed => if i == self.actor() {
                self.landing()
            } else {
                self.players[i].space
            },
            Outcome::SentBack => if i == self.actor() {
                0
            } else {
                self.players[i].space
            },
            Outcome::Collided => if i == self.actor() || self.meets(i) {
                0
            } else {
                self.players[i].space
            },
        }
    }

    /// The game after the next turn.
    pub open spec fn after_turn(self, first: u8, second: u8) -> GameView {
        GameView {
            turn: self.turn + 1,
            players: Seq::new(
                self.players.len(),
                |i: int|
                    PlayerView {
                        space: self.space_after(i, first, second),
                        best: self.best_after(i, first),
                    },
            ),
        }
    }

    /// The game in the middle of the next turn: the turn is counted and the
    /// new best space is noted, but nobody has moved yet.
    pub open spec fn mid_turn(self, first: u8) -> GameView {
        GameView {
            turn: self.turn + 1,
            players: Seq::new(
                self.players.len(),
                |i: int|
                    PlayerView { space: self.players[i].space, best: self.best_after(i, first) },
            ),
        }
    }

    /// The snapshot to save in the next turn, if the turn brings a new best
    /// space.
    pub open spec fn checkpoint(self, first: u8) -> Option<GameView> {
        if self.advances(first) && self.landing() > self.players[self.actor()].best {
            Some(self.mid_turn(first))
        } else {
            None
        }
    }

    /// The report of the next turn.
    pub open spec fn report(self, first: u8, second: u8) -> TurnReportView {
        TurnReportView {
            player: self.actor(),
            turn: self.turn + 1,
            outcome: self.outcome(first, second),
            landing: if first == LUCKY_ROLL {
                Some(self.landing())
            } else {
                None
            },
            space: self.space_after(self.actor(), first, second),
            checkpoint: self.checkpoint(first),
        }
    }
}

/// The turn that leads from the game `before` to the game `after`, and is
/// reported as `report`, is the one that the rules give for the two rolls.
/// The game and the snapshot in the report are stated as views, and once
/// more player by player.
pub open spec fn is_turn(
    before: Game,
    first: u8,
    second: u8,
    after: Game,
    report: TurnReport,
) -> bool {
    &&& after@ == before@.after_turn(first, second)
    &&& report@ == before@.report(first, second)
    &&& forall|i: int|
        0 <= i < PLAYER_COUNT ==> (#[trigger] after.players[i])@ == before@.after_turn(
            first,
            second,
        ).players[i]
    &&& forall|i: int|
        0 <= i < PLAYER_COUNT && report.checkpoint is Some ==> (
        #[trigger] report.checkpoint->Some_0.players[i])@ == before@.mid_turn(first).players[i]
}

/// What every turn keeps, whatever is rolled: the turn is counted once,
/// players on the board stay on it, nobody moves but one space forward or
/// back to the start, and only the player whose turn it is moves forward, no
/// best space falls, a snapshot is handed out exactly when a best space rose,
/// and after a collision the player who moved and everyone who was met stand
/// at the start.
pub open spec fn keeps_rules(before: Game, after: Game, report: TurnReport) -> bool {
    &&& after.turn_count == before.turn_count + 1
    &&& report.turn == after.turn_count
    &&& report.player == before@.actor()
    &&& before@.valid() ==> after@.valid()
    &&& forall|i: int|
        0 <= i < PLAYER_COUNT ==> {
            let was = before.players[i].current_space;
            let is = (#[trigger] after.players[i]).current_space;
            is == was || is == 0 || (i == before@.actor() && is == was + 1)
        }
    &&& forall|i: int|
        0 <= i < PLAYER_COUNT ==> (#[trigger] after.players[i]).high_score
            >= before.players[i].high_score
    &&& report.checkpoint is Some <==> exists|i: int|
        0 <= i < PLAYER_COUNT && (#[trigger] after.players[i]).high_score
            > before.players[i].high_score
    &&& report.outcome is Collided ==> forall|i: int|
        0 <= i < PLAYER_COUNT && (i == before@.actor() || before@.meets(i)) ==> (
        #[trigger] after.players[i]).current_space == 0
}

/// The turn from `before` to `after` is the one that the rules give for some
/// two rolls of a six-sided die.
pub open spec fn is_rolled_turn(before: Game, after: Game, report: TurnReport) -> bool {
    exists|first: u8, second: u8|
        is_d6(first) && is_d6(second) && #[trigger] is_turn(before, first, second, after, report)
}

/// A turn played by the rules keeps what every turn keeps.
pub proof fn lemma_turn_keeps_rules(
    before: Game,
    first: u8,
    second: u8,
    after: Game,
    report: TurnReport,
)
    requires
        is_turn(before, first, second, after, report),
    ensures
        keeps_rules(before, after, report),
{
    if before@.valid() {
        lemma_turn_stays_on_board(before@, first, second);
    }
    assert forall|i: int| 0 <= i < PLAYER_COUNT implies before@.players[i]
        == (#[trigger] before.players[i])@ by {}
    if report.checkpoint is Some {
        let actor = before@.actor();
        assert(before@.players[actor] == before.players[actor]@);
        assert(after.players[actor].high_score > before.players[actor].high_score);
    }
}

impl Game {
    /// Tells whether the next turn can be played: the turn counter and the
    /// space of the next player must have room for one more.
    pub fn can_play(&self) -> (ok: bool)
        ensures
            ok == self@.can_play(),
    {
        if self.turn_count == u128::MAX {
            return false;
        }
        let player = ((self.turn_count + 1) % (PLAYER_COUNT as u128)) as usize;
        self.players[player].current_space < u16::MAX
    }

    /// Tells whether somebody stands on `landing`, away from the start.
    fn is_taken(&self, landing: u16) -> (taken: bool)
        ensures
            taken == exists|i: int|
                0 <= i < PLAYER_COUNT && self.players[i].current_space == landing && landing != 0,
    {
        let mut i: usize = 0;
        while i < PLAYER_COUNT
            invariant
                i <= PLAYER_COUNT,
                forall|j: int|
                    0 <= j < i ==> !(self.players[j].current_space == landing && landing != 0),
            decreases PLAYER_COUNT - i,
        {
            if self.players[i].current_space == landing && self.players[i].current_space != 0 {
                return true;
            }
            i += 1;
        }
        false
    }

    /// Tells whether the next turn, after the given first roll, goes on to a
    /// second roll: the first was a five, and the step neither ends the game
    /// nor leads onto an occupied space.
    pub fn awaits_second_roll(&self, first: u8) -> (awaited: bool)
        requires
            self@.can_play(),
        ensures
            awaited == self@.awaits_second_roll(first),
    {
        if first != LUCKY_ROLL {
            return false;
        }
        let player = ((self.turn_count + 1) % (PLAYER_COUNT as u128)) as usize;
        let landing = self.players[player].current_space + 1;
        if landing == BOARD_SIZE + 1 {
            return false;
        }
        let taken = self.is_taken(landing);
        proof {
            let before = self@;
            if taken {
                let i = choose|i: int|
                    0 <= i < PLAYER_COUNT && self.players[i].current_space == landing && landing
                        != 0;
                assert(before.meets(i));
            }
            if before.collides() {
                let i = choose|i: int| before.meets(i);
                assert(self.players[i].current_space == landing);
            }
        }
        !taken
    }

    /// Sends every player who stands on `landing`, away from the start, back
    /// to the start, and tells whether there was one.
    fn clear_space(&mut self, landing: u16) -> (collision: bool)
        ensures
            final(self).turn_count == old(self).turn_count,
            collision == exists|i: int|
                0 <= i < PLAYER_COUNT && old(self).players[i].current_space == landing && landing
                    != 0,
            forall|i: int|
                0 <= i < PLAYER_COUNT ==> (#[trigger] final(self).players[i]).high_score == old(
                    self,
                ).players[i].high_score,
            forall|i: int|
                0 <= i < PLAYER_COUNT ==> (#[trigger] final(self).players[i]).current_space == (
                if old(self).players[i].current_space == landing {
                    0
                } else {
                    old(self).players[i].current_space
                }),
    {
        let mut collision = false;
        let mut i: usize = 0;
        while i < PLAYER_COUNT
            invariant
                i <= PLAYER_COUNT,
                self.turn_count == old(self).turn_count,
                collision == exists|j: int|
                    0 <= j < i && old(self).players[j].current_space == landing && landing != 0,
                forall|j: int|
                    0 <= j < PLAYER_COUNT ==> (#[trigger] self.players[j]).high_score == old(
                        self,
                    ).players[j].high_score,
                forall|j: int|
                    0 <= j < PLAYER_COUNT ==> (#[trigger] self.players[j]).current_space == (
                    if j < i && old(self).players[j].current_space == landing && landing != 0 {
                        0
                    } else {
                        old(self).players[j].current_space
                    }),
            decreases PLAYER_COUNT - i,
        {
            if self.players[i].current_space == landing && self.players[i].current_space != 0 {
                self.players[i].current_space = 0;
                collision = true;
            }
            i += 1;
        }
        collision
    }

    /// Plays the next turn with the given rolls of the die.
    ///
    /// The second roll is looked at only when the first one brought the
    /// player forward without ending the game and without a collision.
    pub fn resolve_turn(&mut self, first: u8, second: u8) -> (report: TurnReport)
        requires
            old(self)@.can_play(),
        ensures
            is_turn(*old(self), first, second, *final(self), report),
            keeps_rules(*old(self), *final(self), report),
    {
        self.turn_count = self.turn_count + 1;
        let player = (self.turn_count % (PLAYER_COUNT as u128)) as usize;
        let start = self.players[player].current_space;
        if first != LUCKY_ROLL {
            assert(self@.players =~= old(self)@.after_turn(first, second).players);
            return TurnReport {
                player,
                turn: self.turn_count,
                outcome: Outcome::Passed,
                landing: None,
                space: start,
                checkpoint: None,
            };
        }
        let landing = start + 1;
        if landing == BOARD_SIZE + 1 {
            assert(self@.players =~= old(self)@.after_turn(first, second).players);
            return TurnReport {
                player,
                turn: self.turn_count,
                outcome: Outcome::Won,
                landing: Some(landing),
                space: start,
                checkpoint: None,
            };
        }
        let mut checkpoint: Option<Game> = None;
        if landing > self.players[player].high_score {
            self.players[player].high_score = landing;
            checkpoint = Some(*self);
            assert(self@.players =~= old(self)@.mid_turn(first).players);
        }
        let ghost mid = *self;
        let collision = self.clear_space(landing);
        let outcome = if collision {
            Outcome::Collided
        } else if second == LUCKY_ROLL {
            Outcome::Stayed
        } else {
            Outcome::SentBack
        };
        let space = if collision || second != LUCKY_ROLL {
            0
        } else {
            landing
        };
        self.players[player].current_space = space;
        proof {
            let before = old(self)@;
            assert(before.collides() == collision) by {
                if collision {
                    let i = choose|i: int|
                        0 <= i < PLAYER_COUNT && mid.players[i].current_space == landing && landing
                            != 0;
                    assert(before.meets(i));
                }
                if before.collides() {
                    let i = choose|i: int| before.meets(i);
                    assert(mid.players[i].current_space == landing);
                }
            }
            assert(self@.players =~= before.after_turn(first, second).players);
        }
        let report = TurnReport {
            player,
            turn: self.turn_count,
            outcome,
            landing: Some(landing),
            space,
            checkpoint,
        };
        proof {
            lemma_turn_keeps_rules(*old(self), first, second, *self, report);
        }
        report
    }

    /// Plays the next turn: rolls the die, and rolls it a second time where
    /// the rules ask for it.
    ///
    /// The rolls are random, so the contract says that the game and the
    /// report are those of `resolve_turn` for some two rolls of the die.
    pub fn take_turn(&mut self) -> (report: TurnReport)
        requires
            old(self)@.can_play(),
        ensures
            is_rolled_turn(*old(self), *final(self), report),
            keeps_rules(*old(self), *final(self), report),
    {
        let first = roll_d6();
        if self.awaits_second_roll(first) {
            let second = roll_d6();
            let report = self.resolve_turn(first, second);
            assert(is_turn(*old(self), first, second, *self, report));
            report
        } else {
            // No second roll is made, and none is looked at.
            let report = self.resolve_turn(first, first);
            assert(is_turn(*old(self), first, first, *self, report));
            report
        }
    }
}

/// What the caller of the turns does once a turn is over.
#[derive(Debug, Clone, Copy, PartialEq, Eq, Structural)]
pub enum Directive {
    /// Play the next turn.
    Continue,
    /// The game is won: stop.
    Finish,
    /// A shutdown was asked for: save the game and stop.
    SaveAndExit,
}

/// What to do after a turn that ended as `outcome`, given whether a shutdown
/// has been asked for in the meantime.
pub open spec fn directive_after(outcome: Outcome, interrupted: bool) -> Directive {
    if outcome is Won {
        Directive::Finish
    } else if interrupted {
        Directive::SaveAndExit
    } else {
        Directive::Continue
    }
}

/// Decides what to do once a turn is over. A win ends the game at once; a
/// request to shut down is honoured only between turns, by one last save.
pub fn next_directive(outcome: Outcome, interrupted: bool) -> (directive: Directive)
    ensures
        directive == directive_after(outcome, interrupted),
{
    match outcome {
        Outcome::Won => Directive::Finish,
        _ => if interrupted {
            Directive::SaveAndExit
        } else {
            Directive::Continue
        },
    }
}

} // verus!
