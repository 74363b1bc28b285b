//! The snapshot of a game as bytes, for the save file.
//!
//! The bytes are those of the `bincode` crate in its standard configuration:
//! every number is written as a variable-length integer, the turn counter
//! first, then each player's space and best space, with nothing in between.

use vstd::prelude::*;
use crate::state::{lemma_view_is_injective, Game, GameView, Player, PlayerView};

verus! {

/// `bincode::error::EncodeError`, the error of `bincode::encode_to_vec`. It
/// is handed on unopened.
#[verifier::external_type_specification]
#[verifier::external_body]
pub struct ExEncodeError(bincode::error::EncodeError);

/// `bincode::error::DecodeError`, the error of `bincode::decode_from_slice`.
/// It is handed on unopened.
#[verifier::external_type_specification]
#[verifier::external_body]
pub struct ExDecodeError(bincode::error::DecodeError);

/// The `width` low bytes of `value`, the least significant first.
pub open spec fn le_bytes(value: nat, width: nat) -> Seq<u8>
    decreases width,
{
    if width == 0 {
        Seq::empty()
    } else {
        seq![(value % 256) as u8] + le_bytes(value / 256, (width - 1) as nat)
    }
}

/// An unsigned number below 2^128 as a variable-length integer: a number
/// below 251 is its own single byte; a larger one is a marker byte, which
/// names the narrowest of the widths 2, 4, 8 and 16 bytes that holds it,
/// followed by the number in that width, the least significant byte first.
pub open spec fn varint(value: nat) -> Seq<u8> {
    if value < 251 {
        seq![value as u8]
    } else if value < 0x1_0000 {
        seq![251u8] + le_bytes(value, 2)
    } else if value < 0x1_0000_0000 {
        seq![252u8] + le_bytes(value, 4)
    } else if value < 0x1_0000_0000_0000_0000 {
        seq![253u8] + le_bytes(value, 8)
    } else {
        seq![254u8] + le_bytes(value, 16)
    }
}

/// The players one after the other, each as space and best space.
pub open spec fn players_encoding(players: Seq<PlayerView>) -> Seq<u8>
    decreases players.len(),
{
    if players.len() == 0 {
        Seq::empty()
    } else {
        varint(players.first().space) + varint(players.first().best) + players_encoding(
            players.drop_first(),
        )
    }
}

impl GameView {
    /// The snapshot of the game as bytes.
    pub open spec fn encoding(self) -> Seq<u8> {
        varint(self.turn) + players_encoding(self.players)
    }
}

/// The game that `bincode` reads from the given bytes in its standard
/// configuration, or `None` where it reports an error.
pub uninterp spec fn decoded(bytes: Seq<u8>) -> Option<GameView>;

/// Writes a game as bytes.
///
/// Trusted, not proved: the body calls `bincode::encode_to_vec` with
/// `bincode::config::standard()` on the turn counter followed by the pairs of
/// space and best space. The crate writes tuples and arrays as their parts in
/// order with nothing added, and every unsigned number as the
/// variable-length integer that `varint` describes. The call is claimed to
/// succeed: the encoders of unsigned numbers, tuples and arrays raise no
/// error of their own and only hand on that of the writer, and the two
/// writers of `encode_to_vec`, one that counts the bytes and one that
/// appends them to a `Vec`, always return `Ok`.
#[verifier::external_body]
fn encode(game: &Game) -> (encoded: Result<Vec<u8>, bincode::error::EncodeError>)
    ensures
        encoded is Ok,
        encoded matches Ok(bytes) ==> bytes@ == game@.encoding(),
{
    let [a, b] = game.players;
    let players = [(a.current_space, a.high_score), (b.current_space, b.high_score)];
    bincode::encode_to_vec((game.turn_count, players), bincode::config::standard())
}

/// Reads a game from bytes.
///
/// Trusted, not proved: the body calls `bincode::decode_from_slice` with
/// `bincode::config::standard()` for a turn counter followed by two pairs of
/// space and best space. The result depends on the bytes alone and is named
/// `decoded`. Of that name the contract claims one thing: the bytes that
/// `encode` writes for a game are read back as that game.
#[verifier::external_body]
fn decode(bytes: &[u8]) -> (read: Result<Game, bincode::error::DecodeError>)
    ensures
        match read {
            Ok(game) => decoded(bytes@) == Some(game@),
            Err(_) => decoded(bytes@) is None,
        },
        forall|g: Game| bytes@ == #[trigger] g@.encoding() ==> read is Ok && read->Ok_0@ == g@,
{
    let standard = bincode::config::standard();
    let ((turn_count, [a, b]), _) = bincode::decode_from_slice::<(u128, [(u16, u16); 2]), _>(
        bytes,
        standard,
    )?;
    let first = Player { current_space: a.0, high_score: a.1 };
    let second = Player { current_space: b.0, high_score: b.1 };
    Ok(Game { turn_count, players: [first, second] })
}

/// The encoder reported an error. It stands for the error of the outside
/// encoder, which reports none for a game.
#[derive(Debug, Clone, Copy, PartialEq, Eq, Structural)]
pub struct EncodeFailed;

/// What a snapshot stands for: the game read from it, or a game before its
/// first turn where nothing could be read.
pub open spec fn restored(read: Option<GameView>) -> GameView {
    match read {
        Some(game) => game,
        None => GameView::fresh(),
    }
}

/// What to do about saving a game.
#[derive(Debug, PartialEq, Eq)]
pub enum SavePlan {
    /// No save file was named: nothing is saved.
    Skip,
    /// Write these bytes to the save file.
    Write(Vec<u8>),
    /// The game could not be turned into bytes: nothing can be written.
    Failed,
}

/// How a game was loaded.
#[derive(Debug, Clone, Copy, PartialEq, Eq, Structural)]
pub enum LoadStatus {
    /// The game was read from the save file.
    Restored,
    /// There was no save file to read: the game starts from scratch.
    Missing,
    /// The save file did not hold a game: the game starts from scratch.
    Malformed,
}

impl Game {
    /// Turns the game into the bytes of its snapshot. Every game has one:
    /// the result is always `Ok`.
    pub fn serialize(&self) -> (written: Result<Vec<u8>, EncodeFailed>)
        ensures
            written is Ok,
            written matches Ok(bytes) ==> bytes@ == self@.encoding(),
    {
        match encode(self) {
            Ok(bytes) => Ok(bytes),
            Err(_) => Err(EncodeFailed),
        }
    }

    /// The game that was read, or a game before its first turn where
    /// nothing was read.
    pub fn or_fresh(read: Option<Game>) -> (game: Game)
        ensures
            read matches Some(g) ==> game == g,
            read is None ==> game@ == GameView::fresh() && game.is_fresh(),
    {
        match read {
            Some(game) => game,
            None => Game::default(),
        }
    }

    /// Reads a game back from the bytes of a snapshot. Bytes that hold no
    /// game give a game before its first turn.
    pub fn deserialize(bytes: &[u8]) -> (game: Game)
        ensures
            game@ == restored(decoded(bytes@)),
            decoded(bytes@) is None ==> game.is_fresh(),
            forall|g: Game| bytes@ == #[trigger] g@.encoding() ==> game == g,
    {
        let read = match decode(bytes) {
            Ok(game) => Some(game),
            Err(_) => None,
        };
        let game = Game::or_fresh(read);
        assert forall|g: Game| bytes@ == #[trigger] g@.encoding() implies game == g by {
            lemma_view_is_injective(game, g);
        }
        game
    }
}

/// The number of values that fit in `width` bytes.
pub open spec fn span(width: nat) -> nat
    decreases width,
{
    if width == 0 {
        1
    } else {
        256 * span((width - 1) as nat)
    }
}

/// A number written in `width` bytes takes `width` bytes.
proof fn lemma_le_bytes_len(value: nat, width: nat)
    ensures
        le_bytes(value, width).len() == width,
    decreases width,
{
    if width > 0 {
        lemma_le_bytes_len(value / 256, (width - 1) as nat);
    }
}

/// Two numbers that fit in `width` bytes and are written alike are equal.
proof fn lemma_le_bytes_differ(a: nat, b: nat, width: nat)
    requires
        a < span(width),
        b < span(width),
        le_bytes(a, width) == le_bytes(b, width),
    ensures
        a == b,
    decreases width,
{
    if width > 0 {
        let rest = (width - 1) as nat;
        let written = le_bytes(a, width);
        assert(written[0] == (a % 256) as u8);
        assert(written[0] == (b % 256) as u8);
        assert(le_bytes(a / 256, rest) =~= written.skip(1));
        assert(le_bytes(b / 256, rest) =~= written.skip(1));
        lemma_le_bytes_differ(a / 256, b / 256, rest);
    }
}

/// The first byte of a variable-length integer tells how long it is.
proof fn lemma_varint_shape(value: nat)
    ensures
        varint(value).len() == (if varint(value)[0] < 251 {
            1nat
        } else if varint(value)[0] == 251 {
            3
        } else if varint(value)[0] == 252 {
            5
        } else if varint(value)[0] == 253 {
            9
        } else {
            17
        }),
        value < 251 <==> varint(value)[0] < 251,
        251 <= value < span(2) <==> varint(value)[0] == 251,
        span(2) <= value < span(4) <==> varint(value)[0] == 252,
        span(4) <= value < span(8) <==> varint(value)[0] == 253,
{
    reveal_with_fuel(span, 9);
    lemma_le_bytes_len(value, 2);
    lemma_le_bytes_len(value, 4);
    lemma_le_bytes_len(value, 8);
    lemma_le_bytes_len(value, 16);
}

/// No variable-length integer is the beginning of another: where two of
/// them, each followed by more bytes, give the same bytes, the numbers are
/// equal and so is what follows them.
proof fn lemma_varint_parts(a: nat, rest_a: Seq<u8>, b: nat, rest_b: Seq<u8>)
    requires
        a < span(16),
        b < span(16),
        varint(a) + rest_a == varint(b) + rest_b,
    ensures
        a == b,
        rest_a == rest_b,
{
    let whole = varint(a) + rest_a;
    lemma_varint_shape(a);
    lemma_varint_shape(b);
    assert(whole[0] == varint(a)[0]);
    assert(whole[0] == varint(b)[0]);
    let len = varint(a).len();
    assert(varint(a) =~= whole.take(len as int));
    assert(varint(b) =~= whole.take(len as int));
    assert(rest_a =~= whole.skip(len as int));
    assert(rest_b =~= whole.skip(len as int));
    if a >= 251 {
        let width = (len - 1) as nat;
        assert(le_bytes(a, width) =~= varint(a).skip(1));
        assert(le_bytes(b, width) =~= varint(b).skip(1));
        reveal_with_fuel(span, 9);
        lemma_le_bytes_differ(a, b, width);
    }
}

/// A snapshot holds one game only: two games with the same bytes are the
/// same game.
pub proof fn lemma_snapshot_determines_game(a: Game, b: Game)
    requires
        a@.encoding() == b@.encoding(),
    ensures
        a == b,
{
    reveal_with_fuel(players_encoding, 3);
    reveal_with_fuel(span, 17);
    let (a0, a1) = (a@.players[0], a@.players[1]);
    let (b0, b1) = (b@.players[0], b@.players[1]);
    assert(a@.players.drop_first().first() == a1);
    assert(b@.players.drop_first().first() == b1);
    assert(a@.players.drop_first().drop_first().len() == 0);
    assert(b@.players.drop_first().drop_first().len() == 0);
    let tail_a3 = varint(a1.best);
    let tail_b3 = varint(b1.best);
    let tail_a2 = varint(a1.space) + tail_a3;
    let tail_b2 = varint(b1.space) + tail_b3;
    let tail_a1 = varint(a0.best) + tail_a2;
    let tail_b1 = varint(b0.best) + tail_b2;
    let tail_a0 = varint(a0.space) + tail_a1;
    let tail_b0 = varint(b0.space) + tail_b1;
    assert(players_encoding(a@.players) =~= tail_a0);
    assert(players_encoding(b@.players) =~= tail_b0);
    lemma_varint_parts(a@.turn, tail_a0, b@.turn, tail_b0);
    lemma_varint_parts(a0.space, tail_a1, b0.space, tail_b1);
    lemma_varint_parts(a0.best, tail_a2, b0.best, tail_b2);
    lemma_varint_parts(a1.space, tail_a3, b1.space, tail_b3);
    assert(tail_a3 + Seq::<u8>::empty() =~= tail_a3);
    assert(tail_b3 + Seq::<u8>::empty() =~= tail_b3);
    lemma_varint_parts(a1.best, Seq::empty(), b1.best, Seq::empty());
    assert(a@.players =~= b@.players);
    lemma_view_is_injective(a, b);
}

/// Loads the game from what was read from the save file; `None` stands for a
/// file that was not named, does not exist or could not be read. Whatever
/// goes wrong, the game starts from scratch.
pub fn load_game(contents: Option<&[u8]>) -> (loaded: (Game, LoadStatus))
    ensures
        loaded.0@ == (match contents {
            Some(bytes) => restored(decoded(bytes@)),
            None => GameView::fresh(),
        }),
        loaded.1 == (match contents {
            Some(bytes) => if decoded(bytes@) is Some {
                LoadStatus::Restored
            } else {
                LoadStatus::Malformed
            },
            None => LoadStatus::Missing,
        }),
        loaded.1 != LoadStatus::Restored ==> loaded.0.is_fresh(),
        forall|g: Game|
            contents matches Some(bytes) && bytes@ == #[trigger] g@.encoding() ==> loaded.0 == g
                && loaded.1 == LoadStatus::Restored,
{
    let loaded = match contents {
        None => (Game::default(), LoadStatus::Missing),
        Some(bytes) => match decode(bytes) {
            Ok(game) => (game, LoadStatus::Restored),
            Err(_) => (Game::default(), LoadStatus::Malformed),
        },
    };
    assert forall|g: Game|
        contents matches Some(bytes) && bytes@ == #[trigger] g@.encoding() implies loaded.0 == g
        && loaded.1 == LoadStatus::Restored by {
        lemma_view_is_injective(loaded.0, g);
    }
    loaded
}

/// Prepares the saving of a game to the file at `path`. An empty path means
/// that the game is not saved.
pub fn save_game(game: &Game, path: &str) -> (plan: SavePlan)
    ensures
        path@.len() == 0 <==> plan is Skip,
        path@.len() != 0 <==> plan is Write,
        plan matches SavePlan::Write(bytes) ==> bytes@ == game@.encoding(),
{
    if path.is_empty() {
        return SavePlan::Skip;
    }
    match game.serialize() {
        Ok(bytes) => SavePlan::Write(bytes),
        Err(_) => SavePlan::Failed,
    }
}

} // verus!
