//! The rules of play: what one turn does to a player, and how a game runs
//! from its first roll to the turn that wins it.

use crate::dice::{DiceSet, RollResult};
use crate::random::RandomSource;
use crate::tileboard::{
    find_next_eel, find_next_escalator, lemma_next_special_is_first, next_special, SpecialKind, Tile,
};
use vstd::prelude::*;

verus! {

/// The number of rounds that a game took.
pub type TurnCount = u64;

/// One player of a game: the index at which the player stands, which may lie
/// beyond the board, and whether the player has won.
#[derive(Clone, Copy, Debug, PartialEq, Eq, Structural)]
pub struct Player {
    pub location: usize,
    pub has_won: bool,
}

impl Default for Player {
    fn default() -> (player: Player)
        ensures
            player == Player::fresh(),
    {
        Player { location: 0, has_won: false }
    }
}

/// The index to which a roll moves a player who stands at `location`, before
/// the tile there is looked at. Eels and an escalator move the player to the
/// next tile of their kind at or after `location`, if the board has one; any
/// other roll advances the player by the number rolled.
pub open spec fn landing(board: Seq<Tile>, location: int, roll: RollResult) -> int {
    match roll {
        RollResult::Eels(n) => match next_special(board, SpecialKind::Eel, location) {
            Some(i) => i,
            None => location + n,
        },
        RollResult::Escalator(n) => match next_special(board, SpecialKind::Escalator, location) {
            Some(i) => i,
            None => location + n,
        },
        RollResult::Number(n) => location + n,
    }
}

impl Player {
    /// A player at the start of a game.
    pub open spec fn fresh() -> Player {
        Player { location: 0, has_won: false }
    }

    /// The player after the tile at the player's index has been followed,
    /// once: a special tile sends the player to its destination, a normal
    /// tile changes nothing, and beyond the board the player has won.
    pub open spec fn followed(self, board: Seq<Tile>) -> Player {
        if self.location < board.len() {
            match board[self.location as int].destination() {
                Some(d) => Player { location: d as usize, has_won: self.has_won },
                None => self,
            }
        } else {
            Player { location: self.location, has_won: true }
        }
    }

    /// The player after one turn with the given roll: moved to where the
    /// roll lands, and then sent on by the tile there.
    pub open spec fn after_turn(self, board: Seq<Tile>, roll: RollResult) -> Player {
        (Player { location: landing(board, self.location as int, roll) as usize, has_won: self.has_won }).followed(
            board,
        )
    }

    /// Follows the tile on which the player stands, once.
    pub fn follow_tile(&mut self, tileboard: &[Tile])
        ensures
            *final(self) == old(self).followed(tileboard@),
    {
        if self.location < tileboard.len() {
            match tileboard[self.location] {
                Tile::Eel(dest) => {
                    self.location = dest as usize;
                },
                Tile::Escalator(dest) => {
                    self.location = dest as usize;
                },
                Tile::Normal => {},
            }
        } else {
            self.has_won = true;
        }
    }

    /// Plays one turn with the given roll: moves the player to where the
    /// roll lands and follows the tile there. The player who lands on a
    /// special tile ends the turn on that tile's destination, whatever tile
    /// lies there; the player who lands beyond the board has won and stays
    /// where the roll landed.
    pub fn resolve_turn(&mut self, tileboard: &[Tile], roll: RollResult)
        requires
            landing(tileboard@, old(self).location as int, roll) <= usize::MAX,
        ensures
            *final(self) == old(self).after_turn(tileboard@, roll),
            ({
                let at = landing(tileboard@, old(self).location as int, roll);
                &&& 0 <= at
                &&& at < tileboard@.len() ==> final(self).has_won == old(self).has_won
                &&& at < tileboard@.len() ==> match tileboard@[at].destination() {
                    Some(d) => final(self).location == d,
                    None => final(self).location == at,
                }
                &&& at >= tileboard@.len() ==> final(self).has_won && final(self).location == at
            }),
    {
        match roll {
            RollResult::Eels(n) => {
                match find_next_eel(tileboard, self.location) {
                    Some(position) => {
                        self.location = position;
                    },
                    None => {
                        self.location = self.location + n as usize;
                    },
                }
            },
            RollResult::Escalator(n) => {
                match find_next_escalator(tileboard, self.location) {
                    Some(position) => {
                        self.location = position;
                    },
                    None => {
                        self.location = self.location + n as usize;
                    },
                }
            },
            RollResult::Number(n) => {
                self.location = self.location + n as usize;
            },
        }
        self.follow_tile(tileboard);
    }

    /// Rolls the dice and plays one turn with what they show.
    pub fn play_turn<R: RandomSource>(&mut self, tileboard: &[Tile], rng: &mut R, dice_set: &mut DiceSet)
        requires
            old(dice_set).wf(),
            old(self).location + old(dice_set).highest() <= usize::MAX,
        ensures
            final(dice_set).wf(),
            final(dice_set).lowest() == old(dice_set).lowest(),
            final(dice_set).faces() == old(dice_set).faces(),
            final(dice_set).lowest() <= final(dice_set).result().number() <= final(dice_set).highest(),
            *final(self) == old(self).after_turn(tileboard@, final(dice_set).result()),
    {
        dice_set.roll_all(rng);
        let roll = dice_set.get_result();
        proof {
            assert(tileboard@.len() == tileboard.len());
            lemma_next_special_is_first(tileboard@, SpecialKind::Eel, self.location as int);
            lemma_next_special_is_first(tileboard@, SpecialKind::Escalator, self.location as int);
        }
        self.resolve_turn(tileboard, roll);
    }
}

/// The state of a game between two turns.
pub struct Game {
    /// The players, in the order in which they move.
    pub players: Seq<Player>,
    /// The index of the player who moves next.
    pub turn: int,
    /// The number of rounds begun so far.
    pub rounds: int,
    /// Whether a player has won, which ends the game.
    pub won: bool,
}

impl Game {
    /// A game of `count` players before its first turn.
    pub open spec fn start(count: nat) -> Game {
        Game { players: Seq::new(count, |i: int| Player::fresh()), turn: 0, rounds: 0, won: false }
    }

    /// The game after the player whose turn it is has played `roll`. A round
    /// begins with the turn of the first player and is counted from then on,
    /// so the round in which a player wins counts, and nobody moves after
    /// that player. A game that is won, or that nobody plays, stays as it is.
    pub open spec fn step(self, board: Seq<Tile>, roll: RollResult) -> Game {
        if self.won || !(0 <= self.turn < self.players.len()) {
            self
        } else {
            let moved = self.players[self.turn].after_turn(board, roll);
            let rounds = if self.turn == 0 {
                self.rounds + 1
            } else {
                self.rounds
            };
            Game {
                players: self.players.update(self.turn, moved),
                turn: if moved.has_won {
                    self.turn
                } else if self.turn + 1 == self.players.len() {
                    0
                } else {
                    self.turn + 1
                },
                rounds,
                won: moved.has_won,
            }
        }
    }

    /// The game after the given rolls have been played, one to a turn.
    pub open spec fn run(self, board: Seq<Tile>, rolls: Seq<RollResult>) -> Game
        decreases rolls.len(),
    {
        if rolls.len() == 0 {
            self
        } else {
            self.run(board, rolls.drop_last()).step(board, rolls.last())
        }
    }
}

/// Every roll of the sequence carries a face of a number die with the faces
/// `lowest` to `highest`.
pub open spec fn rolls_within(rolls: Seq<RollResult>, lowest: int, highest: int) -> bool {
    forall|j: int| 0 <= j < rolls.len() ==> lowest <= (#[trigger] rolls[j]).number() <= highest
}

/// A game of `count` players on `board` that the rolls of six-sided dice in
/// `rolls` bring to a win in the round numbered `rounds`, no roll being left
/// over.
pub open spec fn won_in(board: Seq<Tile>, count: nat, rolls: Seq<RollResult>, rounds: int) -> bool {
    &&& rolls.len() > 0
    &&& rolls_within(rolls, 1, 6)
    &&& !Game::start(count).run(board, rolls.drop_last()).won
    &&& Game::start(count).run(board, rolls).won
    &&& Game::start(count).run(board, rolls).rounds == rounds
}

/// A game of `count` players on `board` that the rolls of six-sided dice in
/// `rolls` take through `rounds` whole rounds, each player moving once in
/// each, without a win.
pub open spec fn unwon_after(board: Seq<Tile>, count: nat, rolls: Seq<RollResult>, rounds: int) -> bool {
    &&& rolls_within(rolls, 1, 6)
    &&& rolls.len() == rounds * count
    &&& !Game::start(count).run(board, rolls).won
    &&& Game::start(count).run(board, rolls).turn == 0
    &&& Game::start(count).run(board, rolls).rounds == rounds
}

/// What the rolls in `rolls` make of a game that is counted as `rounds`
/// rounds: they win it in that round, or the count stands at its cap of
/// `u64::MAX` after as many whole rounds without a win.
pub open spec fn played_as(board: Seq<Tile>, count: nat, rolls: Seq<RollResult>, rounds: int) -> bool {
    won_in(board, count, rolls, rounds) || (rounds == u64::MAX && unwon_after(board, count, rolls, rounds))
}

/// On a board of one normal tile the first player wins with the first roll,
/// whatever the dice show, as long as no number rolled is zero: however
/// many rolls are at hand, the game is won in its first round.
pub proof fn lemma_one_tile_game_takes_one_round(count: nat, rolls: Seq<RollResult>)
    requires
        count >= 1,
        rolls.len() >= 1,
        forall|j: int| 0 <= j < rolls.len() ==> (#[trigger] rolls[j]).number() >= 1,
    ensures
        Game::start(count).run(seq![Tile::Normal], rolls).won,
        Game::start(count).run(seq![Tile::Normal], rolls).rounds == 1,
    decreases rolls.len(),
{
    let board = seq![Tile::Normal];
    if rolls.len() == 1 {
        let roll = rolls[0];
        reveal_with_fuel(next_special, 3);
        reveal_with_fuel(Game::run, 2);
        assert(rolls.drop_last() =~= Seq::<RollResult>::empty());
        assert(rolls.last() == roll);
        assert(landing(board, 0, roll) >= 1) by {
            lemma_next_special_is_first(board, SpecialKind::Eel, 0);
            lemma_next_special_is_first(board, SpecialKind::Escalator, 0);
        }
    } else {
        lemma_one_tile_game_takes_one_round(count, rolls.drop_last());
    }
}

/// A game on a board of one normal tile is counted as one round, whatever
/// the number of its players and whatever the dice show.
pub proof fn lemma_one_tile_game_is_counted_as_one(count: nat, rolls: Seq<RollResult>, rounds: int)
    requires
        count >= 1,
        played_as(seq![Tile::Normal], count, rolls, rounds),
    ensures
        rounds == 1,
{
    if rolls.len() >= 1 {
        lemma_one_tile_game_takes_one_round(count, rolls);
    } else {
        assert(rounds * count == 0);
        assert(rounds != u64::MAX) by (nonlinear_arith)
            requires
                rounds * count == 0,
                count >= 1,
        ;
    }
}

/// Whether every tile of the board is a normal tile.
pub open spec fn all_normal(board: Seq<Tile>) -> bool {
    forall|i: int| 0 <= i < board.len() ==> (#[trigger] board[i]) is Normal
}

/// The number of turns that the player numbered `k` has had in a game.
spec fn turns_taken(game: Game, k: int) -> int {
    if game.turn == 0 || k < game.turn {
        game.rounds
    } else {
        game.rounds - 1
    }
}

/// What holds of a game on a board of `len` normal tiles: a player who has
/// had some turns has moved by one to six tiles in each and is still on the
/// board, and a game that is won was won in a round that the length of the
/// board bounds.
spec fn on_normal_board(game: Game, count: nat, len: int) -> bool {
    &&& game.players.len() == count
    &&& 0 <= game.turn < count
    &&& 0 <= game.rounds
    &&& game.turn > 0 ==> game.rounds >= 1
    &&& !game.won ==> forall|k: int|
        0 <= k < count ==> {
            &&& !(#[trigger] game.players[k]).has_won
            &&& turns_taken(game, k) <= game.players[k].location <= 6 * turns_taken(game, k)
            &&& game.players[k].location < len
        }
    &&& game.won ==> game.rounds <= len <= 6 * game.rounds
}

/// One turn keeps what holds of a game on a board of normal tiles.
proof fn lemma_normal_board_step(board: Seq<Tile>, count: nat, game: Game, roll: RollResult)
    requires
        all_normal(board),
        1 <= board.len(),
        board.len() + 6 <= usize::MAX,
        1 <= roll.number() <= 6,
        on_normal_board(game, count, board.len() as int),
    ensures
        on_normal_board(game.step(board, roll), count, board.len() as int),
{
    if !game.won {
        let player = game.players[game.turn];
        let at = player.location as int;
        assert(!player.has_won && at < board.len());
        lemma_next_special_is_first(board, SpecialKind::Eel, at);
        lemma_next_special_is_first(board, SpecialKind::Escalator, at);
        assert(landing(board, at, roll) == at + roll.number());
        let moved = player.after_turn(board, roll);
        assert(moved.location == at + roll.number());
        assert(moved.has_won == (at + roll.number() >= board.len()));
        let next = game.step(board, roll);
        assert(next.players == game.players.update(game.turn, moved));
        if !next.won {
            assert forall|k: int| 0 <= k < count implies {
                &&& !(#[trigger] next.players[k]).has_won
                &&& turns_taken(next, k) <= next.players[k].location <= 6 * turns_taken(next, k)
                &&& next.players[k].location < board.len()
            } by {
                assert(!game.players[k].has_won);
            }
        }
    }
}

/// The rolls of six-sided dice keep what holds of a game on a board of
/// normal tiles.
proof fn lemma_normal_board_run(board: Seq<Tile>, count: nat, rolls: Seq<RollResult>)
    requires
        all_normal(board),
        1 <= board.len(),
        board.len() + 6 <= usize::MAX,
        count >= 1,
        rolls_within(rolls, 1, 6),
    ensures
        on_normal_board(Game::start(count).run(board, rolls), count, board.len() as int),
    decreases rolls.len(),
{
    if rolls.len() > 0 {
        lemma_normal_board_run(board, count, rolls.drop_last());
        lemma_normal_board_step(
            board,
            count,
            Game::start(count).run(board, rolls.drop_last()),
            rolls.last(),
        );
    }
}

/// On a board of normal tiles each turn takes a player one to six tiles
/// on, so a game on it is counted as no fewer rounds than a sixth of the
/// length of the board and as no more rounds than its length, whatever the
/// number of its players and whatever the dice show.
pub proof fn lemma_normal_board_game_is_bounded(
    board: Seq<Tile>,
    count: nat,
    rolls: Seq<RollResult>,
    rounds: int,
)
    requires
        all_normal(board),
        1 <= board.len(),
        board.len() + 6 <= usize::MAX,
        count >= 1,
        played_as(board, count, rolls, rounds),
    ensures
        rounds <= board.len() <= 6 * rounds,
{
    lemma_normal_board_run(board, count, rolls);
    let game = Game::start(count).run(board, rolls);
    if !game.won {
        assert(!game.players[0].has_won);
        assert(turns_taken(game, 0) == u64::MAX);
    }
}

/// Plays one game of `player_count` players and returns the number of rounds
/// it took, the round of the winning turn included. The players move in a
/// fixed order, each turn with a fresh roll of the dice, and the game ends
/// with the turn of the first player who gets beyond the board, so that
/// nobody moves after the winner. The count stops at `u64::MAX`: that is
/// the count of a game that no player has won by then, and of a game
/// without players, which nobody can win.
pub fn play_game<R: RandomSource>(tileboard: &[Tile], rng: &mut R, player_count: usize) -> (rounds: TurnCount)
    requires
        tileboard@.len() + 6 <= usize::MAX,
    ensures
        rounds >= 1,
        player_count == 0 ==> rounds == u64::MAX,
        player_count > 0 ==> exists|rolls: Seq<RollResult>| #[trigger]
            played_as(tileboard@, player_count as nat, rolls, rounds as int),
{
    if player_count == 0 {
        return u64::MAX;
    }
    let mut dice_set = DiceSet::new();
    let mut players: Vec<Player> = Vec::new();
    while players.len() < player_count
        invariant
            players@.len() <= player_count,
            forall|k: int| 0 <= k < players@.len() ==> players@[k] == Player::fresh(),
        decreases player_count - players@.len(),
    {
        players.push(Player::default());
    }
    let ghost board = tileboard@;
    let ghost mut rolls: Seq<RollResult> = Seq::empty();
    let ghost mut game = Game::start(player_count as nat);
    assert(players@ =~= game.players);

    let mut turn_count: TurnCount = 0;
    let mut game_over = false;

    while !game_over && turn_count < u64::MAX
        invariant
            board == tileboard@,
            board.len() + 6 <= usize::MAX,
            player_count > 0,
            dice_set.wf(),
            dice_set.lowest() == 1,
            dice_set.faces() == 6,
            players@.len() == player_count,
            players@ == game.players,
            game == Game::start(player_count as nat).run(board, rolls),
            rolls_within(rolls, 1, 6),
            game.won == game_over,
            game.rounds == turn_count,
            !game_over ==> game.turn == 0,
            !game_over ==> rolls.len() == turn_count * player_count,
            !game_over ==> forall|k: int|
                0 <= k < players@.len() ==> (#[trigger] players@[k]).location < board.len() || players@[k].location
                    <= u8::MAX,
            game_over ==> won_in(board, player_count as nat, rolls, turn_count as int),
            game_over ==> turn_count >= 1,
        decreases u64::MAX - turn_count, if game_over { 0int } else { 1int },
    {
        let mut index: usize = 0;
        while index < player_count && !game_over
            invariant
                board == tileboard@,
                board.len() + 6 <= usize::MAX,
                player_count > 0,
                dice_set.wf(),
                dice_set.lowest() == 1,
                dice_set.faces() == 6,
                turn_count < u64::MAX,
                index <= player_count,
                players@.len() == player_count,
                players@ == game.players,
                game == Game::start(player_count as nat).run(board, rolls),
                rolls_within(rolls, 1, 6),
                game.won == game_over,
                !game_over ==> game.turn == (if index == player_count { 0 } else { index as int }),
                !game_over ==> game.rounds == (if index == 0 { turn_count as int } else { turn_count + 1 }),
                !game_over ==> rolls.len() == turn_count * player_count + index,
                !game_over ==> forall|k: int|
                    0 <= k < players@.len() ==> (#[trigger] players@[k]).location < board.len()
                        || players@[k].location <= u8::MAX,
                game_over ==> won_in(board, player_count as nat, rolls, turn_count + 1),
            decreases player_count - index, if game_over { 0int } else { 1int },
        {
            let mut player = players[index];
            let ghost before = game;
            player.play_turn(tileboard, rng, &mut dice_set);
            players.set(index, player);
            proof {
                let roll = dice_set.result();
                assert(rolls.push(roll).drop_last() =~= rolls);
                rolls = rolls.push(roll);
                game = before.step(board, roll);
                assert(players@ =~= game.players);
            }
            if player.has_won {
                game_over = true;
            } else {
                index += 1;
            }
        }
        assert((turn_count + 1) * player_count == turn_count * player_count + player_count) by (nonlinear_arith);
        turn_count += 1;
    }
    proof {
        assert(played_as(board, player_count as nat, rolls, turn_count as int));
    }
    turn_count
}

} // verus!
