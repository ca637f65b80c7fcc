//! One worker of the simulation: it claims games from the shared counter
//! until none is left, plays each game it has claimed, and appends the
//! rounds the game took to the shared collection of results.

use crate::claims::claim_next;
use crate::play::{play_game, TurnCount};
use crate::random::{local_rng, RandomSource};
use crate::tileboard::Tile;
use std::sync::atomic::AtomicUsize;
use std::sync::{Arc, Mutex, MutexGuard, PoisonError};
use vstd::prelude::*;

verus! {

#[verifier::external_type_specification]
#[verifier::external_body]
#[verifier::reject_recursive_types(T)]
pub struct ExMutex<T: ?Sized>(Mutex<T>);

#[verifier::external_type_specification]
#[verifier::external_body]
#[verifier::reject_recursive_types(T)]
pub struct ExMutexGuard<'a, T: ?Sized + 'a>(MutexGuard<'a, T>);

#[verifier::external_type_specification]
#[verifier::external_body]
#[verifier::reject_recursive_types(T)]
pub struct ExPoisonError<T>(PoisonError<T>);

/// `Mutex::lock` on the collection of results: waits until no other thread
/// holds the lock and returns the guard through which the collection is
/// reached, as an error where a thread has failed while it held the lock.
/// Other workers append to the collection, so nothing is claimed of what it
/// holds; the caller must not hold the lock already.
#[verifier::external_body]
fn lock_results<'a>(results: &'a Mutex<Vec<TurnCount>>) -> Result<
    MutexGuard<'a, Vec<TurnCount>>,
    PoisonError<MutexGuard<'a, Vec<TurnCount>>>,
> {
    results.lock()
}

/// `PoisonError::into_inner`: the guard that the error of a poisoned lock
/// holds.
#[verifier::external_body]
fn guard_of_poisoned<'a>(poisoned: PoisonError<MutexGuard<'a, Vec<TurnCount>>>) -> MutexGuard<
    'a,
    Vec<TurnCount>,
> {
    poisoned.into_inner()
}

/// `Vec::push` on the collection behind a guard: appends `rounds` to it.
#[verifier::external_body]
fn push_locked(guard: &mut MutexGuard<'_, Vec<TurnCount>>, rounds: TurnCount) {
    guard.push(rounds)
}

/// Appends the rounds of one game to the shared collection of results,
/// holding the lock of the collection for the append alone. Where a thread
/// has failed while it held the lock, the append is made all the same, so
/// that what was recorded before stays in use.
pub fn record_result(results: &Mutex<Vec<TurnCount>>, rounds: TurnCount) {
    let mut guard = match lock_results(results) {
        Ok(guard) => guard,
        Err(poisoned) => guard_of_poisoned(poisoned),
    };
    push_locked(&mut guard, rounds);
}

/// Runs one worker with the given source of randomness: as long as a game
/// is left to claim, the worker claims one, plays it and records the rounds
/// it took. Returns the number of games that this worker played, which is
/// the number of results that it recorded.
pub fn play_claimed_games<R: RandomSource>(
    tileboard: &[Tile],
    games_played: &AtomicUsize,
    games_to_play: usize,
    player_count: usize,
    results: &Mutex<Vec<TurnCount>>,
    rng: &mut R,
) -> (played: usize)
    requires
        tileboard@.len() + 6 <= usize::MAX,
    ensures
        played <= games_to_play,
{
    let mut played: usize = 0;
    let mut games_left = true;
    while games_left && played < games_to_play
        invariant
            tileboard@.len() + 6 <= usize::MAX,
            played <= games_to_play,
        decreases games_to_play - played, if games_left { 1int } else { 0int },
    {
        match claim_next(games_played, games_to_play) {
            Some(_) => {
                let turn_count = play_game(tileboard, rng, player_count);
                record_result(results, turn_count);
                played += 1;
            },
            None => {
                games_left = false;
            },
        }
    }
    played
}

/// Runs one worker with the random number generator of the calling thread,
/// which no other worker shares.
pub fn play_all_games(
    tileboard: &[Tile],
    games_played: Arc<AtomicUsize>,
    games_to_play: usize,
    player_count: usize,
    results: Arc<Mutex<Vec<TurnCount>>>,
)
    requires
        tileboard@.len() + 6 <= usize::MAX,
{
    let mut rng = local_rng();
    play_claimed_games(tileboard, &games_played, games_to_play, player_count, &results, &mut rng);
}

} // verus!
