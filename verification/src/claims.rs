//! The counter from which parallel workers claim the games they play, and
//! the proof that the claims of any number of workers, in any order, hand
//! out every game exactly once.

use std::sync::atomic::AtomicUsize;
use std::sync::atomic::Ordering;
use vstd::prelude::*;

verus! {

/// The count that follows `count` while games are left to hand out: one
/// more, as long as `count` is below `total`.
pub open spec fn counted_up(count: int, total: int) -> Option<int> {
    if count < total {
        Some(count + 1)
    } else {
        None
    }
}

/// What a claim hands out when it finds the counter at `count`: the game
/// numbered `count`, as long as one is left.
pub open spec fn claim_at(count: int, total: int) -> Option<int> {
    if counted_up(count, total) is Some {
        Some(count)
    } else {
        None
    }
}

/// Whether a claim that finds the counter at `count` moves it up.
pub open spec fn moves_up(count: usize, total: usize) -> bool {
    counted_up(count as int, total as int) is Some
}

/// The count that follows `count`, if a game is left to hand out.
pub fn count_up(count: usize, total: usize) -> (next: Option<usize>)
    ensures
        next is Some <==> moves_up(count, total),
        next matches Some(n) ==> counted_up(count as int, total as int) == Some(n as int),
{
    if count < total {
        Some(count + 1)
    } else {
        None
    }
}

/// `AtomicUsize::fetch_update` with `count_up` as the update. As std
/// documents it, the call returns the value that it found in the counter:
/// as `Ok` if the update gave a new value, which the call has then stored,
/// and as `Err` if the update gave none.
#[verifier::external_body]
fn fetch_counted_up(counter: &AtomicUsize, total: usize) -> (seen: Result<usize, usize>)
    ensures
        seen matches Ok(previous) ==> moves_up(previous, total),
        seen matches Err(previous) ==> !moves_up(previous, total),
{
    counter.fetch_update(Ordering::AcqRel, Ordering::Relaxed, |count| count_up(count, total))
}

/// The game that a claim hands out, given what the claim found in the
/// counter: the game with the number found, if the counter went up.
pub fn claimed_game(seen: Result<usize, usize>) -> (claimed: Option<usize>)
    ensures
        claimed == match seen {
            Ok(previous) => Some(previous),
            Err(_) => None::<usize>,
        },
{
    match seen {
        Ok(previous) => Some(previous),
        Err(_) => None,
    }
}

/// Claims the next game that no worker has claimed yet, in one atomic step
/// on the shared counter, which never rises above `games_to_play`. The game
/// that comes back is one of the games to play; none comes back once the
/// counter has reached `games_to_play`.
pub fn claim_next(games_played: &AtomicUsize, games_to_play: usize) -> (claimed: Option<usize>)
    ensures
        claimed matches Some(game) ==> game < games_to_play,
{
    claimed_game(fetch_counted_up(games_played, games_to_play))
}

/// The value of the counter after `claims` claims have taken effect on it,
/// one after the other, starting from zero.
pub open spec fn counter_after(total: nat, claims: nat) -> int
    decreases claims,
{
    if claims == 0 {
        0
    } else {
        let before = counter_after(total, (claims - 1) as nat);
        match counted_up(before, total as int) {
            Some(next) => next,
            None => before,
        }
    }
}

/// What the claim numbered `k` hands out, the claims being numbered from
/// zero in the order in which they take effect on the counter.
pub open spec fn outcome(total: nat, k: nat) -> Option<int> {
    claim_at(counter_after(total, k), total as int)
}

/// A schedule names, for each claim in the order in which the claims take
/// effect on the counter, the worker that makes it. This is the set of games
/// that `worker` is handed under `schedule`.
pub open spec fn games_of(total: nat, schedule: Seq<nat>, worker: nat) -> Set<int> {
    Set::new(
        |game: int|
            exists|k: int|
                0 <= k < schedule.len() && schedule[k] == worker && #[trigger] outcome(total, k as nat)
                    == Some(game),
    )
}

/// Whether one of the workers numbered below `workers` is handed `game`
/// under `schedule`.
pub open spec fn is_handed_out(total: nat, workers: nat, schedule: Seq<nat>, game: int) -> bool {
    exists|worker: nat| worker < workers && #[trigger] games_of(total, schedule, worker).contains(game)
}

/// Whether `worker` has been told under `schedule` that no game is left,
/// which is when a worker stops.
pub open spec fn has_stopped(total: nat, schedule: Seq<nat>, worker: nat) -> bool {
    exists|k: int|
        0 <= k < schedule.len() && schedule[k] == worker && (#[trigger] outcome(total, k as nat)) is None
}

/// The counter counts the claims until it reaches the number of games, and
/// stays there.
pub proof fn lemma_counter_after(total: nat, claims: nat)
    ensures
        counter_after(total, claims) == (if claims <= total {
            claims
        } else {
            total
        }),
    decreases claims,
{
    if claims > 0 {
        lemma_counter_after(total, (claims - 1) as nat);
    }
}

/// The claim numbered `k` hands out the game numbered `k`, as long as `k` is
/// the number of a game; after that a claim hands out nothing.
pub proof fn lemma_outcome(total: nat, k: nat)
    ensures
        outcome(total, k) == (if k < total {
            Some(k as int)
        } else {
            None
        }),
{
    lemma_counter_after(total, k);
}

/// Whatever the number of workers and the order in which their claims take
/// effect: no game is handed out twice, no game goes to two workers, and
/// once every worker has stopped the games that the workers were handed are
/// exactly the games numbered 0 to `total - 1`.
pub proof fn lemma_claims_hand_out_each_game_once(total: nat, workers: nat, schedule: Seq<nat>)
    requires
        workers >= 1,
        forall|k: int| 0 <= k < schedule.len() ==> #[trigger] schedule[k] < workers,
    ensures
        forall|j: nat, k: nat| outcome(total, j) is Some && outcome(total, j) == outcome(total, k) ==> j == k,
        forall|game: int, first: nat, second: nat|
            games_of(total, schedule, first).contains(game) && games_of(total, schedule, second).contains(game)
                ==> first == second,
        forall|game: int, worker: nat| #[trigger]
            games_of(total, schedule, worker).contains(game) ==> 0 <= game < total,
        (forall|worker: nat| worker < workers ==> has_stopped(total, schedule, worker)) ==> forall|game: int|
            0 <= game < total <==> #[trigger] is_handed_out(total, workers, schedule, game),
{
    assert forall|j: nat, k: nat| outcome(total, j) is Some && outcome(total, j) == outcome(
        total,
        k,
    ) implies j == k by {
        lemma_outcome(total, j);
        lemma_outcome(total, k);
    }
    assert forall|game: int, first: nat, second: nat|
        games_of(total, schedule, first).contains(game) && games_of(total, schedule, second).contains(
            game,
        ) implies first == second by {
        let j = choose|k: int|
            0 <= k < schedule.len() && schedule[k] == first && #[trigger] outcome(total, k as nat) == Some(
                game,
            );
        let k = choose|k: int|
            0 <= k < schedule.len() && schedule[k] == second && #[trigger] outcome(total, k as nat) == Some(
                game,
            );
        lemma_outcome(total, j as nat);
        lemma_outcome(total, k as nat);
    }
    assert forall|game: int, worker: nat| #[trigger]
        games_of(total, schedule, worker).contains(game) implies 0 <= game < total by {
        let k = choose|k: int|
            0 <= k < schedule.len() && schedule[k] == worker && #[trigger] outcome(total, k as nat) == Some(
                game,
            );
        lemma_outcome(total, k as nat);
    }
    if forall|worker: nat| worker < workers ==> has_stopped(total, schedule, worker) {
        assert(has_stopped(total, schedule, 0));
        let last = choose|k: int|
            0 <= k < schedule.len() && schedule[k] == 0 && (#[trigger] outcome(total, k as nat)) is None;
        lemma_outcome(total, last as nat);
        assert(total <= last < schedule.len());
        assert forall|game: int| 0 <= game < total implies #[trigger] is_handed_out(
            total,
            workers,
            schedule,
            game,
        ) by {
            lemma_outcome(total, game as nat);
            let worker = schedule[game];
            assert(outcome(total, game as nat) == Some(game));
            assert(games_of(total, schedule, worker).contains(game));
        }
    }
}

} // verus!
