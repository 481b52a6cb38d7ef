//! What holds of the debouncer over a run of calls.
//!
//! A lock round the debouncer turns calls that overlap into some order of
//! whole calls, so what is shown here of every order holds of every
//! interleaving.

use crate::debouncer::{expired, held_back, live, noted, WINDOW_NANOS};
use vstd::prelude::*;
use vstd::set_lib::lemma_len_subset;

verus! {

/// One request to notify `token`, made at time `at`.
pub struct Call {
    pub at: u64,
    pub token: Seq<char>,
}

/// The known tokens after `calls` were made in turn, starting from `known`.
pub open spec fn replay(known: Map<Seq<char>, u64>, calls: Seq<Call>) -> Map<Seq<char>, u64>
    decreases calls.len(),
{
    if calls.len() == 0 {
        known
    } else {
        noted(replay(known, calls.drop_last()), calls.last().at, calls.last().token)
    }
}

/// Whether call `i` of `calls` is held back, the calls before it having
/// been made in turn from `known`.
pub open spec fn suppressed(known: Map<Seq<char>, u64>, calls: Seq<Call>, i: int) -> bool {
    held_back(replay(known, calls.take(i)), calls[i].at, calls[i].token)
}

/// The times of `calls` never go back.
pub open spec fn in_time_order(calls: Seq<Call>) -> bool {
    forall|i: int, j: int| 0 <= i <= j < calls.len() ==> (#[trigger] calls[i]).at <= (
    #[trigger] calls[j]).at
}

/// Number of `calls` made less than a window before `now`.
pub open spec fn recent(calls: Seq<Call>, now: u64) -> nat
    decreases calls.len(),
{
    if calls.len() == 0 {
        0
    } else if expired(calls.last().at, now) {
        recent(calls.drop_last(), now)
    } else {
        recent(calls.drop_last(), now) + 1
    }
}

/// Whether call `i` of `calls`, made from no token known, is for `token`,
/// was let through, and lies less than a window before `now`.
pub open spec fn let_through_at(calls: Seq<Call>, now: u64, token: Seq<char>, i: int) -> bool {
    &&& 0 <= i < calls.len()
    &&& calls[i].token == token
    &&& !suppressed(Map::empty(), calls, i)
    &&& !expired(calls[i].at, now)
}

/// Whether some call of `calls` for `token` was let through less than a
/// window before `now`.
pub open spec fn let_through_recently(calls: Seq<Call>, now: u64, token: Seq<char>) -> bool {
    exists|i: int| #[trigger] let_through_at(calls, now, token, i)
}

/// A token that is let through at `t0` is held back at every time less
/// than a window after `t0`, and let through again from a window after `t0`
/// on.
pub proof fn lemma_window(known: Map<Seq<char>, u64>, t0: u64, t: u64, token: Seq<char>)
    requires
        !held_back(known, t0, token),
    ensures
        held_back(noted(known, t0, token), t, token) <==> t - t0 < WINDOW_NANOS,
{
}

/// A call that is held back does not move the time the token was recorded
/// at: at every time the token is held back exactly if it would have been
/// without that call.
pub proof fn lemma_no_refresh(known: Map<Seq<char>, u64>, now: u64, later: u64, token: Seq<char>)
    requires
        held_back(known, now, token),
    ensures
        noted(known, now, token)[token] == known[token],
        held_back(noted(known, now, token), later, token) == held_back(known, later, token),
{
}

/// Three calls for one token: let through at `t0`, held back at `t1` inside
/// the window, and at `t2` the answer goes by `t0` alone, whatever `t1` was.
pub proof fn lemma_window_counts_from_first(
    known: Map<Seq<char>, u64>,
    t0: u64,
    t1: u64,
    t2: u64,
    token: Seq<char>,
)
    requires
        !held_back(known, t0, token),
        t1 - t0 < WINDOW_NANOS,
    ensures
        held_back(noted(known, t0, token), t1, token),
        held_back(noted(noted(known, t0, token), t1, token), t2, token) <==> t2 - t0
            < WINDOW_NANOS,
{
    lemma_window(known, t0, t1, token);
    lemma_no_refresh(noted(known, t0, token), t1, t2, token);
    lemma_window(known, t0, t2, token);
}

/// Distinct tokens do not affect each other: a call for another token
/// leaves the answer for `token` at any later time as it was.
pub proof fn lemma_tokens_independent(
    known: Map<Seq<char>, u64>,
    now: u64,
    later: u64,
    other: Seq<char>,
    token: Seq<char>,
)
    requires
        other != token,
        now <= later,
    ensures
        held_back(noted(known, now, other), later, token) == held_back(known, later, token),
{
}

/// What has left the window at one time has left it at every later time.
pub proof fn lemma_live_twice(known: Map<Seq<char>, u64>, earlier: u64, now: u64)
    requires
        earlier <= now,
    ensures
        live(live(known, earlier), now) == live(known, now),
{
    assert(live(live(known, earlier), now) =~= live(known, now));
}

/// Right after a call nothing has left the window: what is known then is
/// what is inside the window at the time of the call.
pub proof fn lemma_noted_is_live(known: Map<Seq<char>, u64>, now: u64, token: Seq<char>)
    ensures
        live(noted(known, now, token), now) == noted(known, now, token),
        live(live(known, now), now) == live(known, now),
{
    assert(live(noted(known, now, token), now) =~= noted(known, now, token));
    assert(live(live(known, now), now) =~= live(known, now));
}

/// Among finitely many known tokens, finitely many are inside the window,
/// and a call adds at most one.
pub proof fn lemma_noted_finite(known: Map<Seq<char>, u64>, now: u64, token: Seq<char>)
    requires
        known.dom().finite(),
    ensures
        live(known, now).dom().finite(),
        live(known, now).len() <= known.len(),
        noted(known, now, token).dom().finite(),
        noted(known, now, token).len() <= live(known, now).len() + 1,
{
    lemma_len_subset(live(known, now).dom(), known.dom());
}

/// Calls for one token that reach the debouncer in any order, with times
/// less than a window apart, the token not being held back when the first
/// of them arrives: that first call is let through, and every other one is
/// held back.
pub proof fn lemma_one_let_through(known: Map<Seq<char>, u64>, calls: Seq<Call>, token: Seq<char>)
    requires
        calls.len() >= 1,
        forall|i: int| 0 <= i < calls.len() ==> (#[trigger] calls[i]).token == token,
        forall|i: int, j: int|
            0 <= i < calls.len() && 0 <= j < calls.len() ==> (#[trigger] calls[i]).at - (
            #[trigger] calls[j]).at < WINDOW_NANOS,
        !held_back(known, calls[0].at, token),
    ensures
        !suppressed(known, calls, 0),
        forall|i: int| 1 <= i < calls.len() ==> #[trigger] suppressed(known, calls, i),
{
    assert(calls.take(0) =~= Seq::<Call>::empty());
    assert forall|i: int| 1 <= i < calls.len() implies #[trigger] suppressed(known, calls, i) by {
        lemma_first_stays(known, calls, token, i);
    }
}

/// Under the conditions of `lemma_one_let_through`, after the first `k`
/// calls the token is recorded at the time of the first call.
proof fn lemma_first_stays(known: Map<Seq<char>, u64>, calls: Seq<Call>, token: Seq<char>, k: int)
    requires
        1 <= k <= calls.len(),
        forall|i: int| 0 <= i < calls.len() ==> (#[trigger] calls[i]).token == token,
        forall|i: int, j: int|
            0 <= i < calls.len() && 0 <= j < calls.len() ==> (#[trigger] calls[i]).at - (
            #[trigger] calls[j]).at < WINDOW_NANOS,
        !held_back(known, calls[0].at, token),
    ensures
        replay(known, calls.take(k)).contains_key(token),
        replay(known, calls.take(k))[token] == calls[0].at,
    decreases k,
{
    let upto = calls.take(k);
    assert(upto.drop_last() =~= calls.take(k - 1));
    assert(upto.last() == calls[k - 1]);
    if k == 1 {
        assert(calls.take(0) =~= Seq::<Call>::empty());
        assert(replay(known, calls.take(0)) == known);
    } else {
        lemma_first_stays(known, calls, token, k - 1);
        assert(calls[k - 1].at - calls[0].at < WINDOW_NANOS);
    }
}

/// After calls made in the order of their times, starting with no token
/// known, the tokens inside the window at a time `now` not before the last
/// call are exactly the tokens of the calls that were let through less
/// than a window before `now`. There are finitely many of them, at most as
/// many as calls were made less than a window before `now`. The debouncer's
/// count after a call that drops expired entries is the number of these
/// tokens.
pub proof fn lemma_live_tokens(calls: Seq<Call>, now: u64)
    requires
        in_time_order(calls),
        forall|i: int| 0 <= i < calls.len() ==> (#[trigger] calls[i]).at <= now,
    ensures
        forall|t: Seq<char>|
            #![trigger live(replay(Map::empty(), calls), now).contains_key(t)]
            #![trigger let_through_recently(calls, now, t)]
            live(replay(Map::empty(), calls), now).contains_key(t) <==> let_through_recently(
                calls,
                now,
                t,
            ),
        live(replay(Map::empty(), calls), now).dom() == Set::new(
            |t: Seq<char>| let_through_recently(calls, now, t),
        ),
        replay(Map::empty(), calls).dom().finite(),
        live(replay(Map::empty(), calls), now).dom().finite(),
        live(replay(Map::empty(), calls), now).len() <= recent(calls, now),
    decreases calls.len(),
{
    let start = Map::<Seq<char>, u64>::empty();
    let after = live(replay(start, calls), now);
    assert((forall|t: Seq<char>| after.contains_key(t) <==> let_through_recently(calls, now, t))
        ==> after.dom() =~= Set::new(|t: Seq<char>| let_through_recently(calls, now, t)));
    if calls.len() == 0 {
        assert(after =~= start);
        assert forall|t: Seq<char>| !let_through_recently(calls, now, t) by {}
    } else {
        let init = calls.drop_last();
        let last = calls.last();
        let before = replay(start, init);
        lemma_live_tokens(init, now);
        lemma_live_tokens(init, last.at);
        lemma_noted_finite(before, last.at, last.token);
        lemma_live_twice(before, last.at, now);
        assert(init =~= calls.take(calls.len() - 1));
        assert forall|i: int| 0 <= i < init.len() implies init.take(i) == calls.take(i) by {
            assert(init.take(i) =~= calls.take(i));
        }
        assert forall|t: Seq<char>| after.contains_key(t) <==> let_through_recently(
            calls,
            now,
            t,
        ) by {
            if after.contains_key(t) {
                if t == last.token && !held_back(before, last.at, last.token) {
                    assert(let_through_at(calls, now, t, calls.len() - 1));
                } else {
                    assert(live(before, now).contains_key(t));
                    let i = choose|i: int| let_through_at(init, now, t, i);
                    assert(let_through_at(calls, now, t, i));
                }
            }
            if let_through_recently(calls, now, t) {
                let i = choose|i: int| let_through_at(calls, now, t, i);
                if i < calls.len() - 1 {
                    assert(let_through_at(init, now, t, i));
                    assert(live(before, now).contains_key(t));
                    assert(calls[i].at <= last.at);
                }
            }
        }
        if held_back(before, last.at, last.token) {
            assert(after == live(before, now));
        } else if expired(last.at, now) {
            assert(after =~= live(before, now));
        } else {
            assert(after =~= live(before, now).insert(last.token, last.at));
        }
    }
}

} // verus!
