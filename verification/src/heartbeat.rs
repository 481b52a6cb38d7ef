//! One round of heartbeat notifications: which of the tokens that are due
//! get a notification.

use crate::apns::{apns_outcome, apns_verdict, notify_apns, text_of, Alert, ApnsReply, Endpoint};
use crate::debouncer::{held_back, live, Debouncer};
use crate::history::{replay, suppressed, Call};
use crate::outcome::{status_of, Counter, Finish, Outcome, STATUS_OK};
use crate::token::{
    lemma_routed_is_well_formed,
    lemma_routes_one,
    malformed,
    NotificationToken,
    Route,
};
use vstd::prelude::*;
use vstd::string::StringExecFns;

verus! {

/// The tokens of `due` as sequences of characters.
pub open spec fn texts(due: Seq<String>) -> Seq<Seq<char>> {
    Seq::new(due.len(), |i: int| due[i]@)
}

/// Whether the token at position `i` of `tokens` gets a notification at
/// time `now`: it is not held back by what was known before the round, and
/// it does not occur earlier in `tokens`.
pub open spec fn is_fresh(
    known: Map<Seq<char>, u64>,
    tokens: Seq<Seq<char>>,
    now: u64,
    i: int,
) -> bool {
    !held_back(known, now, tokens[i]) && !tokens.take(i).contains(tokens[i])
}

/// The tokens of `tokens` that get a notification at time `now`, in their
/// order.
pub open spec fn survivors(known: Map<Seq<char>, u64>, tokens: Seq<Seq<char>>, now: u64) -> Seq<
    Seq<char>,
>
    decreases tokens.len(),
{
    if tokens.len() == 0 {
        Seq::empty()
    } else {
        let earlier = survivors(known, tokens.drop_last(), now);
        if is_fresh(known, tokens, now, tokens.len() - 1) {
            earlier.push(tokens.last())
        } else {
            earlier
        }
    }
}

/// The known tokens after a round at time `now` for `tokens`: what was
/// inside the window stays as it was, and every other token of `tokens` is
/// recorded at `now`.
pub open spec fn after_round(known: Map<Seq<char>, u64>, tokens: Seq<Seq<char>>, now: u64) -> Map<
    Seq<char>,
    u64,
> {
    Map::new(
        |t: Seq<char>| live(known, now).contains_key(t) || tokens.contains(t),
        |t: Seq<char>|
            if live(known, now).contains_key(t) {
                known[t]
            } else {
                now
            },
    )
}

/// Passes the tokens that are due through the debouncer at time `now` and
/// returns those that are to be notified, in their order. A token that the
/// debouncer holds back, or that occurs earlier in this round, is skipped.
pub fn heartbeat_round(debouncer: &mut Debouncer, now: u64, due: &Vec<String>) -> (out: Vec<String>)
    ensures
        texts(out@) == survivors(old(debouncer)@, texts(due@), now),
        due@.len() > 0 ==> final(debouncer)@ == after_round(old(debouncer)@, texts(due@), now),
        due@.len() == 0 ==> final(debouncer)@ == old(debouncer)@,
{
    let ghost known = debouncer@;
    let ghost tokens = texts(due@);
    let mut out: Vec<String> = Vec::new();
    let mut i: usize = 0;
    while i < due.len()
        invariant
            i <= due@.len(),
            tokens == texts(due@),
            texts(out@) == survivors(known, tokens.take(i as int), now),
            i > 0 ==> debouncer@ == after_round(known, tokens.take(i as int), now),
            i == 0 ==> debouncer@ == known,
        decreases due@.len() - i,
    {
        let token = due[i].clone();
        let ghost before = debouncer@;
        let ghost seen = tokens.take(i as int);
        let ghost more = tokens.take(i + 1);
        let debounced = debouncer.notify(now, token.clone());
        proof {
            assert(more.drop_last() =~= seen);
            assert(more.last() == token@);
            assert(more.take(i as int) =~= seen);
            assert forall|t: Seq<char>| more.contains(t) <==> seen.contains(t) || t == token@ by {
                if seen.contains(t) {
                    let j = choose|j: int| 0 <= j < seen.len() && seen[j] == t;
                    assert(more[j] == t);
                }
                if t == token@ {
                    assert(more[i as int] == t);
                }
                if more.contains(t) && t != token@ {
                    let j = choose|j: int| 0 <= j < more.len() && more[j] == t;
                    assert(seen[j] == t);
                }
            }
            assert(live(before, now) =~= after_round(known, seen, now));
            assert(debouncer@ =~= after_round(known, more, now));
            assert(debounced == !is_fresh(known, more, now, i as int));
        }
        if !debounced {
            let ghost kept = texts(out@);
            out.push(token);
            assert(texts(out@) =~= kept.push(token@));
        }
        i += 1;
    }
    assert(tokens.take(i as int) =~= tokens);
    out
}

/// The calls that ask for each of `tokens` in turn, all at time `now`.
pub open spec fn calls_at(tokens: Seq<Seq<char>>, now: u64) -> Seq<Call> {
    Seq::new(tokens.len(), |i: int| Call { at: now, token: tokens[i] })
}

/// A round does what one call for each token in turn does: the same tokens
/// are held back, and the same tokens are known afterwards.
pub proof fn lemma_round_is_replay(known: Map<Seq<char>, u64>, tokens: Seq<Seq<char>>, now: u64)
    ensures
        forall|i: int|
            0 <= i < tokens.len() ==> (#[trigger] suppressed(known, calls_at(tokens, now), i)
                <==> !is_fresh(known, tokens, now, i)),
        tokens.len() > 0 ==> replay(known, calls_at(tokens, now)) == after_round(known, tokens, now),
    decreases tokens.len(),
{
    let calls = calls_at(tokens, now);
    if tokens.len() > 0 {
        let n = tokens.len() - 1;
        let init = tokens.drop_last();
        lemma_round_is_replay(known, init, now);
        assert(calls.drop_last() =~= calls_at(init, now));
        assert(calls.take(n) =~= calls_at(init, now));
        assert(tokens.take(n) =~= init);
        let before = replay(known, calls_at(init, now));
        if n == 0 {
            assert(before == known);
            assert(live(known, now) =~= after_round(known, init, now));
        } else {
            assert(live(before, now) =~= after_round(known, init, now));
        }
        assert(suppressed(known, calls, n) <==> !is_fresh(known, tokens, now, n));
        assert forall|t: Seq<char>| tokens.contains(t) <==> init.contains(t) || t == tokens[n] by {
            if init.contains(t) {
                let j = choose|j: int| 0 <= j < init.len() && init[j] == t;
                assert(tokens[j] == t);
            }
            if tokens.contains(t) && t != tokens[n] {
                let j = choose|j: int| 0 <= j < tokens.len() && tokens[j] == t;
                assert(init[j] == t);
            }
        }
        assert(replay(known, calls) =~= after_round(known, tokens, now));
        assert forall|i: int| 0 <= i < tokens.len() implies (#[trigger] suppressed(known, calls, i)
            <==> !is_fresh(known, tokens, now, i)) by {
            if i < n {
                assert(calls.take(i) =~= calls_at(init, now).take(i));
                assert(tokens.take(i) =~= init.take(i));
                assert(suppressed(known, calls, i) == suppressed(known, calls_at(init, now), i));
                assert(is_fresh(known, tokens, now, i) == is_fresh(known, init, now, i));
            }
        }
    }
}

/// The heartbeat notification for a token of the schedule, with the
/// environment that it goes to. Heartbeats go through APNS: a token that is
/// for FCM, or that cannot be routed, gets none.
pub fn heartbeat_alert(token: &str, topic: Option<&str>) -> (sending: Option<(Endpoint, Alert)>)
    ensures
        malformed(token@) ==> sending is None,
        forall|route: Route| #[trigger]
            route.routes(token@) ==> match route {
                Route::Fcm { package_name, token } => sending is None,
                Route::ApnsSandbox(device) => sending matches Some(s) && s.0 == Endpoint::Sandbox
                    && s.1.announces(device, text_of(topic)),
                Route::ApnsProduction(device) => sending matches Some(s) && s.0
                    == Endpoint::Production && s.1.announces(device, text_of(topic)),
            },
{
    let parsed = NotificationToken::from_str(token);
    proof {
        assert forall|route: Route| #[trigger] route.routes(token@) implies (parsed matches Ok(own)
            && own@ == route) by {
            lemma_routed_is_well_formed(token@, route);
            lemma_routes_one(token@, route, parsed->Ok_0@);
        }
    }
    match parsed {
        Ok(NotificationToken::ApnsSandbox(device)) => Some(
            (Endpoint::Sandbox, notify_apns(device.as_str(), topic)),
        ),
        Ok(NotificationToken::ApnsProduction(device)) => Some(
            (Endpoint::Production, notify_apns(device.as_str(), topic)),
        ),
        Ok(NotificationToken::Fcm { package_name, token }) => None,
        Err(_) => None,
    }
}

/// Ends the heartbeat for `token`, as the schedule holds it, that got
/// `reply`. A token that is rejected for good is struck from the schedule,
/// and no other is. The counter of heartbeat notifications goes up when the
/// service took the notification with status 200.
pub fn heartbeat_finish(token: &str, reply: ApnsReply) -> (finish: Finish)
    ensures
        finish.status == status_of(apns_verdict(reply)),
        finish.body@ == Seq::<char>::empty(),
        apns_verdict(reply) == Outcome::RejectedPermanent ==> (finish.unschedule matches Some(gone)
            && gone@ == token@),
        apns_verdict(reply) != Outcome::RejectedPermanent ==> finish.unschedule is None,
        finish.count == if reply == (ApnsReply::Accepted { code: STATUS_OK }) {
            Some(Counter::HeartbeatNotifications)
        } else {
            None::<Counter>
        },
{
    let outcome = apns_outcome(reply);
    let mut finish = Finish::plain(outcome);
    match reply {
        ApnsReply::Accepted { code } => {
            if code == STATUS_OK {
                finish.count = Some(Counter::HeartbeatNotifications);
            }
        },
        ApnsReply::Rejected { code } => {
            if outcome == Outcome::RejectedPermanent {
                finish.unschedule = Some(String::from_str(token));
            }
        },
        ApnsReply::NoAnswer => {},
    }
    finish
}

} // verus!
