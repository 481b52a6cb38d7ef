//! Debouncer for notifications.
//!
//! The same device token may be registered twice for one mailbox, so one
//! message can ask for the same device to be woken up twice. A token that
//! was let through less than a second ago is therefore held back.

use std::collections::VecDeque;
use vstd::hash_set::StringHashSet;
use vstd::prelude::*;

verus! {

/// Length of the debounce window, in nanoseconds.
pub const WINDOW_NANOS: u64 = 1_000_000_000;

/// Whether a token recorded at time `recorded` has left the window at time
/// `now`. Both are nanoseconds on one monotonic clock. A `now` that lies
/// before `recorded` counts as no time passed.
pub open spec fn expired(recorded: u64, now: u64) -> bool {
    now - recorded >= WINDOW_NANOS
}

/// Decides whether an entry recorded at `recorded` has left the window at
/// `now`.
pub fn is_expired(recorded: u64, now: u64) -> (r: bool)
    ensures
        r == expired(recorded, now),
{
    now >= recorded && now - recorded >= WINDOW_NANOS
}

/// The known tokens that are still inside their window at time `now`.
pub open spec fn live(known: Map<Seq<char>, u64>, now: u64) -> Map<Seq<char>, u64> {
    Map::new(
        |t: Seq<char>| known.contains_key(t) && !expired(known[t], now),
        |t: Seq<char>| known[t],
    )
}

/// Whether a notification for `token` at time `now` is held back: the
/// token was recorded less than a window ago.
pub open spec fn held_back(known: Map<Seq<char>, u64>, now: u64, token: Seq<char>) -> bool {
    live(known, now).contains_key(token)
}

/// The known tokens after a notification for `token` was asked for at time
/// `now`: what has left the window is gone, and the token is recorded at
/// `now` unless it is held back. A token that is held back keeps the time
/// it was recorded at.
pub open spec fn noted(known: Map<Seq<char>, u64>, now: u64, token: Seq<char>) -> Map<
    Seq<char>,
    u64,
> {
    if held_back(known, now, token) {
        live(known, now)
    } else {
        live(known, now).insert(token, now)
    }
}

/// One recorded notification: the token and the time it was let through.
struct Entry {
    at: u64,
    token: String,
}

/// Whether `token` occurs in `entries`.
spec fn holds(entries: Seq<Entry>, token: Seq<char>) -> bool {
    exists|i: int| 0 <= i < entries.len() && (#[trigger] entries[i]).token@ == token
}

/// Some position of `token` in `entries`.
spec fn position(entries: Seq<Entry>, token: Seq<char>) -> int {
    choose|i: int| 0 <= i < entries.len() && (#[trigger] entries[i]).token@ == token
}

/// The tokens of `entries`, each with the time it was recorded at.
spec fn recorded(entries: Seq<Entry>) -> Map<Seq<char>, u64> {
    Map::new(
        |t: Seq<char>| holds(entries, t),
        |t: Seq<char>| entries[position(entries, t)].at,
    )
}

/// No token occurs twice in `entries`.
spec fn distinct(entries: Seq<Entry>) -> bool {
    forall|i: int, j: int|
        0 <= i < entries.len() && 0 <= j < entries.len() && i != j ==> (#[trigger] entries[i]).token@
            != (#[trigger] entries[j]).token@
}

/// The entries are in the order of their times, oldest first.
spec fn ordered(entries: Seq<Entry>) -> bool {
    forall|i: int, j: int|
        0 <= i <= j < entries.len() ==> (#[trigger] entries[i]).at <= (#[trigger] entries[j]).at
}

/// In a sequence without repeated tokens, each entry's token maps to that
/// entry's time.
proof fn lemma_recorded_entry(entries: Seq<Entry>, i: int)
    requires
        distinct(entries),
        0 <= i < entries.len(),
    ensures
        recorded(entries).contains_key(entries[i].token@),
        recorded(entries)[entries[i].token@] == entries[i].at,
{
    let t = entries[i].token@;
    assert(holds(entries, t));
    assert(position(entries, t) == i);
}

/// Dropping the first entry removes its token and leaves the others as
/// they were.
proof fn lemma_recorded_without_first(entries: Seq<Entry>)
    requires
        distinct(entries),
        entries.len() > 0,
    ensures
        distinct(entries.subrange(1, entries.len() as int)),
        ordered(entries) ==> ordered(entries.subrange(1, entries.len() as int)),
        recorded(entries.subrange(1, entries.len() as int)) == recorded(entries).remove(
            entries[0].token@,
        ),
{
    let rest = entries.subrange(1, entries.len() as int);
    assert(distinct(rest)) by {
        assert forall|i: int, j: int|
            0 <= i < rest.len() && 0 <= j < rest.len() && i != j implies (#[trigger] rest[i]).token@
            != (#[trigger] rest[j]).token@ by {
            assert(rest[i] == entries[i + 1]);
            assert(rest[j] == entries[j + 1]);
        }
    }
    if ordered(entries) {
        assert forall|i: int, j: int| 0 <= i <= j < rest.len() implies (#[trigger] rest[i]).at <= (
        #[trigger] rest[j]).at by {
            assert(rest[i] == entries[i + 1]);
            assert(rest[j] == entries[j + 1]);
        }
    }
    let a = recorded(rest);
    let b = recorded(entries).remove(entries[0].token@);
    assert forall|t: Seq<char>| a.contains_key(t) implies b.contains_key(t) && a[t] == b[t] by {
        let i = position(rest, t);
        assert(rest[i] == entries[i + 1]);
        lemma_recorded_entry(rest, i);
        lemma_recorded_entry(entries, i + 1);
    }
    assert forall|t: Seq<char>| b.contains_key(t) implies a.contains_key(t) by {
        let j = position(entries, t);
        assert(j >= 1);
        assert(rest[j - 1] == entries[j]);
    }
    assert(a =~= b);
}

/// Putting in an entry whose token is new adds that token with its time
/// and leaves the others as they were.
proof fn lemma_recorded_with(entries: Seq<Entry>, at: int, entry: Entry)
    requires
        distinct(entries),
        !holds(entries, entry.token@),
        0 <= at <= entries.len(),
    ensures
        distinct(entries.insert(at, entry)),
        recorded(entries.insert(at, entry)) == recorded(entries).insert(entry.token@, entry.at),
{
    let more = entries.insert(at, entry);
    assert forall|i: int, j: int|
        0 <= i < more.len() && 0 <= j < more.len() && i != j implies (#[trigger] more[i]).token@
        != (#[trigger] more[j]).token@ by {
        let oi = if i < at { i } else { i - 1 };
        let oj = if j < at { j } else { j - 1 };
        if i != at {
            assert(more[i] == entries[oi]);
        }
        if j != at {
            assert(more[j] == entries[oj]);
        }
    }
    let a = recorded(more);
    let b = recorded(entries).insert(entry.token@, entry.at);
    assert forall|t: Seq<char>| a.contains_key(t) implies b.contains_key(t) && a[t] == b[t] by {
        let i = position(more, t);
        lemma_recorded_entry(more, i);
        if i != at {
            let oi = if i < at { i } else { i - 1 };
            assert(more[i] == entries[oi]);
            lemma_recorded_entry(entries, oi);
        }
    }
    assert forall|t: Seq<char>| b.contains_key(t) implies a.contains_key(t) by {
        if t == entry.token@ {
            assert(more[at] == entry);
        } else {
            let j = position(entries, t);
            let ni = if j < at { j } else { j + 1 };
            assert(more[ni] == entries[j]);
        }
    }
    assert(a =~= b);
}

/// The recently notified tokens, behind no lock.
pub struct DebouncerState {
    /// Set of recently notified tokens.
    tokens: StringHashSet,
    /// The same tokens with their times, oldest first.
    queue: VecDeque<Entry>,
}

impl View for DebouncerState {
    type V = Map<Seq<char>, u64>;

    /// The tokens held, each with the time it was recorded at.
    closed spec fn view(&self) -> Map<Seq<char>, u64> {
        recorded(self.queue@)
    }
}

impl DebouncerState {
    /// The set and the queue hold the same tokens, each once, and the queue
    /// is in the order of the times.
    pub closed spec fn wf(&self) -> bool {
        &&& self.tokens@.finite()
        &&& self.tokens@.len() == self.queue@.len()
        &&& self.tokens@ =~= recorded(self.queue@).dom()
        &&& distinct(self.queue@)
        &&& ordered(self.queue@)
    }

    /// A state that holds no token.
    pub fn new() -> (s: Self)
        ensures
            s.wf(),
            s@ == Map::<Seq<char>, u64>::empty(),
    {
        let s = DebouncerState { tokens: StringHashSet::new(), queue: VecDeque::new() };
        assert(s.tokens@ =~= recorded(s.queue@).dom());
        assert(recorded(s.queue@) =~= Map::<Seq<char>, u64>::empty());
        s
    }

    /// Number of tokens held. Expired tokens are counted until the next
    /// call that changes the state.
    pub fn count(&self) -> (n: usize)
        requires
            self.wf(),
        ensures
            n == self@.len(),
            self@.dom().finite(),
    {
        self.tokens.len()
    }

    /// Removes old entries for tokens that can be notified again.
    pub fn cleanup(&mut self, now: u64)
        requires
            old(self).wf(),
        ensures
            final(self).wf(),
            final(self)@ == live(old(self)@, now),
    {
        let ghost before = self@;
        while self.queue.len() > 0 && is_expired(self.queue[0].at, now)
            invariant
                self.wf(),
                forall|t: Seq<char>| #[trigger]
                    self@.contains_key(t) ==> before.contains_key(t) && before[t] == self@[t],
                forall|t: Seq<char>|
                    before.contains_key(t) && !expired(before[t], now) ==> #[trigger] self@.contains_key(t),
            decreases self.queue@.len(),
        {
            let ghost prev = self@;
            let ghost gone = self.queue@[0].token@;
            proof {
                lemma_recorded_without_first(self.queue@);
                lemma_recorded_entry(self.queue@, 0);
            }
            let first = self.queue.pop_front();
            if let Some(entry) = first {
                self.tokens.remove(entry.token.as_str());
            }
            assert(self@ == prev.remove(gone));
        }
        proof {
            if self.queue@.len() > 0 {
                assert forall|t: Seq<char>| #[trigger] self@.contains_key(t) implies !expired(
                    self@[t],
                    now,
                ) by {
                    let i = position(self.queue@, t);
                    lemma_recorded_entry(self.queue@, i);
                    assert(self.queue@[0].at <= self.queue@[i].at);
                }
            }
            assert(self@ =~= live(before, now));
        }
    }

    /// Whether `token` is held back at time `now`. Entries that have left
    /// the window are dropped on the way.
    pub fn is_debounced(&mut self, now: u64, token: &String) -> (debounced: bool)
        requires
            old(self).wf(),
        ensures
            final(self).wf(),
            final(self)@ == live(old(self)@, now),
            debounced == held_back(old(self)@, now, token@),
    {
        self.cleanup(now);
        self.tokens.contains(token.as_str())
    }

    /// Records `token` at time `now` unless it is held back. Returns true
    /// if it is held back: the token was let through less than a window
    /// ago, and its entry stays as it is.
    pub fn notify(&mut self, now: u64, token: String) -> (debounced: bool)
        requires
            old(self).wf(),
        ensures
            final(self).wf(),
            debounced == held_back(old(self)@, now, token@),
            final(self)@ == noted(old(self)@, now, token@),
    {
        self.cleanup(now);
        let inserted = self.tokens.insert(token.clone());
        if inserted {
            let mut at: usize = self.queue.len();
            while at > 0 && self.queue[at - 1].at > now
                invariant
                    at <= self.queue@.len(),
                    forall|j: int| at <= j < self.queue@.len() ==> (#[trigger] self.queue@[j]).at > now,
                decreases at,
            {
                at -= 1;
            }
            let entry = Entry { at: now, token };
            proof {
                lemma_recorded_with(self.queue@, at as int, entry);
                let more = self.queue@.insert(at as int, entry);
                assert forall|i: int, j: int| 0 <= i <= j < more.len() implies (#[trigger] more[i]).at
                    <= (#[trigger] more[j]).at by {
                    if i != at {
                        assert(more[i] == self.queue@[if i < at { i } else { i - 1 }]);
                    }
                    if j != at {
                        assert(more[j] == self.queue@[if j < at { j } else { j - 1 }]);
                    }
                    if at > 0 && i < at {
                        assert(self.queue@[i].at <= self.queue@[at - 1].at);
                    }
                }
            }
            self.queue.insert(at, entry);
        }
        !inserted
    }
}

impl Default for DebouncerState {
    fn default() -> (s: Self)
        ensures
            s.wf(),
            s@ == Map::<Seq<char>, u64>::empty(),
    {
        DebouncerState::new()
    }
}

/// The debouncer the gateway shares: the state together with the promise
/// that it is well formed, so that no call has a precondition. Calls that
/// change it take `&mut self`; one lock round it, exclusive for those calls
/// and shared for `count`, serialises callers.
pub struct Debouncer {
    state: DebouncerState,
}

impl View for Debouncer {
    type V = Map<Seq<char>, u64>;

    /// The tokens held, each with the time it was recorded at.
    closed spec fn view(&self) -> Map<Seq<char>, u64> {
        self.state@
    }
}

impl Debouncer {
    #[verifier::type_invariant]
    spec fn well_formed(&self) -> bool {
        self.state.wf()
    }

    /// A debouncer that holds no token.
    pub fn new() -> (d: Self)
        ensures
            d@ == Map::<Seq<char>, u64>::empty(),
    {
        Debouncer { state: DebouncerState::new() }
    }

    /// Returns true if the token was notified recently and should not be
    /// notified again. Entries that have left the window are dropped on the
    /// way.
    pub fn is_debounced(&mut self, now: u64, token: &String) -> (debounced: bool)
        ensures
            final(self)@ == live(old(self)@, now),
            debounced == held_back(old(self)@, now, token@),
    {
        proof {
            use_type_invariant(&*self);
        }
        let mut state = DebouncerState::new();
        std::mem::swap(&mut state, &mut self.state);
        let debounced = state.is_debounced(now, token);
        self.state = state;
        debounced
    }

    /// Asks to notify `token` at time `now`. Returns true if the token is
    /// currently debounced, and the notification should not be sent; false
    /// if it should be sent, and the token is then recorded at `now`.
    pub fn notify(&mut self, now: u64, token: String) -> (debounced: bool)
        ensures
            debounced == held_back(old(self)@, now, token@),
            final(self)@ == noted(old(self)@, now, token@),
    {
        proof {
            use_type_invariant(&*self);
        }
        let mut state = DebouncerState::new();
        std::mem::swap(&mut state, &mut self.state);
        let debounced = state.notify(now, token);
        self.state = state;
        debounced
    }

    /// Returns number of currently debounced notification tokens.
    ///
    /// This function does not remove expired tokens.
    pub fn count(&self) -> (n: usize)
        ensures
            n == self@.len(),
            self@.dom().finite(),
    {
        proof {
            use_type_invariant(self);
        }
        self.state.count()
    }
}

impl Default for Debouncer {
    fn default() -> (d: Self)
        ensures
            d@ == Map::<Seq<char>, u64>::empty(),
    {
        Debouncer::new()
    }
}

} // verus!
