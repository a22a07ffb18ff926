//! Trailing-edge debounce for the search box: rapid query edits are coalesced
//! on a "latest value wins" basis, and a search is issued only once the input
//! has been quiet for the delay. Each issued search carries a fresh sequence
//! number, so stale answers can be told apart later.
use vstd::prelude::*;

use crate::text::{chars_eq, copy_vec};

verus! {

/// The delay between the last edit and the search it triggers, in
/// milliseconds.
pub const SEARCH_BOX_DEFAULT_DEBOUNCE: u64 = 500;

/// One search handed to the backend: the query and its sequence number.
pub struct QuerySubmission {
    pub query: Vec<char>,
    pub seq: u64,
}

/// The debounce hook's own state: the last query seen, the delay, and the
/// sequence counter for issued searches.
pub struct SearchBoxDebounce {
    /// The current query.
    pub last_query: Vec<char>,
    /// The trailing-edge delay, in milliseconds.
    pub debounce: u64,
    /// The sequence number of the last issued search.
    pub seq: u64,
}

/// What feeding one intent value does: an unchanged value leaves the hook
/// alone and arms nothing; a changed value is stored and asks for a deadline
/// one delay from now.
pub open spec fn feed_post(
    s0: SearchBoxDebounce,
    input: Seq<char>,
    now: int,
    s1: SearchBoxDebounce,
    deadline: Option<int>,
) -> bool {
    if input == s0.last_query@ {
        &&& s1 == s0
        &&& deadline is None
    } else {
        &&& s1.last_query@ == input
        &&& s1.debounce == s0.debounce
        &&& s1.seq == s0.seq
        &&& deadline == Some(now + s0.debounce)
    }
}

impl SearchBoxDebounce {
    /// A fresh hook with the default delay and an empty query.
    pub fn new() -> (r: SearchBoxDebounce)
        ensures
            r.last_query@ == Seq::<char>::empty(),
            r.debounce == SEARCH_BOX_DEFAULT_DEBOUNCE,
            r.seq == 0,
    {
        SearchBoxDebounce {
            last_query: Vec::new(),
            debounce: SEARCH_BOX_DEFAULT_DEBOUNCE,
            seq: 0,
        }
    }

    /// Feed one intent value. Returns the new deadline, if the value changed;
    /// an unchanged value keeps whatever timer is already running.
    pub fn handle_event(&mut self, input: Vec<char>, now: u64) -> (deadline: Option<u64>)
        requires
            now + old(self).debounce <= u64::MAX,
        ensures
            feed_post(
                *old(self),
                input@,
                now as int,
                *final(self),
                match deadline {
                    Some(d) => Some(d as int),
                    None => None,
                },
            ),
    {
        if chars_eq(&input, &self.last_query) {
            None
        } else {
            self.last_query = input;
            Some(now + self.debounce)
        }
    }

    /// The timer went off with no newer edit: issue the stored query under a
    /// fresh, strictly larger sequence number.
    pub fn finish_debounce(&mut self) -> (r: QuerySubmission)
        requires
            old(self).seq < u64::MAX,
        ensures
            r.query@ == old(self).last_query@,
            r.seq == old(self).seq + 1,
            final(self).seq == old(self).seq + 1,
            final(self).last_query == old(self).last_query,
            final(self).debounce == old(self).debounce,
    {
        self.seq = self.seq + 1;
        QuerySubmission { query: copy_vec(&self.last_query), seq: self.seq }
    }
}

/// The owning task's race between the next intent value and the armed timer,
/// as a plain state machine: the embedding application performs the actual
/// waiting and calls in whichever event won.
pub struct DebounceTimer {
    pub hook: SearchBoxDebounce,
    /// The armed deadline, if any.
    pub deadline: Option<u64>,
}

/// What one intent value does to the race: a changed value re-arms the
/// timer; an unchanged one leaves the armed timer running unaffected.
pub open spec fn timer_feed_post(
    t0: DebounceTimer,
    input: Seq<char>,
    now: int,
    t1: DebounceTimer,
) -> bool {
    if input == t0.hook.last_query@ {
        t1 == t0
    } else {
        &&& t1.hook.last_query@ == input
        &&& t1.hook.debounce == t0.hook.debounce
        &&& t1.hook.seq == t0.hook.seq
        &&& t1.deadline == Some((now + t0.hook.debounce) as u64)
    }
}

impl DebounceTimer {
    /// A fresh race with nothing armed.
    pub fn new() -> (r: DebounceTimer)
        ensures
            r.hook.last_query@ == Seq::<char>::empty(),
            r.hook.debounce == SEARCH_BOX_DEFAULT_DEBOUNCE,
            r.hook.seq == 0,
            r.deadline is None,
    {
        DebounceTimer { hook: SearchBoxDebounce::new(), deadline: None }
    }

    /// A new intent value arrived before the timer went off.
    pub fn on_input(&mut self, input: Vec<char>, now: u64)
        requires
            now + old(self).hook.debounce <= u64::MAX,
        ensures
            timer_feed_post(*old(self), input@, now as int, *final(self)),
    {
        match self.hook.handle_event(input, now) {
            Some(d) => {
                self.deadline = Some(d);
            },
            None => {},
        }
    }

    /// Whether the armed timer has gone off.
    pub fn can_fire(&self, now: u64) -> (r: bool)
        ensures
            r == match self.deadline {
                Some(d) => now >= d,
                None => false,
            },
    {
        match self.deadline {
            Some(d) => now >= d,
            None => false,
        }
    }

    /// The timer won the race: disarm it and issue the stored query.
    pub fn on_timer(&mut self) -> (r: QuerySubmission)
        requires
            old(self).deadline is Some,
            old(self).hook.seq < u64::MAX,
        ensures
            r.query@ == old(self).hook.last_query@,
            r.seq == old(self).hook.seq + 1,
            final(self).hook.seq == old(self).hook.seq + 1,
            final(self).hook.last_query == old(self).hook.last_query,
            final(self).hook.debounce == old(self).hook.debounce,
            final(self).deadline is None,
    {
        self.deadline = None;
        self.hook.finish_debounce()
    }
}

/// Debounce idempotence, the deadline half: across any run of feeds of one
/// unchanged value, only the first feed can arm a deadline; every later feed
/// returns none and leaves the hook exactly as it was.
pub proof fn lemma_debounce_idempotence(
    states: Seq<SearchBoxDebounce>,
    v: Seq<char>,
    nows: Seq<int>,
    deadlines: Seq<Option<int>>,
)
    requires
        states.len() == deadlines.len() + 1,
        nows.len() == deadlines.len(),
        deadlines.len() >= 1,
        forall|i: int|
            0 <= i < deadlines.len() ==> feed_post(
                #[trigger] states[i],
                v,
                nows[i],
                states[i + 1],
                deadlines[i],
            ),
    ensures
        forall|i: int|
            1 <= i < deadlines.len() ==> deadlines[i] is None && states[i + 1] == states[i],
{
    assert forall|i: int|
        1 <= i < deadlines.len() implies deadlines[i] is None && states[i + 1] == states[i] by {
        assert(feed_post(states[i - 1], v, nows[i - 1], states[i], deadlines[i - 1]));
        assert(states[i].last_query@ == v);
        assert(feed_post(states[i], v, nows[i], states[i + 1], deadlines[i]));
    }
}

/// Debounce idempotence, the finish half: once the timer has fired, feeding
/// the unchanged value any number of times never re-arms it, so a second
/// finish cannot happen before the value changes.
pub proof fn lemma_single_finish(
    fired: DebounceTimer,
    states: Seq<DebounceTimer>,
    v: Seq<char>,
    nows: Seq<int>,
)
    requires
        fired.deadline is None,
        fired.hook.last_query@ == v,
        states.len() == nows.len() + 1,
        states[0] == fired,
        forall|i: int|
            0 <= i < nows.len() ==> timer_feed_post(#[trigger] states[i], v, nows[i], states[i + 1]),
    ensures
        forall|i: int| 0 <= i < states.len() ==> (#[trigger] states[i]).deadline is None,
{
    assert forall|i: int| 0 <= i < states.len() implies (#[trigger] states[i]).deadline is None by {
        lemma_single_finish_step(fired, states, v, nows, i);
    }
}

proof fn lemma_single_finish_step(
    fired: DebounceTimer,
    states: Seq<DebounceTimer>,
    v: Seq<char>,
    nows: Seq<int>,
    i: int,
)
    requires
        fired.deadline is None,
        fired.hook.last_query@ == v,
        states.len() == nows.len() + 1,
        states[0] == fired,
        forall|k: int|
            0 <= k < nows.len() ==> timer_feed_post(#[trigger] states[k], v, nows[k], states[k + 1]),
        0 <= i < states.len(),
    ensures
        states[i].deadline is None,
        states[i] == fired,
    decreases i,
{
    if i > 0 {
        lemma_single_finish_step(fired, states, v, nows, i - 1);
        assert(timer_feed_post(states[i - 1], v, nows[i - 1], states[i]));
    }
}

} // verus!
