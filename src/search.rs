//! Debounced search over the application list.

use crate::text::{pop_char, push_char};
use vstd::prelude::*;

verus! {

/// Idle time, in milliseconds, after the last keystroke before a query is committed.
pub const SEARCH_DEBOUNCE_MS: u64 = 200;

/// The search box of the application picker: the query as typed, the query
/// the list is filtered by, and when the last keystroke came.
#[derive(Clone, Debug)]
pub struct SearchState {
    pub pending: String,
    pub committed: String,
    pub last_typed_ms: Option<u64>,
}

/// Abstract value of a search box.
pub struct SearchModel {
    pub pending: Seq<char>,
    pub committed: Seq<char>,
    pub last_typed_ms: Option<u64>,
}

impl SearchState {
    pub open spec fn model(&self) -> SearchModel {
        SearchModel {
            pending: self.pending@,
            committed: self.committed@,
            last_typed_ms: self.last_typed_ms,
        }
    }
}

/// The idle threshold has passed at `now` since the last keystroke (always
/// true when nothing was typed yet).
pub open spec fn idle_enough(last_typed_ms: Option<u64>, now_ms: u64) -> bool {
    match last_typed_ms {
        None => true,
        Some(t) => now_ms - t >= SEARCH_DEBOUNCE_MS,
    }
}

/// The search box after a keystroke that appends `c` at `now`.
pub open spec fn typed(m: SearchModel, c: char, now_ms: u64) -> SearchModel {
    SearchModel { pending: m.pending.push(c), committed: m.committed, last_typed_ms: Some(now_ms) }
}

/// The search box after a tick at `now`: the pending query is committed once
/// it differs from the committed one and the idle threshold has passed.
pub open spec fn ticked(m: SearchModel, now_ms: u64) -> SearchModel {
    if m.pending != m.committed && idle_enough(m.last_typed_ms, now_ms) {
        SearchModel { pending: m.pending, committed: m.pending, last_typed_ms: m.last_typed_ms }
    } else {
        m
    }
}

/// After a keystroke at `t0` that changes the query, a tick at `now` commits
/// the query if and only if at least the debounce threshold has elapsed since
/// `t0`: never earlier, and always once it is reached.
pub proof fn lemma_debounce(m: SearchModel, c: char, t0: u64, now_ms: u64)
    requires
        m.pending.push(c) != m.committed,
    ensures
        ticked(typed(m, c, t0), now_ms).committed == typed(m, c, t0).pending <==> now_ms - t0
            >= SEARCH_DEBOUNCE_MS,
{
}

impl SearchState {
    /// An empty search box.
    pub fn new() -> (r: SearchState)
        ensures
            r.pending@.len() == 0,
            r.committed@.len() == 0,
            r.last_typed_ms is None,
    {
        SearchState { pending: String::new(), committed: String::new(), last_typed_ms: None }
    }

    /// Appends a typed character at time `now_ms`.
    pub fn type_char(&mut self, c: char, now_ms: u64)
        ensures
            final(self).model() == typed(old(self).model(), c, now_ms),
    {
        push_char(&mut self.pending, c);
        self.last_typed_ms = Some(now_ms);
    }

    /// Removes the last typed character at time `now_ms`.
    pub fn backspace(&mut self, now_ms: u64)
        ensures
            final(self).pending@ == (if old(self).pending@.len() == 0 {
                old(self).pending@
            } else {
                old(self).pending@.drop_last()
            }),
            final(self).committed@ == old(self).committed@,
            final(self).last_typed_ms == Some(now_ms),
    {
        let _ = pop_char(&mut self.pending);
        self.last_typed_ms = Some(now_ms);
    }

    /// Empties the search box.
    pub fn clear(&mut self)
        ensures
            final(self).pending@.len() == 0,
            final(self).committed@.len() == 0,
            final(self).last_typed_ms is None,
    {
        self.pending = String::new();
        self.committed = String::new();
        self.last_typed_ms = None;
    }

    /// Commits the pending query if it has been stable for the debounce
    /// threshold at `now_ms`; returns whether the committed query changed.
    pub fn tick(&mut self, now_ms: u64) -> (changed: bool)
        ensures
            final(self).model() == ticked(old(self).model(), now_ms),
            changed == (old(self).pending@ != old(self).committed@ && idle_enough(
                old(self).last_typed_ms,
                now_ms,
            )),
    {
        let idle = match self.last_typed_ms {
            None => true,
            Some(t) => now_ms >= t && now_ms - t >= SEARCH_DEBOUNCE_MS,
        };
        if idle && self.pending != self.committed {
            self.committed = self.pending.clone();
            true
        } else {
            false
        }
    }
}

} // verus!
