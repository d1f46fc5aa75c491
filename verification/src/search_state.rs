//! Waiting for the typing to stop before anything is searched for.

use crate::text::{self, trim};
use vstd::prelude::*;

verus! {

/// A search that waits for a pause in the typing.
#[derive(Debug, Clone, PartialEq, Eq)]
pub struct SearchDebounce {
    delay_ms: u64,
    waiting: Option<(String, u64)>,
}

/// The model of a `SearchDebounce`.
#[verifier::ext_equal]
pub struct DebounceView {
    /// How long a pause has to be, in milliseconds.
    pub delay_ms: u64,
    /// What was typed last, and when.
    pub waiting: Option<(Seq<char>, u64)>,
}

impl View for SearchDebounce {
    type V = DebounceView;

    closed spec fn view(&self) -> DebounceView {
        DebounceView {
            delay_ms: self.delay_ms,
            waiting: match self.waiting {
                Some((q, at)) => Some((q@, at)),
                None => None,
            },
        }
    }
}

impl DebounceView {
    /// After a query was typed. A blank one is nothing to search for.
    pub open spec fn noted(self, query: Seq<char>, now_ms: u64) -> DebounceView {
        DebounceView {
            waiting: if text::trimmed(query).len() > 0 {
                Some((query, now_ms))
            } else {
                None
            },
            ..self
        }
    }

    /// The query to search for now: the last one, once the pause is long enough.
    pub open spec fn due(self, now_ms: u64) -> Option<Seq<char>> {
        match self.waiting {
            Some((q, at)) => if now_ms >= at && now_ms - at >= self.delay_ms || (now_ms < at
                && self.delay_ms == 0) {
                Some(q)
            } else {
                None
            },
            None => None,
        }
    }

    /// After it was asked whether a search is due.
    pub open spec fn asked(self, now_ms: u64) -> DebounceView {
        if self.due(now_ms) is Some {
            DebounceView { waiting: None, ..self }
        } else {
            self
        }
    }
}

impl Default for SearchDebounce {
    fn default() -> (r: SearchDebounce)
        ensures
            r@ == (DebounceView { delay_ms: 300, waiting: None }),
    {
        SearchDebounce::new(300)
    }
}

impl SearchDebounce {
    pub fn new(delay_ms: u64) -> (r: SearchDebounce)
        ensures
            r@ == (DebounceView { delay_ms, waiting: None }),
    {
        SearchDebounce { delay_ms, waiting: None }
    }

    /// Records what was typed, starting the pause over.
    pub fn note_input(&mut self, query: &str, now_ms: u64)
        ensures
            final(self)@ == old(self)@.noted(query@, now_ms),
    {
        let kept = trim(query);
        self.waiting = if kept.as_str().unicode_len() > 0 {
            Some((query.to_owned(), now_ms))
        } else {
            None
        };
    }

    /// The query to search for, once the typing has stopped; each is handed out
    /// once.
    pub fn should_fire(&mut self, now_ms: u64) -> (r: Option<String>)
        ensures
            r.deep_view() == old(self)@.due(now_ms),
            final(self)@ == old(self)@.asked(now_ms),
    {
        match &self.waiting {
            Some(w) => {
                if now_ms.saturating_sub(w.1) >= self.delay_ms {
                    let q = w.0.clone();
                    self.waiting = None;
                    Some(q)
                } else {
                    None
                }
            },
            None => None,
        }
    }
}

/// A query that was searched for is not searched for again until something is typed.
pub proof fn a_query_fires_once(d: DebounceView, first: u64, later: u64)
    requires
        d.due(first) is Some,
    ensures
        d.asked(first).due(later) is None,
{
}

/// Typing starts the pause over: nothing fires before the whole pause has passed
/// since the last key.
pub proof fn typing_starts_the_pause_over(d: DebounceView, query: Seq<char>, at: u64, now: u64)
    requires
        at <= now,
        now - at < d.delay_ms,
    ensures
        d.noted(query, at).due(now) is None,
{
}

} // verus!
