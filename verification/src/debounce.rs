//! The search debouncer: filtering runs only after typing pauses, so every
//! scheduled filter carries a generation token, and only the newest token
//! still applies when its timer elapses. At most one scheduled filter is
//! outstanding at a time, and a superseded one can never fire.

use vstd::prelude::*;

verus! {

/// A cancellable one-slot timer for the search filter. Scheduling bumps the
/// generation and replaces any pending text; a timer that elapses hands its
/// token back, and the text is released only if no newer schedule has
/// superseded the token in the meantime.
#[derive(Debug)]
pub struct Debouncer {
    /// The token of the most recent schedule; older tokens are stale.
    pub generation: u64,
    /// The text waiting to be applied, if a schedule is outstanding.
    pub pending: Option<String>,
}

impl Debouncer {
    /// What scheduling does: a fresh generation token and the new text in
    /// the slot, displacing whatever waited there.
    pub open spec fn spec_schedule(self, text: String) -> (Debouncer, u64)
        recommends
            self.generation < u64::MAX,
    {
        let g = (self.generation + 1) as u64;
        (Debouncer { generation: g, pending: Some(text) }, g)
    }

    /// What an elapsed timer does: with the current token and a pending
    /// text, it releases that text and empties the slot; a stale token, or
    /// one whose text was already released, changes nothing and releases
    /// nothing.
    pub open spec fn spec_fire(self, token: u64) -> (Debouncer, Option<String>) {
        if token == self.generation && self.pending is Some {
            (Debouncer { generation: self.generation, pending: None }, self.pending)
        } else {
            (self, None)
        }
    }

    /// A fresh debouncer: nothing scheduled yet.
    pub fn new() -> (d: Debouncer)
        ensures
            d.generation == 0,
            d.pending is None,
    {
        Debouncer { generation: 0, pending: None }
    }

    /// Schedules `text`, cancelling any outstanding schedule, and returns
    /// the token the timer must present when it elapses.
    pub fn schedule(&mut self, text: String) -> (token: u64)
        requires
            old(self).generation < u64::MAX,
        ensures
            (*final(self), token) == old(self).spec_schedule(text),
    {
        self.generation = self.generation + 1;
        self.pending = Some(text);
        self.generation
    }

    /// Called when the timer holding `token` elapses: yields the pending
    /// text if the token is still current, and nothing otherwise.
    pub fn fire(&mut self, token: u64) -> (r: Option<String>)
        ensures
            (*final(self), r) == old(self).spec_fire(token),
    {
        if token == self.generation && self.pending.is_some() {
            self.pending.take()
        } else {
            None
        }
    }
}

/// Two schedules within one debounce window coalesce into exactly one
/// filter application, with the text of the second call: the first timer's
/// token has gone stale, so its firing releases nothing and changes
/// nothing, while the second token releases exactly the second text — and
/// only once, since the slot empties when it fires.
pub proof fn lemma_debounce_single_fire(d: Debouncer, t1: String, t2: String)
    requires
        d.generation + 2 <= u64::MAX,
    ensures
        ({
            let (d1, tok1) = d.spec_schedule(t1);
            let (d2, tok2) = d1.spec_schedule(t2);
            &&& d2.spec_fire(tok1) == (d2, Option::<String>::None)
            &&& d2.spec_fire(tok2).1 == Some(t2)
            &&& d2.spec_fire(tok2).0.spec_fire(tok2).1 is None
            &&& d2.spec_fire(tok1).0.spec_fire(tok2).1 == Some(t2)
        }),
{
}

} // verus!
