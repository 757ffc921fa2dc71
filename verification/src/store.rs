//! The slot for the one path that waits for the frontend.
//!
//! A write replaces whatever was waiting; a retrieval hands the waiting path
//! out and leaves the slot empty. Both take the store by `&mut`, so each is one
//! indivisible step: a host that serves several execution contexts keeps the
//! store behind a lock and so puts their calls in some order.

use vstd::prelude::*;

verus! {

/// The slot after `path` was written to it: whatever was waiting is replaced.
pub open spec fn slot_after_set(slot: Option<Seq<char>>, path: Seq<char>) -> Option<Seq<char>> {
    Some(path)
}

/// What a retrieval hands to its caller: the waiting path, if there is one.
pub open spec fn take_result(slot: Option<Seq<char>>) -> Option<Seq<char>> {
    slot
}

/// The slot after a retrieval: empty, whatever it held.
pub open spec fn slot_after_take(slot: Option<Seq<char>>) -> Option<Seq<char>> {
    None
}

/// What `n` retrievals in a row hand out, in the order in which the slot
/// served them.
pub open spec fn take_run(slot: Option<Seq<char>>, n: nat) -> Seq<Option<Seq<char>>>
    decreases n,
{
    if n == 0 {
        Seq::empty()
    } else {
        seq![take_result(slot)] + take_run(slot_after_take(slot), (n - 1) as nat)
    }
}

/// Holder of at most one pending file path.
pub struct AppState {
    pending_file: Option<String>,
}

impl View for AppState {
    type V = Option<Seq<char>>;

    /// The characters of the waiting path, or `None` while the slot is empty.
    closed spec fn view(&self) -> Option<Seq<char>> {
        match self.pending_file {
            Some(path) => Some(path@),
            None => None,
        }
    }
}

impl AppState {
    /// An empty store.
    pub fn new() -> (state: Self)
        ensures
            state@ == None::<Seq<char>>,
    {
        AppState { pending_file: None }
    }

    /// Hands out the waiting path and empties the slot. On an empty slot it
    /// returns `None` and changes nothing.
    pub fn take_pending_file(&mut self) -> (path: Option<String>)
        ensures
            path.deep_view() == take_result(old(self)@),
            final(self)@ == slot_after_take(old(self)@),
    {
        self.pending_file.take()
    }

    /// Writes `path` into the slot. A path that was still waiting is dropped
    /// without notice: the last write wins.
    pub fn set_pending_file(&mut self, path: String)
        ensures
            final(self)@ == slot_after_set(old(self)@, path@),
    {
        self.pending_file = Some(path);
    }
}

/// A retrieval right after a write hands out the written path, and the
/// retrieval after that one finds the slot empty.
pub proof fn lemma_take_after_set_consumes(slot: Option<Seq<char>>, path: Seq<char>)
    ensures
        take_result(slot_after_set(slot, path)) == Some(path),
        take_result(slot_after_take(slot_after_set(slot, path))) == None::<Seq<char>>,
{
}

/// Of two writes in a row only the second is ever handed out: the retrieval
/// that follows returns the second path, and the one after it returns nothing.
pub proof fn lemma_last_write_wins(slot: Option<Seq<char>>, first: Seq<char>, second: Seq<char>)
    ensures
        take_result(slot_after_set(slot_after_set(slot, first), second)) == Some(second),
        take_result(slot_after_take(slot_after_set(slot_after_set(slot, first), second)))
            == None::<Seq<char>>,
{
}

/// Every retrieval from an empty slot comes back empty.
pub proof fn lemma_take_run_empty(n: nat)
    ensures
        take_run(None, n).len() == n,
        forall|i: int| 0 <= i < n ==> (#[trigger] take_run(None, n)[i]) == None::<Seq<char>>,
    decreases n,
{
    if n > 0 {
        lemma_take_run_empty((n - 1) as nat);
    }
}

/// However many retrievals follow one write, in whatever order their callers
/// reached the slot, exactly one of them receives the path (the first to be
/// served) and every other one receives nothing.
pub proof fn lemma_single_delivery(slot: Option<Seq<char>>, path: Seq<char>, n: nat)
    requires
        n >= 1,
    ensures
        take_run(slot_after_set(slot, path), n).len() == n,
        take_run(slot_after_set(slot, path), n)[0] == Some(path),
        forall|i: int|
            1 <= i < n ==> (#[trigger] take_run(slot_after_set(slot, path), n)[i])
                == None::<Seq<char>>,
{
    lemma_take_run_empty((n - 1) as nat);
}

} // verus!
