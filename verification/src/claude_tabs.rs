//! Tracks which open tabs the control client is allowed to touch.
//!
//! The control client only ever sees and acts on tabs it opened itself (always
//! InPrivate). `list_tabs` only returns members of this set, and every other
//! tool call is rejected for a tab id that is not in it, so a
//! `navigate`/`click`/`type` call can never reach one of the user's own
//! tabs even if it guessed a valid id.

use std::collections::HashSet;

use vstd::prelude::*;
use vstd::std_specs::iter::IteratorSpec;

verus! {

/// The ids of the tabs the control client opened.
pub struct ClaudeTabs {
    ids: HashSet<u64>,
}

impl Default for ClaudeTabs {
    fn default() -> (r: Self)
        ensures
            r@ == Set::<u64>::empty(),
    {
        ClaudeTabs { ids: HashSet::new() }
    }
}

impl View for ClaudeTabs {
    type V = Set<u64>;

    closed spec fn view(&self) -> Set<u64> {
        self.ids@
    }
}

impl ClaudeTabs {
    /// Allow the control client to act on tab `id`.
    pub fn mark(&mut self, id: u64)
        ensures
            final(self)@ == old(self)@.insert(id),
    {
        broadcast use vstd::std_specs::hash::group_hash_axioms;

        self.ids.insert(id);
    }

    /// Withdraw the control client's access to tab `id`.
    pub fn unmark(&mut self, id: u64)
        ensures
            final(self)@ == old(self)@.remove(id),
    {
        broadcast use vstd::std_specs::hash::group_hash_axioms;

        self.ids.remove(&id);
    }

    /// Whether the control client may act on tab `id`.
    pub fn is_claude_tab(&self, id: u64) -> (b: bool)
        ensures
            b == self@.contains(id),
    {
        broadcast use vstd::std_specs::hash::group_hash_axioms;

        self.ids.contains(&id)
    }

    /// Every tab the control client may act on, each once, in the set's
    /// own order.
    pub fn list(&self) -> (r: Vec<u64>)
        ensures
            r@.to_set() == self@,
            r@.no_duplicates(),
    {
        broadcast use vstd::std_specs::hash::group_hash_axioms;

        let ghost keys = self.ids.iter().remaining();
        let mut out: Vec<u64> = Vec::new();
        for x in it: self.ids.iter()
            invariant
                it.seq() == keys,
                out@.len() == it.index(),
                forall|i: int| 0 <= i < out@.len() ==> out@[i] == *keys[i],
        {
            out.push(*x);
        }
        assert(out@ =~= keys.unref());
        out
    }
}

/// The tabs open to the control client after a fresh tracker receives
/// `calls` in order: `(true, id)` marks `id`, `(false, id)` unmarks it.
pub open spec fn after_calls(calls: Seq<(bool, u64)>) -> Set<u64>
    decreases calls.len(),
{
    if calls.len() == 0 {
        Set::empty()
    } else {
        let before = after_calls(calls.drop_last());
        if calls.last().0 {
            before.insert(calls.last().1)
        } else {
            before.remove(calls.last().1)
        }
    }
}

/// Whether the last of `calls` that names `id` is a mark (false when none
/// names it).
pub open spec fn last_call_marks(calls: Seq<(bool, u64)>, id: u64) -> bool
    decreases calls.len(),
{
    if calls.len() == 0 {
        false
    } else if calls.last().1 == id {
        calls.last().0
    } else {
        last_call_marks(calls.drop_last(), id)
    }
}

/// A tab is open to the control client exactly when the last mark or
/// unmark naming it was a mark: an id it never opened is always refused.
pub proof fn law_last_call_decides(calls: Seq<(bool, u64)>, id: u64)
    ensures
        after_calls(calls).contains(id) == last_call_marks(calls, id),
    decreases calls.len(),
{
    if calls.len() > 0 {
        law_last_call_decides(calls.drop_last(), id);
    }
}

} // verus!
