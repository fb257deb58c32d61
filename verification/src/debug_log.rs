//! In-memory debug log exposed to the UI.
//!
//! Captures `tracing` events and events pushed from the frontend into a
//! bounded ring buffer (the newest 500) so the Debug view can render them
//! live.

use vstd::prelude::*;

use crate::ring::{lemma_pushed_window, min_nat, newest_in_order, pushed, Duplicate, Ring};
use crate::text::{owned, push_char, push_str};

verus! {

/// Entries kept.
pub const CAPACITY: usize = 500;

#[derive(Debug)]
pub struct DebugEntry {
    /// Unix epoch seconds of when we observed the event.
    pub ts: u64,
    /// Lowercase level: `error` / `warn` / `info` / `debug` / `trace` / `frontend`.
    pub level: String,
    /// `tracing` target (typically a module path) or "frontend" for UI events.
    pub target: String,
    /// Human-readable message.
    pub message: String,
}

impl Duplicate for DebugEntry {
    fn duplicate(&self) -> (r: Self) {
        DebugEntry {
            ts: self.ts,
            level: self.level.clone(),
            target: self.target.clone(),
            message: self.message.clone(),
        }
    }
}

impl Clone for DebugEntry {
    fn clone(&self) -> (r: Self)
        ensures
            r == *self,
    {
        self.duplicate()
    }
}

/// The newest debug entries, oldest first.
pub struct DebugLog {
    inner: Ring<DebugEntry, CAPACITY>,
}

impl Default for DebugLog {
    fn default() -> (r: Self)
        ensures
            r.entries() == Seq::<DebugEntry>::empty(),
            r.capacity() == CAPACITY,
    {
        DebugLog { inner: Ring::new() }
    }
}

impl DebugLog {
    /// The entries held, oldest first.
    pub closed spec fn entries(&self) -> Seq<DebugEntry> {
        self.inner.entries()
    }

    /// How many entries are kept.
    pub open spec fn capacity(&self) -> nat {
        CAPACITY as nat
    }

    /// Every log holds at most its capacity.
    pub proof fn lemma_bounded(&self)
        ensures
            self.entries().len() <= self.capacity(),
    {
        self.inner.lemma_bounded();
    }

    /// Append an entry, evicting the oldest once 500 are held.
    pub fn push(&mut self, entry: DebugEntry)
        ensures
            final(self).entries() == pushed(old(self).entries(), entry, old(self).capacity()),
            final(self).entries().len() <= final(self).capacity(),
            final(self).capacity() == old(self).capacity(),
    {
        self.inner.push(entry);
    }

    /// The newest `limit` entries, oldest first.
    pub fn recent(&self, limit: usize) -> (r: Vec<DebugEntry>)
        ensures
            r@ == newest_in_order(self.entries(), limit as nat),
    {
        self.inner.recent_in_order(limit)
    }

    /// Drop every entry.
    pub fn clear(&mut self)
        ensures
            final(self).entries() == Seq::<DebugEntry>::empty(),
            final(self).capacity() == old(self).capacity(),
    {
        self.inner.clear();
    }
}

/// The one-line message a tracing event flattens to: the `message` field,
/// then the other `key=value` fields after a space.
pub open spec fn flattened(message: Seq<char>, fields: Seq<char>) -> Seq<char> {
    if fields.len() == 0 {
        message
    } else if message.len() == 0 {
        fields
    } else {
        message + seq![' '] + fields
    }
}

/// Join an event's `message` field and its other fields into one line.
pub fn finish_message(message: &str, fields: &str) -> (r: String)
    ensures
        r@ == flattened(message@, fields@),
{
    if fields.is_empty() {
        owned(message)
    } else if message.is_empty() {
        owned(fields)
    } else {
        let mut out = owned(message);
        push_char(&mut out, ' ');
        push_str(&mut out, fields);
        out
    }
}

/// Append one `key=value` field to the space-separated field list.
pub fn push_field(fields: &mut String, name: &str, value: &str)
    ensures
        final(fields)@ == if old(fields)@.len() == 0 {
            name@ + seq!['='] + value@
        } else {
            old(fields)@ + seq![' '] + name@ + seq!['='] + value@
        },
{
    if !fields.as_str().is_empty() {
        push_char(fields, ' ');
    }
    push_str(fields, name);
    push_char(fields, '=');
    push_str(fields, value);
}

/// A push appends the entry after everything held before, then drops
/// the oldest entries until no more than the capacity remain; listing with a
/// limit of at least the capacity gives all of them, oldest first.
pub proof fn law_push_then_recent(log: DebugLog, entry: DebugEntry, limit: nat)
    requires
        log.capacity() <= limit,
    ensures
        newest_in_order(pushed(log.entries(), entry, log.capacity()), limit) == log.entries().push(
            entry,
        ).skip(log.entries().len() + 1 - min_nat(log.capacity(), log.entries().len() + 1)),
        newest_in_order(log.entries(), limit) == log.entries(),
{
    log.lemma_bounded();
    let s = log.entries();
    let p = pushed(s, entry, log.capacity());
    lemma_pushed_window(s, entry, log.capacity());
    assert(p.skip(0) =~= p);
    assert(s.skip(0) =~= s);
}

/// A push onto a cleared log leaves just that entry, whatever positive
/// limit lists it.
pub proof fn law_clear_then_push(entry: DebugEntry, limit: nat)
    requires
        limit >= 1,
    ensures
        newest_in_order(pushed(Seq::<DebugEntry>::empty(), entry, CAPACITY as nat), limit) == seq![entry],
{
    let p = pushed(Seq::<DebugEntry>::empty(), entry, CAPACITY as nat);
    assert(p =~= seq![entry]);
    assert(p.skip(0) =~= p);
}

} // verus!
