//! Action log for the control channel.
//!
//! Every tool call the pipe dispatches is appended here: an in-memory ring
//! buffer of the last 200 entries for the Debug panel, and a JSON-lines
//! file on disk (`<app_data>/control/action-log.jsonl`) that the shell
//! appends to before handing the entry over.

use vstd::prelude::*;

use crate::clock::now_millis;
use crate::ring::{lemma_newest_first_all, lemma_pushed_newest_first, min_nat, newest_first, pushed, Duplicate, Ring};
use crate::text::{join_path, owned, path_join};

verus! {

/// Entries kept in memory.
pub const RING_CAPACITY: usize = 200;

/// One dispatched tool call.
#[derive(Debug)]
pub struct ActionLogEntry {
    pub ts_ms: u64,
    pub tab_id: Option<u64>,
    pub tool: String,
    pub detail: String,
    pub outcome: String,
}

impl Duplicate for ActionLogEntry {
    fn duplicate(&self) -> (r: Self) {
        ActionLogEntry {
            ts_ms: self.ts_ms,
            tab_id: self.tab_id,
            tool: self.tool.clone(),
            detail: self.detail.clone(),
            outcome: self.outcome.clone(),
        }
    }
}

impl Clone for ActionLogEntry {
    fn clone(&self) -> (r: Self)
        ensures
            r == *self,
    {
        self.duplicate()
    }
}

impl ActionLogEntry {
    /// An entry stamped with the current time.
    pub fn new(tab_id: Option<u64>, tool: &str, detail: &str, outcome: &str) -> (e: Self)
        ensures
            e.tab_id == tab_id,
            e.tool@ == tool@,
            e.detail@ == detail@,
            e.outcome@ == outcome@,
    {
        ActionLogEntry {
            ts_ms: now_millis(),
            tab_id,
            tool: owned(tool),
            detail: owned(detail),
            outcome: owned(outcome),
        }
    }
}

/// `<app_data>/control/action-log.jsonl`.
pub open spec fn action_log_file(app_data: Seq<char>) -> Seq<char> {
    path_join(path_join(app_data, "control"@), "action-log.jsonl"@)
}

/// The in-memory action log, and where its on-disk copy lives.
pub struct ActionLog {
    path: Option<String>,
    recent: Ring<ActionLogEntry, RING_CAPACITY>,
}

impl ActionLog {
    /// The entries held in memory, oldest first.
    pub closed spec fn entries(&self) -> Seq<ActionLogEntry> {
        self.recent.entries()
    }

    /// The JSON-lines file the entries are appended to, if any.
    pub closed spec fn file(&self) -> Option<Seq<char>> {
        match self.path {
            Some(p) => Some(p@),
            None => None,
        }
    }

    /// Memory capacity of the log.
    pub open spec fn capacity(&self) -> nat {
        RING_CAPACITY as nat
    }

    /// Every log holds at most its capacity.
    pub proof fn lemma_bounded(&self)
        ensures
            self.entries().len() <= self.capacity(),
    {
        self.recent.lemma_bounded();
    }

    /// A log backed by `<app_data>/control/action-log.jsonl`.
    pub fn open(app_data: &str) -> (r: Self)
        ensures
            r.entries() == Seq::<ActionLogEntry>::empty(),
            r.file() == Some(action_log_file(app_data@)),
            r.capacity() == RING_CAPACITY,
    {
        let dir = join_path(app_data, "control");
        let path = join_path(dir.as_str(), "action-log.jsonl");
        ActionLog { path: Some(path), recent: Ring::new() }
    }

    /// A log that never touches disk.
    pub fn in_memory() -> (r: Self)
        ensures
            r.entries() == Seq::<ActionLogEntry>::empty(),
            r.file() == None::<Seq<char>>,
            r.capacity() == RING_CAPACITY,
    {
        ActionLog { path: None, recent: Ring::new() }
    }

    /// Path of the JSON-lines copy, if the log has one.
    pub fn file_path(&self) -> (r: Option<String>)
        ensures
            match r {
                Some(p) => self.file() == Some(p@),
                None => self.file() == None::<Seq<char>>,
            },
    {
        match &self.path {
            Some(p) => Some(p.clone()),
            None => None,
        }
    }

    /// Keep `entry` in memory; the oldest entry drops off once 200 are held.
    pub fn record(&mut self, entry: ActionLogEntry)
        ensures
            final(self).entries() == pushed(old(self).entries(), entry, old(self).capacity()),
            final(self).entries().len() <= final(self).capacity(),
            final(self).capacity() == old(self).capacity(),
            final(self).file() == old(self).file(),
    {
        self.recent.push(entry);
    }

    /// Up to `limit` entries, newest first.
    pub fn recent(&self, limit: usize) -> (r: Vec<ActionLogEntry>)
        ensures
            r@ == newest_first(self.entries(), limit as nat),
    {
        self.recent.recent_newest_first(limit)
    }
}

/// Recording an entry puts it first in the newest-first listing, ahead of
/// everything that was listed before, and the whole listing is cut to the
/// capacity (so once the log is full the oldest entry is gone).
pub proof fn law_record_then_recent(log: ActionLog, entry: ActionLogEntry, limit: nat)
    ensures
        newest_first(pushed(log.entries(), entry, log.capacity()), limit) == (seq![entry]
            + newest_first(log.entries(), log.capacity())).take(
            min_nat(limit, min_nat(log.capacity(), log.entries().len() + 1)) as int,
        ),
{
    log.lemma_bounded();
    lemma_pushed_newest_first(log.entries(), entry, log.capacity(), limit);
    lemma_newest_first_all(log.entries(), log.capacity());
}

} // verus!
