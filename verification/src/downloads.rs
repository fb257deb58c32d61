//! File downloads triggered from tab webviews: the log of saved files,
//! the cancel flags of downloads in flight, and how a saved file is named.
//!
//! The proxy streams an attachment to a temp file, then renames it into
//! place under a sanitized and uniquified filename (preferring the
//! Content-Disposition name, then the URL's last path segment, then
//! `"download"`). The log keeps the newest 200 saves for the UI.

use std::collections::HashMap;

use vstd::prelude::*;

use crate::ring::{lemma_pushed_all_newest_first, min_nat, newest_first, pushed, pushed_all, Duplicate, Ring};
use crate::urls::{parsed_path_segments, percent_decode, percent_decoded, url_path_segments};
use crate::text::{
    chars_of, decimal, is_ws, opt_view, owned, push_char, push_str, string_from, string_of,
    u64_to_decimal, views,
};

verus! {

/// Entries the log keeps.
pub const CAPACITY: usize = 200;

/// One saved download.
#[derive(Debug)]
pub struct DownloadEntry {
    pub id: u64,
    /// Absolute URL the webview requested.
    pub url: String,
    /// Filename as written to disk (after sanitization + uniquification).
    pub filename: String,
    /// Absolute path on disk.
    pub path: String,
    /// Bytes written.
    pub size: u64,
    /// Unix seconds when the save completed.
    pub ts: u64,
}

impl Duplicate for DownloadEntry {
    fn duplicate(&self) -> (r: Self) {
        DownloadEntry {
            id: self.id,
            url: self.url.clone(),
            filename: self.filename.clone(),
            path: self.path.clone(),
            size: self.size,
            ts: self.ts,
        }
    }
}

impl Clone for DownloadEntry {
    fn clone(&self) -> (r: Self)
        ensures
            r == *self,
    {
        self.duplicate()
    }
}

/// Bounded history of downloads, and the id counter for new ones.
pub struct DownloadsLog {
    inner: Ring<DownloadEntry, CAPACITY>,
    next_id: u64,
}

impl Default for DownloadsLog {
    fn default() -> (r: Self)
        ensures
            r.entries() == Seq::<DownloadEntry>::empty(),
            r.capacity() == CAPACITY,
            r.last_id() == 0,
    {
        DownloadsLog { inner: Ring::new(), next_id: 0 }
    }
}

impl DownloadsLog {
    /// Saved downloads, oldest first.
    pub closed spec fn entries(&self) -> Seq<DownloadEntry> {
        self.inner.entries()
    }

    /// How many entries are kept.
    pub open spec fn capacity(&self) -> nat {
        CAPACITY as nat
    }

    /// Every log holds at most its capacity.
    pub proof fn lemma_bounded(&self)
        ensures
            self.entries().len() <= self.capacity(),
    {
        self.inner.lemma_bounded();
    }

    /// The last id issued (0 before the first).
    pub closed spec fn last_id(&self) -> u64 {
        self.next_id
    }

    /// Record a finished download; the oldest drops off once 200 are held.
    pub fn add(&mut self, entry: DownloadEntry)
        ensures
            final(self).entries() == pushed(old(self).entries(), entry, old(self).capacity()),
            final(self).entries().len() <= final(self).capacity(),
            final(self).capacity() == old(self).capacity(),
            final(self).last_id() == old(self).last_id(),
    {
        self.inner.push(entry);
    }

    /// Up to `limit` downloads, newest first.
    pub fn recent(&self, limit: usize) -> (r: Vec<DownloadEntry>)
        ensures
            r@ == newest_first(self.entries(), limit as nat),
    {
        self.inner.recent_newest_first(limit)
    }

    /// Forget every download.
    pub fn clear(&mut self)
        ensures
            final(self).entries() == Seq::<DownloadEntry>::empty(),
            final(self).capacity() == old(self).capacity(),
            final(self).last_id() == old(self).last_id(),
    {
        self.inner.clear();
    }

    /// Reserve the next id for a download (ids start at 1 and increase).
    pub fn issue_id(&mut self) -> (id: u64)
        requires
            old(self).last_id() < u64::MAX,
        ensures
            id == old(self).last_id() + 1,
            final(self).last_id() == id,
            final(self).entries() == old(self).entries(),
            final(self).capacity() == old(self).capacity(),
    {
        self.next_id = self.next_id + 1;
        self.next_id
    }
}

/// How many downloads the UI list shows: the requested number (100 when
/// unspecified), never more than the log holds.
pub fn list_limit(limit: Option<usize>) -> (r: usize)
    ensures
        r == match limit {
            Some(n) => if n < CAPACITY {
                n
            } else {
                CAPACITY
            },
            None => 100,
        },
{
    let take = match limit {
        Some(n) => n,
        None => 100,
    };
    if take < CAPACITY {
        take
    } else {
        CAPACITY
    }
}

/// Cancellation flags of the downloads currently streaming to disk, keyed
/// by download id.
pub struct ActiveDownloads {
    flags: HashMap<u64, bool>,
}

impl Default for ActiveDownloads {
    fn default() -> (r: Self)
        ensures
            r@ == Map::<u64, bool>::empty(),
    {
        ActiveDownloads { flags: HashMap::new() }
    }
}

impl View for ActiveDownloads {
    type V = Map<u64, bool>;

    closed spec fn view(&self) -> Map<u64, bool> {
        self.flags@
    }
}

impl ActiveDownloads {
    /// Register a download with its flag cleared.
    pub fn register(&mut self, id: u64)
        ensures
            final(self)@ == old(self)@.insert(id, false),
    {
        broadcast use vstd::std_specs::hash::group_hash_axioms;

        self.flags.insert(id, false);
    }

    /// Flip the cancel flag for `id`. Returns `false` if no download with
    /// that id is currently streaming (already finished, failed, or never
    /// existed).
    pub fn cancel(&mut self, id: u64) -> (ok: bool)
        ensures
            ok == old(self)@.contains_key(id),
            final(self)@ == if ok {
                old(self)@.insert(id, true)
            } else {
                old(self)@
            },
    {
        broadcast use vstd::std_specs::hash::group_hash_axioms;

        if self.flags.contains_key(&id) {
            self.flags.insert(id, true);
            true
        } else {
            false
        }
    }

    /// Whether `id` has been cancelled (`false` when not registered).
    pub fn is_cancelled(&self, id: u64) -> (b: bool)
        ensures
            b == (self@.contains_key(id) && self@[id]),
    {
        broadcast use vstd::std_specs::hash::group_hash_axioms;

        match self.flags.get(&id) {
            Some(f) => *f,
            None => false,
        }
    }

    /// Drop the flag of a download that ended.
    pub fn unregister(&mut self, id: u64)
        ensures
            final(self)@ == old(self)@.remove(id),
    {
        broadcast use vstd::std_specs::hash::group_hash_axioms;

        self.flags.remove(&id);
    }
}

/// A streaming-download progress update sent to the UI. `total` is `None`
/// when the server sent no `Content-Length`; `done` marks the final event.
#[derive(Debug)]
pub struct DownloadProgress {
    pub id: u64,
    pub url: String,
    pub bytes_written: u64,
    pub total: Option<u64>,
    pub done: bool,
}

/// Why a streaming download did not end with a saved file.
#[derive(Debug, PartialEq, Eq)]
pub enum DownloadFailure {
    /// Cancelled via `downloads_cancel` (or the flag was already set
    /// before the first chunk arrived).
    Cancelled,
    /// A body-read error, an I/O error writing or renaming the temp
    /// file, or a failure creating the destination directory.
    Failed(String),
}

impl DownloadFailure {
    /// Text shown for the failure.
    pub fn message(&self) -> (r: String)
        ensures
            r@ == match self {
                DownloadFailure::Cancelled => "download cancelled"@,
                DownloadFailure::Failed(m) => m@,
            },
    {
        match self {
            DownloadFailure::Cancelled => owned("download cancelled"),
            DownloadFailure::Failed(m) => m.clone(),
        }
    }
}

// ---------------------------------------------------------------------
// Streaming a body to disk
// ---------------------------------------------------------------------

/// A download being streamed to its temp file: bytes written so far and
/// the length the server declared, if any.
#[derive(Debug)]
pub struct StreamState {
    pub bytes_written: u64,
    pub declared_len: Option<u64>,
}

/// What the streaming loop last ran into.
#[derive(Debug)]
pub enum StreamEvent {
    /// Creating the destination directory failed with this message.
    DirFailed(String),
    /// Creating the temp file failed with this message.
    TempFailed(String),
    /// The cancel flag was set when checked before the next read.
    CancelSeen,
    /// A data frame of this many bytes was read and written out.
    Wrote(u64),
    /// A frame with no body bytes (trailers): nothing to write.
    Trailer,
    /// The body ended.
    BodyEnded,
    /// Reading the body failed with this message.
    ReadFailed(String),
    /// Writing the temp file failed with this message.
    WriteFailed(String),
    /// Flushing the temp file failed with this message.
    FlushFailed(String),
    /// Renaming the temp file into place failed with this message.
    RenameFailed(String),
}

/// What the streaming loop does next.
#[derive(Debug)]
pub enum StreamAction {
    /// Check the cancel flag and read the next frame.
    ReadNext,
    /// Report (bytes written, declared length) to the UI, then read on.
    Progress(u64, Option<u64>),
    /// Flush the temp file and rename it into place.
    Finalize,
    /// Delete the temp file (if any) and end with this failure; nothing
    /// is logged.
    Abort(DownloadFailure),
}

/// `prefix` followed by `message`, as the failure's text.
fn failed_with(prefix: &str, message: String) -> (r: DownloadFailure)
    ensures
        r matches DownloadFailure::Failed(t) && t@ == prefix@ + message@,
{
    let mut t = owned(prefix);
    push_str(&mut t, message.as_str());
    DownloadFailure::Failed(t)
}

impl StreamState {
    /// A download that has written nothing yet.
    pub fn new(declared_len: Option<u64>) -> (s: Self)
        ensures
            s.bytes_written == 0,
            s.declared_len == declared_len,
    {
        StreamState { bytes_written: 0, declared_len }
    }

    /// Take in `event` and say what to do next. Written bytes add up and
    /// are reported after every data frame; trailers are skipped; the end
    /// of the body finalizes; cancellation and every failure abort, the
    /// failure's text naming the step that failed.
    pub fn step(&mut self, event: StreamEvent) -> (a: StreamAction)
        requires
            event matches StreamEvent::Wrote(n) ==> old(self).bytes_written + n <= u64::MAX,
        ensures
            final(self).declared_len == old(self).declared_len,
            event matches StreamEvent::Wrote(n) ==> final(self).bytes_written == old(self).bytes_written + n
                && a == StreamAction::Progress(final(self).bytes_written, old(self).declared_len),
            !(event is Wrote) ==> final(self).bytes_written == old(self).bytes_written,
            event is Trailer ==> a == StreamAction::ReadNext,
            event is BodyEnded ==> a == StreamAction::Finalize,
            event is CancelSeen ==> a == StreamAction::Abort(DownloadFailure::Cancelled),
            event matches StreamEvent::DirFailed(m) ==> a matches StreamAction::Abort(
                DownloadFailure::Failed(t),
            ) && t@ == "create download dir: "@ + m@,
            event matches StreamEvent::TempFailed(m) ==> a matches StreamAction::Abort(
                DownloadFailure::Failed(t),
            ) && t@ == "create temp file: "@ + m@,
            event matches StreamEvent::ReadFailed(m) ==> a matches StreamAction::Abort(
                DownloadFailure::Failed(t),
            ) && t@ == "read body: "@ + m@,
            event matches StreamEvent::WriteFailed(m) ==> a matches StreamAction::Abort(
                DownloadFailure::Failed(t),
            ) && t@ == "write file: "@ + m@,
            event matches StreamEvent::FlushFailed(m) ==> a matches StreamAction::Abort(
                DownloadFailure::Failed(t),
            ) && t@ == "flush file: "@ + m@,
            event matches StreamEvent::RenameFailed(m) ==> a matches StreamAction::Abort(
                DownloadFailure::Failed(t),
            ) && t@ == "finalize file: "@ + m@,
    {
        match event {
            StreamEvent::DirFailed(m) => StreamAction::Abort(failed_with("create download dir: ", m)),
            StreamEvent::TempFailed(m) => StreamAction::Abort(failed_with("create temp file: ", m)),
            StreamEvent::CancelSeen => StreamAction::Abort(DownloadFailure::Cancelled),
            StreamEvent::Wrote(n) => {
                self.bytes_written = self.bytes_written + n;
                StreamAction::Progress(self.bytes_written, self.declared_len)
            },
            StreamEvent::Trailer => StreamAction::ReadNext,
            StreamEvent::BodyEnded => StreamAction::Finalize,
            StreamEvent::ReadFailed(m) => StreamAction::Abort(failed_with("read body: ", m)),
            StreamEvent::WriteFailed(m) => StreamAction::Abort(failed_with("write file: ", m)),
            StreamEvent::FlushFailed(m) => StreamAction::Abort(failed_with("flush file: ", m)),
            StreamEvent::RenameFailed(m) => StreamAction::Abort(failed_with("finalize file: ", m)),
        }
    }
}

// ---------------------------------------------------------------------
// Naming saved files
// ---------------------------------------------------------------------

/// `char::is_control`: the C0 and C1 control characters.
pub open spec fn is_control(c: char) -> bool {
    (c as u32) <= 0x1f || (0x7f <= (c as u32) && (c as u32) <= 0x9f)
}

/// Characters a saved filename may not contain.
pub open spec fn is_forbidden(c: char) -> bool {
    is_control(c) || c == '/' || c == '\\' || c == ':' || c == '*' || c == '?' || c == '"' || c
        == '<' || c == '>' || c == '|'
}

/// Every forbidden character replaced by `_`.
pub open spec fn replaced(s: Seq<char>) -> Seq<char> {
    s.map_values(|c: char| if is_forbidden(c) { '_' } else { c })
}

/// Characters stripped from both ends of a filename.
pub open spec fn is_dot_or_ws(c: char) -> bool {
    c == '.' || is_ws(c)
}

/// `s` without leading dots and whitespace.
pub open spec fn strip_start(s: Seq<char>) -> Seq<char>
    decreases s.len(),
{
    if s.len() > 0 && is_dot_or_ws(s[0]) {
        strip_start(s.drop_first())
    } else {
        s
    }
}

/// `s` without trailing dots and whitespace.
pub open spec fn strip_end(s: Seq<char>) -> Seq<char>
    decreases s.len(),
{
    if s.len() > 0 && is_dot_or_ws(s.last()) {
        strip_end(s.drop_last())
    } else {
        s
    }
}

/// Longest filename kept, leaving room for a ` (n)` suffix.
pub const MAX_NAME: usize = 200;

/// The name a downloaded file is saved under: forbidden characters become
/// `_`, dots and whitespace are stripped from both ends, an empty result
/// becomes `download`, and names longer than 200 bytes keep their first
/// 200 characters.
pub open spec fn sanitized(name: Seq<char>) -> Seq<char> {
    let t = strip_end(strip_start(replaced(name)));
    if t.len() == 0 {
        "download"@
    } else if utf8_len(t) > MAX_NAME && t.len() > MAX_NAME {
        t.take(MAX_NAME as int)
    } else {
        t
    }
}

proof fn lemma_strip_shape(s: Seq<char>)
    ensures
        strip_start(s).len() <= s.len(),
        strip_start(s) == s.skip(s.len() - strip_start(s).len()),
        strip_start(s).len() > 0 ==> !is_dot_or_ws(strip_start(s)[0]),
        strip_end(s).len() <= s.len(),
        strip_end(s) == s.take(strip_end(s).len() as int),
        strip_end(s).len() > 0 ==> strip_end(s)[0] == s[0],
    decreases s.len(),
{
    if s.len() > 0 && is_dot_or_ws(s[0]) {
        lemma_strip_shape(s.drop_first());
        assert(s.drop_first().skip(s.drop_first().len() - strip_start(s.drop_first()).len())
            =~= s.skip(s.len() - strip_start(s).len()));
    } else {
        assert(s.skip(0) =~= s);
    }
    if s.len() > 0 && is_dot_or_ws(s.last()) {
        lemma_strip_shape(s.drop_last());
        assert(s.drop_last().take(strip_end(s).len() as int) =~= s.take(strip_end(s).len() as int));
    } else {
        assert(s.take(s.len() as int) =~= s);
    }
}

/// A sanitized filename is never empty, never starts with a dot, and holds
/// no path separator or other forbidden character.
pub proof fn lemma_sanitized_is_safe(name: Seq<char>)
    ensures
        sanitized(name).len() > 0,
        sanitized(name)[0] != '.',
        forall|i: int| 0 <= i < sanitized(name).len() ==> !is_forbidden(#[trigger] sanitized(name)[i]),
{
    let r = replaced(name);
    let a = strip_start(r);
    let t = strip_end(a);
    lemma_strip_shape(r);
    lemma_strip_shape(a);
    reveal_strlit("download");
    assert forall|i: int| 0 <= i < t.len() implies !is_forbidden(#[trigger] t[i]) by {
        let off = r.len() - a.len();
        assert(t[i] == a[i]);
        assert(a[i] == r[off + i]);
    }
    if t.len() == 0 {
        assert("download"@.len() == 8);
        assert("download"@[0] == 'd');
        assert forall|i: int| 0 <= i < 8 implies !is_forbidden(#[trigger] "download"@[i]) by {
        }
    } else {
        assert(t[0] == a[0]);
        assert(!is_dot_or_ws(a[0]));
        let s = sanitized(name);
        if utf8_len(t) > MAX_NAME && t.len() > MAX_NAME {
            assert(s == t.take(MAX_NAME as int));
            assert(s[0] == t[0]);
            assert forall|i: int| 0 <= i < s.len() implies !is_forbidden(#[trigger] s[i]) by {
                assert(s[i] == t[i]);
            }
        }
    }
}

/// Strip any path separators and control characters from a
/// user-supplied filename. We've pulled this from an HTTP header
/// the server controls so it could contain `..`, slashes, colons,
/// null bytes, or other path-traversal tricks.
pub fn sanitize_filename(name: &str) -> (r: String)
    ensures
        r@ == sanitized(name@),
{
    let cs = chars_of(name);
    let mut rep: Vec<char> = Vec::new();
    let mut i: usize = 0;
    while i < cs.len()
        invariant
            0 <= i <= cs@.len(),
            rep@ =~= replaced(cs@.take(i as int)),
        decreases cs.len() - i,
    {
        let c = cs[i];
        let u = c as u32;
        let bad = u <= 0x1f || (0x7f <= u && u <= 0x9f) || c == '/' || c == '\\' || c == ':' || c
            == '*' || c == '?' || c == '"' || c == '<' || c == '>' || c == '|';
        rep.push(if bad { '_' } else { c });
        assert(replaced(cs@.take(i + 1)) =~= replaced(cs@.take(i as int)).push(
            if is_forbidden(c) { '_' } else { c },
        ));
        i += 1;
    }
    assert(cs@.take(cs@.len() as int) =~= cs@);
    let ghost r0 = rep@;
    // Strip leading dots/whitespace.
    let mut a: usize = 0;
    let n = rep.len();
    assert(r0.skip(0) =~= r0);
    while a < n && (rep[a] == '.' || crate::text::is_whitespace(rep[a]))
        invariant
            a <= n == rep@.len(),
            rep@ == r0,
            strip_start(r0) == strip_start(r0.skip(a as int)),
        decreases n - a,
    {
        assert(r0.skip(a as int).drop_first() =~= r0.skip(a + 1));
        a += 1;
    }
    let ghost s1 = r0.skip(a as int);
    assert(strip_start(s1) == s1);
    let mut b: usize = n;
    while b > a && (rep[b - 1] == '.' || crate::text::is_whitespace(rep[b - 1]))
        invariant
            a <= b <= n == rep@.len(),
            rep@ == r0,
            s1 == r0.skip(a as int),
            strip_end(s1) == strip_end(r0.subrange(a as int, b as int)),
        decreases b - a,
    {
        assert(r0.subrange(a as int, b as int).drop_last() =~= r0.subrange(a as int, b - 1));
        b -= 1;
    }
    assert(s1 =~= r0.subrange(a as int, n as int));
    let ghost t = r0.subrange(a as int, b as int);
    assert(strip_end(t) == t);
    assert(cs@ == name@);
    assert(t == strip_end(strip_start(replaced(name@))));
    if a == b {
        return owned("download");
    }
    let trimmed = string_of(&rep, a, b);
    if utf8_len_exceeds(&rep, a, b, MAX_NAME) {
        let end = if b - a < MAX_NAME {
            b
        } else {
            a + MAX_NAME
        };
        let r = string_of(&rep, a, end);
        assert(r@ =~= sanitized(name@));
        r
    } else {
        assert(trimmed@ == t);
        assert(sanitized(name@) == t);
        trimmed
    }
}

/// Bytes `c` takes in UTF-8.
pub open spec fn utf8_width(c: char) -> nat {
    if (c as u32) < 0x80 {
        1
    } else if (c as u32) < 0x800 {
        2
    } else if (c as u32) < 0x10000 {
        3
    } else {
        4
    }
}

/// Length of the UTF-8 encoding of `s`, in bytes.
pub open spec fn utf8_len(s: Seq<char>) -> nat
    decreases s.len(),
{
    if s.len() == 0 {
        0
    } else {
        utf8_len(s.drop_last()) + utf8_width(s.last())
    }
}

/// Whether `cs[from..to]` takes more than `limit` bytes in UTF-8.
fn utf8_len_exceeds(cs: &[char], from: usize, to: usize, limit: usize) -> (b: bool)
    requires
        from <= to <= cs@.len(),
        limit < 1000,
    ensures
        b == (utf8_len(cs@.subrange(from as int, to as int)) > limit),
{
    let mut i = from;
    let mut total: usize = 0;
    while i < to
        invariant
            from <= i <= to <= cs@.len(),
            limit < 1000,
            total == utf8_len(cs@.subrange(from as int, i as int)),
            total <= limit,
        decreases to - i,
    {
        let u = cs[i] as u32;
        let w: usize = if u < 0x80 {
            1
        } else if u < 0x800 {
            2
        } else if u < 0x10000 {
            3
        } else {
            4
        };
        assert(cs@.subrange(from as int, i + 1).drop_last() =~= cs@.subrange(from as int, i as int));
        total = total + w;
        i += 1;
        if total > limit {
            proof {
                lemma_utf8_len_monotone(cs@.subrange(from as int, to as int), i - from);
                assert(cs@.subrange(from as int, to as int).take(i - from) =~= cs@.subrange(
                    from as int,
                    i as int,
                ));
            }
            return true;
        }
    }
    false
}

/// A prefix never takes more bytes than the whole.
proof fn lemma_utf8_len_monotone(s: Seq<char>, k: int)
    requires
        0 <= k <= s.len(),
    ensures
        utf8_len(s.take(k)) <= utf8_len(s),
    decreases s.len() - k,
{
    if k < s.len() {
        lemma_utf8_len_monotone(s, k + 1);
        assert(s.take(k + 1).drop_last() =~= s.take(k));
        assert(utf8_len(s.take(k + 1)) == utf8_len(s.take(k)) + utf8_width(s.take(k + 1).last()));
    } else {
        assert(s.take(k) =~= s);
    }
}

/// Index of the last `c` in `s`, if any.
pub open spec fn last_index(s: Seq<char>, c: char) -> Option<int>
    decreases s.len(),
{
    if s.len() == 0 {
        None
    } else if s.last() == c {
        Some(s.len() - 1)
    } else {
        last_index(s.drop_last(), c)
    }
}

/// The `n`-th name tried for a file whose name is taken: `stem (n).ext`,
/// or `name (n)` when there is no extension (or the name is only `.ext`).
pub open spec fn numbered(filename: Seq<char>, n: nat) -> Seq<char> {
    let tag = " ("@ + decimal(n) + ")"@;
    match last_index(filename, '.') {
        Some(i) if i > 0 => filename.take(i) + tag + filename.skip(i),
        _ => filename + tag,
    }
}

/// `filename (n)` with the counter placed before the extension, as used to
/// avoid overwriting an existing file.
pub fn numbered_name(filename: &str, n: u64) -> (r: String)
    ensures
        r@ == numbered(filename@, n as nat),
{
    let cs = chars_of(filename);
    let mut i = cs.len();
    assert(cs@.take(i as int) =~= cs@);
    while i > 0 && cs[i - 1] != '.'
        invariant
            i <= cs@.len(),
            last_index(cs@, '.') == last_index(cs@.take(i as int), '.'),
        decreases i,
    {
        assert(cs@.take(i as int).drop_last() =~= cs@.take(i - 1));
        i -= 1;
    }
    let ghost li = last_index(cs@, '.');
    if i > 0 {
        assert(cs@.take(i as int).last() == '.');
        assert(li == Some((i - 1) as int));
    } else {
        assert(cs@.take(0) =~= Seq::<char>::empty());
    }
    let num = u64_to_decimal(n);
    if i > 1 {
        let dot = i - 1;
        let mut out = string_of(&cs, 0, dot);
        push_str(&mut out, " (");
        push_str(&mut out, num.as_str());
        push_str(&mut out, ")");
        let ext = string_of(&cs, dot, cs.len());
        push_str(&mut out, ext.as_str());
        assert(cs@.subrange(0, dot as int) =~= cs@.take(dot as int));
        assert(cs@.subrange(dot as int, cs@.len() as int) =~= cs@.skip(dot as int));
        assert(out@ =~= numbered(filename@, n as nat));
        out
    } else {
        let mut out = string_from(&cs);
        push_str(&mut out, " (");
        push_str(&mut out, num.as_str());
        push_str(&mut out, ")");
        assert(out@ =~= numbered(filename@, n as nat));
        out
    }
}

/// The raw name a download is saved under before sanitizing: the
/// Content-Disposition name, else the URL's filename, else `download`.
pub open spec fn raw_download_name(disposition: Option<Seq<char>>, from_url: Option<Seq<char>>) -> Seq<char> {
    match disposition {
        Some(d) => d,
        None => match from_url {
            Some(u) => u,
            None => "download"@,
        },
    }
}

/// The sanitized filename a download is saved under.
pub fn download_filename(disposition: Option<&str>, from_url: Option<&str>) -> (r: String)
    ensures
        r@ == sanitized(
            raw_download_name(
                match disposition {
                    Some(d) => Some(d@),
                    None => None,
                },
                match from_url {
                    Some(u) => Some(u@),
                    None => None,
                },
            ),
        ),
{
    let raw = match disposition {
        Some(d) => d,
        None => match from_url {
            Some(u) => u,
            None => "download",
        },
    };
    sanitize_filename(raw)
}

/// Name of the hidden temp file a download streams into.
pub fn temp_file_name(id: u64) -> (r: String)
    ensures
        r@ == ".blueflame-download-"@ + decimal(id as nat) + ".part"@,
{
    let mut out = owned(".blueflame-download-");
    let n = u64_to_decimal(id);
    push_str(&mut out, n.as_str());
    push_str(&mut out, ".part");
    out
}

/// The last non-empty piece of a URL path.
pub open spec fn last_nonempty(segments: Seq<Seq<char>>) -> Option<Seq<char>>
    decreases segments.len(),
{
    if segments.len() == 0 {
        None
    } else if segments.last().len() > 0 {
        Some(segments.last())
    } else {
        last_nonempty(segments.drop_last())
    }
}

/// The filename a URL names: its last non-empty path segment,
/// percent-decoded, unless that is empty.
pub open spec fn url_filename(url: Seq<char>) -> Option<Seq<char>> {
    match parsed_path_segments(url) {
        Some(segs) => match last_nonempty(segs) {
            Some(last) => if percent_decoded(last).len() == 0 {
                None
            } else {
                Some(percent_decoded(last))
            },
            None => None,
        },
        None => None,
    }
}

/// The last non-empty segment of a URL path.
pub fn last_path_segment(segments: &Vec<String>) -> (r: Option<String>)
    ensures
        opt_view(r) == last_nonempty(views(segments@)),
{
    let ghost vs = views(segments@);
    let mut i = segments.len();
    assert(vs.take(i as int) =~= vs);
    while i > 0
        invariant
            i <= segments@.len(),
            vs == views(segments@),
            last_nonempty(vs) == last_nonempty(vs.take(i as int)),
        decreases i,
    {
        assert(vs.take(i as int).drop_last() =~= vs.take(i - 1));
        assert(vs.take(i as int).last() == segments@[i - 1]@);
        if !segments[i - 1].as_str().is_empty() {
            return Some(owned(segments[i - 1].as_str()));
        }
        i -= 1;
    }
    None
}

/// Last path segment of `url`, percent-decoded; `None` when there is no
/// non-empty one.
pub fn filename_from_url(url: &str) -> (r: Option<String>)
    ensures
        opt_view(r) == url_filename(url@),
{
    let segs = match url_path_segments(url) {
        Some(s) => s,
        None => return None,
    };
    let last = match last_path_segment(&segs) {
        Some(l) => l,
        None => return None,
    };
    let decoded = percent_decode(last.as_str());
    if decoded.as_str().is_empty() {
        None
    } else {
        Some(decoded)
    }
}

/// After a clear, adding `added` one by one and listing up to `limit`
/// gives the newest of them that the log still keeps, newest first.
pub proof fn law_added_then_recent(added: Seq<DownloadEntry>, limit: nat)
    ensures
        newest_first(pushed_all(Seq::<DownloadEntry>::empty(), added, CAPACITY as nat), limit)
            == added.reverse().take(min_nat(limit, min_nat(added.len(), CAPACITY as nat)) as int),
{
    lemma_pushed_all_newest_first(added, CAPACITY as nat, limit);
}

} // verus!
