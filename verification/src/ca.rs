//! Root CA bookkeeping for the filtering proxy.
//!
//! The CA certificate lives in the user data directory next to small
//! marker files. The certificate is regenerated whenever the key behind it
//! changed (recorded as a hex fingerprint of its public point). Installs
//! that predate the CNG-held key kept the private key in a plaintext file;
//! migrating off it installs the new root, confirms it is trusted, removes
//! the old root only then, and only afterwards deletes the old key file.
//! Every failure stops the migration with the old setup intact, so it is
//! retried on the next launch.
//!
//! The file and trust-store operations are the shell's; the library
//! decides what to do next.

use vstd::prelude::*;

use crate::text::{
    byte_hex_lower, hex_digit_lower, join_path, path_join, push_char, str_eq, trim_chars,
    trimmed, chars_of, string_from,
};

verus! {

/// The CA certificate's file name.
pub const CERT_FILE: &'static str = "blueflame-ca.crt";

/// Where the certificate of the CA in `dir` is.
pub open spec fn cert_file(dir: Seq<char>) -> Seq<char> {
    path_join(dir, CERT_FILE@)
}

/// The CA certificate's path in `dir`.
pub fn cert_path(dir: &str) -> (r: String)
    ensures
        r@ == cert_file(dir@),
{
    join_path(dir, CERT_FILE)
}

/// Lowercase hex of `bs`, two digits a byte.
pub open spec fn hex_of(bs: Seq<u8>) -> Seq<char>
    decreases bs.len(),
{
    if bs.len() == 0 {
        Seq::empty()
    } else {
        hex_of(bs.drop_last()) + byte_hex_lower(bs.last())
    }
}

/// Lowercase hex of `bs`, two digits a byte.
pub fn hex_encode(bs: &[u8]) -> (r: String)
    ensures
        r@ == hex_of(bs@),
{
    let mut out = String::new();
    let mut i: usize = 0;
    while i < bs.len()
        invariant
            0 <= i <= bs@.len(),
            out@ == hex_of(bs@.take(i as int)),
        decreases bs.len() - i,
    {
        let b = bs[i];
        push_char(&mut out, hex_digit_lower(b / 16));
        push_char(&mut out, hex_digit_lower(b % 16));
        assert(bs@.take(i + 1).drop_last() =~= bs@.take(i as int));
        assert(out@ =~= hex_of(bs@.take(i + 1)));
        i += 1;
    }
    assert(bs@.take(bs@.len() as int) =~= bs@);
    out
}

/// The certificate must be (re)issued when there is none, or when the
/// recorded fingerprint is not that of the current key.
pub open spec fn stale(cert_exists: bool, recorded: Option<Seq<char>>, fingerprint: Seq<char>) -> bool {
    !cert_exists || recorded != Some(fingerprint)
}

/// Whether the CA certificate must be issued anew for the key with
/// `fingerprint`.
pub fn cert_is_stale(cert_exists: bool, recorded: Option<&str>, fingerprint: &str) -> (r: bool)
    ensures
        r == stale(
            cert_exists,
            match recorded {
                Some(x) => Some(x@),
                None => None,
            },
            fingerprint@,
        ),
{
    if !cert_exists {
        return true;
    }
    match recorded {
        Some(x) => !str_eq(x, fingerprint),
        None => true,
    }
}

/// Whether the legacy root's thumbprint must be recorded before the
/// certificate file may be touched: when migrating and not yet recorded.
pub fn must_capture_legacy_thumbprint(migrating: bool, recorded: bool) -> (r: bool)
    ensures
        r == (migrating && !recorded),
{
    migrating && !recorded
}

// ---------------------------------------------------------------------
// Migrating off a plaintext legacy key
// ---------------------------------------------------------------------

/// Where a migration stands.
#[derive(Debug, PartialEq, Eq)]
pub enum Migration {
    /// Reading the recorded thumbprint of the legacy root.
    ReadLegacy,
    /// Installing the new root into the trust store.
    Install { legacy: String },
    /// Computing the new root's thumbprint.
    NewThumbprint { legacy: String },
    /// Checking that the new root is trusted.
    ConfirmNew { legacy: String },
    /// Checking whether the legacy root is still trusted.
    CheckOld { legacy: String },
    /// Removing the legacy root from the trust store.
    RemoveOld { legacy: String },
    /// Securely deleting the legacy key file.
    DeleteKey,
    /// Removing the recorded legacy thumbprint.
    Forget,
    /// Done: the legacy key is gone.
    Finished,
    /// Stopped on a failure, the old setup intact; retried next launch.
    Halted,
}

/// What the shell does next.
#[derive(Debug, PartialEq, Eq)]
pub enum MigrationAction {
    /// Read the recorded legacy thumbprint; answer `Text` or `Failed`.
    ReadLegacyThumbprint,
    /// Install the new root; answer `Done` or `Failed`.
    InstallNewRoot,
    /// Thumbprint the new root's PEM; answer `Text` or `Failed`.
    ThumbprintNewRoot,
    /// Whether a root with this thumbprint is trusted; answer `Yes` or `No`.
    IsTrusted(String),
    /// Remove the root with this thumbprint; answer `Done` or `Failed`.
    RemoveRoot(String),
    /// Overwrite and delete the legacy key file; answer `Done` or `Failed`.
    SecureDeleteLegacyKey,
    /// Remove the recorded legacy thumbprint (best effort); answer anything.
    RemoveThumbprintFile,
    /// Nothing more to do.
    Stop,
}

/// What the last action came to.
#[derive(Debug, PartialEq, Eq)]
pub enum Outcome {
    Text(String),
    Done,
    Failed,
    Yes,
    No,
}

/// A migration state as plain values.
pub ghost enum Stage {
    ReadLegacy,
    Install(Seq<char>),
    NewThumbprint(Seq<char>),
    ConfirmNew(Seq<char>),
    CheckOld(Seq<char>),
    RemoveOld(Seq<char>),
    DeleteKey,
    Forget,
    Finished,
    Halted,
}

/// An action as plain values.
pub ghost enum Act {
    ReadLegacyThumbprint,
    InstallNewRoot,
    ThumbprintNewRoot,
    IsTrusted(Seq<char>),
    RemoveRoot(Seq<char>),
    SecureDeleteLegacyKey,
    RemoveThumbprintFile,
    Stop,
}

/// An outcome as plain values.
pub ghost enum Answer {
    Text(Seq<char>),
    Done,
    Failed,
    Yes,
    No,
}

impl View for Migration {
    type V = Stage;

    open spec fn view(&self) -> Stage {
        match self {
            Migration::ReadLegacy => Stage::ReadLegacy,
            Migration::Install { legacy } => Stage::Install(legacy@),
            Migration::NewThumbprint { legacy } => Stage::NewThumbprint(legacy@),
            Migration::ConfirmNew { legacy } => Stage::ConfirmNew(legacy@),
            Migration::CheckOld { legacy } => Stage::CheckOld(legacy@),
            Migration::RemoveOld { legacy } => Stage::RemoveOld(legacy@),
            Migration::DeleteKey => Stage::DeleteKey,
            Migration::Forget => Stage::Forget,
            Migration::Finished => Stage::Finished,
            Migration::Halted => Stage::Halted,
        }
    }
}

impl View for MigrationAction {
    type V = Act;

    open spec fn view(&self) -> Act {
        match self {
            MigrationAction::ReadLegacyThumbprint => Act::ReadLegacyThumbprint,
            MigrationAction::InstallNewRoot => Act::InstallNewRoot,
            MigrationAction::ThumbprintNewRoot => Act::ThumbprintNewRoot,
            MigrationAction::IsTrusted(t) => Act::IsTrusted(t@),
            MigrationAction::RemoveRoot(t) => Act::RemoveRoot(t@),
            MigrationAction::SecureDeleteLegacyKey => Act::SecureDeleteLegacyKey,
            MigrationAction::RemoveThumbprintFile => Act::RemoveThumbprintFile,
            MigrationAction::Stop => Act::Stop,
        }
    }
}

impl View for Outcome {
    type V = Answer;

    open spec fn view(&self) -> Answer {
        match self {
            Outcome::Text(t) => Answer::Text(t@),
            Outcome::Done => Answer::Done,
            Outcome::Failed => Answer::Failed,
            Outcome::Yes => Answer::Yes,
            Outcome::No => Answer::No,
        }
    }
}

/// The next stage and action after `answer` in stage `s`.
pub open spec fn next(s: Stage, answer: Answer) -> (Stage, Act) {
    match s {
        Stage::ReadLegacy => match answer {
            Answer::Text(t) => (Stage::Install(trimmed(t)), Act::InstallNewRoot),
            _ => (Stage::Halted, Act::Stop),
        },
        Stage::Install(l) => match answer {
            Answer::Done => (Stage::NewThumbprint(l), Act::ThumbprintNewRoot),
            _ => (Stage::Halted, Act::Stop),
        },
        Stage::NewThumbprint(l) => match answer {
            Answer::Text(t) => (Stage::ConfirmNew(l), Act::IsTrusted(t)),
            _ => (Stage::Halted, Act::Stop),
        },
        Stage::ConfirmNew(l) => match answer {
            Answer::Yes => (Stage::CheckOld(l), Act::IsTrusted(l)),
            _ => (Stage::Halted, Act::Stop),
        },
        Stage::CheckOld(l) => match answer {
            Answer::Yes => (Stage::RemoveOld(l), Act::RemoveRoot(l)),
            Answer::No => (Stage::DeleteKey, Act::SecureDeleteLegacyKey),
            _ => (Stage::Halted, Act::Stop),
        },
        Stage::RemoveOld(l) => match answer {
            Answer::Done => (Stage::DeleteKey, Act::SecureDeleteLegacyKey),
            _ => (Stage::Halted, Act::Stop),
        },
        Stage::DeleteKey => match answer {
            Answer::Done => (Stage::Forget, Act::RemoveThumbprintFile),
            _ => (Stage::Halted, Act::Stop),
        },
        Stage::Forget => (Stage::Finished, Act::Stop),
        Stage::Finished => (Stage::Finished, Act::Stop),
        Stage::Halted => (Stage::Halted, Act::Stop),
    }
}

/// A migration starts by reading the recorded legacy thumbprint.
pub fn begin_migration() -> (r: (Migration, MigrationAction))
    ensures
        r.0@ == Stage::ReadLegacy,
        r.1@ == Act::ReadLegacyThumbprint,
{
    (Migration::ReadLegacy, MigrationAction::ReadLegacyThumbprint)
}

/// A copy of a string.
fn copy(s: &String) -> (r: String)
    ensures
        r@ == s@,
{
    crate::text::owned(s.as_str())
}

/// `t`, trimmed.
fn trim_text(t: &String) -> (r: String)
    ensures
        r@ == trimmed(t@),
{
    let cs = chars_of(t.as_str());
    let tc = trim_chars(&cs);
    string_from(&tc)
}

/// Advance a migration by the outcome of its last action.
pub fn advance(state: &Migration, outcome: &Outcome) -> (r: (Migration, MigrationAction))
    ensures
        (r.0@, r.1@) == next(state@, outcome@),
{
    match state {
        Migration::ReadLegacy => match outcome {
            Outcome::Text(t) => (Migration::Install { legacy: trim_text(t) }, MigrationAction::InstallNewRoot),
            _ => (Migration::Halted, MigrationAction::Stop),
        },
        Migration::Install { legacy } => match outcome {
            Outcome::Done => (
                Migration::NewThumbprint { legacy: copy(legacy) },
                MigrationAction::ThumbprintNewRoot,
            ),
            _ => (Migration::Halted, MigrationAction::Stop),
        },
        Migration::NewThumbprint { legacy } => match outcome {
            Outcome::Text(t) => (
                Migration::ConfirmNew { legacy: copy(legacy) },
                MigrationAction::IsTrusted(copy(t)),
            ),
            _ => (Migration::Halted, MigrationAction::Stop),
        },
        Migration::ConfirmNew { legacy } => match outcome {
            Outcome::Yes => (
                Migration::CheckOld { legacy: copy(legacy) },
                MigrationAction::IsTrusted(copy(legacy)),
            ),
            _ => (Migration::Halted, MigrationAction::Stop),
        },
        Migration::CheckOld { legacy } => match outcome {
            Outcome::Yes => (
                Migration::RemoveOld { legacy: copy(legacy) },
                MigrationAction::RemoveRoot(copy(legacy)),
            ),
            Outcome::No => (Migration::DeleteKey, MigrationAction::SecureDeleteLegacyKey),
            _ => (Migration::Halted, MigrationAction::Stop),
        },
        Migration::RemoveOld { legacy: _ } => match outcome {
            Outcome::Done => (Migration::DeleteKey, MigrationAction::SecureDeleteLegacyKey),
            _ => (Migration::Halted, MigrationAction::Stop),
        },
        Migration::DeleteKey => match outcome {
            Outcome::Done => (Migration::Forget, MigrationAction::RemoveThumbprintFile),
            _ => (Migration::Halted, MigrationAction::Stop),
        },
        Migration::Forget => (Migration::Finished, MigrationAction::Stop),
        Migration::Finished => (Migration::Finished, MigrationAction::Stop),
        Migration::Halted => (Migration::Halted, MigrationAction::Stop),
    }
}

/// The only root a migration ever removes is the recorded legacy one, and
/// only once the new root has been confirmed trusted and the legacy root
/// found still trusted; the legacy key is only deleted after that (or
/// once the legacy root turned out to be gone already), and any failure
/// before then stops the migration without another action.
pub proof fn lemma_migration_is_safe(s: Stage, a: Answer)
    ensures
        next(s, a).0 is CheckOld ==> s is ConfirmNew && a is Yes,
        next(s, a).1 is RemoveRoot ==> s is CheckOld && a is Yes && next(s, a).1 == Act::RemoveRoot(
            s->CheckOld_0,
        ),
        next(s, a).1 is SecureDeleteLegacyKey ==> (s is CheckOld && a is No) || (s is RemoveOld
            && a is Done),
        a is Failed && !(s is Forget) ==> next(s, a) == (
            if s is Finished {
                Stage::Finished
            } else {
                Stage::Halted
            },
            Act::Stop,
        ),
{
}

} // verus!
