//! Trust scoring for the page in the URL bar.
//!
//! Signals fall into three categories the UI shows separately:
//! - **malware**: reputation hits, heavy filter blocking, suspicious TLDs;
//! - **scam**: URL-shape phishing heuristics (cross-origin login forms, IP
//!   literals, deep subdomains, punycode, brand impersonation, hyphens);
//! - **vuln**: transport security (HTTP vs HTTPS, mixed content, response
//!   headers, the upstream certificate, body findings, third parties).
//!
//! Each category starts at 100 and is lowered by its signals, then clamped
//! to `0..=100`. The unified score is the least of the three, so the worst
//! category decides the badge; the flat signal list is the three
//! categories' signals in order.

use vstd::prelude::*;

use crate::reputation::{host_key, listed, ReputationStore};
use crate::clock::now_secs_signed;
use crate::security::HostSignals;
use crate::urls::{parsed_host, parsed_host_is_ipv4, parsed_scheme, url_host, url_host_is_ipv4, url_scheme};
use crate::text::{
    chars_eq, chars_of, contains_str, count_char, count_of, decimal, ends_with, has_sub,
    has_suffix, lower, lowercase, owned, push_str, views, split_chars, split_on, u64_to_decimal, char_views,
    lemma_split_on_nonempty,
};

verus! {

// ---------------------------------------------------------------------
// Result types
// ---------------------------------------------------------------------

/// One finding shown to the user.
#[derive(Debug)]
pub struct TrustSignal {
    pub id: String,
    pub message: String,
    /// `positive`, `neutral` or `negative`.
    pub kind: String,
    /// `malware`, `scam` or `vuln`.
    pub category: String,
}

/// A signal as plain values.
pub ghost struct SignalView {
    pub id: Seq<char>,
    pub message: Seq<char>,
    pub kind: Seq<char>,
    pub category: Seq<char>,
}

impl View for TrustSignal {
    type V = SignalView;

    open spec fn view(&self) -> SignalView {
        SignalView {
            id: self.id@,
            message: self.message@,
            kind: self.kind@,
            category: self.category@,
        }
    }
}

impl Clone for TrustSignal {
    fn clone(&self) -> (r: Self)
        ensures
            r@ == self@,
    {
        TrustSignal {
            id: owned(self.id.as_str()),
            message: owned(self.message.as_str()),
            kind: owned(self.kind.as_str()),
            category: owned(self.category.as_str()),
        }
    }
}

/// The views of a list of signals.
pub open spec fn sig_views(v: Seq<TrustSignal>) -> Seq<SignalView> {
    v.map_values(|s: TrustSignal| s@)
}

/// One category's verdict.
#[derive(Debug)]
pub struct TrustCategory {
    /// `malware`, `scam` or `vuln`.
    pub key: String,
    pub name: String,
    pub score: u8,
    pub label: String,
    pub signals: Vec<TrustSignal>,
}

/// A category verdict as plain values.
pub ghost struct CategoryView {
    pub key: Seq<char>,
    pub name: Seq<char>,
    pub score: u8,
    pub label: Seq<char>,
    pub signals: Seq<SignalView>,
}

impl View for TrustCategory {
    type V = CategoryView;

    open spec fn view(&self) -> CategoryView {
        CategoryView {
            key: self.key@,
            name: self.name@,
            score: self.score,
            label: self.label@,
            signals: sig_views(self.signals@),
        }
    }
}

/// The three category verdicts.
#[derive(Debug)]
pub struct TrustCategories {
    pub malware: TrustCategory,
    pub scam: TrustCategory,
    pub vuln: TrustCategory,
}

/// The verdict on a page.
#[derive(Debug)]
pub struct TrustAssessment {
    /// The least of the three category scores.
    pub score: u8,
    pub label: String,
    /// Every category's signals, malware first, then scam, then vuln.
    pub signals: Vec<TrustSignal>,
    pub categories: TrustCategories,
}

/// A verdict as plain values.
pub ghost struct AssessmentView {
    pub score: u8,
    pub label: Seq<char>,
    pub signals: Seq<SignalView>,
    pub malware: CategoryView,
    pub scam: CategoryView,
    pub vuln: CategoryView,
}

impl View for TrustAssessment {
    type V = AssessmentView;

    open spec fn view(&self) -> AssessmentView {
        AssessmentView {
            score: self.score,
            label: self.label@,
            signals: sig_views(self.signals@),
            malware: self.categories.malware@,
            scam: self.categories.scam@,
            vuln: self.categories.vuln@,
        }
    }
}

// ---------------------------------------------------------------------
// Scores and labels
// ---------------------------------------------------------------------

/// A raw score clamped to `0..=100`.
pub open spec fn clamp_score(s: int) -> u8 {
    if s < 0 {
        0
    } else if s > 100 {
        100
    } else {
        s as u8
    }
}

/// The label of a score: `danger` up to 20, `suspect` up to 50, `ok` up
/// to 80, `trusted` above.
pub open spec fn bucket(score: u8) -> Seq<char> {
    if score <= 20 {
        "danger"@
    } else if score <= 50 {
        "suspect"@
    } else if score <= 80 {
        "ok"@
    } else {
        "trusted"@
    }
}

/// The label of a score.
pub fn bucket_label(score: u8) -> (r: String)
    ensures
        r@ == bucket(score),
{
    if score <= 20 {
        owned("danger")
    } else if score <= 50 {
        owned("suspect")
    } else if score <= 80 {
        owned("ok")
    } else {
        owned("trusted")
    }
}

/// A signal with the given parts.
pub open spec fn sig(id: Seq<char>, message: Seq<char>, kind: Seq<char>, category: Seq<char>) -> SignalView {
    SignalView { id, message, kind, category }
}

/// `seq![s]` when `b`, else nothing.
pub open spec fn when(b: bool, s: SignalView) -> Seq<SignalView> {
    if b {
        seq![s]
    } else {
        Seq::empty()
    }
}

/// A category verdict from its raw score and signals.
pub open spec fn category(key: Seq<char>, name: Seq<char>, raw: int, signals: Seq<SignalView>) -> CategoryView {
    CategoryView { key, name, score: clamp_score(raw), label: bucket(clamp_score(raw)), signals }
}

/// Raw scores are tracked floored at -1000, which clamps the same.
pub open spec fn floored(x: int) -> int {
    if x < -1000 {
        -1000
    } else {
        x
    }
}

/// `score - k`, floored.
fn deduct(score: i64, k: i64) -> (r: i64)
    requires
        -1000 <= score <= 100,
        0 <= k <= 100,
    ensures
        -1000 <= r <= 100,
        forall|x: int| #[trigger] floored(x) == score ==> r == floored(x - k),
{
    if score - k < -1000 {
        -1000
    } else {
        score - k
    }
}

/// The clamped score of a floored raw score.
fn clamp_floored(score: i64) -> (r: u8)
    requires
        -1000 <= score <= 100,
    ensures
        forall|x: int| x <= 100 && #[trigger] floored(x) == score ==> r == clamp_score(x),
{
    if score < 0 {
        0
    } else {
        score as u8
    }
}

/// A signal with the given parts.
fn signal(id: &str, message: String, kind: &str, category: &str) -> (r: TrustSignal)
    ensures
        r@ == sig(id@, message@, kind@, category@),
{
    TrustSignal { id: owned(id), message, kind: owned(kind), category: owned(category) }
}

/// Append one signal.
fn push_signal(out: &mut Vec<TrustSignal>, s: TrustSignal)
    ensures
        sig_views(final(out)@) == sig_views(old(out)@).push(s@),
{
    let ghost before = out@;
    let ghost sv = s@;
    out.push(s);
    assert(sig_views(out@) =~= sig_views(before).push(sv));
}

/// `a`, then `b`, then `c`.
fn text3(a: &str, b: &str, c: &str) -> (r: String)
    ensures
        r@ == a@ + b@ + c@,
{
    let mut r = owned(a);
    push_str(&mut r, b);
    push_str(&mut r, c);
    r
}

/// `a`, then `n` in decimal, then `c`.
fn text_num(a: &str, n: u64, c: &str) -> (r: String)
    ensures
        r@ == a@ + decimal(n as nat) + c@,
{
    let d = u64_to_decimal(n);
    text3(a, d.as_str(), c)
}

/// A category verdict from a floored raw score.
fn finalize(key: &str, name: &str, score: i64, signals: Vec<TrustSignal>) -> (r: TrustCategory)
    requires
        -1000 <= score <= 100,
    ensures
        forall|x: int| x <= 100 && #[trigger] floored(x) == score ==> r@ == category(
            key@,
            name@,
            x,
            sig_views(signals@),
        ),
{
    let s = clamp_floored(score);
    TrustCategory {
        key: owned(key),
        name: owned(name),
        score: s,
        label: bucket_label(s),
        signals,
    }
}

// ---------------------------------------------------------------------
// Malware / reputation
// ---------------------------------------------------------------------

/// The last dot-separated label of a host.
pub open spec fn tld_of(host: Seq<char>) -> Seq<char> {
    split_on(host, '.').last()
}

/// TLDs over-represented in abuse reports.
pub open spec fn suspicious_tld(t: Seq<char>) -> bool {
    ||| t == "zip"@
    ||| t == "mov"@
    ||| t == "click"@
    ||| t == "country"@
    ||| t == "gq"@
    ||| t == "cf"@
    ||| t == "ml"@
    ||| t == "tk"@
    ||| t == "top"@
    ||| t == "xyz"@
    ||| t == "work"@
}

/// The host is on the reputation list (or under a listed domain).
pub open spec fn known_bad(host: Seq<char>, reputation: Set<Seq<char>>) -> bool {
    host.len() > 0 && listed(reputation, host_key(host))
}

/// Malware signals before the "nothing found" fallback.
pub open spec fn malware_findings(host: Seq<char>, blocked: u64, reputation: Set<Seq<char>>) -> Seq<SignalView> {
    when(
        known_bad(host, reputation),
        sig(
            "known-malicious"@,
            host + " is on a reputation blocklist (bundled / URLHaus / etc)"@,
            "negative"@,
            "malware"@,
        ),
    ) + when(
        blocked >= 10,
        sig(
            "heavy-blocking"@,
            decimal(blocked as nat)
                + " requests from this page matched the filter - heavy third-party footprint"@,
            "negative"@,
            "malware"@,
        ),
    ) + when(
        suspicious_tld(tld_of(host)),
        sig(
            "suspicious-tld"@,
            "."@ + tld_of(host) + " is over-represented in phishing / malware reports"@,
            "negative"@,
            "malware"@,
        ),
    )
}

/// The malware category's signals.
pub open spec fn malware_signals(host: Seq<char>, blocked: u64, reputation: Set<Seq<char>>) -> Seq<SignalView> {
    let found = malware_findings(host, blocked, reputation);
    if found.len() == 0 {
        seq![
            sig(
                "no-known-bad"@,
                "host is not on the local known-bad reputation list"@,
                "positive"@,
                "malware"@,
            ),
        ]
    } else {
        found
    }
}

/// The malware category's raw score: a reputation hit zeroes it, heavy
/// blocking and a suspicious TLD take 15 each.
pub open spec fn malware_raw(host: Seq<char>, blocked: u64, reputation: Set<Seq<char>>) -> int {
    (if known_bad(host, reputation) {
        0int
    } else {
        100int
    }) - (if blocked >= 10 {
        15int
    } else {
        0int
    }) - (if suspicious_tld(tld_of(host)) {
        15int
    } else {
        0int
    })
}

/// The malware verdict.
pub open spec fn malware_verdict(host: Seq<char>, blocked: u64, reputation: Set<Seq<char>>) -> CategoryView {
    category(
        "malware"@,
        "malware / reputation"@,
        malware_raw(host, blocked, reputation),
        malware_signals(host, blocked, reputation),
    )
}

/// Whether `t` holds exactly the characters of `s`.
fn chars_are(t: &[char], s: &str) -> (r: bool)
    ensures
        r == (t@ == s@),
{
    let c = chars_of(s);
    chars_eq(t, &c)
}

/// Whether `t` is one of the suspicious TLDs.
fn is_suspicious_tld(t: &[char]) -> (r: bool)
    ensures
        r == suspicious_tld(t@),
{
    chars_are(t, "zip") || chars_are(t, "mov") || chars_are(t, "click") || chars_are(t, "country")
        || chars_are(t, "gq") || chars_are(t, "cf") || chars_are(t, "ml") || chars_are(t, "tk")
        || chars_are(t, "top") || chars_are(t, "xyz") || chars_are(t, "work")
}

/// The last dot-separated label of a host.
fn last_label(host: &[char]) -> (r: Vec<char>)
    ensures
        r@ == tld_of(host@),
{
    let parts = split_chars(host, '.');
    proof {
        lemma_split_on_nonempty(host@, '.');
    }
    let k = parts.len() - 1;
    let mut r: Vec<char> = Vec::new();
    let mut i: usize = 0;
    while i < parts[k].len()
        invariant
            0 <= i <= parts@[k as int]@.len(),
            k == parts@.len() - 1,
            r@ == parts@[k as int]@.take(i as int),
        decreases parts@[k as int]@.len() - i,
    {
        r.push(parts[k][i]);
        assert(r@ =~= parts@[k as int]@.take(i + 1));
        i += 1;
    }
    assert(parts@[k as int]@.take(i as int) =~= parts@[k as int]@);
    assert(char_views(parts@)[k as int] == parts@[k as int]@);
    r
}

/// The malware verdict for `host`.
fn score_malware(host: &str, blocked: u64, reputation: &ReputationStore) -> (r: TrustCategory)
    ensures
        r@ == malware_verdict(host@, blocked, reputation@),
{
    let hc = chars_of(host);
    let mut signals: Vec<TrustSignal> = Vec::new();
    let bad = hc.len() > 0 && reputation.is_known_bad(host);
    let mut score: i64 = if bad {
        0
    } else {
        100
    };
    let ghost mut raw: int = score as int;
    let ghost want = malware_findings(host@, blocked, reputation@);
    if bad {
        push_signal(
            &mut signals,
            signal(
                "known-malicious",
                text3(host, " is on a reputation blocklist (bundled / URLHaus / etc)", ""),
                "negative",
                "malware",
            ),
        );
    }
    assert(floored(raw) == score);
    if blocked >= 10 {
        score = deduct(score, 15);
        proof {
            raw = raw - 15;
        }
        push_signal(
            &mut signals,
            signal(
                "heavy-blocking",
                text_num(
                    "",
                    blocked,
                    " requests from this page matched the filter - heavy third-party footprint",
                ),
                "negative",
                "malware",
            ),
        );
    }
    let tld = last_label(&hc);
    assert(floored(raw) == score);
    if is_suspicious_tld(&tld) {
        score = deduct(score, 15);
        proof {
            raw = raw - 15;
        }
        let ts = crate::text::string_from(&tld);
        push_signal(
            &mut signals,
            signal(
                "suspicious-tld",
                text3(".", ts.as_str(), " is over-represented in phishing / malware reports"),
                "negative",
                "malware",
            ),
        );
    }
    proof {
        reveal_strlit("");
        assert(sig_views(signals@) =~= want);
    }
    if signals.len() == 0 {
        push_signal(
            &mut signals,
            signal(
                "no-known-bad",
                owned("host is not on the local known-bad reputation list"),
                "positive",
                "malware",
            ),
        );
    }
    assert(raw == malware_raw(host@, blocked, reputation@));
    assert(floored(raw) == score);
    finalize("malware", "malware / reputation", score, signals)
}

// ---------------------------------------------------------------------
// Scam / phishing
// ---------------------------------------------------------------------

/// The usual digit and symbol stand-ins for letters, mapped back.
pub open spec fn deconfuse_char(c: char) -> char {
    if c == '0' {
        'o'
    } else if c == '1' || c == 'l' {
        'l'
    } else if c == '3' {
        'e'
    } else if c == '4' {
        'a'
    } else if c == '5' {
        's'
    } else if c == '7' {
        't'
    } else if c == '$' {
        's'
    } else if c == '@' {
        'a'
    } else {
        c
    }
}

/// `s` with look-alike characters mapped back to letters.
pub open spec fn deconfused(s: Seq<char>) -> Seq<char> {
    s.map_values(|c: char| deconfuse_char(c))
}

/// Brands attackers impersonate, with their real root domains.
pub open spec fn brands() -> Seq<(Seq<char>, Seq<char>)> {
    seq![
        ("paypal"@, "paypal.com"@),
        ("google"@, "google.com"@),
        ("microsoft"@, "microsoft.com"@),
        ("apple"@, "apple.com"@),
        ("amazon"@, "amazon.com"@),
        ("facebook"@, "facebook.com"@),
        ("instagram"@, "instagram.com"@),
        ("netflix"@, "netflix.com"@),
    ]
}

/// Some dot-separated label of `host` contains `brand` (and is not the
/// bare brand itself unless `bare_ok`).
pub open spec fn label_mentions(host: Seq<char>, brand: Seq<char>, bare_ok: bool) -> bool {
    exists|i: int|
        0 <= i < split_on(host, '.').len() && has_sub(#[trigger] split_on(host, '.')[i], brand)
            && (bare_ok || split_on(host, '.')[i] != brand)
}

/// `host` names `brand` in a label but is not under the brand's root.
pub open spec fn mentions_brand(host: Seq<char>, b: (Seq<char>, Seq<char>)) -> bool {
    !has_suffix(host, b.1) && label_mentions(host, b.0, false)
}

/// Once look-alikes are mapped back, `host` names `brand` but is not under
/// the brand's root.
pub open spec fn looks_like_brand(host: Seq<char>, b: (Seq<char>, Seq<char>)) -> bool {
    let d = deconfused(host);
    d != host && !has_suffix(d, b.1) && label_mentions(d, b.0, true)
}

/// The first brand, from index `i` on, that `host` impersonates: whether
/// through look-alikes, and which.
pub open spec fn brand_hit(host: Seq<char>, i: int) -> Option<(bool, int)>
    decreases 8 - i,
{
    if i < 0 || i >= 8 {
        None
    } else if mentions_brand(host, brands()[i]) {
        Some((false, i))
    } else if looks_like_brand(host, brands()[i]) {
        Some((true, i))
    } else {
        brand_hit(host, i + 1)
    }
}

/// The brand signal of `host`, if any.
pub open spec fn brand_signals(host: Seq<char>) -> Seq<SignalView> {
    match brand_hit(host, 0) {
        Some((false, i)) => seq![
            sig(
                "brand-impersonation"@,
                "host mentions '"@ + brands()[i].0 + "' but root domain is not "@ + brands()[i].1,
                "negative"@,
                "scam"@,
            ),
        ],
        Some((true, i)) => seq![
            sig(
                "homoglyph"@,
                "host looks like '"@ + brands()[i].0
                    + "' spelled with digit / symbol look-alikes - likely impersonation"@,
                "negative"@,
                "scam"@,
            ),
        ],
        None => Seq::empty(),
    }
}

/// What the brand signal takes off.
pub open spec fn brand_penalty(host: Seq<char>) -> int {
    match brand_hit(host, 0) {
        Some((false, _)) => 35,
        Some((true, _)) => 45,
        None => 0,
    }
}

/// The cross-origin login form signal, if the page has one.
pub open spec fn login_signals(form_host: Option<Seq<char>>) -> Seq<SignalView> {
    match form_host {
        Some(t) => seq![
            sig(
                "cross-origin-login-form"@,
                "login form posts password to "@ + t + " - different host than the page"@,
                "negative"@,
                "scam"@,
            ),
        ],
        None => Seq::empty(),
    }
}

/// URL-shape signals of a non-empty host.
pub open spec fn url_shape_signals(host: Seq<char>, ip_literal: bool) -> Seq<SignalView> {
    when(
        ip_literal,
        sig(
            "ip-literal"@,
            "host is a raw IP address - unusual for legitimate sites"@,
            "negative"@,
            "scam"@,
        ),
    ) + when(
        count_char(host, '.') >= 4,
        sig(
            "many-subdomains"@,
            decimal(count_char(host, '.'))
                + " levels of subdomain - sometimes used to hide the real origin"@,
            "negative"@,
            "scam"@,
        ),
    ) + when(
        has_sub(host, "xn--"@),
        sig(
            "punycode"@,
            "host uses punycode (Unicode in the name) - check it's the brand you expect"@,
            "negative"@,
            "scam"@,
        ),
    ) + brand_signals(host) + when(
        count_char(host, '-') >= 3,
        sig(
            "hyphen-heavy"@,
            decimal(count_char(host, '-')) + " hyphens in the hostname - unusual for real brands"@,
            "negative"@,
            "scam"@,
        ),
    )
}

/// What the URL-shape signals take off.
pub open spec fn url_shape_penalty(host: Seq<char>, ip_literal: bool) -> int {
    (if ip_literal {
        30int
    } else {
        0int
    }) + (if count_char(host, '.') >= 4 {
        15int
    } else {
        0int
    }) + (if has_sub(host, "xn--"@) {
        30int
    } else {
        0int
    }) + brand_penalty(host) + (if count_char(host, '-') >= 3 {
        10int
    } else {
        0int
    })
}

/// The scam category's signals. An empty host only gets the login-form
/// signal, and no "clean" fallback.
pub open spec fn scam_signals(host: Seq<char>, ip_literal: bool, form_host: Option<Seq<char>>) -> Seq<SignalView> {
    let login = login_signals(form_host);
    if host.len() == 0 {
        login
    } else {
        let found = login + url_shape_signals(host, ip_literal);
        if found.len() == 0 {
            seq![
                sig(
                    "clean-url-shape"@,
                    "no URL-shape phishing signals on this host"@,
                    "positive"@,
                    "scam"@,
                ),
            ]
        } else {
            found
        }
    }
}

/// The scam category's raw score.
pub open spec fn scam_raw(host: Seq<char>, ip_literal: bool, form_host: Option<Seq<char>>) -> int {
    100 - (if form_host is Some {
        50int
    } else {
        0int
    }) - (if host.len() == 0 {
        0int
    } else {
        url_shape_penalty(host, ip_literal)
    })
}

/// The scam verdict.
pub open spec fn scam_verdict(host: Seq<char>, ip_literal: bool, form_host: Option<Seq<char>>) -> CategoryView {
    category(
        "scam"@,
        "scam / phishing"@,
        scam_raw(host, ip_literal, form_host),
        scam_signals(host, ip_literal, form_host),
    )
}

/// `s` with look-alike characters mapped back.
fn deconfuse(s: &[char]) -> (r: Vec<char>)
    ensures
        r@ == deconfused(s@),
{
    let mut r: Vec<char> = Vec::new();
    let mut i: usize = 0;
    while i < s.len()
        invariant
            0 <= i <= s@.len(),
            r@ == deconfused(s@.take(i as int)),
        decreases s.len() - i,
    {
        let c = s[i];
        let d = if c == '0' {
            'o'
        } else if c == '1' || c == 'l' {
            'l'
        } else if c == '3' {
            'e'
        } else if c == '4' {
            'a'
        } else if c == '5' {
            's'
        } else if c == '7' {
            't'
        } else if c == '$' {
            's'
        } else if c == '@' {
            'a'
        } else {
            c
        };
        r.push(d);
        assert(deconfused(s@.take(i + 1)) =~= deconfused(s@.take(i as int)).push(deconfuse_char(c)));
        i += 1;
    }
    assert(s@.take(s@.len() as int) =~= s@);
    r
}

/// The brand at index `i` and its root domain.
fn brand_at(i: usize) -> (r: (&'static str, &'static str))
    requires
        i < 8,
    ensures
        (r.0@, r.1@) == brands()[i as int],
{
    if i == 0 {
        ("paypal", "paypal.com")
    } else if i == 1 {
        ("google", "google.com")
    } else if i == 2 {
        ("microsoft", "microsoft.com")
    } else if i == 3 {
        ("apple", "apple.com")
    } else if i == 4 {
        ("amazon", "amazon.com")
    } else if i == 5 {
        ("facebook", "facebook.com")
    } else if i == 6 {
        ("instagram", "instagram.com")
    } else {
        ("netflix", "netflix.com")
    }
}

/// Whether some label of `host` contains `brand` (and is not the bare
/// brand unless `bare_ok`).
fn labels_mention(host: &[char], brand: &str, bare_ok: bool) -> (r: bool)
    ensures
        r == label_mentions(host@, brand@, bare_ok),
{
    let parts = split_chars(host, '.');
    let ghost ps = split_on(host@, '.');
    let mut i: usize = 0;
    while i < parts.len()
        invariant
            0 <= i <= parts@.len(),
            char_views(parts@) == ps,
            ps == split_on(host@, '.'),
            forall|j: int|
                0 <= j < i ==> !(has_sub(#[trigger] ps[j], brand@) && (bare_ok || ps[j] != brand@)),
        decreases parts.len() - i,
    {
        assert(ps[i as int] == parts@[i as int]@);
        if contains_str(&parts[i], brand) && (bare_ok || !chars_are(&parts[i], brand)) {
            return true;
        }
        i += 1;
    }
    false
}

/// Whether `cs` ends with `p`.
fn ends_with_chars(cs: &[char], p: &str) -> (r: bool)
    ensures
        r == has_suffix(cs@, p@),
{
    ends_with(cs, p)
}

/// The first brand `host` impersonates.
fn find_brand_hit(host: &[char]) -> (r: Option<(bool, usize)>)
    ensures
        match r {
            Some((homoglyph, i)) => i < 8 && brand_hit(host@, 0) == Some((homoglyph, i as int)),
            None => brand_hit(host@, 0) is None,
        },
{
    let d = deconfuse(host);
    let changed = !chars_eq(&d, host);
    let mut i: usize = 0;
    while i < 8
        invariant
            0 <= i <= 8,
            d@ == deconfused(host@),
            changed == (d@ != host@),
            brand_hit(host@, 0) == brand_hit(host@, i as int),
        decreases 8 - i,
    {
        let (brand, root) = brand_at(i);
        if !ends_with_chars(host, root) && labels_mention(host, brand, false) {
            return Some((false, i));
        }
        if changed && !ends_with_chars(&d, root) && labels_mention(&d, brand, true) {
            return Some((true, i));
        }
        i += 1;
    }
    None
}

/// The URL-shape signals and their penalty, appended to `out` and taken
/// off `score`.
#[verifier::rlimit(40)]
fn url_shape(host: &[char], ip_literal: bool, out: &mut Vec<TrustSignal>, score: &mut i64)
    requires
        -1000 <= *old(score) <= 100,
    ensures
        -1000 <= *final(score) <= 100,
        sig_views(final(out)@) == sig_views(old(out)@) + url_shape_signals(host@, ip_literal),
        forall|x: int|
            #[trigger] floored(x) == *old(score) ==> *final(score) == floored(
                x - url_shape_penalty(host@, ip_literal),
            ),
{
    let ghost out0 = sig_views(out@);
    let ghost s0 = *score;
    if ip_literal {
        *score = deduct(*score, 30);
        push_signal(
            out,
            signal(
                "ip-literal",
                owned("host is a raw IP address - unusual for legitimate sites"),
                "negative",
                "scam",
            ),
        );
    }
    let ghost s1 = *score;
    let ghost o1 = sig_views(out@);
    let depth = count_of(host, '.');
    if depth >= 4 {
        *score = deduct(*score, 15);
        push_signal(
            out,
            signal(
                "many-subdomains",
                text_num("", depth as u64, " levels of subdomain - sometimes used to hide the real origin"),
                "negative",
                "scam",
            ),
        );
    }
    let ghost s2 = *score;
    let ghost o2 = sig_views(out@);
    if contains_str(host, "xn--") {
        *score = deduct(*score, 30);
        push_signal(
            out,
            signal(
                "punycode",
                owned("host uses punycode (Unicode in the name) - check it's the brand you expect"),
                "negative",
                "scam",
            ),
        );
    }
    let ghost s3 = *score;
    let ghost o3 = sig_views(out@);
    match find_brand_hit(host) {
        Some((false, i)) => {
            let (brand, root) = brand_at(i);
            *score = deduct(*score, 35);
            let mut m = text3("host mentions '", brand, "' but root domain is not ");
            push_str(&mut m, root);
            push_signal(out, signal("brand-impersonation", m, "negative", "scam"));
        },
        Some((true, i)) => {
            let (brand, _root) = brand_at(i);
            *score = deduct(*score, 45);
            push_signal(
                out,
                signal(
                    "homoglyph",
                    text3(
                        "host looks like '",
                        brand,
                        "' spelled with digit / symbol look-alikes - likely impersonation",
                    ),
                    "negative",
                    "scam",
                ),
            );
        },
        None => {},
    }
    let ghost s4 = *score;
    let ghost o4 = sig_views(out@);
    let hyphens = count_of(host, '-');
    if hyphens >= 3 {
        *score = deduct(*score, 10);
        push_signal(
            out,
            signal(
                "hyphen-heavy",
                text_num("", hyphens as u64, " hyphens in the hostname - unusual for real brands"),
                "negative",
                "scam",
            ),
        );
    }
    proof {
        reveal_strlit("");
        assert(sig_views(out@) =~= out0 + url_shape_signals(host@, ip_literal));
        assert forall|x: int| #[trigger] floored(x) == s0 implies *score == floored(
            x - url_shape_penalty(host@, ip_literal),
        ) by {
            let p1 = if ip_literal { 30int } else { 0int };
            let p2 = if count_char(host@, '.') >= 4 { 15int } else { 0int };
            let p3 = if has_sub(host@, "xn--"@) { 30int } else { 0int };
            let p4 = brand_penalty(host@);
            assert(floored(x - p1) == s1);
            assert(floored(x - p1 - p2) == s2);
            assert(floored(x - p1 - p2 - p3) == s3);
            assert(floored(x - p1 - p2 - p3 - p4) == s4);
        }
    }
}

/// The scam verdict for `host`.
fn score_scam(host: &str, ip_literal: bool, form_host: &Option<String>) -> (r: TrustCategory)
    ensures
        r@ == scam_verdict(host@, ip_literal, crate::text::opt_view(*form_host)),
{
    let hc = chars_of(host);
    let mut signals: Vec<TrustSignal> = Vec::new();
    let mut score: i64 = 100;
    let ghost fh = crate::text::opt_view(*form_host);
    assert(floored(100) == score);
    match form_host {
        Some(t) => {
            score = deduct(score, 50);
            push_signal(
                &mut signals,
                signal(
                    "cross-origin-login-form",
                    text3("login form posts password to ", t.as_str(), " - different host than the page"),
                    "negative",
                    "scam",
                ),
            );
        },
        None => {},
    }
    let ghost raw1: int = 100 - (if fh is Some { 50int } else { 0int });
    assert(floored(raw1) == score);
    assert(sig_views(signals@) =~= login_signals(fh));
    if hc.len() == 0 {
        return finalize("scam", "scam / phishing", score, signals);
    }
    let ghost s1 = score;
    url_shape(&hc, ip_literal, &mut signals, &mut score);
    assert(floored(raw1) == s1);
    if signals.len() == 0 {
        push_signal(
            &mut signals,
            signal(
                "clean-url-shape",
                owned("no URL-shape phishing signals on this host"),
                "positive",
                "scam",
            ),
        );
    }
    assert(floored(scam_raw(host@, ip_literal, fh)) == score);
    finalize("scam", "scam / phishing", score, signals)
}

// ---------------------------------------------------------------------
// Vulnerabilities / transport
// ---------------------------------------------------------------------

/// Plain HTTP, or HTTPS, and mixed content.
pub open spec fn transport_signals(scheme: Seq<char>, mixed: bool) -> Seq<SignalView> {
    (if scheme == "http"@ {
        seq![
            sig(
                "http"@,
                "connection is plain HTTP - no transport encryption"@,
                "negative"@,
                "vuln"@,
            ),
        ]
    } else if scheme == "https"@ {
        seq![
            sig(
                "https"@,
                "connection is HTTPS - transport is encrypted"@,
                "positive"@,
                "vuln"@,
            ),
        ]
    } else {
        Seq::empty()
    }) + when(
        mixed,
        sig(
            "mixed-content"@,
            "page loaded at least one resource over plain HTTP"@,
            "negative"@,
            "vuln"@,
        ),
    )
}

/// Plain HTTP takes 60, mixed content 30.
pub open spec fn transport_penalty(scheme: Seq<char>, mixed: bool) -> int {
    (if scheme == "http"@ {
        60int
    } else {
        0int
    }) + (if mixed {
        30int
    } else {
        0int
    })
}

/// The first three header checks.
pub open spec fn header_signals_a(scheme: Seq<char>, h: crate::security::HeaderSnapshot) -> Seq<SignalView> {
    when(
        !h.csp,
        sig(
            "missing-csp"@,
            "no Content-Security-Policy header - page has no declared script origins"@,
            "negative"@,
            "vuln"@,
        ),
    ) + when(
        scheme == "https"@ && !h.hsts,
        sig(
            "missing-hsts"@,
            "no Strict-Transport-Security header - browser can be downgraded to HTTP"@,
            "negative"@,
            "vuln"@,
        ),
    ) + when(
        !h.xfo,
        sig(
            "missing-xfo"@,
            "no X-Frame-Options header - page could be framed by a malicious site"@,
            "negative"@,
            "vuln"@,
        ),
    )
}

/// The last four header checks.
pub open spec fn header_signals_b(h: crate::security::HeaderSnapshot) -> Seq<SignalView> {
    when(
        !h.xcto,
        sig(
            "missing-xcto"@,
            "no X-Content-Type-Options header - MIME-sniffing is allowed"@,
            "negative"@,
            "vuln"@,
        ),
    ) + when(
        !h.referrer_policy,
        sig(
            "missing-referrer-policy"@,
            "no Referrer-Policy header - full URL leaks on outbound links"@,
            "negative"@,
            "vuln"@,
        ),
    ) + when(
        !h.permissions_policy,
        sig(
            "missing-permissions-policy"@,
            "no Permissions-Policy header - camera / mic / geolocation not restricted"@,
            "negative"@,
            "vuln"@,
        ),
    ) + when(
        h.insecure_cookie,
        sig(
            "insecure-cookie"@,
            "a Set-Cookie lacked both Secure and HttpOnly - session theft risk"@,
            "negative"@,
            "vuln"@,
        ),
    )
}

/// Missing security headers, once an HTML response was seen.
pub open spec fn header_signals(scheme: Seq<char>, h: crate::security::HeaderSnapshot) -> Seq<SignalView> {
    if !h.seen {
        Seq::empty()
    } else {
        header_signals_a(scheme, h) + header_signals_b(h)
    }
}

/// What the first three header checks take off.
pub open spec fn header_penalty_a(scheme: Seq<char>, h: crate::security::HeaderSnapshot) -> int {
    (if !h.csp {
        15int
    } else {
        0int
    }) + (if scheme == "https"@ && !h.hsts {
        15int
    } else {
        0int
    }) + (if !h.xfo {
        10int
    } else {
        0int
    })
}

/// What the last four header checks take off.
pub open spec fn header_penalty_b(h: crate::security::HeaderSnapshot) -> int {
    (if !h.xcto {
        5int
    } else {
        0int
    }) + (if !h.referrer_policy {
        5int
    } else {
        0int
    }) + (if !h.permissions_policy {
        5int
    } else {
        0int
    }) + (if h.insecure_cookie {
        15int
    } else {
        0int
    })
}

/// What the header signals take off.
pub open spec fn header_penalty(scheme: Seq<char>, h: crate::security::HeaderSnapshot) -> int {
    if !h.seen {
        0
    } else {
        header_penalty_a(scheme, h) + header_penalty_b(h)
    }
}

/// Seconds in a day.
pub open spec fn day() -> int {
    86400
}

/// Certificate signals at time `now`, once a handshake was seen.
pub open spec fn cert_signals(c: crate::security::CertView, now: int) -> Seq<SignalView> {
    if !c.seen {
        Seq::empty()
    } else {
        let until = c.not_after - now;
        let life = c.not_after - c.not_before;
        when(
            c.self_signed,
            sig(
                "cert-self-signed"@,
                "cert subject == issuer ("@ + c.issuer_cn
                    + ") - self-signed, no external CA attests to the identity"@,
                "negative"@,
                "vuln"@,
            ),
        ) + (if until <= 0 {
            seq![
                sig(
                    "cert-expired"@,
                    "server cert has passed its notAfter date"@,
                    "negative"@,
                    "vuln"@,
                ),
            ]
        } else if until < 7 * day() {
            seq![
                sig(
                    "cert-expires-soon"@,
                    "server cert expires in "@ + decimal((until / day()) as nat)
                        + " days - operators sometimes forget to renew"@,
                    "negative"@,
                    "vuln"@,
                ),
            ]
        } else {
            Seq::empty()
        }) + when(
            life > 398 * day(),
            sig(
                "cert-overlong"@,
                "cert is valid for "@ + decimal((life / day()) as nat)
                    + " days - public CAs cap lifetimes at ~398d"@,
                "negative"@,
                "vuln"@,
            ),
        ) + when(
            c.issuer_cn.len() > 0,
            sig("cert-issuer"@, "issued by "@ + c.issuer_cn, "neutral"@, "vuln"@),
        )
    }
}

/// What the certificate signals take off.
pub open spec fn cert_penalty(c: crate::security::CertView, now: int) -> int {
    if !c.seen {
        0
    } else {
        let until = c.not_after - now;
        (if c.self_signed {
            25int
        } else {
            0int
        }) + (if until <= 0 {
            30int
        } else if until < 7 * day() {
            15int
        } else {
            0int
        }) + (if c.not_after - c.not_before > 398 * day() {
            10int
        } else {
            0int
        })
    }
}

/// The outdated-library signal for `lib`.
pub open spec fn library_signal(lib: Seq<char>) -> SignalView {
    sig("outdated-lib"@, "loads an outdated JS library: "@ + lib, "negative"@, "vuln"@)
}

/// Body signals, once an HTML document was analyzed.
pub open spec fn body_signals(b: crate::security::BodyView) -> Seq<SignalView> {
    if !b.seen {
        Seq::empty()
    } else {
        when(
            b.password_on_insecure_origin,
            sig(
                "password-on-http"@,
                "page has a password field served over plain HTTP"@,
                "negative"@,
                "vuln"@,
            ),
        ) + b.outdated_libraries.map_values(|l: Seq<char>| library_signal(l))
    }
}

/// A password field on HTTP takes 40, each outdated library 10.
pub open spec fn body_penalty(b: crate::security::BodyView) -> int {
    if !b.seen {
        0
    } else {
        (if b.password_on_insecure_origin {
            40int
        } else {
            0int
        }) + 10 * b.outdated_libraries.len()
    }
}

/// Third parties, blocked trackers, and the proxy note.
pub open spec fn tail_signals(third_parties: nat, blocks_on_host: nat) -> Seq<SignalView> {
    when(
        third_parties > 0,
        sig(
            "third-parties"@,
            decimal(third_parties) + " third-party origins observed from this page"@,
            if third_parties > 20 {
                "negative"@
            } else {
                "neutral"@
            },
            "vuln"@,
        ),
    ) + when(
        blocks_on_host > 0,
        sig(
            "blocked"@,
            decimal(blocks_on_host) + " trackers blocked on this site"@,
            "positive"@,
            "vuln"@,
        ),
    ) + seq![
        sig(
            "proxy"@,
            "traffic is routed through the BlueFlame filter proxy"@,
            "positive"@,
            "vuln"@,
        ),
    ]
}

/// The vuln category's signals.
pub open spec fn vuln_signals(
    scheme: Seq<char>,
    s: crate::security::SignalsView,
    blocks_on_host: nat,
    now: int,
) -> Seq<SignalView> {
    transport_signals(scheme, s.mixed_content) + header_signals(scheme, s.headers) + cert_signals(
        s.cert,
        now,
    ) + body_signals(s.body) + tail_signals(s.third_party_hosts.len(), blocks_on_host)
}

/// The vuln category's raw score.
pub open spec fn vuln_raw(scheme: Seq<char>, s: crate::security::SignalsView, now: int) -> int {
    100 - transport_penalty(scheme, s.mixed_content) - header_penalty(scheme, s.headers)
        - cert_penalty(s.cert, now) - body_penalty(s.body) - (if s.third_party_hosts.len() > 20 {
        10int
    } else {
        0int
    })
}

/// The vuln verdict.
pub open spec fn vuln_verdict(
    scheme: Seq<char>,
    s: crate::security::SignalsView,
    blocks_on_host: nat,
    now: int,
) -> CategoryView {
    category(
        "vuln"@,
        "vulnerabilities / transport"@,
        vuln_raw(scheme, s, now),
        vuln_signals(scheme, s, blocks_on_host, now),
    )
}

/// Append the transport signals and take their penalty.
fn vuln_transport(scheme: &str, mixed: bool, out: &mut Vec<TrustSignal>, score: &mut i64)
    requires
        -1000 <= *old(score) <= 100,
    ensures
        -1000 <= *final(score) <= 100,
        sig_views(final(out)@) == sig_views(old(out)@) + transport_signals(scheme@, mixed),
        forall|x: int|
            #[trigger] floored(x) == *old(score) ==> *final(score) == floored(
                x - transport_penalty(scheme@, mixed),
            ),
{
    let ghost out0 = sig_views(out@);
    let ghost s0 = *score;
    let sc = chars_of(scheme);
    if chars_are(&sc, "http") {
        *score = deduct(*score, 60);
        push_signal(
            out,
            signal("http", owned("connection is plain HTTP - no transport encryption"), "negative", "vuln"),
        );
    } else if chars_are(&sc, "https") {
        push_signal(
            out,
            signal("https", owned("connection is HTTPS - transport is encrypted"), "positive", "vuln"),
        );
    }
    let ghost s1 = *score;
    if mixed {
        *score = deduct(*score, 30);
        push_signal(
            out,
            signal(
                "mixed-content",
                owned("page loaded at least one resource over plain HTTP"),
                "negative",
                "vuln",
            ),
        );
    }
    proof {
        assert(sig_views(out@) =~= out0 + transport_signals(scheme@, mixed));
        assert forall|x: int| #[trigger] floored(x) == s0 implies *score == floored(
            x - transport_penalty(scheme@, mixed),
        ) by {
            let p1 = if scheme@ == "http"@ { 60int } else { 0int };
            assert(floored(x - p1) == s1);
        }
    }
}

/// Append one header signal when `missing`, taking `k` off.
fn header_check(
    missing: bool,
    id: &str,
    message: &str,
    k: i64,
    out: &mut Vec<TrustSignal>,
    score: &mut i64,
)
    requires
        -1000 <= *old(score) <= 100,
        0 <= k <= 100,
    ensures
        -1000 <= *final(score) <= 100,
        sig_views(final(out)@) == sig_views(old(out)@) + when(
            missing,
            sig(id@, message@, "negative"@, "vuln"@),
        ),
        forall|x: int|
            #[trigger] floored(x) == *old(score) ==> *final(score) == floored(
                x - (if missing {
                    k as int
                } else {
                    0int
                }),
            ),
{
    let ghost out0 = sig_views(out@);
    if missing {
        *score = deduct(*score, k);
        push_signal(out, signal(id, owned(message), "negative", "vuln"));
    }
    assert(sig_views(out@) =~= out0 + when(missing, sig(id@, message@, "negative"@, "vuln"@)));
}

/// Append the first three header signals and take their penalty.
fn vuln_headers_a(
    scheme: &str,
    h: crate::security::HeaderSnapshot,
    out: &mut Vec<TrustSignal>,
    score: &mut i64,
)
    requires
        -1000 <= *old(score) <= 100,
    ensures
        -1000 <= *final(score) <= 100,
        sig_views(final(out)@) == sig_views(old(out)@) + header_signals_a(scheme@, h),
        forall|x: int|
            #[trigger] floored(x) == *old(score) ==> *final(score) == floored(
                x - header_penalty_a(scheme@, h),
            ),
{
    let ghost out0 = sig_views(out@);
    let ghost s0 = *score;
    let sc = chars_of(scheme);
    let https = chars_are(&sc, "https");
    header_check(
        !h.csp,
        "missing-csp",
        "no Content-Security-Policy header - page has no declared script origins",
        15,
        out,
        score,
    );
    let ghost s1 = *score;
    let ghost o1 = sig_views(out@);
    header_check(
        https && !h.hsts,
        "missing-hsts",
        "no Strict-Transport-Security header - browser can be downgraded to HTTP",
        15,
        out,
        score,
    );
    let ghost s2 = *score;
    let ghost o2 = sig_views(out@);
    header_check(
        !h.xfo,
        "missing-xfo",
        "no X-Frame-Options header - page could be framed by a malicious site",
        10,
        out,
        score,
    );
    proof {
        assert(sig_views(out@) =~= out0 + header_signals_a(scheme@, h));
        assert forall|x: int| #[trigger] floored(x) == s0 implies *score == floored(
            x - header_penalty_a(scheme@, h),
        ) by {
            let p1 = if !h.csp { 15int } else { 0int };
            let p2 = if https && !h.hsts { 15int } else { 0int };
            assert(floored(x - p1) == s1);
            assert(floored(x - p1 - p2) == s2);
        }
    }
}

/// Append the last four header signals and take their penalty.
fn vuln_headers_b(h: crate::security::HeaderSnapshot, out: &mut Vec<TrustSignal>, score: &mut i64)
    requires
        -1000 <= *old(score) <= 100,
    ensures
        -1000 <= *final(score) <= 100,
        sig_views(final(out)@) == sig_views(old(out)@) + header_signals_b(h),
        forall|x: int|
            #[trigger] floored(x) == *old(score) ==> *final(score) == floored(
                x - header_penalty_b(h),
            ),
{
    let ghost out0 = sig_views(out@);
    let ghost s0 = *score;
    header_check(
        !h.xcto,
        "missing-xcto",
        "no X-Content-Type-Options header - MIME-sniffing is allowed",
        5,
        out,
        score,
    );
    let ghost s1 = *score;
    header_check(
        !h.referrer_policy,
        "missing-referrer-policy",
        "no Referrer-Policy header - full URL leaks on outbound links",
        5,
        out,
        score,
    );
    let ghost s2 = *score;
    header_check(
        !h.permissions_policy,
        "missing-permissions-policy",
        "no Permissions-Policy header - camera / mic / geolocation not restricted",
        5,
        out,
        score,
    );
    let ghost s3 = *score;
    header_check(
        h.insecure_cookie,
        "insecure-cookie",
        "a Set-Cookie lacked both Secure and HttpOnly - session theft risk",
        15,
        out,
        score,
    );
    proof {
        assert(sig_views(out@) =~= out0 + header_signals_b(h));
        assert forall|x: int| #[trigger] floored(x) == s0 implies *score == floored(
            x - header_penalty_b(h),
        ) by {
            let p1 = if !h.xcto { 5int } else { 0int };
            let p2 = if !h.referrer_policy { 5int } else { 0int };
            let p3 = if !h.permissions_policy { 5int } else { 0int };
            assert(floored(x - p1) == s1);
            assert(floored(x - p1 - p2) == s2);
            assert(floored(x - p1 - p2 - p3) == s3);
        }
    }
}

/// Append the header signals and take their penalty.
fn vuln_headers(
    scheme: &str,
    h: crate::security::HeaderSnapshot,
    out: &mut Vec<TrustSignal>,
    score: &mut i64,
)
    requires
        -1000 <= *old(score) <= 100,
    ensures
        -1000 <= *final(score) <= 100,
        sig_views(final(out)@) == sig_views(old(out)@) + header_signals(scheme@, h),
        forall|x: int|
            #[trigger] floored(x) == *old(score) ==> *final(score) == floored(
                x - header_penalty(scheme@, h),
            ),
{
    let ghost out0 = sig_views(out@);
    let ghost s0 = *score;
    if !h.seen {
        assert(out0 + header_signals(scheme@, h) =~= out0);
        return ;
    }
    vuln_headers_a(scheme, h, out, score);
    let ghost s1 = *score;
    let ghost o1 = sig_views(out@);
    vuln_headers_b(h, out, score);
    proof {
        assert(sig_views(out@) =~= out0 + header_signals(scheme@, h));
        assert forall|x: int| #[trigger] floored(x) == s0 implies *score == floored(
            x - header_penalty(scheme@, h),
        ) by {
            assert(floored(x - header_penalty_a(scheme@, h)) == s1);
        }
    }
}

/// Append the certificate signals at `now` and take their penalty.
fn vuln_cert(c: &crate::security::CertSnapshot, now: i64, out: &mut Vec<TrustSignal>, score: &mut i64)
    requires
        -1000 <= *old(score) <= 100,
    ensures
        -1000 <= *final(score) <= 100,
        sig_views(final(out)@) == sig_views(old(out)@) + cert_signals(c@, now as int),
        forall|x: int|
            #[trigger] floored(x) == *old(score) ==> *final(score) == floored(
                x - cert_penalty(c@, now as int),
            ),
{
    let ghost out0 = sig_views(out@);
    let ghost s0 = *score;
    if !c.seen {
        assert(out0 + cert_signals(c@, now as int) =~= out0);
        return ;
    }
    if c.self_signed {
        *score = deduct(*score, 25);
        push_signal(
            out,
            signal(
                "cert-self-signed",
                text3(
                    "cert subject == issuer (",
                    c.issuer_cn.as_str(),
                    ") - self-signed, no external CA attests to the identity",
                ),
                "negative",
                "vuln",
            ),
        );
    }
    let ghost s1 = *score;
    let ghost o1 = sig_views(out@);
    let until: i128 = c.not_after as i128 - now as i128;
    if until <= 0 {
        *score = deduct(*score, 30);
        push_signal(
            out,
            signal("cert-expired", owned("server cert has passed its notAfter date"), "negative", "vuln"),
        );
    } else if until < 7 * 86400 {
        *score = deduct(*score, 15);
        let days = (until as u64) / 86400;
        push_signal(
            out,
            signal(
                "cert-expires-soon",
                text_num("server cert expires in ", days, " days - operators sometimes forget to renew"),
                "negative",
                "vuln",
            ),
        );
    }
    let ghost s2 = *score;
    let ghost o2 = sig_views(out@);
    let life: i128 = c.not_after as i128 - c.not_before as i128;
    if life > 398 * 86400 {
        *score = deduct(*score, 10);
        let days = (life as u64) / 86400;
        push_signal(
            out,
            signal(
                "cert-overlong",
                text_num("cert is valid for ", days, " days - public CAs cap lifetimes at ~398d"),
                "negative",
                "vuln",
            ),
        );
    }
    let ghost o3 = sig_views(out@);
    if c.issuer_cn.as_str().is_empty() {
        assert(c.issuer_cn@.len() == 0);
    } else {
        push_signal(out, signal("cert-issuer", text3("issued by ", c.issuer_cn.as_str(), ""), "neutral", "vuln"));
    }
    proof {
        reveal_strlit("");
        assert(sig_views(out@) =~= out0 + cert_signals(c@, now as int));
        assert forall|x: int| #[trigger] floored(x) == s0 implies *score == floored(
            x - cert_penalty(c@, now as int),
        ) by {
            let p1 = if c.self_signed { 25int } else { 0int };
            let u = c.not_after - now;
            let p2 = if u <= 0 { 30int } else if u < 7 * day() { 15int } else { 0int };
            assert(floored(x - p1) == s1);
            assert(floored(x - p1 - p2) == s2);
        }
    }
}

/// Append the body signals and take their penalty.
fn vuln_body(b: &crate::security::BodySnapshot, out: &mut Vec<TrustSignal>, score: &mut i64)
    requires
        -1000 <= *old(score) <= 100,
    ensures
        -1000 <= *final(score) <= 100,
        sig_views(final(out)@) == sig_views(old(out)@) + body_signals(b@),
        forall|x: int|
            #[trigger] floored(x) == *old(score) ==> *final(score) == floored(x - body_penalty(b@)),
{
    let ghost out0 = sig_views(out@);
    let ghost s0 = *score;
    if !b.seen {
        assert(out0 + body_signals(b@) =~= out0);
        return ;
    }
    if b.password_on_insecure_origin {
        *score = deduct(*score, 40);
        push_signal(
            out,
            signal(
                "password-on-http",
                owned("page has a password field served over plain HTTP"),
                "negative",
                "vuln",
            ),
        );
    }
    let ghost s1 = *score;
    let ghost o1 = sig_views(out@);
    let ghost libs = b@.outdated_libraries;
    let mut i: usize = 0;
    while i < b.outdated_libraries.len()
        invariant
            0 <= i <= b.outdated_libraries@.len(),
            libs == views(b.outdated_libraries@),
            -1000 <= *score <= 100,
            sig_views(out@) == o1 + libs.take(i as int).map_values(|l: Seq<char>| library_signal(l)),
            forall|x: int| #[trigger] floored(x) == s1 ==> *score == floored(x - 10 * i),
        decreases b.outdated_libraries.len() - i,
    {
        let ghost si = *score;
        *score = deduct(*score, 10);
        push_signal(
            out,
            signal(
                "outdated-lib",
                text3("loads an outdated JS library: ", b.outdated_libraries[i].as_str(), ""),
                "negative",
                "vuln",
            ),
        );
        proof {
            reveal_strlit("");
            assert(libs[i as int] == b.outdated_libraries@[i as int]@);
            assert(libs.take(i + 1).map_values(|l: Seq<char>| library_signal(l)) =~= libs.take(
                i as int,
            ).map_values(|l: Seq<char>| library_signal(l)).push(library_signal(libs[i as int])));
            assert forall|x: int| #[trigger] floored(x) == s1 implies *score == floored(
                x - 10 * (i + 1),
            ) by {
                assert(floored(x - 10 * i) == si);
            }
        }
        i += 1;
    }
    proof {
        assert(libs.take(libs.len() as int) =~= libs);
        assert(sig_views(out@) =~= out0 + body_signals(b@));
        assert forall|x: int| #[trigger] floored(x) == s0 implies *score == floored(
            x - body_penalty(b@),
        ) by {
            let p1 = if b.password_on_insecure_origin { 40int } else { 0int };
            assert(floored(x - p1) == s1);
        }
    }
}

/// Append the third-party, blocked-tracker and proxy signals and take the
/// third-party penalty.
fn vuln_tail(third_parties: usize, blocks_on_host: usize, out: &mut Vec<TrustSignal>, score: &mut i64)
    requires
        -1000 <= *old(score) <= 100,
    ensures
        -1000 <= *final(score) <= 100,
        sig_views(final(out)@) == sig_views(old(out)@) + tail_signals(
            third_parties as nat,
            blocks_on_host as nat,
        ),
        forall|x: int|
            #[trigger] floored(x) == *old(score) ==> *final(score) == floored(
                x - (if third_parties > 20 {
                    10int
                } else {
                    0int
                }),
            ),
{
    let ghost out0 = sig_views(out@);
    if third_parties > 0 {
        let kind = if third_parties > 20 {
            "negative"
        } else {
            "neutral"
        };
        push_signal(
            out,
            signal(
                "third-parties",
                text_num("", third_parties as u64, " third-party origins observed from this page"),
                kind,
                "vuln",
            ),
        );
        if third_parties > 20 {
            *score = deduct(*score, 10);
        }
    }
    if blocks_on_host > 0 {
        push_signal(
            out,
            signal(
                "blocked",
                text_num("", blocks_on_host as u64, " trackers blocked on this site"),
                "positive",
                "vuln",
            ),
        );
    }
    push_signal(
        out,
        signal(
            "proxy",
            owned("traffic is routed through the BlueFlame filter proxy"),
            "positive",
            "vuln",
        ),
    );
    proof {
        reveal_strlit("");
        assert(sig_views(out@) =~= out0 + tail_signals(third_parties as nat, blocks_on_host as nat));
    }
}

/// The vuln verdict for a page fetched over `scheme`, at time `now`.
fn score_vuln(scheme: &str, hs: &HostSignals, blocks_on_host: usize, now: i64) -> (r: TrustCategory)
    ensures
        r@ == vuln_verdict(scheme@, hs@, blocks_on_host as nat, now as int),
{
    let mut signals: Vec<TrustSignal> = Vec::new();
    let mut score: i64 = 100;
    let ghost x0: int = 100;
    assert(floored(x0) == score);
    vuln_transport(scheme, hs.mixed_content, &mut signals, &mut score);
    let ghost x1 = x0 - transport_penalty(scheme@, hs.mixed_content);
    assert(floored(x1) == score);
    vuln_headers(scheme, hs.headers, &mut signals, &mut score);
    let ghost x2 = x1 - header_penalty(scheme@, hs.headers);
    assert(floored(x2) == score);
    vuln_cert(&hs.cert, now, &mut signals, &mut score);
    let ghost x3 = x2 - cert_penalty(hs.cert@, now as int);
    assert(floored(x3) == score);
    vuln_body(&hs.body, &mut signals, &mut score);
    let ghost x4 = x3 - body_penalty(hs.body@);
    assert(floored(x4) == score);
    let n = hs.third_party_hosts.len();
    proof {
        assert(views(hs.third_party_hosts@).len() == n);
    }
    vuln_tail(n, blocks_on_host, &mut signals, &mut score);
    let ghost x5 = x4 - (if n > 20 { 10int } else { 0int });
    assert(floored(x5) == score);
    proof {
        assert(x5 == vuln_raw(scheme@, hs@, now as int));
        assert(x5 <= 100) by {
            assert(transport_penalty(scheme@, hs.mixed_content) >= 0);
            assert(header_penalty(scheme@, hs.headers) >= 0);
            assert(cert_penalty(hs.cert@, now as int) >= 0);
            assert(body_penalty(hs.body@) >= 0);
        }
        assert(sig_views(signals@) =~= vuln_signals(scheme@, hs@, blocks_on_host as nat, now as int));
    }
    finalize("vuln", "vulnerabilities / transport", score, signals)
}

// ---------------------------------------------------------------------
// The verdict
// ---------------------------------------------------------------------

/// The least of three scores.
pub open spec fn min3(a: u8, b: u8, c: u8) -> u8 {
    let ab = if a <= b {
        a
    } else {
        b
    };
    if ab <= c {
        ab
    } else {
        c
    }
}

/// The verdict on a page with lowercased host `host` fetched over `scheme`,
/// whose host is an IP literal when `ip_literal`, with `blocks_on_host`
/// trackers blocked, the proxy's signals `s` and known-bad hosts
/// `reputation`, at time `now`.
pub open spec fn assessment(
    host: Seq<char>,
    scheme: Seq<char>,
    ip_literal: bool,
    blocks_on_host: nat,
    s: crate::security::SignalsView,
    reputation: Set<Seq<char>>,
    now: int,
) -> AssessmentView {
    let m = malware_verdict(host, s.requests_blocked, reputation);
    let sc = scam_verdict(host, ip_literal, s.body.login_form_cross_origin_host);
    let v = vuln_verdict(scheme, s, blocks_on_host, now);
    let u = min3(m.score, sc.score, v.score);
    AssessmentView {
        score: u,
        label: bucket(u),
        signals: m.signals + sc.signals + v.signals,
        malware: m,
        scam: sc,
        vuln: v,
    }
}

/// Copies of `v`'s signals appended to `out`.
fn append_signals(out: &mut Vec<TrustSignal>, v: &Vec<TrustSignal>)
    ensures
        sig_views(final(out)@) == sig_views(old(out)@) + sig_views(v@),
{
    let ghost out0 = sig_views(out@);
    let mut i: usize = 0;
    while i < v.len()
        invariant
            0 <= i <= v@.len(),
            sig_views(out@) == out0 + sig_views(v@).take(i as int),
        decreases v.len() - i,
    {
        push_signal(out, v[i].clone());
        assert(sig_views(v@).take(i + 1) =~= sig_views(v@).take(i as int).push(v@[i as int]@));
        i += 1;
    }
    assert(sig_views(v@).take(v@.len() as int) =~= sig_views(v@));
}

/// The verdict from the parts of the page's URL: its lowercased host, its
/// scheme and whether the host is an IP literal, at time `now`.
pub fn assess(
    host: &str,
    scheme: &str,
    ip_literal: bool,
    blocks_on_host: usize,
    host_signals: &HostSignals,
    reputation: &ReputationStore,
    now: i64,
) -> (r: TrustAssessment)
    ensures
        r@ == assessment(
            host@,
            scheme@,
            ip_literal,
            blocks_on_host as nat,
            host_signals@,
            reputation@,
            now as int,
        ),
{
    let malware = score_malware(host, host_signals.requests_blocked, reputation);
    let scam = score_scam(host, ip_literal, &host_signals.body.login_form_cross_origin_host);
    let vuln = score_vuln(scheme, host_signals, blocks_on_host, now);
    let ab = if malware.score <= scam.score {
        malware.score
    } else {
        scam.score
    };
    let unified = if ab <= vuln.score {
        ab
    } else {
        vuln.score
    };
    let mut signals: Vec<TrustSignal> = Vec::new();
    append_signals(&mut signals, &malware.signals);
    append_signals(&mut signals, &scam.signals);
    append_signals(&mut signals, &vuln.signals);
    assert(sig_views(signals@) =~= sig_views(malware.signals@) + sig_views(scam.signals@)
        + sig_views(vuln.signals@));
    TrustAssessment {
        score: unified,
        label: bucket_label(unified),
        signals,
        categories: TrustCategories { malware, scam, vuln },
    }
}

/// The host of `url` as the scorer reads it: lowercased, empty when the
/// URL has none.
pub open spec fn scored_host(url: Seq<char>) -> Seq<char> {
    match parsed_host(url) {
        Some(h) => lower(h),
        None => Seq::empty(),
    }
}

/// The scheme of `url`, empty when it does not parse.
pub open spec fn scored_scheme(url: Seq<char>) -> Seq<char> {
    match parsed_scheme(url) {
        Some(s) => s,
        None => Seq::empty(),
    }
}

/// The verdict on the page at `url` at time `now`.
pub fn evaluate_at(
    url: &str,
    blocks_on_host: usize,
    host_signals: &HostSignals,
    reputation: &ReputationStore,
    now: i64,
) -> (r: TrustAssessment)
    ensures
        r@ == assessment(
            scored_host(url@),
            scored_scheme(url@),
            parsed_host_is_ipv4(url@),
            blocks_on_host as nat,
            host_signals@,
            reputation@,
            now as int,
        ),
{
    let host = match url_host(url) {
        Some(h) => lowercase(h.as_str()),
        None => String::new(),
    };
    let scheme = match url_scheme(url) {
        Some(s) => s,
        None => String::new(),
    };
    let ip = url_host_is_ipv4(url);
    assess(host.as_str(), scheme.as_str(), ip, blocks_on_host, host_signals, reputation, now)
}

/// The verdict on the page at `url`, at the current time.
pub fn evaluate(
    url: &str,
    blocks_on_host: usize,
    host_signals: &HostSignals,
    reputation: &ReputationStore,
) -> (r: TrustAssessment)
    ensures
        exists|now: i64|
            r@ == #[trigger] assessment(
                scored_host(url@),
                scored_scheme(url@),
                parsed_host_is_ipv4(url@),
                blocks_on_host as nat,
                host_signals@,
                reputation@,
                now as int,
            ),
{
    let now = now_secs_signed();
    evaluate_at(url, blocks_on_host, host_signals, reputation, now)
}

/// The unified score is the worst category's: never above any category's
/// score, equal to one of them, and any category in danger puts the whole
/// verdict in danger.
pub proof fn lemma_worst_category_decides(
    host: Seq<char>,
    scheme: Seq<char>,
    ip_literal: bool,
    blocks_on_host: nat,
    s: crate::security::SignalsView,
    reputation: Set<Seq<char>>,
    now: int,
)
    ensures
        ({
            let a = assessment(host, scheme, ip_literal, blocks_on_host, s, reputation, now);
            &&& a.score <= a.malware.score
            &&& a.score <= a.scam.score
            &&& a.score <= a.vuln.score
            &&& (a.score == a.malware.score || a.score == a.scam.score || a.score == a.vuln.score)
            &&& (a.malware.score <= 20 || a.scam.score <= 20 || a.vuln.score <= 20) ==> a.label
                == "danger"@
            &&& a.score <= 100
        }),
{
}

/// A host on the reputation list (or under a listed domain) zeroes the
/// malware score, and with it the unified score: the verdict is `danger`.
pub proof fn lemma_known_bad_is_danger(
    host: Seq<char>,
    scheme: Seq<char>,
    ip_literal: bool,
    blocks_on_host: nat,
    s: crate::security::SignalsView,
    reputation: Set<Seq<char>>,
    now: int,
)
    requires
        known_bad(host, reputation),
    ensures
        ({
            let a = assessment(host, scheme, ip_literal, blocks_on_host, s, reputation, now);
            &&& a.malware.score == 0
            &&& a.score == 0
            &&& a.label == "danger"@
        }),
{
}

/// A page over plain HTTP never scores above 40 for transport, nor overall.
pub proof fn lemma_plain_http_caps_score(
    host: Seq<char>,
    ip_literal: bool,
    blocks_on_host: nat,
    s: crate::security::SignalsView,
    reputation: Set<Seq<char>>,
    now: int,
)
    ensures
        ({
            let a = assessment(host, "http"@, ip_literal, blocks_on_host, s, reputation, now);
            &&& a.vuln.score <= 40
            &&& a.score <= 40
        }),
{
    assert(header_penalty("http"@, s.headers) >= 0);
    assert(cert_penalty(s.cert, now) >= 0);
    assert(body_penalty(s.body) >= 0);
}

/// Response-side signals the proxy has not seen yet take nothing off and
/// add no signal: no headers, certificate or body finding is held against
/// a page before it was observed.
pub proof fn lemma_unseen_signals_are_neutral(scheme: Seq<char>, s: crate::security::SignalsView, now: int)
    ensures
        !s.headers.seen ==> header_penalty(scheme, s.headers) == 0 && header_signals(
            scheme,
            s.headers,
        ).len() == 0,
        !s.cert.seen ==> cert_penalty(s.cert, now) == 0 && cert_signals(s.cert, now).len() == 0,
        !s.body.seen ==> body_penalty(s.body) == 0 && body_signals(s.body).len() == 0,
{
}

/// HSTS is only asked of HTTPS pages: elsewhere a missing
/// Strict-Transport-Security header changes neither signals nor score.
pub proof fn lemma_hsts_only_for_https(scheme: Seq<char>, h: crate::security::HeaderSnapshot)
    requires
        scheme != "https"@,
    ensures
        header_signals(scheme, h) == header_signals(
            scheme,
            crate::security::HeaderSnapshot { hsts: true, ..h },
        ),
        header_penalty(scheme, h) == header_penalty(
            scheme,
            crate::security::HeaderSnapshot { hsts: true, ..h },
        ),
{
}

/// How good a label is: `danger` < `suspect` < `ok` < `trusted`.
pub open spec fn label_rank(label: Seq<char>) -> int {
    if label == "danger"@ {
        0
    } else if label == "suspect"@ {
        1
    } else if label == "ok"@ {
        2
    } else if label == "trusted"@ {
        3
    } else {
        -1
    }
}

/// A score's label is fixed by the band it falls in: 0 to 20 is `danger`,
/// 21 to 50 `suspect`, 51 to 80 `ok`, above 80 `trusted`; and a lower
/// score never gets a better label than a higher one.
pub proof fn law_label_bands(score: u8, other: u8)
    ensures
        score <= 20 ==> bucket(score) == "danger"@,
        21 <= score <= 50 ==> bucket(score) == "suspect"@,
        51 <= score <= 80 ==> bucket(score) == "ok"@,
        80 < score ==> bucket(score) == "trusted"@,
        score <= other ==> 0 <= label_rank(bucket(score)) <= label_rank(bucket(other)),
{
    reveal_strlit("danger");
    reveal_strlit("suspect");
    reveal_strlit("ok");
    reveal_strlit("trusted");
    assert("danger"@.len() != "suspect"@.len());
    assert("danger"@.len() != "ok"@.len());
    assert("danger"@.len() != "trusted"@.len());
    assert("suspect"@.len() != "ok"@.len());
    assert("ok"@.len() != "trusted"@.len());
    assert("suspect"@[0] != "trusted"@[0]);
    assert(label_rank("danger"@) == 0);
    assert(label_rank("suspect"@) == 1);
    assert(label_rank("ok"@) == 2);
    assert(label_rank("trusted"@) == 3);
}

/// Plain HTTP alone costs a page 60 of its 100 vuln points: served over
/// `http` with nothing else seen, the vuln category scores 40 and reads
/// `suspect`, and so does the whole verdict when the other categories
/// found nothing worse.
pub proof fn law_plain_http_is_suspect(
    host: Seq<char>,
    ip_literal: bool,
    blocks_on_host: nat,
    reputation: Set<Seq<char>>,
    now: int,
)
    requires
        malware_verdict(host, 0, reputation).score >= 40,
        scam_verdict(host, ip_literal, None).score >= 40,
    ensures
        ({
            let a = assessment(host, "http"@, ip_literal, blocks_on_host, crate::security::no_signals(), reputation, now);
            &&& a.vuln.score == 40
            &&& a.vuln.label == "suspect"@
            &&& a.score == 40
            &&& a.label == "suspect"@
        }),
{
    let s = crate::security::no_signals();
    assert(vuln_raw("http"@, s, now) == 40);
    law_label_bands(40, 40);
}

} // verus!
