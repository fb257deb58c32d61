use blueflame::reputation::ReputationStore;
use blueflame::security::{BodySnapshot, CertSnapshot, HeaderSnapshot, HostSignals};
use blueflame::trust::{assess, evaluate, evaluate_at};

fn empty() -> HostSignals {
    HostSignals::default()
}

fn rep() -> ReputationStore {
    ReputationStore::with_bundled()
}

#[test]
fn https_clean_site_is_trusted() {
    let a = evaluate("https://duckduckgo.com/?q=rust", 8, &empty(), &rep());
    assert_eq!(a.label, "trusted");
    assert!(a.categories.vuln.signals.iter().any(|s| s.id == "https"));
}

#[test]
fn plain_http_drops_vuln_score() {
    let a = evaluate("http://example.com/", 0, &empty(), &rep());
    assert!(a.categories.vuln.score < 60);
    // Unified takes the min, so HTTP alone drops the overall score too.
    assert!(a.score < 60);
}

#[test]
fn known_bad_host_zeros_unified_via_malware() {
    let a = evaluate("https://phishing.example.test/login", 0, &empty(), &rep());
    assert_eq!(a.score, 0);
    assert_eq!(a.label, "danger");
    assert_eq!(a.categories.malware.score, 0);
}

#[test]
fn punycode_is_a_scam_signal() {
    let a = evaluate("https://xn--e1afmkfd.example/", 0, &empty(), &rep());
    assert!(a.categories.scam.signals.iter().any(|s| s.id == "punycode"));
    assert!(a.categories.scam.score < 100);
}

#[test]
fn brand_impersonation_is_flagged() {
    // "paypal" appears as a subdomain label on a host that isn't paypal.com
    let a = evaluate("https://paypal-login.evil.example/", 0, &empty(), &rep());
    assert!(a
        .categories
        .scam
        .signals
        .iter()
        .any(|s| s.id == "brand-impersonation"));
    assert!(a.categories.scam.score < 80);
}

#[test]
fn mixed_content_hits_vuln() {
    let sig = HostSignals {
        mixed_content: true,
        ..Default::default()
    };
    let a = evaluate("https://site.example/", 0, &sig, &rep());
    assert!(a
        .categories
        .vuln
        .signals
        .iter()
        .any(|s| s.id == "mixed-content"));
}

fn with_seen_headers(
    csp: bool,
    hsts: bool,
    xfo: bool,
    xcto: bool,
    rp: bool,
    pp: bool,
    insecure_cookie: bool,
) -> HostSignals {
    HostSignals {
        headers: HeaderSnapshot {
            seen: true,
            csp,
            hsts,
            xfo,
            xcto,
            referrer_policy: rp,
            permissions_policy: pp,
            insecure_cookie,
        },
        ..Default::default()
    }
}

#[test]
fn missing_headers_drop_vuln_score() {
    let sig = with_seen_headers(false, false, false, false, false, false, false);
    let a = evaluate("https://site.example/", 0, &sig, &rep());
    let vuln = &a.categories.vuln;
    assert!(vuln.signals.iter().any(|s| s.id == "missing-csp"));
    assert!(vuln.signals.iter().any(|s| s.id == "missing-hsts"));
    assert!(vuln.signals.iter().any(|s| s.id == "missing-xfo"));
    assert!(vuln.signals.iter().any(|s| s.id == "missing-xcto"));
    assert!(vuln
        .signals
        .iter()
        .any(|s| s.id == "missing-referrer-policy"));
    assert!(vuln
        .signals
        .iter()
        .any(|s| s.id == "missing-permissions-policy"));
    // 15 + 15 + 10 + 5 + 5 + 5 = 55 point drop.
    assert!(vuln.score <= 45);
}

#[test]
fn all_headers_present_is_clean_vuln() {
    let sig = with_seen_headers(true, true, true, true, true, true, false);
    let a = evaluate("https://site.example/", 0, &sig, &rep());
    assert!(a
        .categories
        .vuln
        .signals
        .iter()
        .all(|s| !s.id.starts_with("missing-")));
    assert_eq!(a.categories.vuln.score, 100);
}

#[test]
fn insecure_cookie_is_flagged() {
    let sig = with_seen_headers(true, true, true, true, true, true, true);
    let a = evaluate("https://site.example/", 0, &sig, &rep());
    assert!(a
        .categories
        .vuln
        .signals
        .iter()
        .any(|s| s.id == "insecure-cookie"));
}

#[test]
fn unseen_headers_do_not_penalize() {
    // No HeaderSnapshot.seen == no header signals, regardless of missing headers.
    let a = evaluate("https://site.example/", 0, &HostSignals::default(), &rep());
    assert!(a
        .categories
        .vuln
        .signals
        .iter()
        .all(|s| !s.id.starts_with("missing-")));
}

#[test]
fn hsts_only_penalizes_https() {
    // Plain-HTTP gets the big http penalty but shouldn't ALSO get missing-hsts,
    // which is meaningless on HTTP anyway.
    let sig = with_seen_headers(true, false, true, true, true, true, false);
    let a = evaluate("http://site.example/", 0, &sig, &rep());
    assert!(a
        .categories
        .vuln
        .signals
        .iter()
        .all(|s| s.id != "missing-hsts"));
}

#[test]
fn homoglyph_digit_swap_is_flagged() {
    // `1` in place of `l` - same visual shape in most fonts.
    let a = evaluate("https://paypa1.example/", 0, &empty(), &rep());
    assert!(a
        .categories
        .scam
        .signals
        .iter()
        .any(|s| s.id == "homoglyph"));
    assert!(a.categories.scam.score < 60);
}

#[test]
fn homoglyph_zero_for_o_is_flagged() {
    let a = evaluate("https://g00gle.evil.example/", 0, &empty(), &rep());
    assert!(a
        .categories
        .scam
        .signals
        .iter()
        .any(|s| s.id == "homoglyph"));
}

#[test]
fn suspicious_tld_nudges_malware() {
    let a = evaluate("https://some-site.zip/", 0, &empty(), &rep());
    assert!(a
        .categories
        .malware
        .signals
        .iter()
        .any(|s| s.id == "suspicious-tld"));
    assert!(a.categories.malware.score < 100);
}

fn with_cert(
    seen: bool,
    issuer: &str,
    subject: &str,
    not_before: i64,
    not_after: i64,
    self_signed: bool,
) -> HostSignals {
    HostSignals {
        cert: CertSnapshot {
            seen,
            issuer_cn: issuer.into(),
            subject_cn: subject.into(),
            not_before,
            not_after,
            sig_alg: "1.2.840.113549.1.1.11".into(),
            self_signed,
        },
        ..Default::default()
    }
}

fn now() -> i64 {
    std::time::SystemTime::now()
        .duration_since(std::time::UNIX_EPOCH)
        .map(|d| d.as_secs() as i64)
        .unwrap_or(0)
}

#[test]
fn cert_expires_soon_is_flagged() {
    let sig = with_cert(
        true,
        "Let's Encrypt",
        "site.example",
        now() - 86_400,
        now() + 3 * 86_400, // 3 days until expiry
        false,
    );
    let a = evaluate("https://site.example/", 0, &sig, &rep());
    assert!(a
        .categories
        .vuln
        .signals
        .iter()
        .any(|s| s.id == "cert-expires-soon"));
}

#[test]
fn cert_expired_is_penalized() {
    let sig = with_cert(
        true,
        "Let's Encrypt",
        "site.example",
        now() - 30 * 86_400,
        now() - 86_400, // expired yesterday
        false,
    );
    let a = evaluate("https://site.example/", 0, &sig, &rep());
    assert!(a
        .categories
        .vuln
        .signals
        .iter()
        .any(|s| s.id == "cert-expired"));
}

#[test]
fn self_signed_cert_is_flagged() {
    let sig = with_cert(
        true,
        "site.example",
        "site.example",
        now() - 86_400,
        now() + 90 * 86_400,
        true,
    );
    let a = evaluate("https://site.example/", 0, &sig, &rep());
    assert!(a
        .categories
        .vuln
        .signals
        .iter()
        .any(|s| s.id == "cert-self-signed"));
}

#[test]
fn overlong_cert_is_flagged() {
    let sig = with_cert(
        true,
        "Private CA",
        "site.example",
        now() - 100 * 86_400,
        now() + 500 * 86_400, // 500-day cert
        false,
    );
    let a = evaluate("https://site.example/", 0, &sig, &rep());
    assert!(a
        .categories
        .vuln
        .signals
        .iter()
        .any(|s| s.id == "cert-overlong"));
}

#[test]
fn cert_not_seen_does_not_emit_cert_signals() {
    let a = evaluate("https://site.example/", 0, &empty(), &rep());
    assert!(a
        .categories
        .vuln
        .signals
        .iter()
        .all(|s| !s.id.starts_with("cert-")));
}

#[test]
fn healthy_cert_only_emits_issuer_info() {
    let sig = with_cert(
        true,
        "Let's Encrypt",
        "site.example",
        now() - 30 * 86_400,
        now() + 60 * 86_400, // 60 days left
        false,
    );
    let a = evaluate("https://site.example/", 0, &sig, &rep());
    let cert_signals: Vec<_> = a
        .categories
        .vuln
        .signals
        .iter()
        .filter(|s| s.id.starts_with("cert-"))
        .collect();
    // Only `cert-issuer` (neutral info) should be present.
    assert_eq!(cert_signals.len(), 1);
    assert_eq!(cert_signals[0].id, "cert-issuer");
}

#[test]
fn password_on_http_page_hits_vuln() {
    let sig = HostSignals {
        body: BodySnapshot {
            seen: true,
            password_on_insecure_origin: true,
            ..Default::default()
        },
        ..Default::default()
    };
    let a = evaluate("http://site.example/login", 0, &sig, &rep());
    assert!(a
        .categories
        .vuln
        .signals
        .iter()
        .any(|s| s.id == "password-on-http"));
}

#[test]
fn cross_origin_login_form_hits_scam() {
    let sig = HostSignals {
        body: BodySnapshot {
            seen: true,
            login_form_cross_origin_host: Some("attacker.example".into()),
            ..Default::default()
        },
        ..Default::default()
    };
    let a = evaluate("https://legit.example/", 0, &sig, &rep());
    assert!(a
        .categories
        .scam
        .signals
        .iter()
        .any(|s| s.id == "cross-origin-login-form"));
    assert!(a.categories.scam.score < 60);
}

#[test]
fn outdated_library_hits_vuln() {
    let sig = HostSignals {
        body: BodySnapshot {
            seen: true,
            outdated_libraries: vec!["jQuery 1.7 (EOL)".to_string()],
            ..Default::default()
        },
        ..Default::default()
    };
    let a = evaluate("https://site.example/", 0, &sig, &rep());
    assert!(a
        .categories
        .vuln
        .signals
        .iter()
        .any(|s| s.id == "outdated-lib"));
}

#[test]
fn reputation_hit_added_at_runtime_is_caught() {
    // Host that's clean under the bundled list alone...
    let mut empty_rep = ReputationStore::default();
    let clean = evaluate("https://freshly-reported.example/", 0, &empty(), &empty_rep);
    assert_eq!(clean.categories.malware.score, 100);
    // ...and then a feed refresh adds it - the very next evaluation
    // should flip to danger without any other wiring.
    empty_rep.extend(vec!["freshly-reported.example".to_string()]);
    let flagged = evaluate("https://freshly-reported.example/", 0, &empty(), &empty_rep);
    assert_eq!(flagged.categories.malware.score, 0);
    assert!(flagged
        .categories
        .malware
        .signals
        .iter()
        .any(|s| s.id == "known-malicious"));
}

#[test]
fn unified_is_min_of_categories() {
    // HTTP (vuln danger) + otherwise-clean host: unified must follow vuln.
    let a = evaluate("http://clean.example/", 0, &empty(), &rep());
    assert_eq!(a.score, a.categories.vuln.score);
}

#[test]
fn ip_literal_is_a_scam_signal() {
    let a = evaluate("https://93.184.216.34/", 0, &empty(), &rep());
    assert!(a
        .categories
        .scam
        .signals
        .iter()
        .any(|s| s.id == "ip-literal"));
}

#[test]
fn evaluate_at_is_deterministic_for_a_time() {
    let sig = with_cert(true, "Let's Encrypt", "site.example", 1_000, 1_000 + 60 * 86_400, false);
    let a = evaluate_at("https://site.example/", 0, &sig, &rep(), 2_000);
    let b = evaluate_at("https://site.example/", 0, &sig, &rep(), 2_000);
    assert_eq!(a.score, b.score);
    assert_eq!(a.signals.len(), b.signals.len());
    let expired = evaluate_at("https://site.example/", 0, &sig, &rep(), 1_000 + 61 * 86_400);
    assert!(expired.categories.vuln.signals.iter().any(|s| s.id == "cert-expired"));
}

#[test]
fn blocked_trackers_show_as_positive_signal_count() {
    let a = evaluate("https://site.example/", 3, &empty(), &rep());
    assert!(a.signals.len() >= 1);
    assert!(a.score <= 100);
}

#[test]
fn assess_matches_evaluate_on_parsed_parts() {
    let a = assess("site.example", "https", false, 0, &empty(), &rep(), 0);
    let b = evaluate_at("https://site.example/", 0, &empty(), &rep(), 0);
    assert_eq!(a.score, b.score);
    assert_eq!(a.label, b.label);
}

