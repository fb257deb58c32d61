use blueflame::body_analysis::{analyze, collect_libraries, detect_old_library, find_cross_origin};

#[test]
fn password_field_on_http_flagged() {
    let html = r#"<html><body><form><input type="password"></form></body></html>"#;
    let f = analyze(html, "site.example", "http");
    assert!(f.password_on_insecure_origin);
}

#[test]
fn password_field_on_https_not_flagged() {
    let html = r#"<html><body><form><input type="password"></form></body></html>"#;
    let f = analyze(html, "site.example", "https");
    assert!(!f.password_on_insecure_origin);
}

#[test]
fn login_form_cross_origin_detected() {
    let html = r#"
        <html><body>
            <form action="https://attacker.example/collect">
                <input type="password">
            </form>
        </body></html>
    "#;
    let f = analyze(html, "legit.example", "https");
    assert_eq!(f.login_form_cross_origin.as_deref(), Some("attacker.example"));
}

#[test]
fn login_form_same_origin_is_fine() {
    let html = r#"
        <html><body>
            <form action="https://legit.example/login">
                <input type="password">
            </form>
        </body></html>
    "#;
    let f = analyze(html, "legit.example", "https");
    assert!(f.login_form_cross_origin.is_none());
}

#[test]
fn relative_action_not_flagged_as_cross_origin() {
    let html = r#"<form action="/login"><input type="password"></form>"#;
    let f = analyze(html, "legit.example", "https");
    assert!(f.login_form_cross_origin.is_none());
}

#[test]
fn form_without_password_ignored_for_cross_origin() {
    let html = r#"
        <form action="https://mailchimp.com/subscribe">
            <input type="email">
        </form>
    "#;
    let f = analyze(html, "site.example", "https");
    assert!(f.login_form_cross_origin.is_none());
}

#[test]
fn detects_jquery_1x() {
    let html = r#"<script src="https://cdn.example/jquery-1.7.2.min.js"></script>"#;
    let f = analyze(html, "site.example", "https");
    assert!(f.outdated_libraries.iter().any(|l| l.contains("jQuery 1.")));
}

#[test]
fn detects_angularjs() {
    let html = r#"<script src="https://ajax.googleapis.com/ajax/libs/angularjs/1.8.3/angular.min.js"></script>"#;
    let f = analyze(html, "site.example", "https");
    assert!(f.outdated_libraries.iter().any(|l| l.contains("AngularJS 1.")));
}

#[test]
fn modern_jquery_not_flagged() {
    let html = r#"<script src="https://code.jquery.com/jquery-3.7.1.min.js"></script>"#;
    let f = analyze(html, "site.example", "https");
    assert!(f.outdated_libraries.is_empty());
}

#[test]
fn duplicate_library_not_duplicated() {
    let html = r#"
        <script src="https://a.example/jquery-1.4.js"></script>
        <script src="https://b.example/jquery-1.4.js"></script>
    "#;
    let f = analyze(html, "site.example", "https");
    assert_eq!(f.outdated_libraries.len(), 1);
}

#[test]
fn no_signals_yields_false_any_signal() {
    let f = analyze("<html><body>hi</body></html>", "site.example", "https");
    assert!(!f.any_signal());
}

#[test]
fn old_library_names_and_versions() {
    assert_eq!(
        detect_old_library("https://cdn.example/jquery-1.7.2.min.js").as_deref(),
        Some("jQuery 1.7.2 (EOL, known XSS issues)")
    );
    assert_eq!(detect_old_library("https://cdn.example/bootstrap-4.0.0.js"), None);
}

#[test]
fn cross_origin_found_among_parsed_forms() {
    let forms = vec![
        (false, Some("https://evil.example/steal".to_string())),
        (true, Some("/login".to_string())),
        (true, Some("https://Login.Other.example/post".to_string())),
    ];
    assert_eq!(find_cross_origin(&forms, "site.example").as_deref(), Some("login.other.example"));
    let same = vec![(true, Some("https://site.example/login".to_string()))];
    assert_eq!(find_cross_origin(&same, "site.example"), None);
    assert_eq!(find_cross_origin(&Vec::new(), "site.example"), None);
}

#[test]
fn libraries_collected_once_each() {
    let srcs = vec![
        "https://cdn.example/jquery-1.7.2.min.js".to_string(),
        "https://cdn.example/app.js".to_string(),
        "https://cdn.example/jquery-1.7.2.min.js".to_string(),
        "https://cdn.example/angular.1.5.8.js".to_string(),
    ];
    let libs = collect_libraries(&srcs);
    assert_eq!(libs.len(), 2);
    assert_eq!(libs[0], "jQuery 1.7.2 (EOL, known XSS issues)");
    assert!(libs[1].starts_with("AngularJS 1.5.8"));
    assert!(collect_libraries(&Vec::new()).is_empty());
}
