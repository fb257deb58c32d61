//! Trust signals read from an HTML document body.
//!
//! Three classes of signal:
//!
//! 1. a `<form>` holding a `type="password"` input whose absolute action
//!    URL names a different host than the page (a credential collector);
//! 2. a `type="password"` input on a page served over plain HTTP;
//! 3. `<script src=...>` URLs naming end-of-life library versions
//!    (jQuery 1.x, AngularJS 1.x, Bootstrap 3.x).

use vstd::prelude::*;

use crate::text::{lower, lowercase, opt_view, owned, position_of, push_str, str_eq, views, chars_of};
use crate::rx::{first_group, regex_first_group};
use crate::urls::{parsed_host, url_host};

verus! {

/// What one HTML response showed.
pub struct BodyFindings {
    /// Host of a cross-origin action of a form with a password input.
    pub login_form_cross_origin: Option<String>,
    /// Whether a password input is on a page served over plain HTTP.
    pub password_on_insecure_origin: bool,
    /// End-of-life libraries named by script sources, each once, at most six.
    pub outdated_libraries: Vec<String>,
}

impl BodyFindings {
    /// No signal at all.
    pub open spec fn is_empty_spec(&self) -> bool {
        self.login_form_cross_origin is None && !self.password_on_insecure_origin
            && self.outdated_libraries@.len() == 0
    }

    /// The cross-origin form host, as a sequence.
    pub open spec fn cross_origin_host(&self) -> Option<Seq<char>> {
        opt_view(self.login_form_cross_origin)
    }

    /// The outdated libraries, as sequences.
    pub open spec fn libraries(&self) -> Seq<Seq<char>> {
        views(self.outdated_libraries@)
    }

    /// Whether any signal fired.
    pub fn any_signal(&self) -> (b: bool)
        ensures
            b == !self.is_empty_spec(),
    {
        self.login_form_cross_origin.is_some() || self.password_on_insecure_origin
            || self.outdated_libraries.len() > 0
    }
}

impl Default for BodyFindings {
    fn default() -> (r: Self)
        ensures
            r.is_empty_spec(),
    {
        BodyFindings {
            login_form_cross_origin: None,
            password_on_insecure_origin: false,
            outdated_libraries: Vec::new(),
        }
    }
}

// ---------------------------------------------------------------------
// What the HTML parser and the regex engine report
// ---------------------------------------------------------------------

/// Whether `scraper::Selector::parse(selector)` succeeds and the selector
/// matches some element of `scraper::Html::parse_document(html)`.
pub uninterp spec fn selects(html: Seq<char>, selector: Seq<char>) -> bool;

/// For every element of `scraper::Html::parse_document(html)` that `scope`
/// selects, in document order: whether `inner` selects an element inside
/// it, and its attribute `attr`. Empty when a selector does not parse.
pub uninterp spec fn scoped_elements(html: Seq<char>, scope: Seq<char>, inner: Seq<char>, attr: Seq<char>) -> Seq<(bool, Option<Seq<char>>)>;

/// The attribute `attr` of every element of
/// `scraper::Html::parse_document(html)` that `selector` selects and that
/// carries it, in document order. Empty when the selector does not parse.
pub uninterp spec fn attr_values(html: Seq<char>, selector: Seq<char>, attr: Seq<char>) -> Seq<Seq<char>>;

/// Parses `html` with `scraper::Html::parse_document` and tells whether
/// `selector` (parsed with `scraper::Selector::parse`) selects anything.
#[verifier::external_body]
fn html_selects(html: &str, selector: &str) -> (r: bool)
    ensures
        r == selects(html@, selector@),
{
    let doc = scraper::Html::parse_document(html);
    match scraper::Selector::parse(selector) {
        Ok(sel) => doc.select(&sel).next().is_some(),
        Err(_) => false,
    }
}

/// Parses `html` with `scraper::Html::parse_document` and lists the
/// elements `scope` selects: whether `inner` selects something inside
/// each, and each one's attribute `attr`.
#[verifier::external_body]
fn html_scoped_elements(html: &str, scope: &str, inner: &str, attr: &str) -> (r: Vec<(bool, Option<String>)>)
    ensures
        r@.map_values(|f: (bool, Option<String>)| (f.0, opt_view(f.1))) == scoped_elements(html@, scope@, inner@, attr@),
{
    let doc = scraper::Html::parse_document(html);
    let (Ok(outer), Ok(within)) = (scraper::Selector::parse(scope), scraper::Selector::parse(inner)) else {
        return Vec::new();
    };
    doc.select(&outer).map(|f| (f.select(&within).next().is_some(), f.value().attr(attr).map(|a| a.to_string()))).collect()
}

/// Parses `html` with `scraper::Html::parse_document` and lists the
/// attribute `attr` of the elements `selector` selects that carry it.
#[verifier::external_body]
fn html_attr_values(html: &str, selector: &str, attr: &str) -> (r: Vec<String>)
    ensures
        views(r@) == attr_values(html@, selector@, attr@),
{
    let doc = scraper::Html::parse_document(html);
    match scraper::Selector::parse(selector) {
        Ok(sel) => doc.select(&sel).filter_map(|s| s.value().attr(attr).map(|a| a.to_string())).collect(),
        Err(_) => Vec::new(),
    }
}

/// Whether the document has an `input[type="password"]`.
pub open spec fn has_password_input(html: Seq<char>) -> bool {
    selects(html, "input[type=\"password\"]"@)
}

/// Every `form` element of the document, in document order: whether it
/// holds an `input[type="password"]`, and its `action` attribute.
pub open spec fn forms_of(html: Seq<char>) -> Seq<(bool, Option<Seq<char>>)> {
    scoped_elements(html, "form"@, "input[type=\"password\"]"@, "action"@)
}

/// The `src` attribute of every `script[src]` element of the document, in
/// document order.
pub open spec fn script_srcs(html: Seq<char>) -> Seq<Seq<char>> {
    attr_values(html, "script[src]"@, "src"@)
}

// ---------------------------------------------------------------------
// The analysis
// ---------------------------------------------------------------------

/// jQuery 1.x in a script path.
pub open spec fn jquery_v1() -> Seq<char> {
    "(?i)jquery[a-z]*[-./](1\\.\\d+(?:\\.\\d+)?)"@
}

/// AngularJS 1.x in a script path.
pub open spec fn angularjs_v1() -> Seq<char> {
    "(?i)angular[a-z]*[-./](1\\.\\d+(?:\\.\\d+)?)"@
}

/// Bootstrap 3.x in a script path.
pub open spec fn bootstrap_v3() -> Seq<char> {
    "(?i)bootstrap[a-z]*[-./](3\\.\\d+(?:\\.\\d+)?)"@
}

/// The version a match reports, or `fallback` when group 1 is absent.
pub open spec fn version_or(g: Option<Seq<char>>, fallback: Seq<char>) -> Seq<char> {
    match g {
        Some(v) => v,
        None => fallback,
    }
}

/// The end-of-life library a script source names, if any: jQuery 1.x,
/// then AngularJS 1.x, then Bootstrap 3.x.
pub open spec fn old_library(src: Seq<char>) -> Option<Seq<char>> {
    match first_group(jquery_v1(), src) {
        Some(g) => Some("jQuery "@ + version_or(g, "1.x"@) + " (EOL, known XSS issues)"@),
        None => match first_group(angularjs_v1(), src) {
            Some(g) => Some("AngularJS "@ + version_or(g, "1.x"@) + " (EOL since 2022)"@),
            None => match first_group(bootstrap_v3(), src) {
                Some(g) => Some(
                    "Bootstrap "@ + version_or(g, "3.x"@) + " (EOL, XSS in tooltips/popovers)"@,
                ),
                None => None,
            },
        },
    }
}

/// `a`, then the version or `fallback`, then `c`.
fn describe(a: &str, g: Option<String>, fallback: &str, c: &str) -> (r: String)
    ensures
        r@ == a@ + version_or(opt_view(g), fallback@) + c@,
{
    let mut r = owned(a);
    match g {
        Some(v) => push_str(&mut r, v.as_str()),
        None => push_str(&mut r, fallback),
    }
    push_str(&mut r, c);
    r
}

/// The end-of-life library `src` names, if any.
pub fn detect_old_library(src: &str) -> (r: Option<String>)
    ensures
        opt_view(r) == old_library(src@),
{
    if let Some(g) = regex_first_group("(?i)jquery[a-z]*[-./](1\\.\\d+(?:\\.\\d+)?)", src) {
        return Some(describe("jQuery ", g, "1.x", " (EOL, known XSS issues)"));
    }
    if let Some(g) = regex_first_group("(?i)angular[a-z]*[-./](1\\.\\d+(?:\\.\\d+)?)", src) {
        return Some(describe("AngularJS ", g, "1.x", " (EOL since 2022)"));
    }
    if let Some(g) = regex_first_group("(?i)bootstrap[a-z]*[-./](3\\.\\d+(?:\\.\\d+)?)", src) {
        return Some(describe("Bootstrap ", g, "3.x", " (EOL, XSS in tooltips/popovers)"));
    }
    None
}

/// The host a password form posts to, if it is an absolute URL naming a
/// host other than `page_host`.
pub open spec fn form_target(form: (bool, Option<Seq<char>>), page_host: Seq<char>) -> Option<Seq<char>> {
    if !form.0 {
        None
    } else {
        match form.1 {
            Some(a) => match parsed_host(a) {
                Some(h) => if lower(h) != page_host {
                    Some(lower(h))
                } else {
                    None
                },
                None => None,
            },
            None => None,
        }
    }
}

/// The target of the first form that posts a password cross-origin.
pub open spec fn cross_origin_target(forms: Seq<(bool, Option<Seq<char>>)>, page_host: Seq<char>) -> Option<Seq<char>>
    decreases forms.len(),
{
    if forms.len() == 0 {
        None
    } else {
        match form_target(forms[0], page_host) {
            Some(h) => Some(h),
            None => cross_origin_target(forms.drop_first(), page_host),
        }
    }
}

/// Libraries named by `srcs`, each once, reading no further once six are
/// found.
pub open spec fn libraries_in(srcs: Seq<Seq<char>>) -> Seq<Seq<char>>
    decreases srcs.len(),
{
    if srcs.len() == 0 {
        Seq::empty()
    } else {
        let before = libraries_in(srcs.drop_last());
        if before.len() >= 6 {
            before
        } else {
            match old_library(srcs.last()) {
                Some(l) => if before.contains(l) {
                    before
                } else {
                    before.push(l)
                },
                None => before,
            }
        }
    }
}

/// Whether the page is served over plain HTTP.
pub open spec fn is_http(scheme: Seq<char>) -> bool {
    scheme == "http"@
}

/// Password-on-HTTP signal.
pub open spec fn password_insecure(html: Seq<char>, page_scheme: Seq<char>) -> bool {
    has_password_input(html) && is_http(page_scheme)
}

/// Cross-origin login form signal: only looked for when the document has
/// a password input at all.
pub open spec fn login_cross_origin(html: Seq<char>, page_host: Seq<char>) -> Option<Seq<char>> {
    if has_password_input(html) {
        cross_origin_target(forms_of(html), page_host)
    } else {
        None
    }
}

/// The cross-origin target among `forms`.
pub fn find_cross_origin(forms: &Vec<(bool, Option<String>)>, page_host: &str) -> (r: Option<String>)
    ensures
        opt_view(r) == cross_origin_target(
            forms@.map_values(|f: (bool, Option<String>)| (f.0, opt_view(f.1))),
            page_host@,
        ),
{
    let ghost fs = forms@.map_values(|f: (bool, Option<String>)| (f.0, opt_view(f.1)));
    let mut i: usize = 0;
    assert(fs.skip(0) =~= fs);
    while i < forms.len()
        invariant
            0 <= i <= forms@.len(),
            fs == forms@.map_values(|f: (bool, Option<String>)| (f.0, opt_view(f.1))),
            cross_origin_target(fs, page_host@) == cross_origin_target(fs.skip(i as int), page_host@),
        decreases forms.len() - i,
    {
        let ghost rest = fs.skip(i as int);
        assert(rest[0] == fs[i as int]);
        assert(rest.drop_first() =~= fs.skip(i + 1));
        if forms[i].0 {
            if let Some(a) = &forms[i].1 {
                if let Some(h) = url_host(a.as_str()) {
                    let lh = lowercase(h.as_str());
                    if !str_eq(lh.as_str(), page_host) {
                        return Some(lh);
                    }
                }
            }
        }
        i += 1;
    }
    None
}

/// The libraries named by `srcs`, per `libraries_in`.
pub fn collect_libraries(srcs: &Vec<String>) -> (r: Vec<String>)
    ensures
        views(r@) == libraries_in(views(srcs@)),
{
    let ghost ss = views(srcs@);
    let mut out: Vec<String> = Vec::new();
    let mut i: usize = 0;
    while i < srcs.len()
        invariant
            0 <= i <= srcs@.len(),
            ss == views(srcs@),
            views(out@) == libraries_in(ss.take(i as int)),
        decreases srcs.len() - i,
    {
        assert(ss.take(i + 1).drop_last() =~= ss.take(i as int));
        assert(ss.take(i + 1).last() == srcs@[i as int]@);
        if out.len() >= 6 {
            i += 1;
            continue;
        }
        if let Some(lib) = detect_old_library(srcs[i].as_str()) {
            let lc = chars_of(lib.as_str());
            match position_of(&out, &lc) {
                None => {
                    let ghost before = out@;
                    out.push(lib);
                    assert(views(out@) =~= views(before).push(lc@));
                },
                Some(k) => {
                    assert(views(out@)[k as int] == lc@);
                },
            }
        }
        i += 1;
    }
    assert(ss.take(ss.len() as int) =~= ss);
    out
}

/// Inspect an HTML document served for `page_host` (lowercase) over
/// `page_scheme` for trust signals.
pub fn analyze(html: &str, page_host: &str, page_scheme: &str) -> (r: BodyFindings)
    ensures
        r.cross_origin_host() == login_cross_origin(html@, page_host@),
        r.password_on_insecure_origin == password_insecure(html@, page_scheme@),
        r.libraries() == libraries_in(script_srcs(html@)),
{
    let has_password = html_selects(html, "input[type=\"password\"]");
    let password_on_insecure_origin = has_password && str_eq(page_scheme, "http");
    let login_form_cross_origin = if has_password {
        let forms = html_scoped_elements(html, "form", "input[type=\"password\"]", "action");
        find_cross_origin(&forms, page_host)
    } else {
        None
    };
    let srcs = html_attr_values(html, "script[src]", "src");
    let outdated_libraries = collect_libraries(&srcs);
    BodyFindings { login_form_cross_origin, password_on_insecure_origin, outdated_libraries }
}

/// Each end-of-life library a script names is reported with its version:
/// a jQuery 1.x match first, then AngularJS 1.x, then Bootstrap 3.x (whose
/// pattern always captures the version).
pub proof fn law_old_library_reported(src: Seq<char>, v: Seq<char>)
    ensures
        first_group("(?i)jquery[a-z]*[-./](1\\.\\d+(?:\\.\\d+)?)"@, src) == Some(Some(v))
            ==> old_library(src) == Some("jQuery "@ + v + " (EOL, known XSS issues)"@),
        first_group("(?i)jquery[a-z]*[-./](1\\.\\d+(?:\\.\\d+)?)"@, src) is None
            && first_group("(?i)angular[a-z]*[-./](1\\.\\d+(?:\\.\\d+)?)"@, src) == Some(Some(v))
            ==> old_library(src) == Some("AngularJS "@ + v + " (EOL since 2022)"@),
        first_group("(?i)jquery[a-z]*[-./](1\\.\\d+(?:\\.\\d+)?)"@, src) is None
            && first_group("(?i)angular[a-z]*[-./](1\\.\\d+(?:\\.\\d+)?)"@, src) is None
            && first_group("(?i)bootstrap[a-z]*[-./](3\\.\\d+(?:\\.\\d+)?)"@, src) == Some(Some(v))
            ==> old_library(src) == Some("Bootstrap "@ + v + " (EOL, XSS in tooltips/popovers)"@),
        first_group("(?i)jquery[a-z]*[-./](1\\.\\d+(?:\\.\\d+)?)"@, src) is None
            && first_group("(?i)angular[a-z]*[-./](1\\.\\d+(?:\\.\\d+)?)"@, src) is None
            && first_group("(?i)bootstrap[a-z]*[-./](3\\.\\d+(?:\\.\\d+)?)"@, src) is None
            ==> old_library(src) is None,
{
}

/// A page whose only script names an end-of-life library lists exactly that
/// library among its outdated ones.
pub proof fn law_single_script_library(src: Seq<char>, lib: Seq<char>)
    requires
        old_library(src) == Some(lib),
    ensures
        libraries_in(seq![src]) == seq![lib],
{
    assert(seq![src].drop_last() =~= Seq::<Seq<char>>::empty());
    assert(libraries_in(Seq::<Seq<char>>::empty()) == Seq::<Seq<char>>::empty());
    assert(!Seq::<Seq<char>>::empty().contains(lib));
    assert(Seq::<Seq<char>>::empty().push(lib) =~= seq![lib]);
}

} // verus!
