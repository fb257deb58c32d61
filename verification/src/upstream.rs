//! Which upstream the proxy is booted with: the embedded Tor client when
//! it is chosen, compiled in and bootstraps; else the saved SOCKS5
//! endpoint when that is on and its address reads as `host:port`; else a
//! direct connection. Bootstrapping Tor and parsing the address are the
//! shell's work; these functions decide around them.

use vstd::prelude::*;

use crate::text::{decimal, owned, push_str, u64_to_decimal};

verus! {

/// The upstream a running proxy uses.
#[derive(Debug, Clone, Copy, PartialEq, Eq, Structural)]
pub enum UpstreamKind {
    Direct,
    Socks5,
    BuiltInTor,
}

/// Whether to bootstrap the embedded Tor client at boot: the settings
/// could be read, the client is compiled in, and it is chosen.
pub fn should_bootstrap_tor(settings_read: bool, built_in_supported: bool, built_in_chosen: bool) -> (r: bool)
    ensures
        r == (settings_read && built_in_supported && built_in_chosen),
{
    settings_read && built_in_supported && built_in_chosen
}

/// The upstream chosen at boot. `tor_ready` is whether the embedded
/// client bootstrapped (false when it was not tried); `socks_enabled` is
/// the saved SOCKS5 switch; `socks_addr_parsed` whether the saved address
/// reads as `host:port`.
pub open spec fn chosen_upstream(
    settings_read: bool,
    tor_ready: bool,
    socks_enabled: bool,
    socks_addr_parsed: bool,
) -> UpstreamKind {
    if !settings_read {
        UpstreamKind::Direct
    } else if tor_ready {
        UpstreamKind::BuiltInTor
    } else if socks_enabled && socks_addr_parsed {
        UpstreamKind::Socks5
    } else {
        UpstreamKind::Direct
    }
}

/// The embedded client wins whenever it bootstrapped; SOCKS5 is used only
/// when it is switched on, its address parsed and Tor is not up; anything
/// else, unreadable settings included, goes direct.
pub proof fn lemma_upstream_precedence(
    settings_read: bool,
    tor_ready: bool,
    socks_enabled: bool,
    socks_addr_parsed: bool,
)
    ensures
        settings_read && tor_ready ==> chosen_upstream(settings_read, tor_ready, socks_enabled, socks_addr_parsed)
            == UpstreamKind::BuiltInTor,
        chosen_upstream(settings_read, tor_ready, socks_enabled, socks_addr_parsed) == UpstreamKind::Socks5
            ==> settings_read && !tor_ready && socks_enabled && socks_addr_parsed,
        !settings_read ==> chosen_upstream(settings_read, tor_ready, socks_enabled, socks_addr_parsed)
            == UpstreamKind::Direct,
{
}

/// Decide the upstream once the embedded client's bootstrap (if any) has
/// run and the saved address has been parsed.
pub fn choose_upstream(
    settings_read: bool,
    tor_ready: bool,
    socks_enabled: bool,
    socks_addr_parsed: bool,
) -> (r: UpstreamKind)
    ensures
        r == chosen_upstream(settings_read, tor_ready, socks_enabled, socks_addr_parsed),
{
    if !settings_read {
        UpstreamKind::Direct
    } else if tor_ready {
        UpstreamKind::BuiltInTor
    } else if socks_enabled && socks_addr_parsed {
        UpstreamKind::Socks5
    } else {
        UpstreamKind::Direct
    }
}

/// The label the settings page shows for the upstream in use:
/// `direct`, `socks5:<addr>` or `built-in-tor`.
pub fn upstream_label(kind: UpstreamKind, socks_addr: &str) -> (r: String)
    ensures
        r@ == match kind {
            UpstreamKind::Direct => "direct"@,
            UpstreamKind::Socks5 => "socks5:"@ + socks_addr@,
            UpstreamKind::BuiltInTor => "built-in-tor"@,
        },
{
    match kind {
        UpstreamKind::Direct => owned("direct"),
        UpstreamKind::Socks5 => {
            let mut s = owned("socks5:");
            push_str(&mut s, socks_addr);
            s
        },
        UpstreamKind::BuiltInTor => owned("built-in-tor"),
    }
}

/// The embedded client's bootstrap state as the UI shows it: `running`
/// while it runs (`None`), then `ready`, or `failed:<message>`.
pub fn bootstrap_state(outcome: Option<Result<(), &str>>) -> (r: String)
    ensures
        r@ == match outcome {
            None => "running"@,
            Some(Ok(())) => "ready"@,
            Some(Err(m)) => "failed:"@ + m@,
        },
{
    match outcome {
        None => owned("running"),
        Some(Ok(())) => owned("ready"),
        Some(Err(m)) => {
            let mut s = owned("failed:");
            push_str(&mut s, m);
            s
        },
    }
}

/// The port the local proxy listens on.
pub const PROXY_PORT: u16 = 18080;

/// The URL the webviews reach the local proxy at.
pub open spec fn local_proxy(port: u16) -> Seq<char> {
    "http://127.0.0.1:"@ + decimal(port as nat)
}

/// `http://127.0.0.1:<port>`.
pub fn local_proxy_url(port: u16) -> (r: String)
    ensures
        r@ == local_proxy(port),
{
    let mut s = owned("http://127.0.0.1:");
    let n = u64_to_decimal(port as u64);
    push_str(&mut s, n.as_str());
    s
}

/// The extra WebView2 arguments that route it through the local proxy,
/// after whatever arguments the user already set (`existing`).
pub fn webview2_arguments(existing: &str, port: u16) -> (r: String)
    ensures
        r@ == if existing@.len() == 0 {
            "--proxy-server="@ + local_proxy(port)
        } else {
            existing@ + " "@ + "--proxy-server="@ + local_proxy(port)
        },
{
    let proxy = local_proxy_url(port);
    let mut r = String::new();
    if !existing.is_empty() {
        push_str(&mut r, existing);
        push_str(&mut r, " ");
    }
    push_str(&mut r, "--proxy-server=");
    push_str(&mut r, proxy.as_str());
    proof {
        if existing@.len() == 0 {
            assert(r@ =~= "--proxy-server="@ + local_proxy(port));
        } else {
            assert(r@ =~= existing@ + " "@ + "--proxy-server="@ + local_proxy(port));
        }
    }
    r
}

} // verus!
