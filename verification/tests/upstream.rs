use blueflame::upstream::{
    bootstrap_state, choose_upstream, local_proxy_url, should_bootstrap_tor, upstream_label,
    webview2_arguments, UpstreamKind, PROXY_PORT,
};

#[test]
fn upstream_preference_order() {
    assert_eq!(choose_upstream(false, true, true, true), UpstreamKind::Direct);
    assert_eq!(choose_upstream(true, true, true, true), UpstreamKind::BuiltInTor);
    assert_eq!(choose_upstream(true, false, true, true), UpstreamKind::Socks5);
    assert_eq!(choose_upstream(true, false, true, false), UpstreamKind::Direct);
    assert_eq!(choose_upstream(true, false, false, true), UpstreamKind::Direct);
    assert!(should_bootstrap_tor(true, true, true));
    assert!(!should_bootstrap_tor(true, false, true));
}

#[test]
fn upstream_labels() {
    assert_eq!(upstream_label(UpstreamKind::Direct, ""), "direct");
    assert_eq!(upstream_label(UpstreamKind::Socks5, "127.0.0.1:9050"), "socks5:127.0.0.1:9050");
    assert_eq!(upstream_label(UpstreamKind::BuiltInTor, ""), "built-in-tor");
}

#[test]
fn bootstrap_states() {
    assert_eq!(bootstrap_state(None), "running");
    assert_eq!(bootstrap_state(Some(Ok(()))), "ready");
    assert_eq!(bootstrap_state(Some(Err("no consensus"))), "failed:no consensus");
}

#[test]
fn webview_proxy_arguments() {
    assert_eq!(local_proxy_url(PROXY_PORT), "http://127.0.0.1:18080");
    assert_eq!(webview2_arguments("", 18080), "--proxy-server=http://127.0.0.1:18080");
    assert_eq!(webview2_arguments("--foo", 8080), "--foo --proxy-server=http://127.0.0.1:8080");
}
