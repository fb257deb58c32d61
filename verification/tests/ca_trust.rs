use blueflame::ca_trust::{auto_install_supported, install, TargetOs};
use blueflame::tls_verifier::{server_name_host, TlsServerName};

#[test]
fn install_on_windows_goes_ahead() {
    assert!(install(TargetOs::Windows, "C:\\ca.pem").is_ok());
    assert!(auto_install_supported(TargetOs::Windows));
}

#[test]
fn install_elsewhere_names_the_manual_command() {
    assert_eq!(
        install(TargetOs::MacOs, "/home/u/ca.pem").unwrap_err(),
        "macOS auto-install is not supported yet. Run: sudo security add-trusted-cert -d -r trustRoot -k /Library/Keychains/System.keychain /home/u/ca.pem"
    );
    assert_eq!(
        install(TargetOs::Linux, "/home/u/ca.pem").unwrap_err(),
        "Linux auto-install is not supported yet. Run: sudo cp /home/u/ca.pem /usr/local/share/ca-certificates/ && sudo update-ca-certificates"
    );
    assert!(!auto_install_supported(TargetOs::MacOs));
    assert!(!auto_install_supported(TargetOs::Linux));
}

#[test]
fn server_name_dns_extracts_lowercase_host() {
    let n = TlsServerName::DnsName("Example.COM".to_string());
    assert_eq!(server_name_host(&n), "example.com");
}

#[test]
fn server_name_ip_returns_empty() {
    let n = TlsServerName::IpAddress("127.0.0.1".to_string());
    assert!(server_name_host(&n).is_empty());
}
