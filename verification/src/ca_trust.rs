//! Trust-store integration for the root CA: which platforms can install it
//! with a user-confirmed command, and what the user is told to run by hand
//! elsewhere. Nothing is ever installed silently.

use vstd::prelude::*;

use crate::text::{owned, push_str};

verus! {

/// The operating systems the install path tells apart.
#[derive(Debug, Clone, Copy, PartialEq, Eq, Structural)]
pub enum TargetOs {
    Windows,
    MacOs,
    Linux,
}

/// The error an install attempt ends in on `os` for the certificate at
/// `cert_path`: none on Windows, where `certutil -user -addstore Root`
/// runs and asks the user; elsewhere the command to run by hand.
pub open spec fn manual_install_error(os: TargetOs, cert_path: Seq<char>) -> Option<Seq<char>> {
    match os {
        TargetOs::Windows => None,
        TargetOs::MacOs => Some(
            "macOS auto-install is not supported yet. Run: sudo security add-trusted-cert -d -r trustRoot -k /Library/Keychains/System.keychain "@
                + cert_path,
        ),
        TargetOs::Linux => Some(
            "Linux auto-install is not supported yet. Run: sudo cp "@ + cert_path
                + " /usr/local/share/ca-certificates/ && sudo update-ca-certificates"@,
        ),
    }
}

/// The platform part of installing the CA at `cert_path`: `Ok` where a
/// user-confirmed automatic install exists (Windows; the shell then runs
/// `certutil`), otherwise the error naming the command to run by hand.
pub fn install(os: TargetOs, cert_path: &str) -> (r: Result<(), String>)
    ensures
        match r {
            Ok(()) => manual_install_error(os, cert_path@) is None,
            Err(m) => manual_install_error(os, cert_path@) == Some(m@),
        },
{
    match os {
        TargetOs::Windows => Ok(()),
        TargetOs::MacOs => {
            let mut m = owned(
                "macOS auto-install is not supported yet. Run: sudo security add-trusted-cert -d -r trustRoot -k /Library/Keychains/System.keychain ",
            );
            push_str(&mut m, cert_path);
            Err(m)
        },
        TargetOs::Linux => {
            let mut m = owned("Linux auto-install is not supported yet. Run: sudo cp ");
            push_str(&mut m, cert_path);
            push_str(&mut m, " /usr/local/share/ca-certificates/ && sudo update-ca-certificates");
            Err(m)
        },
    }
}

/// Whether an automatic install can be tried on `os`.
pub fn auto_install_supported(os: TargetOs) -> (r: bool)
    ensures
        r == (manual_install_error(os, Seq::empty()) is None),
{
    match os {
        TargetOs::Windows => true,
        _ => false,
    }
}

} // verus!
