//! DNS-over-HTTPS providers the proxy can resolve upstream hostnames
//! through. The string ids are stored in the settings table, so they are
//! stable.

use vstd::prelude::*;

use crate::text::str_eq;

verus! {

/// A built-in DoH endpoint, or the system resolver.
#[derive(Debug, Clone, Copy, PartialEq, Eq, Structural)]
pub enum DohProvider {
    /// System stub resolver; no DoH.
    Off,
    /// Cloudflare's `1.1.1.1`.
    Cloudflare,
    /// Quad9's malware-blocking `9.9.9.9`.
    Quad9,
    /// Google's `8.8.8.8`.
    Google,
}

impl Default for DohProvider {
    fn default() -> (r: Self)
        ensures
            r == DohProvider::Off,
    {
        DohProvider::Off
    }
}

/// The stored id of a provider.
pub open spec fn provider_id(p: DohProvider) -> Seq<char> {
    match p {
        DohProvider::Off => "off"@,
        DohProvider::Cloudflare => "cloudflare"@,
        DohProvider::Quad9 => "quad9"@,
        DohProvider::Google => "google"@,
    }
}

/// The label shown for a provider.
pub open spec fn provider_name(p: DohProvider) -> Seq<char> {
    match p {
        DohProvider::Off => "system DNS (no DoH)"@,
        DohProvider::Cloudflare => "Cloudflare (1.1.1.1)"@,
        DohProvider::Quad9 => "Quad9 (9.9.9.9)"@,
        DohProvider::Google => "Google (8.8.8.8)"@,
    }
}

/// The DoH endpoint a provider queries; none for the system resolver.
pub open spec fn provider_url(p: DohProvider) -> Option<Seq<char>> {
    match p {
        DohProvider::Off => None,
        DohProvider::Cloudflare => Some("https://cloudflare-dns.com/dns-query"@),
        DohProvider::Quad9 => Some("https://dns.quad9.net/dns-query"@),
        DohProvider::Google => Some("https://dns.google/dns-query"@),
    }
}

/// The provider a stored id names.
pub open spec fn provider_of_id(id: Seq<char>) -> Option<DohProvider> {
    if id == "off"@ {
        Some(DohProvider::Off)
    } else if id == "cloudflare"@ {
        Some(DohProvider::Cloudflare)
    } else if id == "quad9"@ {
        Some(DohProvider::Quad9)
    } else if id == "google"@ {
        Some(DohProvider::Google)
    } else {
        None
    }
}

/// Every provider, in the order the settings list them.
pub open spec fn all_providers() -> Seq<DohProvider> {
    seq![DohProvider::Off, DohProvider::Cloudflare, DohProvider::Quad9, DohProvider::Google]
}

impl DohProvider {
    /// The stored id.
    pub fn id(self) -> (r: &'static str)
        ensures
            r@ == provider_id(self),
    {
        match self {
            DohProvider::Off => "off",
            DohProvider::Cloudflare => "cloudflare",
            DohProvider::Quad9 => "quad9",
            DohProvider::Google => "google",
        }
    }

    /// The label shown in the settings and the footprint view.
    pub fn display_name(self) -> (r: &'static str)
        ensures
            r@ == provider_name(self),
    {
        match self {
            DohProvider::Off => "system DNS (no DoH)",
            DohProvider::Cloudflare => "Cloudflare (1.1.1.1)",
            DohProvider::Quad9 => "Quad9 (9.9.9.9)",
            DohProvider::Google => "Google (8.8.8.8)",
        }
    }

    /// The DoH endpoint queried; `None` for the system resolver.
    pub fn doh_url(self) -> (r: Option<&'static str>)
        ensures
            match r {
                Some(u) => provider_url(self) == Some(u@),
                None => provider_url(self) is None,
            },
    {
        match self {
            DohProvider::Off => None,
            DohProvider::Cloudflare => Some("https://cloudflare-dns.com/dns-query"),
            DohProvider::Quad9 => Some("https://dns.quad9.net/dns-query"),
            DohProvider::Google => Some("https://dns.google/dns-query"),
        }
    }

    /// The provider a stored id names, if any.
    pub fn from_id(id: &str) -> (r: Option<Self>)
        ensures
            r == provider_of_id(id@),
    {
        if str_eq(id, "off") {
            Some(DohProvider::Off)
        } else if str_eq(id, "cloudflare") {
            Some(DohProvider::Cloudflare)
        } else if str_eq(id, "quad9") {
            Some(DohProvider::Quad9)
        } else if str_eq(id, "google") {
            Some(DohProvider::Google)
        } else {
            None
        }
    }

    /// Every provider.
    pub fn all() -> (r: &'static [DohProvider])
        ensures
            r@ == all_providers(),
    {
        let r: &'static [DohProvider] = &[
            DohProvider::Off,
            DohProvider::Cloudflare,
            DohProvider::Quad9,
            DohProvider::Google,
        ];
        assert(r@ =~= all_providers());
        r
    }
}

/// A provider's stored id reads back as that provider, so the setting
/// survives a restart.
pub proof fn lemma_provider_id_round_trip(p: DohProvider)
    ensures
        provider_of_id(provider_id(p)) == Some(p),
{
    reveal_strlit("off");
    reveal_strlit("cloudflare");
    reveal_strlit("quad9");
    reveal_strlit("google");
    assert("off"@.len() == 3 && "cloudflare"@.len() == 10 && "quad9"@.len() == 5
        && "google"@.len() == 6);
}

} // verus!
