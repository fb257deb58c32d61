//! Brand assets shared by the pages the browser renders itself (new tab,
//! metasearch results). Those pages are self-contained, so the logo is
//! inlined as a base64 `data:` URL.

use vstd::prelude::*;

use crate::b64::{base64, push_base64};
use crate::text::push_str;

verus! {

/// `data:image/png;base64,` followed by the base64 of the logo's PNG
/// bytes.
pub fn logo_data_url(logo_png: &[u8]) -> (r: String)
    ensures
        r@ == "data:image/png;base64,"@ + base64(logo_png@),
{
    let mut out = String::new();
    push_str(&mut out, "data:image/png;base64,");
    push_base64(&mut out, logo_png);
    out
}

} // verus!
