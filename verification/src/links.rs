//! Links as they stand on a page, and the addresses they lead to.

use vstd::prelude::*;
use crate::text::{concat, copy_str, starts_with, str_starts_with};

verus! {

/// A link as an address: `//host/…` gets the scheme, `/path` the origin, and
/// anything else stays.
pub open spec fn absolute_link(href: Seq<char>, origin: Seq<char>) -> Seq<char> {
    if starts_with(href, "//"@) {
        "https:"@ + href
    } else if starts_with(href, "/"@) {
        origin + href
    } else {
        href
    }
}

/// The address that a link leads to, `origin` being where site-relative links belong.
pub fn absolute(href: &str, origin: &str) -> (r: String)
    ensures
        r@ == absolute_link(href@, origin@),
{
    if str_starts_with(href, "//") {
        concat("https:", href)
    } else if str_starts_with(href, "/") {
        concat(origin, href)
    } else {
        copy_str(href)
    }
}

} // verus!
