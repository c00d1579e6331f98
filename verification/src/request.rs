//! A request as the checks see it: the path, and the few headers that
//! they read.

use crate::text::{before_char, chars_of, find_char, same_text, slice_of, text_of, trim_bounds,
    trimmed};
use vstd::prelude::*;

verus! {

/// The method of a request, as far as the checks tell methods apart.
#[derive(Debug, Clone, Copy, PartialEq, Eq, Structural)]
pub enum Method {
    Get,
    Post,
    Other,
}

/// A request. A header that the request does not carry is `None`; one
/// that it carries but that is not UTF-8 is the empty string.
#[derive(Debug, Clone)]
pub struct Request {
    pub method: Method,
    pub path: String,
    /// `X-Forwarded-For`
    pub forwarded_for: Option<String>,
    /// `X-Real-IP`
    pub real_ip: Option<String>,
    /// `User-Agent`
    pub user_agent: Option<String>,
    /// `Cookie`
    pub cookie: Option<String>,
    /// `X-Geo-Country`
    pub geo_country: Option<String>,
}

/// `unknown`: the address of a client that names none.
pub open spec fn unknown() -> Seq<char> {
    seq!['u', 'n', 'k', 'n', 'o', 'w', 'n']
}

/// Whether a header value names an address: it is not empty and not
/// `unknown`.
pub open spec fn names_address(value: Seq<char>) -> bool {
    value.len() > 0 && value != unknown()
}

/// The first address of an `X-Forwarded-For` list, trimmed.
pub open spec fn first_forwarded(list: Seq<char>) -> Seq<char> {
    trimmed(before_char(list, ','))
}

/// The address of the client: the first of `X-Forwarded-For` where it
/// names one, else `X-Real-IP` where it names one, else `unknown`.
pub open spec fn client_ip_of(forwarded_for: Option<Seq<char>>, real_ip: Option<Seq<char>>) -> Seq<
    char,
> {
    if forwarded_for is Some && names_address(first_forwarded(forwarded_for->0)) {
        first_forwarded(forwarded_for->0)
    } else if real_ip is Some && names_address(real_ip->0) {
        real_ip->0
    } else {
        unknown()
    }
}

/// The characters of an optional string.
pub open spec fn text_view(s: Option<String>) -> Option<Seq<char>> {
    match s {
        Some(t) => Some(t@),
        None => None,
    }
}

/// The address of the client that sent `req`.
pub fn extract_client_ip(req: &Request) -> (ip: String)
    ensures
        ip@ == client_ip_of(text_view(req.forwarded_for), text_view(req.real_ip)),
{
    let nobody: Vec<char> = vec!['u', 'n', 'k', 'n', 'o', 'w', 'n'];
    assert(nobody@ =~= unknown());
    match &req.forwarded_for {
        Some(list) => {
            let chars = chars_of(list.as_str());
            let cut = find_char(chars.as_slice(), ',');
            let (a, b) = trim_bounds(chars.as_slice(), 0, cut);
            assert(chars@.subrange(0, cut as int) =~= chars@.take(cut as int));
            let first = slice_of(chars.as_slice(), a, b);
            if first.len() > 0 && !same_text(first.as_slice(), nobody.as_slice()) {
                return text_of(first.as_slice());
            }
        },
        None => {},
    }
    match &req.real_ip {
        Some(value) => {
            let chars = chars_of(value.as_str());
            if chars.len() > 0 && !same_text(chars.as_slice(), nobody.as_slice()) {
                return text_of(chars.as_slice());
            }
        },
        None => {},
    }
    text_of(nobody.as_slice())
}

} // verus!
