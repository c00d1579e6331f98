//! Addresses and paths that are let through before any check runs. A list
//! entry may carry a `#` comment and white space around it; an entry that
//! is empty without them counts for nothing.

use crate::text::{chars_of, entry_of, entry_text, same_text, slice_of, starts_with, text_of};
use vstd::prelude::*;

verus! {

/// Whether `s` is an IP address as `IpAddr::from_str` reads one.
pub uninterp spec fn ip_literal(s: Seq<char>) -> bool;

/// Whether `net` is a network in CIDR notation as ipnet's
/// `IpNet::from_str` reads one, `ip` an IP address, and the address in
/// the network by `IpNet::contains`.
pub uninterp spec fn cidr_contains(net: Seq<char>, ip: Seq<char>) -> bool;

/// `IpAddr::from_str`, as `str::parse` calls it: whether `ip` reads as an
/// IPv4 or IPv6 address. The address is parsed into the type that ipnet's
/// `IpNet::new` takes; `IpNet::new` itself only serves to name that type.
#[verifier::external_body]
fn reads_as_address(ip: &str) -> (r: bool)
    ensures
        r == ip_literal(ip@),
{
    ip.parse().map(|addr| ipnet::IpNet::new(addr, 0)).is_ok()
}

/// ipnet's `IpNet::from_str` on `entry` and `IpNet::contains` on the
/// address that `ip` reads as: false where either does not read. The
/// address passes through `IpNet::new` with the prefix length zero, which
/// accepts every address, and comes back unchanged from `addr`.
#[verifier::external_body]
fn network_holds(entry: &str, ip: &str) -> (r: bool)
    ensures
        r == cidr_contains(entry@, ip@),
{
    match (entry.parse::<ipnet::IpNet>(), ip.parse().map(|addr| ipnet::IpNet::new(addr, 0))) {
        (Ok(net), Ok(Ok(host))) => net.contains(&host.addr()),
        _ => false,
    }
}

/// Whether the list line `line` names `ip` itself.
pub open spec fn names_exactly(line: Seq<char>, ip: Seq<char>) -> bool {
    entry_text(line).len() > 0 && entry_text(line) == ip
}

/// Whether the list line `line` lets `ip` through: it names the address
/// itself, or a network that contains it.
pub open spec fn line_admits(line: Seq<char>, ip: Seq<char>) -> bool {
    entry_text(line).len() > 0 && (entry_text(line) == ip || cidr_contains(entry_text(line), ip))
}

/// Whether `list` lets `ip` through: `ip` is an IP address, and some
/// line names it or a network that contains it.
pub open spec fn whitelisted(ip: Seq<char>, list: Seq<String>) -> bool {
    ip_literal(ip) && exists|i: int| 0 <= i < list.len() && line_admits(#[trigger] list[i]@, ip)
}

/// Whether some line of `whitelist` names `ip` itself, comment and white
/// space set aside.
pub fn is_listed_exactly(ip: &str, whitelist: &[String]) -> (r: bool)
    ensures
        r == exists|i: int| 0 <= i < whitelist@.len() && names_exactly(#[trigger] whitelist@[i]@, ip@),
{
    let address = chars_of(ip);
    let mut i: usize = 0;
    while i < whitelist.len()
        invariant
            i <= whitelist.len(),
            address@ == ip@,
            forall|j: int| 0 <= j < i ==> !names_exactly(#[trigger] whitelist@[j]@, ip@),
        decreases whitelist.len() - i,
    {
        let line = chars_of(whitelist[i].as_str());
        let entry = entry_of(line.as_slice());
        if entry.len() > 0 && same_text(entry.as_slice(), address.as_slice()) {
            return true;
        }
        i = i + 1;
    }
    false
}

/// Whether `ip` is on the whitelist: by exact match, or by a network in
/// CIDR notation that contains it. What is not an IP address is on no
/// list.
pub fn is_whitelisted(ip: &str, whitelist: &[String]) -> (r: bool)
    ensures
        r == whitelisted(ip@, whitelist@),
{
    if !reads_as_address(ip) {
        return false;
    }
    let address = chars_of(ip);
    let mut i: usize = 0;
    while i < whitelist.len()
        invariant
            i <= whitelist.len(),
            address@ == ip@,
            ip_literal(ip@),
            forall|j: int| 0 <= j < i ==> !line_admits(#[trigger] whitelist@[j]@, ip@),
        decreases whitelist.len() - i,
    {
        let line = chars_of(whitelist[i].as_str());
        let entry = entry_of(line.as_slice());
        if entry.len() > 0 {
            if same_text(entry.as_slice(), address.as_slice()) {
                return true;
            }
            let net = text_of(entry.as_slice());
            if network_holds(net.as_str(), ip) {
                return true;
            }
        }
        i = i + 1;
    }
    false
}

/// Whether the list line `line` lets `path` through: it names the path
/// itself, or ends in `*` and names a beginning of the path before it.
pub open spec fn line_admits_path(line: Seq<char>, path: Seq<char>) -> bool {
    let entry = entry_text(line);
    entry.len() > 0 && if entry.last() == '*' {
        entry.drop_last().is_prefix_of(path)
    } else {
        entry == path
    }
}

/// Whether `list` lets `path` through.
pub open spec fn path_whitelisted(path: Seq<char>, list: Seq<String>) -> bool {
    exists|i: int| 0 <= i < list.len() && line_admits_path(#[trigger] list[i]@, path)
}

/// Whether `path` is on the path whitelist: by exact match, or by an
/// entry that ends in `*` and matches the beginning of the path.
pub fn is_path_whitelisted(path: &str, whitelist: &[String]) -> (r: bool)
    ensures
        r == path_whitelisted(path@, whitelist@),
{
    let wanted = chars_of(path);
    let mut i: usize = 0;
    while i < whitelist.len()
        invariant
            i <= whitelist.len(),
            wanted@ == path@,
            forall|j: int| 0 <= j < i ==> !line_admits_path(#[trigger] whitelist@[j]@, path@),
        decreases whitelist.len() - i,
    {
        let line = chars_of(whitelist[i].as_str());
        let entry = entry_of(line.as_slice());
        if entry.len() > 0 {
            if entry[entry.len() - 1] == '*' {
                let stem = slice_of(entry.as_slice(), 0, entry.len() - 1);
                assert(stem@ =~= entry@.drop_last());
                if starts_with(wanted.as_slice(), stem.as_slice()) {
                    return true;
                }
            } else if same_text(entry.as_slice(), wanted.as_slice()) {
                return true;
            }
        }
        i = i + 1;
    }
    false
}

} // verus!
