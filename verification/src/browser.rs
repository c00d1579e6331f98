//! The major version that a browser declares in its `User-Agent`.

use crate::decimal::{number_in, parse_u32};
use crate::text::{chars_of, find_first, first_occurrence, occurs_at};
use vstd::prelude::*;

verus! {

/// Whether `c` is an ASCII digit.
pub open spec fn is_digit_char(c: char) -> bool {
    '0' <= c <= '9'
}

/// The length of the run of digits that `s` begins with.
pub open spec fn digit_run(s: Seq<char>) -> int
    decreases s.len(),
{
    if s.len() > 0 && is_digit_char(s[0]) {
        1 + digit_run(s.skip(1))
    } else {
        0
    }
}

/// The first `n` characters of `s` as bytes.
pub open spec fn head_bytes(s: Seq<char>, n: int) -> Seq<u8> {
    Seq::new(n as nat, |i: int| s[i] as u8)
}

/// The number that the digits at the beginning of `s` stand for: none
/// where `s` begins with no digit, or with a number beyond `u32`.
pub open spec fn leading_number(s: Seq<char>) -> Option<u32> {
    match number_in(head_bytes(s, digit_run(s)), u32::MAX as nat) {
        Some(v) => Some(v as u32),
        None => None,
    }
}

/// The major version of the browser `name` in the user agent `ua`: the
/// number that follows the first `name/`.
pub open spec fn version_in(ua: Seq<char>, name: Seq<char>) -> Option<u32> {
    if name.len() == 0 {
        None
    } else {
        match first_occurrence(ua, name + seq!['/']) {
            Some(at) => leading_number(ua.skip(at + name.len() + 1)),
            None => None,
        }
    }
}

/// Whether `digits` holds the first characters of `s`, all of them digits.
spec fn digits_of(s: Seq<char>, digits: Seq<u8>) -> bool {
    forall|j: int|
        0 <= j < digits.len() ==> is_digit_char(#[trigger] s[j]) && digits[j] == s[j] as u8
}

proof fn lemma_digit_run(s: Seq<char>, n: int)
    requires
        0 <= n <= s.len(),
        forall|j: int| 0 <= j < n ==> is_digit_char(s[j]),
        n < s.len() ==> !is_digit_char(s[n]),
    ensures
        digit_run(s) == n,
    decreases s.len(),
{
    if s.len() > 0 && is_digit_char(s[0]) {
        let t = s.skip(1);
        assert forall|j: int| 0 <= j < n - 1 implies is_digit_char(t[j]) by {
            assert(t[j] == s[j + 1]);
        }
        lemma_digit_run(t, n - 1);
    }
}

/// The major version of the browser `name` in the user agent `ua`.
pub fn extract_version(ua: &str, name: &str) -> (version: Option<u32>)
    ensures
        version == version_in(ua@, name@),
{
    let agent = chars_of(ua);
    let mut tag = chars_of(name);
    if tag.len() == 0 {
        return None;
    }
    tag.push('/');
    assert(tag@ =~= name@ + seq!['/']);
    let at = match find_first(agent.as_slice(), tag.as_slice()) {
        Some(at) => at,
        None => {
            return None;
        },
    };
    assert(occurs_at(agent@, tag@, at as int));
    assert(at + tag.len() <= agent.len());
    let from: usize = at + tag.len();
    let ghost rest = agent@.skip(from as int);
    let mut digits: Vec<u8> = Vec::new();
    let mut i: usize = from;
    while i < agent.len() && '0' <= agent[i] && agent[i] <= '9'
        invariant
            from <= i <= agent.len(),
            rest == agent@.skip(from as int),
            digits@.len() == i - from,
            digits_of(rest, digits@),
        decreases agent.len() - i,
    {
        assert(rest[i - from] == agent@[i as int]);
        let ghost before = digits@;
        digits.push(agent[i] as u8);
        i = i + 1;
        assert forall|j: int| 0 <= j < digits@.len() implies is_digit_char(#[trigger] rest[j])
            && digits@[j] == rest[j] as u8 by {
            if j < before.len() {
                assert(digits@[j] == before[j]);
            }
        }
    }
    proof {
        lemma_digit_run(rest, i - from);
        assert(digits@ =~= head_bytes(rest, i - from));
    }
    parse_u32(digits.as_slice())
}

/// Whether the user agent `ua` declares a browser of `block` in a version
/// below the one that the list gives for it.
pub open spec fn outdated_browser(ua: Seq<char>, block: Seq<(String, u32)>) -> bool {
    exists|i: int|
        0 <= i < block.len() && below(version_in(ua, (#[trigger] block[i]).0@), block[i].1)
}

/// Whether `version` is known and below `min`.
pub open spec fn below(version: Option<u32>, min: u32) -> bool {
    version is Some && version->0 < min
}

/// Whether `version` is known and at least `min`.
pub open spec fn reaches(version: Option<u32>, min: u32) -> bool {
    version is Some && version->0 >= min
}

/// Whether the user agent `ua` declares a browser that is too old for
/// the site.
pub fn is_outdated_browser(ua: &str, block: &[(String, u32)]) -> (r: bool)
    ensures
        r == outdated_browser(ua@, block@),
{
    let mut i: usize = 0;
    while i < block.len()
        invariant
            i <= block.len(),
            forall|j: int| 0 <= j < i ==> !below(version_in(ua@, (#[trigger] block@[j]).0@), block@[j].1),
        decreases block.len() - i,
    {
        match extract_version(ua, block[i].0.as_str()) {
            Some(v) => {
                if v < block[i].1 {
                    return true;
                }
            },
            None => {},
        }
        i = i + 1;
    }
    false
}

/// Whether the user agent `ua` declares a browser of `list` in a version
/// that the list accepts without a challenge.
pub open spec fn trusted_browser(ua: Seq<char>, list: Seq<(String, u32)>) -> bool {
    exists|i: int|
        0 <= i < list.len() && reaches(version_in(ua, (#[trigger] list[i]).0@), list[i].1)
}

/// Whether the user agent `ua` declares a browser that needs no challenge.
pub fn is_trusted_browser(ua: &str, list: &[(String, u32)]) -> (r: bool)
    ensures
        r == trusted_browser(ua@, list@),
{
    let mut i: usize = 0;
    while i < list.len()
        invariant
            i <= list.len(),
            forall|j: int| 0 <= j < i ==> !reaches(version_in(ua@, (#[trigger] list@[j]).0@), list@[j].1),
        decreases list.len() - i,
    {
        match extract_version(ua, list[i].0.as_str()) {
            Some(v) => {
                if v >= list[i].1 {
                    return true;
                }
            },
            None => {},
        }
        i = i + 1;
    }
    false
}

} // verus!
