//! The challenge token: proof that a client has run the challenge script.
//!
//! The token of an address is the HMAC-SHA256 of the address under the
//! site's secret, in base64. It is not stored: it is checked by computing
//! it again. It never expires, so it changes only with the secret.

use crate::browser::{is_trusted_browser, trusted_browser};
use crate::cdp::{get_cdp_detection_script, CDP_DETECTION_JS};
use crate::request::{text_view, Request};
use crate::text::{any_part_is, chars_of, first_index, has_part, is_space, lemma_first_index,
    lemma_trim_end, lemma_trim_start, push_all};
use base64::Engine;
use hmac::Mac;
use vstd::prelude::*;
use vstd::utf8::encode_utf8;

verus! {

/// The HMAC-SHA256 tag of `msg` under `key`, as the hmac and sha2 crates
/// compute it.
pub uninterp spec fn hmac_sha256(key: Seq<u8>, msg: Seq<u8>) -> Seq<u8>;

/// `bytes` in base64 with the standard alphabet and padding, as the
/// base64 crate's `STANDARD` engine writes it.
pub uninterp spec fn base64_standard(bytes: Seq<u8>) -> Seq<char>;

/// `Hmac::<Sha256>::new_from_slice`, `update` and `finalize` of the hmac
/// crate: the tag of `msg` under `key`, which for SHA-256 has 32 bytes. A
/// key of any length is accepted.
#[verifier::external_body]
fn hmac_tag(key: &[u8], msg: &[u8]) -> (tag: Vec<u8>)
    ensures
        tag@ == hmac_sha256(key@, msg@),
        tag@.len() == 32,
{
    let mut mac = hmac::Hmac::<sha2::Sha256>::new_from_slice(key).unwrap();
    mac.update(msg);
    mac.finalize().into_bytes().to_vec()
}

/// `Engine::encode` of the base64 crate on its `STANDARD` engine. The
/// bound keeps the length of the result within `usize`.
#[verifier::external_body]
fn base64_text(bytes: &[u8]) -> (text: String)
    requires
        bytes@.len() <= 0x2000_0000,
    ensures
        text@ == base64_standard(bytes@),
{
    base64::engine::general_purpose::STANDARD.encode(bytes)
}

/// The token of the address `ip` under `secret`.
pub open spec fn token_of(secret: Seq<u8>, ip: Seq<char>) -> Seq<char> {
    base64_standard(hmac_sha256(secret, encode_utf8(ip)))
}

/// The token of the address `ip` under `secret`.
pub fn make_token(secret: &[u8], ip: &str) -> (token: String)
    ensures
        token@ == token_of(secret@, ip@),
{
    let tag = hmac_tag(secret, ip.as_bytes());
    base64_text(tag.as_slice())
}

/// `js_verified=`
pub open spec fn cookie_name() -> Seq<char> {
    seq!['j', 's', '_', 'v', 'e', 'r', 'i', 'f', 'i', 'e', 'd', '=']
}

/// Whether the `Cookie` header `cookie` carries `js_verified` with the
/// value `token`: one of its parts between semicolons, trimmed, is
/// `js_verified=` followed by the token.
pub open spec fn cookie_carries(cookie: Seq<char>, token: Seq<char>) -> bool {
    any_part_is(cookie, ';', cookie_name() + token)
}

/// Whether the `Cookie` header `cookie` carries `js_verified` with the
/// value `token`.
pub fn cookie_has_token(cookie: &str, token: &str) -> (r: bool)
    ensures
        r == cookie_carries(cookie@, token@),
{
    let header = chars_of(cookie);
    let mut wanted: Vec<char> = vec!['j', 's', '_', 'v', 'e', 'r', 'i', 'f', 'i', 'e', 'd', '='];
    let value = chars_of(token);
    push_all(&mut wanted, value.as_slice());
    assert(wanted@ =~= cookie_name() + token@);
    has_part(header.as_slice(), ';', wanted.as_slice())
}

/// Whether a request with the `Cookie` header `cookie` from the address
/// whose token is `token` must be challenged: it must unless the header
/// carries the token.
pub open spec fn challenge_needed(cookie: Option<Seq<char>>, token: Seq<char>) -> bool {
    !(cookie is Some && cookie_carries(cookie->0, token))
}

/// Whether `req`, sent from `ip`, must be challenged: whether it fails
/// to present the token of `ip` in its `js_verified` cookie.
pub fn needs_js_verification(req: &Request, secret: &[u8], ip: &str) -> (needed: bool)
    ensures
        needed == challenge_needed(text_view(req.cookie), token_of(secret@, ip@)),
{
    match &req.cookie {
        Some(cookie) => {
            let token = make_token(secret, ip);
            !cookie_has_token(cookie.as_str(), token.as_str())
        },
        None => true,
    }
}

/// The user agent of a request that carries none.
pub open spec fn agent_of(user_agent: Option<Seq<char>>) -> Seq<char> {
    match user_agent {
        Some(ua) => ua,
        None => Seq::empty(),
    }
}

/// Whether `req`, sent from `ip`, must be challenged, where browsers of
/// `browser_whitelist` need no challenge: a request whose user agent
/// declares such a browser is never challenged, whatever its cookie; any
/// other is challenged unless it presents the token.
pub fn needs_js_verification_with_whitelist(
    req: &Request,
    secret: &[u8],
    ip: &str,
    browser_whitelist: &[(String, u32)],
) -> (needed: bool)
    ensures
        needed == (!trusted_browser(agent_of(text_view(req.user_agent)), browser_whitelist@)
            && challenge_needed(text_view(req.cookie), token_of(secret@, ip@))),
{
    let trusted = match &req.user_agent {
        Some(ua) => is_trusted_browser(ua.as_str(), browser_whitelist),
        None => {
            proof {
                reveal_strlit("");
                assert(""@ =~= Seq::<char>::empty());
            }
            is_trusted_browser("", browser_whitelist)
        },
    };
    if trusted {
        false
    } else {
        needs_js_verification(req, secret, ip)
    }
}

/// Whether `value` can be the value of a cookie as a header presents it:
/// it holds no semicolon and does not end in white space.
pub open spec fn cookie_value(value: Seq<char>) -> bool {
    (forall|i: int| 0 <= i < value.len() ==> value[i] != ';') && (value.len() > 0 ==> !is_space(
        value.last(),
    ))
}

/// A request that presents nothing but the `js_verified` cookie is let
/// through exactly if the value of the cookie is the token.
pub proof fn law_token_decides(value: Seq<char>, token: Seq<char>)
    requires
        cookie_value(value),
    ensures
        challenge_needed(Some(cookie_name() + value), token) == (value != token),
{
    let header = cookie_name() + value;
    let n = header.len() as int;
    assert forall|j: int| 0 <= j < n implies header[j] != ';' by {
        if j >= 12 {
            assert(header[j] == value[j - 12]);
        }
    }
    lemma_first_index(header, ';', n);
    assert(header.take(n) =~= header);
    assert(header[0] == 'j');
    assert(!is_space(header[0]));
    lemma_trim_start(header, 0);
    assert(header.skip(0) =~= header);
    assert(!is_space(header[n - 1])) by {
        if value.len() > 0 {
            assert(header[n - 1] == value[value.len() - 1]);
        } else {
            assert(header[n - 1] == '=');
        }
    }
    lemma_trim_end(header, n);
    if header == cookie_name() + token {
        assert(value =~= header.skip(12));
        assert(token =~= (cookie_name() + token).skip(12));
    }
}

/// What stands before the detection script in the challenge page.
pub const CHALLENGE_PAGE_HEAD: &'static str = r#"
        <html><head><script>"#;

/// What stands between the detection script and the token.
pub const CHALLENGE_PAGE_MIDDLE: &'static str = r#"</script></head><body>
        <script>
            // Run CDP detection before allowing access
            if (window._checkCDPAutomation) {
                window._checkCDPAutomation().then(function(result) {
                    if (result.detected) {
                        fetch('/cdp-report', {
                            method: 'POST',
                            headers: { 'Content-Type': 'application/json' },
                            body: JSON.stringify({
                                cdp_detected: true,
                                score: result.score,
                                checks: result.checks
                            })
                        });
                    }
                });
            }
            document.cookie = 'js_verified="#;

/// What stands after the token.
pub const CHALLENGE_PAGE_TAIL: &'static str = r#"; path=/; SameSite=Strict';
            window.location.reload();
    </script>
    <noscript>Please enable JavaScript to continue.</noscript>
    </body></html>
    "#;

/// The challenge page for a client whose token is `token`.
pub open spec fn challenge_page_of(token: Seq<char>) -> Seq<char> {
    CHALLENGE_PAGE_HEAD@ + CDP_DETECTION_JS@ + CHALLENGE_PAGE_MIDDLE@ + token
        + CHALLENGE_PAGE_TAIL@
}

/// The challenge page for the address `ip`: a page whose script runs the
/// automation detection, sets the cookie `js_verified` to the token of
/// `ip`, and loads the page again. Nothing is stored for it.
pub fn inject_js_challenge(secret: &[u8], ip: &str) -> (page: String)
    ensures
        page@ == challenge_page_of(token_of(secret@, ip@)),
{
    let token = make_token(secret, ip);
    let mut page = String::from_str(CHALLENGE_PAGE_HEAD);
    page.append(get_cdp_detection_script());
    page.append(CHALLENGE_PAGE_MIDDLE);
    page.append(token.as_str());
    page.append(CHALLENGE_PAGE_TAIL);
    page
}

} // verus!
