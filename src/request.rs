//! What a counting request carries: the visitor's identity and the page it
//! was made from.

use crate::digest::{md5_hex, md5_hex_of};
use crate::persist::opt_view;
use crate::text::{joined, trim_text, trimmed_of};
use vstd::prelude::*;

verus! {

/// The index of the first comma of `s` at or after `i`; the length of `s`
/// when there is none.
pub open spec fn first_comma_from(s: Seq<char>, i: nat) -> nat
    decreases s.len() - i,
{
    if i >= s.len() {
        s.len()
    } else if s[i as int] == ',' {
        i
    } else {
        first_comma_from(s, i + 1)
    }
}

/// The first comma-separated field of `s`.
pub open spec fn first_field(s: Seq<char>) -> Seq<char> {
    s.subrange(0, first_comma_from(s, 0) as int)
}

/// The client address: the first field of the forwarded-for chain, else the
/// real-IP header, else the loopback address.
pub open spec fn client_ip_of(forwarded_for: Option<Seq<char>>, real_ip: Option<Seq<char>>) -> Seq<char> {
    match forwarded_for {
        Some(f) => first_field(f),
        None => match real_ip {
            Some(r) => r,
            None => "127.0.0.1"@,
        },
    }
}

/// The token minted for a visitor without a cookie: the MD5 digest of the
/// client address followed by the user agent, in upper-case hexadecimal.
pub open spec fn minted_token(ip: Seq<char>, user_agent: Seq<char>) -> Seq<char> {
    md5_hex_of(ip + user_agent, true)
}

/// The user agent, empty when absent.
pub open spec fn agent_of(user_agent: Option<Seq<char>>) -> Seq<char> {
    match user_agent {
        Some(u) => u,
        None => Seq::empty(),
    }
}

/// The first comma-separated field of `s`.
fn first_field_of(s: &str) -> (r: String)
    ensures
        r@ == first_field(s@),
{
    let n = s.unicode_len();
    let mut i: usize = 0;
    while i < n && s.get_char(i) != ','
        invariant
            0 <= i <= n,
            n == s@.len(),
            first_comma_from(s@, 0) == first_comma_from(s@, i as nat),
        decreases n - i,
    {
        i += 1;
    }
    s.substring_char(0, i).to_owned()
}

/// The client address of a request, from its forwarded-for and real-IP
/// headers.
pub fn client_ip(forwarded_for: Option<&str>, real_ip: Option<&str>) -> (r: String)
    ensures
        r@ == client_ip_of(opt_str(forwarded_for), opt_str(real_ip)),
{
    match forwarded_for {
        Some(f) => first_field_of(f),
        None => match real_ip {
            Some(ip) => ip.to_owned(),
            None => "127.0.0.1".to_owned(),
        },
    }
}

/// The address recorded for an admin request: the first field of the
/// forwarded-for header, else of the real-IP header, trimmed; `unknown`
/// when there is neither.
pub open spec fn logged_ip_of(forwarded_for: Option<Seq<char>>, real_ip: Option<Seq<char>>) -> Seq<char> {
    match forwarded_for {
        Some(f) => trimmed_of(first_field(f)),
        None => match real_ip {
            Some(r) => trimmed_of(first_field(r)),
            None => trimmed_of("unknown"@),
        },
    }
}

/// The address recorded for an admin request.
pub fn logged_ip(forwarded_for: Option<&str>, real_ip: Option<&str>) -> (r: String)
    ensures
        r@ == logged_ip_of(opt_str(forwarded_for), opt_str(real_ip)),
{
    let field = match forwarded_for {
        Some(f) => first_field_of(f),
        None => match real_ip {
            Some(ip) => first_field_of(ip),
            None => "unknown".to_owned(),
        },
    };
    trim_text(field.as_str())
}

/// The text of an optional string slice.
pub open spec fn opt_str(o: Option<&str>) -> Option<Seq<char>> {
    match o {
        Some(s) => Some(s@),
        None => None,
    }
}

/// The visitor token of a request and whether it was minted just now. A
/// non-empty `busuanziId` cookie is the token as it is; otherwise the token
/// is minted from the client address and the user agent, and the caller
/// sets it as that cookie.
pub fn derive_identity(
    cookie: Option<&str>,
    forwarded_for: Option<&str>,
    real_ip: Option<&str>,
    user_agent: Option<&str>,
) -> (r: (String, bool))
    ensures
        (cookie is Some && cookie->0@.len() > 0) ==> r.0@ == cookie->0@ && !r.1,
        !(cookie is Some && cookie->0@.len() > 0) ==> r.0@ == minted_token(
            client_ip_of(opt_str(forwarded_for), opt_str(real_ip)),
            agent_of(opt_str(user_agent)),
        ) && r.1,
        r.0@.len() > 0,
        r.1 ==> r.0@.len() == 32,
{
    if let Some(c) = cookie {
        if c.unicode_len() > 0 {
            return (c.to_owned(), false);
        }
    }
    let ip = client_ip(forwarded_for, real_ip);
    let ua = match user_agent {
        Some(u) => u.to_owned(),
        None => String::new(),
    };
    let raw = joined(ip.as_str(), ua.as_str());
    (md5_hex(raw.as_str(), true), true)
}

/// The cookie that hands a freshly minted token to the client.
pub fn identity_cookie(token: &str) -> (r: String)
    ensures
        r@ == "busuanziId="@ + token@ + "; Path=/; Max-Age=31536000; SameSite=None; Secure"@,
{
    let head = joined("busuanziId=", token);
    joined(head.as_str(), "; Path=/; Max-Age=31536000; SameSite=None; Secure")
}

/// Why a referer was refused.
#[derive(Clone, Copy, Debug, PartialEq, Eq, Structural)]
pub enum RefererError {
    /// The referer is missing or empty, is not a URL, or names no host.
    InvalidReferer,
}

impl RefererError {
    /// The message sent back to the client.
    pub fn message(&self) -> (r: String)
        ensures
            r@ == "invalid referer"@,
    {
        "invalid referer".to_owned()
    }
}

/// What URL parsing makes of `s`: its host, if any, and its path; nothing
/// when `s` is not a URL.
pub uninterp spec fn url_parts_of(s: Seq<char>) -> Option<(Option<Seq<char>>, Seq<char>)>;

/// Relies on `url::Url::parse`, with `Url::host_str` and `Url::path` to read
/// the parts: the result depends on `s` alone.
#[verifier::external_body]
fn parse_url(s: &str) -> (r: Option<(Option<String>, String)>)
    ensures
        r is None ==> url_parts_of(s@) is None,
        r is Some ==> url_parts_of(s@) == Some((opt_view((r->0).0), (r->0).1@)),
{
    match url::Url::parse(s) {
        Ok(u) => Some((u.host_str().map(str::to_string), u.path().to_string())),
        Err(_) => None,
    }
}

/// The (host, path) of a parsed referer, or why it is refused.
pub open spec fn referer_outcome(parts: Option<(Option<Seq<char>>, Seq<char>)>) -> Result<
    (Seq<char>, Seq<char>),
    RefererError,
> {
    match parts {
        None => Err(RefererError::InvalidReferer),
        Some((None, _)) => Err(RefererError::InvalidReferer),
        Some((Some(h), p)) => if h.len() == 0 {
            Err(RefererError::InvalidReferer)
        } else {
            Ok((h, p))
        },
    }
}

/// The text of a (host, path) result.
pub open spec fn pair_result_view(r: Result<(String, String), RefererError>) -> Result<
    (Seq<char>, Seq<char>),
    RefererError,
> {
    match r {
        Ok((h, p)) => Ok((h@, p@)),
        Err(e) => Err(e),
    }
}

/// The text of parsed URL parts.
pub open spec fn parts_view(parts: Option<(Option<String>, String)>) -> Option<(Option<Seq<char>>, Seq<char>)> {
    match parts {
        Some((h, p)) => Some((opt_view(h), p@)),
        None => None,
    }
}

/// The (host, path) of a referer from its parsed parts.
pub fn referer_from_parts(parts: Option<(Option<String>, String)>) -> (r: Result<(String, String), RefererError>)
    ensures
        pair_result_view(r) == referer_outcome(parts_view(parts)),
{
    match parts {
        None => Err(RefererError::InvalidReferer),
        Some((None, _)) => Err(RefererError::InvalidReferer),
        Some((Some(h), p)) => {
            if h.as_str().unicode_len() == 0 {
                Err(RefererError::InvalidReferer)
            } else {
                Ok((h, p))
            }
        },
    }
}

/// The (host, path) of the page a counting request came from, read from
/// the value of its referer header.
pub fn parse_referer(referer: Option<&str>) -> (r: Result<(String, String), RefererError>)
    ensures
        (referer is None || referer->0@.len() == 0) ==> r == Err::<(String, String), RefererError>(
            RefererError::InvalidReferer,
        ),
        (referer is Some && referer->0@.len() > 0) ==> pair_result_view(r) == referer_outcome(
            url_parts_of(referer->0@),
        ),
        (referer is Some && url_parts_of(referer->0@) is None) ==> r == Err::<(String, String), RefererError>(
            RefererError::InvalidReferer,
        ),
{
    match referer {
        None => Err(RefererError::InvalidReferer),
        Some(s) => {
            if s.unicode_len() == 0 {
                Err(RefererError::InvalidReferer)
            } else {
                let parts = parse_url(s);
                proof {
                    assert(parts_view(parts) == url_parts_of(s@));
                }
                referer_from_parts(parts)
            }
        },
    }
}

} // verus!
