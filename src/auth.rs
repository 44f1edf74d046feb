//! Admin access: which requests carry the admin token, and the per-client
//! lockout after repeated failures.

use crate::request::opt_str;
use crate::text::{after, has_prefix, starts_with, tail_from};
use vstd::prelude::*;

verus! {

/// Failures after which a client is locked out.
pub const MAX_FAILS: u32 = 5;

/// Seconds a lockout lasts after the latest failure.
pub const LOCKOUT_SECS: u64 = 300;

/// The failed attempts of one client: how many, and when the latest was,
/// in seconds on a monotonic clock.
#[derive(Clone, Copy, Debug, PartialEq, Eq, Structural)]
pub struct FailRecord {
    pub count: u32,
    pub last_fail: u64,
}

/// Seconds from `since` to `now`; zero when the clock reads earlier.
pub open spec fn elapsed(since: u64, now: u64) -> u64 {
    if now >= since {
        (now - since) as u64
    } else {
        0
    }
}

/// What to do with an admin request.
#[derive(Clone, Copy, Debug, PartialEq, Eq, Structural)]
pub enum AuthOutcome {
    /// No admin token is configured: the admin surface is open.
    Open,
    /// The client is locked out for this many more seconds.
    LockedOut(u64),
    /// The request carries the token.
    Allowed,
    /// The request does not carry the token.
    Denied,
}

/// The seconds of lockout left for a client with the record `rec`, if it is
/// locked out.
pub open spec fn remaining_lockout(rec: Option<FailRecord>, now: u64) -> Option<u64> {
    match rec {
        Some(f) => if f.count >= MAX_FAILS && elapsed(f.last_fail, now) < LOCKOUT_SECS {
            Some((LOCKOUT_SECS - elapsed(f.last_fail, now)) as u64)
        } else {
            None
        },
        None => None,
    }
}

/// The record after one more failure at `now`; a record whose lockout has
/// run out starts over.
pub open spec fn after_failure(rec: Option<FailRecord>, now: u64) -> FailRecord {
    let base: u32 = match rec {
        Some(f) => if elapsed(f.last_fail, now) >= LOCKOUT_SECS {
            0
        } else {
            f.count
        },
        None => 0,
    };
    FailRecord { count: if base == u32::MAX { base } else { (base + 1) as u32 }, last_fail: now }
}

fn elapsed_secs(since: u64, now: u64) -> (r: u64)
    ensures
        r == elapsed(since, now),
{
    if now >= since {
        now - since
    } else {
        0
    }
}

/// The seconds of lockout left for a client, if it is locked out.
pub fn lockout_remaining(rec: Option<FailRecord>, now: u64) -> (r: Option<u64>)
    ensures
        r == remaining_lockout(rec, now),
{
    match rec {
        Some(f) => {
            let e = elapsed_secs(f.last_fail, now);
            if f.count >= MAX_FAILS && e < LOCKOUT_SECS {
                Some(LOCKOUT_SECS - e)
            } else {
                None
            }
        },
        None => None,
    }
}

/// The record of a client after one more failure at `now`.
pub fn record_failure(rec: Option<FailRecord>, now: u64) -> (r: FailRecord)
    ensures
        r == after_failure(rec, now),
{
    let base: u32 = match rec {
        Some(f) => if elapsed_secs(f.last_fail, now) >= LOCKOUT_SECS {
            0
        } else {
            f.count
        },
        None => 0,
    };
    FailRecord { count: if base == u32::MAX { base } else { base + 1 }, last_fail: now }
}

/// Decides an admin request. `token_configured` says whether an admin token
/// is set, `rec` is the client's failure record, and `authorized` whether
/// the request carries the token. Returns the outcome and the client's
/// record afterwards: kept while locked out, dropped on success, advanced
/// on failure.
pub fn decide_admin_request(token_configured: bool, rec: Option<FailRecord>, now: u64, authorized: bool) -> (r: (
    AuthOutcome,
    Option<FailRecord>,
))
    ensures
        !token_configured ==> r == (AuthOutcome::Open, rec),
        token_configured && remaining_lockout(rec, now) is Some ==> r == (
            AuthOutcome::LockedOut(remaining_lockout(rec, now)->0),
            rec,
        ),
        token_configured && remaining_lockout(rec, now) is None && authorized ==> r == (
            AuthOutcome::Allowed,
            None::<FailRecord>,
        ),
        token_configured && remaining_lockout(rec, now) is None && !authorized ==> r == (
            AuthOutcome::Denied,
            Some(after_failure(rec, now)),
        ),
{
    if !token_configured {
        return (AuthOutcome::Open, rec);
    }
    if let Some(left) = lockout_remaining(rec, now) {
        return (AuthOutcome::LockedOut(left), rec);
    }
    if authorized {
        (AuthOutcome::Allowed, None)
    } else {
        (AuthOutcome::Denied, Some(record_failure(rec, now)))
    }
}

/// Whether the `Authorization` header (`Bearer <token>` or the bare token)
/// or, without it, the `X-Admin-Token` header carries `expected`.
pub open spec fn header_grants(expected: Seq<char>, authorization: Option<Seq<char>>, admin_token: Option<Seq<char>>) -> bool {
    match authorization {
        Some(h) => if has_prefix(h, "Bearer "@) {
            after(h, 7) == expected
        } else {
            h == expected
        },
        None => match admin_token {
            Some(t) => t == expected,
            None => false,
        },
    }
}

/// What percent-decoding makes of `s`, when the result is UTF-8.
pub uninterp spec fn url_decoded_of(s: Seq<char>) -> Option<Seq<char>>;

/// Relies on `urlencoding::decode`: the result depends on `s` alone, and is
/// an error only where the decoded bytes are not UTF-8.
#[verifier::external_body]
fn url_decode(s: &str) -> (r: Option<String>)
    ensures
        r is None <==> url_decoded_of(s@) is None,
        r is Some ==> url_decoded_of(s@) == Some(r->0@),
{
    match urlencoding::decode(s) {
        Ok(d) => Some(d.into_owned()),
        Err(_) => None,
    }
}

/// The index of the first `&` of `s` at or after `i`; the length of `s` when
/// there is none.
pub open spec fn first_amp_from(s: Seq<char>, i: nat) -> nat
    decreases s.len() - i,
{
    if i >= s.len() {
        s.len()
    } else if s[i as int] == '&' {
        i
    } else {
        first_amp_from(s, i + 1)
    }
}

/// Whether one `name=value` pair of a query is `token=` followed by the
/// percent-encoded `expected` (an undecodable value reads as empty).
pub open spec fn pair_grants(pair: Seq<char>, expected: Seq<char>) -> bool {
    has_prefix(pair, "token="@) && match url_decoded_of(after(pair, 6)) {
        Some(d) => d == expected,
        None => expected.len() == 0,
    }
}

/// Whether one of the `&`-separated pairs of `q` from index `start` on
/// grants access.
pub open spec fn query_grants_from(q: Seq<char>, start: nat, expected: Seq<char>) -> bool
    decreases q.len() - start,
{
    let i = first_amp_from(q, start);
    if start > q.len() {
        false
    } else if pair_grants(q.subrange(start as int, i as int), expected) {
        true
    } else if start <= i && i < q.len() {
        query_grants_from(q, i + 1, expected)
    } else {
        false
    }
}

/// Whether some `token=` pair of the query string `q` carries `expected`.
pub fn query_has_token(q: &str, expected: &str) -> (r: bool)
    ensures
        r == query_grants_from(q@, 0, expected@),
{
    proof {
        reveal_strlit("token=");
    }
    let n = q.unicode_len();
    let mut start: usize = 0;
    while start <= n
        invariant
            n == q@.len(),
            query_grants_from(q@, 0, expected@) == query_grants_from(q@, start as nat, expected@),
        decreases n + 1 - start,
    {
        let mut i: usize = start;
        while i < n && q.get_char(i) != '&'
            invariant
                start <= i <= n,
                n == q@.len(),
                first_amp_from(q@, start as nat) == first_amp_from(q@, i as nat),
            decreases n - i,
        {
            i += 1;
        }
        let pair = q.substring_char(start, i);
        proof {
            reveal_strlit("token=");
            assert(first_amp_from(q@, i as nat) == i);
            assert("token="@.len() == 6);
        }
        let mut granted = false;
        if starts_with(pair, "token=") {
            let value = tail_from(pair, 6);
            let decoded = match url_decode(value.as_str()) {
                Some(d) => d,
                None => String::new(),
            };
            granted = decoded == expected.to_owned();
            proof {
                assert(value@ == after(q@.subrange(start as int, i as int), 6));
                match url_decoded_of(value@) {
                    Some(d) => assert(granted == (d == expected@)),
                    None => {
                        assert(decoded@ == Seq::<char>::empty());
                        assert(expected@.len() == 0 ==> expected@ =~= Seq::<char>::empty());
                        assert(granted == (expected@.len() == 0));
                    },
                }
            }
        }
        proof {
            assert(granted == pair_grants(q@.subrange(start as int, i as int), expected@));
        }
        if granted {
            return true;
        }
        if i >= n {
            return false;
        }
        start = i + 1;
    }
    false
}

/// Whether an admin request carries the token `expected`, in its headers
/// or, failing those, in its query string.
pub fn check_admin_token(
    expected: &str,
    authorization: Option<&str>,
    admin_token: Option<&str>,
    query: Option<&str>,
) -> (r: bool)
    ensures
        r == (header_grants(expected@, opt_str(authorization), opt_str(admin_token)) || match query {
            Some(q) => query_grants_from(q@, 0, expected@),
            None => false,
        }),
{
    proof {
        reveal_strlit("Bearer ");
    }
    let by_header = match authorization {
        Some(h) => {
            if starts_with(h, "Bearer ") {
                tail_from(h, 7) == expected.to_owned()
            } else {
                h.to_owned() == expected.to_owned()
            }
        },
        None => match admin_token {
            Some(t) => t.to_owned() == expected.to_owned(),
            None => false,
        },
    };
    if by_header {
        return true;
    }
    match query {
        Some(q) => query_has_token(q, expected),
        None => false,
    }
}

} // verus!
