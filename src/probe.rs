//! Reading the answer of the upstream counter service that a sitemap sync
//! probes: a JSONP call `cb({...});` holding the three counters.

use vstd::prelude::*;

verus! {

/// Why a probe answer was refused.
#[derive(Clone, Copy, Debug, PartialEq, Eq, Structural)]
pub enum ProbeError {
    /// The service answered with an HTML page, which it does when it limits
    /// the rate of requests.
    RateLimited,
    /// The answer holds no `cb(...);` call.
    InvalidJsonp,
    /// The call's argument is not JSON.
    InvalidJson,
}

impl ProbeError {
    /// The message reported for the probed page.
    pub fn message(&self) -> (r: String)
        ensures
            r@ == match self {
                ProbeError::RateLimited => "Rate limited (HTML response)"@,
                ProbeError::InvalidJsonp => "Invalid JSONP"@,
                ProbeError::InvalidJson => "JSON parse error"@,
            },
    {
        match self {
            ProbeError::RateLimited => "Rate limited (HTML response)".to_owned(),
            ProbeError::InvalidJsonp => "Invalid JSONP".to_owned(),
            ProbeError::InvalidJson => "JSON parse error".to_owned(),
        }
    }
}

/// Whether `p` occurs in `s` at index `i`.
pub open spec fn occurs_at(s: Seq<char>, p: Seq<char>, i: nat) -> bool {
    i + p.len() <= s.len() && s.subrange(i as int, (i + p.len()) as int) == p
}

/// The first index at or after `i` where `p` occurs in `s`.
pub open spec fn first_occurrence(s: Seq<char>, p: Seq<char>, i: nat) -> Option<nat>
    decreases s.len() + 1 - i,
{
    if i + p.len() > s.len() {
        None
    } else if occurs_at(s, p, i) {
        Some(i)
    } else {
        first_occurrence(s, p, i + 1)
    }
}

proof fn lemma_first_occurrence(s: Seq<char>, p: Seq<char>, i: nat)
    ensures
        first_occurrence(s, p, i) matches Some(j) ==> occurs_at(s, p, j),
    decreases s.len() + 1 - i,
{
    if i + p.len() <= s.len() && !occurs_at(s, p, i) {
        lemma_first_occurrence(s, p, i + 1);
    }
}

/// The first index where `p` occurs in `s`.
fn find(s: &str, p: &str) -> (r: Option<usize>)
    requires
        p@.len() > 0,
    ensures
        r matches Some(i) ==> first_occurrence(s@, p@, 0) == Some(i as nat),
        r is None ==> first_occurrence(s@, p@, 0) is None,
{
    let n = s.unicode_len();
    let m = p.unicode_len();
    let target = p.to_owned();
    let mut i: usize = 0;
    while i <= n && m <= n - i
        invariant
            0 < m,
            n == s@.len(),
            m == p@.len(),
            target@ == p@,
            first_occurrence(s@, p@, 0) == first_occurrence(s@, p@, i as nat),
        decreases n + 1 - i,
    {
        let piece = s.substring_char(i, i + m).to_owned();
        if piece == target {
            return Some(i);
        }
        i += 1;
    }
    None
}

/// What the argument of the JSONP call in `text` is, or why there is none.
pub open spec fn jsonp_outcome(text: Seq<char>) -> Result<Seq<char>, ProbeError> {
    if first_occurrence(text, "<!DOCTYPE"@, 0) is Some || first_occurrence(text, "<html"@, 0) is Some {
        Err(ProbeError::RateLimited)
    } else {
        match (first_occurrence(text, "cb("@, 0), first_occurrence(text, ");"@, 0)) {
            (Some(a), Some(b)) => if a + 3 < b {
                Ok(text.subrange((a + 3) as int, b as int))
            } else {
                Err(ProbeError::InvalidJsonp)
            },
            _ => Err(ProbeError::InvalidJsonp),
        }
    }
}

/// The argument of the JSONP call `cb(...);` in a probe answer.
pub fn jsonp_payload(text: &str) -> (r: Result<String, ProbeError>)
    ensures
        match r {
            Ok(p) => jsonp_outcome(text@) == Ok::<Seq<char>, ProbeError>(p@),
            Err(e) => jsonp_outcome(text@) == Err::<Seq<char>, ProbeError>(e),
        },
{
    proof {
        reveal_strlit("<!DOCTYPE");
        reveal_strlit("<html");
        reveal_strlit("cb(");
        reveal_strlit(");");
    }
    if find(text, "<!DOCTYPE").is_some() || find(text, "<html").is_some() {
        return Err(ProbeError::RateLimited);
    }
    let start = find(text, "cb(");
    let end = find(text, ");");
    match (start, end) {
        (Some(a), Some(b)) => {
            proof {
                lemma_first_occurrence(text@, ");"@, 0);
            }
            if a < b && b - a > 3 {
                Ok(text.substring_char(a + 3, b).to_owned())
            } else {
                Err(ProbeError::InvalidJsonp)
            }
        },
        _ => Err(ProbeError::InvalidJsonp),
    }
}

/// What JSON parsing makes of `s`: for an object, its `site_pv`, `site_uv`
/// and `page_pv` members where they are unsigned integers; nothing when `s`
/// is not JSON.
pub uninterp spec fn json_counters_of(s: Seq<char>) -> Option<(Option<u64>, Option<u64>, Option<u64>)>;

/// Relies on `serde_json::from_str` into a `Value`, with `Value::get` and
/// `Value::as_u64` to read the three members: the result depends on `s`
/// alone.
#[verifier::external_body]
fn parse_counters(s: &str) -> (r: Option<(Option<u64>, Option<u64>, Option<u64>)>)
    ensures
        r == json_counters_of(s@),
{
    match serde_json::from_str::<serde_json::Value>(s) {
        Ok(v) => Some((
            v.get("site_pv").and_then(serde_json::Value::as_u64),
            v.get("site_uv").and_then(serde_json::Value::as_u64),
            v.get("page_pv").and_then(serde_json::Value::as_u64),
        )),
        Err(_) => None,
    }
}

/// A counter read from the answer; zero where it is missing.
pub open spec fn or_zero(v: Option<u64>) -> u64 {
    match v {
        Some(x) => x,
        None => 0,
    }
}

/// The (site_pv, site_uv, page_pv) of parsed members, missing ones as zero.
pub fn counters_from(parsed: Option<(Option<u64>, Option<u64>, Option<u64>)>) -> (r: Result<(u64, u64, u64), ProbeError>)
    ensures
        match parsed {
            Some((a, b, c)) => r == Ok::<(u64, u64, u64), ProbeError>((or_zero(a), or_zero(b), or_zero(c))),
            None => r == Err::<(u64, u64, u64), ProbeError>(ProbeError::InvalidJson),
        },
{
    match parsed {
        Some((a, b, c)) => {
            let x = match a {
                Some(v) => v,
                None => 0,
            };
            let y = match b {
                Some(v) => v,
                None => 0,
            };
            let z = match c {
                Some(v) => v,
                None => 0,
            };
            Ok((x, y, z))
        },
        None => Err(ProbeError::InvalidJson),
    }
}

/// The counters in a probe answer: site page views, site unique visitors
/// and page views.
pub fn probe_counters(text: &str) -> (r: Result<(u64, u64, u64), ProbeError>)
    ensures
        match jsonp_outcome(text@) {
            Err(e) => r == Err::<(u64, u64, u64), ProbeError>(e),
            Ok(p) => match json_counters_of(p) {
                Some((a, b, c)) => r == Ok::<(u64, u64, u64), ProbeError>((or_zero(a), or_zero(b), or_zero(c))),
                None => r == Err::<(u64, u64, u64), ProbeError>(ProbeError::InvalidJson),
            },
        },
{
    let payload = jsonp_payload(text)?;
    counters_from(parse_counters(payload.as_str()))
}

} // verus!
