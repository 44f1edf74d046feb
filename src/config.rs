//! Settings of the surrounding process, from the values of its environment
//! variables.

use crate::request::opt_str;
use crate::text::{joined, trim_text, trimmed_of};
use vstd::prelude::*;

verus! {

/// The settings the server runs with.
#[derive(Debug)]
pub struct Config {
    pub web_addr: String,
    pub domain: String,
    pub admin_token: String,
    pub save_interval: u64,
    pub max_body_size: usize,
}

/// `s` in upper case.
pub uninterp spec fn upper_of(s: Seq<char>) -> Seq<char>;

/// Relies on `str::to_uppercase`: the result depends on `s` alone.
#[verifier::external_body]
fn upper_text(s: &str) -> (r: String)
    ensures
        r@ == upper_of(s@),
{
    s.to_uppercase()
}

/// Whether `c` is an ASCII decimal digit.
pub open spec fn is_digit(c: char) -> bool {
    '0' <= c && c <= '9'
}

/// The value of a run of decimal digits.
pub open spec fn digits_value(s: Seq<char>) -> nat
    decreases s.len(),
{
    if s.len() == 0 {
        0
    } else {
        digits_value(s.drop_last()) * 10 + ((s.last() as int - '0' as int) as nat)
    }
}

/// The digits of a decimal number: what follows an optional leading `+`.
pub open spec fn unsigned_digits(s: Seq<char>) -> Seq<char> {
    if s.len() > 0 && s[0] == '+' {
        s.drop_first()
    } else {
        s
    }
}

/// The value of `s` as an unsigned decimal number with an optional leading
/// `+`, if it is one.
pub open spec fn decimal_of(s: Seq<char>) -> Option<nat> {
    let d = unsigned_digits(s);
    if d.len() > 0 && forall|i: int| 0 <= i < d.len() ==> is_digit(#[trigger] d[i]) {
        Some(digits_value(d))
    } else {
        None
    }
}

/// The value of `s` as a decimal number that fits in 64 bits, if it is one.
pub open spec fn u64_of(s: Seq<char>) -> Option<u64> {
    match decimal_of(s) {
        Some(n) => if n <= u64::MAX {
            Some(n as u64)
        } else {
            None
        },
        None => None,
    }
}

proof fn lemma_digits_grow(s: Seq<char>, k: int)
    requires
        0 <= k <= s.len(),
        forall|i: int| 0 <= i < s.len() ==> is_digit(#[trigger] s[i]),
    ensures
        digits_value(s.subrange(0, k)) <= digits_value(s),
    decreases s.len() - k,
{
    if k < s.len() {
        lemma_digits_grow(s, k + 1);
        let p = s.subrange(0, k + 1);
        assert(p.drop_last() =~= s.subrange(0, k));
        assert(digits_value(p) == digits_value(s.subrange(0, k)) * 10 + ((p.last() as int - '0' as int) as nat));
        assert(digits_value(s.subrange(0, k)) <= digits_value(s.subrange(0, k)) * 10) by (nonlinear_arith);
    } else {
        assert(s.subrange(0, k) =~= s);
    }
}

/// Reads `s` as a decimal number with an optional leading `+`; `None` when
/// it is not one or does not fit in 64 bits.
pub fn parse_u64(s: &str) -> (r: Option<u64>)
    ensures
        r == u64_of(s@),
{
    let n = s.unicode_len();
    let mut start: usize = 0;
    if n > 0 && s.get_char(0) == '+' {
        start = 1;
    }
    let ghost d = unsigned_digits(s@);
    proof {
        assert(d =~= s@.subrange(start as int, n as int));
    }
    if start >= n {
        return None;
    }

    let mut v: u64 = 0;
    let mut i: usize = start;
    while i < n
        invariant
            start <= i <= n,
            n == s@.len(),
            d == s@.subrange(start as int, n as int),
            d == unsigned_digits(s@),
            forall|j: int| 0 <= j < i - start ==> is_digit(#[trigger] d[j]),
            v == digits_value(d.subrange(0, i - start)),
        decreases n - i,
    {
        let c = s.get_char(i);
        if c < '0' || c > '9' {
            proof {
                assert(!is_digit(d[i - start]));
                assert(!(forall|j: int| 0 <= j < d.len() ==> is_digit(#[trigger] d[j])));
                assert(decimal_of(s@) is None);
            }
            return None;
        }
        let digit = (c as u32 - '0' as u32) as u64;
        let ghost p = d.subrange(0, i - start + 1);
        proof {
            assert(p.drop_last() =~= d.subrange(0, i - start));
            assert(p.last() == c);
        }
        if v > (u64::MAX - digit) / 10 {
            proof {
                assert(digits_value(p) == v * 10 + digit);
                assert(v * 10 + digit > u64::MAX) by (nonlinear_arith)
                    requires
                        v > (u64::MAX - digit) / 10,
                        digit <= 9,
                ;
                if forall|j: int| 0 <= j < d.len() ==> is_digit(#[trigger] d[j]) {
                    lemma_digits_grow(d, i - start + 1);
                    assert(decimal_of(s@) == Some(digits_value(d)));
                } else {
                    assert(decimal_of(s@) is None);
                }
            }
            return None;
        }
        proof {
            assert(v * 10 + digit <= u64::MAX) by (nonlinear_arith)
                requires
                    v <= (u64::MAX - digit) / 10,
                    digit <= 9,
            ;
        }
        v = v * 10 + digit;
        i += 1;
    }
    proof {
        assert(d.subrange(0, i - start) =~= d);
    }
    Some(v)
}


/// Whether `s` ends with `p`.
pub open spec fn has_suffix(s: Seq<char>, p: Seq<char>) -> bool {
    p.len() <= s.len() && s.subrange(s.len() - p.len(), s.len() as int) == p
}

/// `s` without its last `n` characters.
pub open spec fn drop_tail(s: Seq<char>, n: nat) -> Seq<char> {
    s.subrange(0, s.len() - n)
}

/// Whether `s` ends with `p`.
pub(crate) fn ends_with(s: &str, p: &str) -> (r: bool)
    ensures
        r == has_suffix(s@, p@),
{
    let n = s.unicode_len();
    let m = p.unicode_len();
    if m > n {
        return false;
    }
    let tail = s.substring_char(n - m, n).to_owned();
    tail == p.to_owned()
}

/// The byte count that a number with a unit multiplier stands for, when it
/// fits in a `usize`.
pub open spec fn scaled(num: Seq<char>, multiplier: nat) -> Option<usize> {
    match u64_of(trimmed_of(num)) {
        Some(n) => if n * multiplier <= usize::MAX {
            Some((n * multiplier) as usize)
        } else {
            None
        },
        None => None,
    }
}

/// The size that an upper-case, trimmed size text stands for: a plain byte
/// count, or a number followed by `GB`, `MB`, `KB` or `B` (powers of 1024).
pub open spec fn size_of_upper(u: Seq<char>) -> Option<usize> {
    match u64_of(u) {
        Some(n) => if n <= usize::MAX {
            Some(n as usize)
        } else {
            None
        },
        None => if has_suffix(u, "GB"@) {
            scaled(drop_tail(u, 2), 1073741824)
        } else if has_suffix(u, "MB"@) {
            scaled(drop_tail(u, 2), 1048576)
        } else if has_suffix(u, "KB"@) {
            scaled(drop_tail(u, 2), 1024)
        } else if has_suffix(u, "B"@) {
            scaled(drop_tail(u, 1), 1)
        } else {
            None
        },
    }
}

/// The byte count of `num` (trimmed) times `multiplier`, when it fits.
fn scaled_size(num: &str, multiplier: u64) -> (r: Option<usize>)
    ensures
        r == scaled(num@, multiplier as nat),
{
    let t = trim_text(num);
    match parse_u64(t.as_str()) {
        Some(n) => {
            match n.checked_mul(multiplier) {
                Some(b) => {
                    if b as u128 <= usize::MAX as u128 {
                        Some(b as usize)
                    } else {
                        None
                    }
                },
                None => None,
            }
        },
        None => None,
    }
}

/// The size that an upper-case, trimmed size text stands for.
pub fn size_from_upper(u: &str) -> (r: Option<usize>)
    ensures
        r == size_of_upper(u@),
{
    proof {
        reveal_strlit("GB");
        reveal_strlit("MB");
        reveal_strlit("KB");
        reveal_strlit("B");
    }
    match parse_u64(u) {
        Some(n) => {
            if n as u128 <= usize::MAX as u128 {
                return Some(n as usize);
            } else {
                return None;
            }
        },
        None => {},
    }
    let n = u.unicode_len();
    if ends_with(u, "GB") {
        scaled_size(u.substring_char(0, n - 2), 1073741824)
    } else if ends_with(u, "MB") {
        scaled_size(u.substring_char(0, n - 2), 1048576)
    } else if ends_with(u, "KB") {
        scaled_size(u.substring_char(0, n - 2), 1024)
    } else if ends_with(u, "B") {
        scaled_size(u.substring_char(0, n - 1), 1)
    } else {
        None
    }
}

/// Parses a human-readable size such as `100MB`, `1GB`, `512KB` or a plain
/// byte count; case and surrounding white space do not matter.
pub fn parse_size(s: &str) -> (r: Option<usize>)
    ensures
        r == size_of_upper(upper_of(trimmed_of(s@))),
{
    let t = trim_text(s);
    let u = upper_text(t.as_str());
    size_from_upper(u.as_str())
}

/// Seconds between background snapshots when none, or an invalid one, is set.
pub const DEFAULT_SAVE_INTERVAL: u64 = 30;

/// Upload limit in bytes when none, or an invalid one, is set: 100 MiB.
pub const DEFAULT_MAX_BODY_SIZE: usize = 104857600;

/// The snapshot interval that a value of `SAVE_INTERVAL` gives: a positive
/// decimal number of seconds; anything else gives the default.
pub open spec fn save_interval_of(value: Option<Seq<char>>) -> u64 {
    match value {
        Some(v) => match u64_of(v) {
            Some(n) => if n > 0 {
                n
            } else {
                DEFAULT_SAVE_INTERVAL
            },
            None => DEFAULT_SAVE_INTERVAL,
        },
        None => DEFAULT_SAVE_INTERVAL,
    }
}

/// The upload limit that a value of `MAX_BODY_SIZE` gives; an absent or
/// unreadable value gives the default.
pub open spec fn max_body_size_of(value: Option<Seq<char>>) -> usize {
    match value {
        Some(v) => match size_of_upper(upper_of(trimmed_of(v))) {
            Some(n) => n,
            None => DEFAULT_MAX_BODY_SIZE,
        },
        None => DEFAULT_MAX_BODY_SIZE,
    }
}

/// The snapshot interval from the value of `SAVE_INTERVAL`.
pub fn save_interval_from(value: Option<&str>) -> (r: u64)
    ensures
        r == save_interval_of(opt_str(value)),
{
    match value {
        Some(v) => match parse_u64(v) {
            Some(n) => if n > 0 {
                n
            } else {
                DEFAULT_SAVE_INTERVAL
            },
            None => DEFAULT_SAVE_INTERVAL,
        },
        None => DEFAULT_SAVE_INTERVAL,
    }
}

/// The upload limit from the value of `MAX_BODY_SIZE`.
pub fn max_body_size_from(value: Option<&str>) -> (r: usize)
    ensures
        r == max_body_size_of(opt_str(value)),
{
    match value {
        Some(v) => match parse_size(v) {
            Some(n) => n,
            None => DEFAULT_MAX_BODY_SIZE,
        },
        None => DEFAULT_MAX_BODY_SIZE,
    }
}

/// The port from the value of `PORT`, `8080` when absent.
pub open spec fn port_of(port: Option<Seq<char>>) -> Seq<char> {
    match port {
        Some(p) => p,
        None => "8080"@,
    }
}

impl Config {
    /// The settings from the values of `PORT`, `DOMAIN`, `ADMIN_TOKEN`,
    /// `SAVE_INTERVAL` and `MAX_BODY_SIZE`, each absent or present.
    pub fn from_values(
        port: Option<&str>,
        domain: Option<&str>,
        admin_token: Option<&str>,
        save_interval: Option<&str>,
        max_body_size: Option<&str>,
    ) -> (r: Config)
        ensures
            r.web_addr@ == "0.0.0.0:"@ + port_of(opt_str(port)),
            r.domain@ == (match domain {
                Some(d) => d@,
                None => "localhost:"@ + port_of(opt_str(port)),
            }),
            r.admin_token@ == (match admin_token {
                Some(t) => t@,
                None => Seq::<char>::empty(),
            }),
            r.save_interval == save_interval_of(opt_str(save_interval)),
            r.max_body_size == max_body_size_of(opt_str(max_body_size)),
    {
        let p = match port {
            Some(p) => p.to_owned(),
            None => "8080".to_owned(),
        };
        let web_addr = joined("0.0.0.0:", p.as_str());
        let domain = match domain {
            Some(d) => d.to_owned(),
            None => joined("localhost:", p.as_str()),
        };
        let admin_token = match admin_token {
            Some(t) => t.to_owned(),
            None => String::new(),
        };
        Config {
            web_addr,
            domain,
            admin_token,
            save_interval: save_interval_from(save_interval),
            max_body_size: max_body_size_from(max_body_size),
        }
    }
}

} // verus!
