//! Process-lifetime configuration of the probe.
//!
//! The values here are created once at startup from the argument loader
//! and shared read-only afterwards. The TLS material itself (certificate,
//! key, trust roots) stays with the binary that loads it from disk; the
//! library holds only plain values.

use crate::parse::all_digits;
use crate::parse::digits_value;
use crate::parse::is_digit;
use crate::parse::lemma_digits_value_prefix_le;
use vstd::prelude::*;
use vstd::string::StrSliceExecFns;
use vstd::string::StringExecFns;

verus! {

/// The immutable target configuration: where the store listens, the
/// optional credentials, and how the HTTP side listens.
#[derive(Clone, Debug)]
pub struct Redis {
    /// Target address, always in "host:port" form.
    pub host: String,
    /// Accepted for future use; the wire protocol does not send it.
    pub user: Option<String>,
    /// Password for AUTH, when the target requires one.
    pub pass: Option<String>,
    /// Listen on both IPv4 and IPv6.
    pub v46: bool,
    /// HTTP listen port.
    pub port: u16,
}

/// The digits of a decimal string once an optional leading plus sign is
/// taken off.
pub open spec fn unsigned_digits(s: Seq<char>) -> Seq<char> {
    if s.len() > 0 && s[0] == '+' {
        s.drop_first()
    } else {
        s
    }
}

/// `s` is what an unsigned decimal number accepts: an optional leading
/// plus sign, then one or more digits, with a value that fits in a
/// `usize`.
pub open spec fn parses_as_usize(s: Seq<char>) -> bool {
    let d = unsigned_digits(s);
    d.len() > 0 && all_digits(d) && digits_value(d) <= usize::MAX
}

/// Accepts `s` exactly when it holds an unsigned decimal number that
/// fits in a `usize`; used to validate a port argument.
pub fn is_num(s: String) -> (r: Result<(), String>)
    ensures
        r is Ok <==> parses_as_usize(s@),
        r matches Err(m) ==> m@ == "Not a valid number!"@,
{
    let n = s.as_str().unicode_len();
    let start: usize = if n > 0 && s.as_str().get_char(0) == '+' {
        1
    } else {
        0
    };
    proof {
        assert(unsigned_digits(s@) =~= s@.skip(start as int));
    }
    if n == start {
        return Err(String::from_str("Not a valid number!"));
    }
    let mut acc: u128 = 0;
    let mut i: usize = start;
    while i < n
        invariant
            start <= i <= n == s@.len(),
            unsigned_digits(s@) == s@.skip(start as int),
            all_digits(s@.skip(start as int).take(i - start)),
            acc == digits_value(s@.skip(start as int).take(i - start)),
            acc <= usize::MAX,
        decreases n - i,
    {
        let c = s.as_str().get_char(i);
        let u = c as u32;
        if u < 48 || u > 57 {
            proof {
                assert(s@.skip(start as int)[i - start] == s@[i as int]);
                assert(!is_digit(s@.skip(start as int)[i - start]));
            }
            return Err(String::from_str("Not a valid number!"));
        }
        let d: u128 = (u - 48) as u128;
        let wide: u128 = acc * 10 + d;
        proof {
            let ghost pre = s@.skip(start as int);
            assert(pre.take(i - start + 1).drop_last() == pre.take(i - start));
            assert(pre.take(i - start + 1).last() == s@[i as int]);
            assert(digits_value(pre.take(i - start + 1)) == acc * 10 + d);
        }
        if wide > usize::MAX as u128 {
            proof {
                let ghost pre = s@.skip(start as int);
                if all_digits(pre) {
                    lemma_digits_value_prefix_le(pre, i - start + 1);
                }
            }
            return Err(String::from_str("Not a valid number!"));
        }
        acc = wide;
        i = i + 1;
    }
    proof {
        let ghost pre = s@.skip(start as int);
        assert(pre.take(n - start) =~= pre);
    }
    Ok(())
}

/// How many colons `s` holds.
pub open spec fn colon_count(s: Seq<char>) -> nat
    decreases s.len(),
{
    if s.len() == 0 {
        0
    } else {
        colon_count(s.drop_last()) + (if s.last() == ':' {
            1nat
        } else {
            0nat
        })
    }
}

/// Normalizes a target address: an address with exactly one colon
/// already carries a port and is kept; any other is given the default
/// store port 6379.
pub fn normalize_host(host: &str) -> (r: String)
    ensures
        colon_count(host@) == 1 ==> r@ == host@,
        colon_count(host@) != 1 ==> r@ == host@ + ":6379"@,
{
    let n = host.unicode_len();
    let mut count: usize = 0;
    let mut i: usize = 0;
    while i < n
        invariant
            0 <= i <= n == host@.len(),
            count <= i,
            count == colon_count(host@.take(i as int)),
        decreases n - i,
    {
        proof {
            assert(host@.take(i + 1).drop_last() == host@.take(i as int));
            assert(host@.take(i + 1).last() == host@[i as int]);
        }
        if host.get_char(i) == ':' {
            count = count + 1;
        }
        i = i + 1;
    }
    proof {
        assert(host@.take(n as int) == host@);
    }
    if count == 1 {
        host.to_owned()
    } else {
        let mut r = host.to_owned();
        r.append(":6379");
        r
    }
}

} // verus!
