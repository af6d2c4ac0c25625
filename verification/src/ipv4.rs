//! Parsing of `address:port` text typed in for a wireless connection.
//!
//! The accepted shape is four decimal octets separated by dots, a colon,
//! and a decimal port.  Parsing mirrors the usual integer-parsing rules:
//! octets must be bare digit runs with value at most 255, the port allows
//! one leading `+`, must not overflow sixteen bits, and must not be zero.

use vstd::prelude::*;

verus! {

/// Errors of address parsing, in the order the checks run.
#[derive(Debug, Clone, Copy, PartialEq, Eq, Structural)]
pub enum Ipv4ParseError {
    /// The address part is not four valid octets.
    InvalidIp,
    /// The port parses but is zero.
    InvalidPortNumber,
    /// The port does not parse as a sixteen-bit number.
    InvalidPortFormat,
    /// No colon, so no port at all.
    MissingPort,
}

/// A host address and port.
#[derive(Debug, Clone)]
pub struct Ipv4Port {
    /// The four octets of the address.
    pub addr: [u8; 4],
    /// The port.
    pub port: u16,
}

/// Whether `c` is a decimal digit.
pub open spec fn is_digit(c: char) -> bool {
    '0' <= c && c <= '9'
}

/// Whether `s` is all decimal digits.
pub open spec fn all_digits(s: Seq<char>) -> bool {
    forall|i: int| 0 <= i < s.len() ==> is_digit(#[trigger] s[i])
}

/// The number the digit run `s` spells.
pub open spec fn digits_val(s: Seq<char>) -> int
    decreases s.len(),
{
    if s.len() == 0 {
        0
    } else {
        digits_val(s.drop_last()) * 10 + (s.last() as int - 0x30)
    }
}

/// Index of the first `c` in `s` at or after `i`; the length when there is
/// none.
pub open spec fn find_ch(s: Seq<char>, i: int, c: char) -> int
    decreases s.len() - i,
{
    if i < 0 {
        0
    } else if i >= s.len() {
        s.len() as int
    } else if s[i] == c {
        i
    } else {
        find_ch(s, i + 1, c)
    }
}

/// A valid address octet: a non-empty digit run with value at most 255.
pub open spec fn octet_ok(p: Seq<char>) -> bool {
    p.len() > 0 && all_digits(p) && digits_val(p) <= 255
}

/// The value the port text spells, if it parses: one optional leading `+`,
/// then a non-empty digit run whose value fits sixteen bits.
pub open spec fn port_val(p: Seq<char>) -> Option<int> {
    let t = if p.len() > 0 && p[0] == '+' {
        p.subrange(1, p.len() as int)
    } else {
        p
    };
    if t.len() > 0 && all_digits(t) && digits_val(t) <= 0xFFFF {
        Some(digits_val(t))
    } else {
        None
    }
}

/// What parsing `s` yields: the four octet values and the port, or the
/// first error found — the address is checked before the port.
pub open spec fn spec_parse(s: Seq<char>) -> Result<(int, int, int, int, int), Ipv4ParseError> {
    let k = find_ch(s, 0, ':');
    if k >= s.len() {
        Err(Ipv4ParseError::MissingPort)
    } else {
        let ip = s.subrange(0, k);
        let ps = s.subrange(k + 1, s.len() as int);
        let d1 = find_ch(ip, 0, '.');
        let d2 = find_ch(ip, d1 + 1, '.');
        let d3 = find_ch(ip, d2 + 1, '.');
        let d4 = find_ch(ip, d3 + 1, '.');
        if !(d1 < ip.len() && d2 < ip.len() && d3 < ip.len() && d4 >= ip.len()) {
            Err(Ipv4ParseError::InvalidIp)
        } else {
            let p0 = ip.subrange(0, d1);
            let p1 = ip.subrange(d1 + 1, d2);
            let p2 = ip.subrange(d2 + 1, d3);
            let p3 = ip.subrange(d3 + 1, ip.len() as int);
            if !(octet_ok(p0) && octet_ok(p1) && octet_ok(p2) && octet_ok(p3)) {
                Err(Ipv4ParseError::InvalidIp)
            } else {
                match port_val(ps) {
                    Some(v) => if v == 0 {
                        Err(Ipv4ParseError::InvalidPortNumber)
                    } else {
                        Ok((digits_val(p0), digits_val(p1), digits_val(p2), digits_val(p3), v))
                    },
                    None => Err(Ipv4ParseError::InvalidPortFormat),
                }
            }
        }
    }
}

/// The value of a digit run is never negative.
proof fn lemma_digits_val_nonneg(s: Seq<char>)
    requires
        all_digits(s),
    ensures
        digits_val(s) >= 0,
    decreases s.len(),
{
    if s.len() > 0 {
        assert(all_digits(s.drop_last()));
        lemma_digits_val_nonneg(s.drop_last());
    }
}

/// A digit run is worth at least any of its prefixes.
proof fn lemma_digits_val_prefix(s: Seq<char>, j: int)
    requires
        all_digits(s),
        0 <= j <= s.len(),
    ensures
        digits_val(s) >= digits_val(s.subrange(0, j)),
    decreases s.len() - j,
{
    if j == s.len() {
        assert(s.subrange(0, j) =~= s);
    } else {
        assert(s.subrange(0, j + 1).drop_last() =~= s.subrange(0, j));
        assert(all_digits(s.subrange(0, j)));
        lemma_digits_val_nonneg(s.subrange(0, j));
        assert(digits_val(s.subrange(0, j + 1)) >= digits_val(s.subrange(0, j)));
        lemma_digits_val_prefix(s, j + 1);
    }
}

/// Reads a digit run worth at most `cap` from `p`; nothing when `p` is
/// empty, holds a non-digit, or spells more than `cap`.
fn parse_digits(p: &str, cap: u32) -> (r: Option<u32>)
    requires
        cap <= 0xFFFF,
    ensures
        (match r {
            Some(v) => p@.len() > 0 && all_digits(p@) && digits_val(p@) <= cap && v as int
                == digits_val(p@),
            None => !(p@.len() > 0 && all_digits(p@) && digits_val(p@) <= cap),
        }),
{
    let n = p.unicode_len();
    if n == 0 {
        return None;
    }
    let mut val: u32 = 0;
    let mut j: usize = 0;
    while j < n
        invariant
            j <= n,
            n == p@.len(),
            cap <= 0xFFFF,
            forall|t: int| 0 <= t < j ==> is_digit(#[trigger] p@[t]),
            val as int == digits_val(p@.subrange(0, j as int)),
            val <= cap,
        decreases n - j,
    {
        let c = p.get_char(j);
        if !(c >= '0' && c <= '9') {
            proof {
                assert(!is_digit(p@[j as int]));
            }
            return None;
        }
        let d: u32 = (c as u32) - 48;
        let newval = val * 10 + d;
        proof {
            assert(p@.subrange(0, j as int + 1).drop_last() =~= p@.subrange(0, j as int));
            assert(newval as int == digits_val(p@.subrange(0, j as int + 1)));
        }
        if newval > cap {
            proof {
                if all_digits(p@) {
                    lemma_digits_val_prefix(p@, j as int + 1);
                }
            }
            return None;
        }
        val = newval;
        j = j + 1;
    }
    proof {
        assert(p@.subrange(0, n as int) =~= p@);
    }
    Some(val)
}

impl Ipv4Port {
    /// Parses `address:port` text, reporting the first shape error found.
    pub fn parse(s: &str) -> (r: Result<Ipv4Port, Ipv4ParseError>)
        ensures
            (match spec_parse(s@) {
                Ok(oct) => r matches Ok(p) && p.addr@.len() == 4 && p.addr@[0] == oct.0
                    && p.addr@[1] == oct.1 && p.addr@[2] == oct.2 && p.addr@[3] == oct.3 && p.port
                    == oct.4,
                Err(e) => r == Err::<Ipv4Port, Ipv4ParseError>(e),
            }),
    {
        let n = s.unicode_len();
        let k = find_char(s, 0, ':');
        if k == n {
            return Err(Ipv4ParseError::MissingPort);
        }
        let ip = s.substring_char(0, k);
        let ps = s.substring_char(k + 1, n);
        let m = ip.unicode_len();
        let d1 = find_char(ip, 0, '.');
        if d1 == m {
            return Err(Ipv4ParseError::InvalidIp);
        }
        let d2 = find_char(ip, d1 + 1, '.');
        if d2 == m {
            return Err(Ipv4ParseError::InvalidIp);
        }
        let d3 = find_char(ip, d2 + 1, '.');
        if d3 == m {
            return Err(Ipv4ParseError::InvalidIp);
        }
        let d4 = find_char(ip, d3 + 1, '.');
        if d4 != m {
            return Err(Ipv4ParseError::InvalidIp);
        }
        let o0 = match parse_digits(ip.substring_char(0, d1), 255) {
            Some(v) => v,
            None => {
                return Err(Ipv4ParseError::InvalidIp);
            },
        };
        let o1 = match parse_digits(ip.substring_char(d1 + 1, d2), 255) {
            Some(v) => v,
            None => {
                return Err(Ipv4ParseError::InvalidIp);
            },
        };
        let o2 = match parse_digits(ip.substring_char(d2 + 1, d3), 255) {
            Some(v) => v,
            None => {
                return Err(Ipv4ParseError::InvalidIp);
            },
        };
        let o3 = match parse_digits(ip.substring_char(d3 + 1, m), 255) {
            Some(v) => v,
            None => {
                return Err(Ipv4ParseError::InvalidIp);
            },
        };
        let pn = ps.unicode_len();
        let digits = if pn > 0 && ps.get_char(0) == '+' {
            ps.substring_char(1, pn)
        } else {
            ps
        };
        let port = match parse_digits(digits, 0xFFFF) {
            Some(v) => v,
            None => {
                return Err(Ipv4ParseError::InvalidPortFormat);
            },
        };
        if port == 0 {
            return Err(Ipv4ParseError::InvalidPortNumber);
        }
        let addr: [u8; 4] = [o0 as u8, o1 as u8, o2 as u8, o3 as u8];
        Ok(Ipv4Port { addr, port: port as u16 })
    }
}

/// Index of the first `c` in `s` at or after `from`; the length when there
/// is none.
pub(crate) fn find_char(s: &str, from: usize, c: char) -> (r: usize)
    requires
        from <= s@.len(),
    ensures
        r == find_ch(s@, from as int, c),
        from <= r <= s@.len(),
{
    let n = s.unicode_len();
    let mut k: usize = from;
    while k < n
        invariant
            from <= k <= n,
            n == s@.len(),
            find_ch(s@, from as int, c) == find_ch(s@, k as int, c),
        decreases n - k,
    {
        if s.get_char(k) == c {
            return k;
        }
        k = k + 1;
    }
    n
}

} // verus!
