//! Device-connection choices and the parsing of package listings.
//!
//! Talking to a device is the shell's business; what stands here is the
//! data the shell decides with — how a connection is addressed — and the
//! pure part of the installation check: turning the text a device's
//! package manager prints into the list of package paths.

use vstd::prelude::*;

verus! {

use crate::ipv4::{find_ch, find_char};

/// Address and port of a wirelessly connected device.
pub type WirelessIp = ([u8; 4], u16);

/// Vendor and product id of a device connected over a cable.
pub type WiredIds = (u16, u16);

/// How a device connection is addressed.
#[derive(Debug, PartialEq)]
pub enum ConnectionMode {
    /// Over the network.
    Wireless(WirelessIp),
    /// Over a cable.
    Wired(WiredIds),
}

impl ConnectionMode {
    /// The decision behind connection setup: wired ids `(0, 0)` stand for
    /// no discovered device and cannot be connected to.
    pub fn connectable(&self) -> (b: bool)
        ensures
            b == !(self matches ConnectionMode::Wired(ids) && ids == (0u16, 0u16)),
    {
        match self {
            ConnectionMode::Wireless(_) => true,
            ConnectionMode::Wired(ids) => !(ids.0 == 0 && ids.1 == 0),
        }
    }
}

/// The ways a device connection can be chosen interactively.
#[derive(Debug, Copy, Clone)]
pub enum ConnectMode {
    /// Over the network.
    Wireless,
    /// Over a cable.
    Wired,
}

/// The characters of the `package:` prefix that a package manager writes
/// before each path.
pub open spec fn pkg_prefix() -> Seq<char> {
    seq!['p', 'a', 'c', 'k', 'a', 'g', 'e', ':']
}

/// `t` with every leading `package:` prefix removed.
pub open spec fn strip_pkg(t: Seq<char>) -> Seq<char>
    decreases t.len(),
{
    if t.len() >= 8 && t.subrange(0, 8) == pkg_prefix() {
        strip_pkg(t.subrange(8, t.len() as int))
    } else {
        t
    }
}

/// The first position of `c` at or after `i` never lies before `i` nor
/// past the end.
pub proof fn lemma_find_ch_bounds(s: Seq<char>, i: int, c: char)
    requires
        0 <= i <= s.len(),
    ensures
        i <= find_ch(s, i, c) <= s.len(),
    decreases s.len() - i,
{
    if i < s.len() && s[i] != c {
        lemma_find_ch_bounds(s, i + 1, c);
    }
}

/// The package paths listed from position `i` on: the text is split at
/// line feeds, a carriage return before a line feed is dropped, empty
/// lines are dropped, and each remaining line loses its leading
/// `package:` prefixes.
pub open spec fn paths_from(s: Seq<char>, i: int) -> Seq<Seq<char>>
    decreases s.len() - i,
        via paths_from_dec
{
    if i < 0 || i >= s.len() {
        Seq::empty()
    } else {
        let k = find_ch(s, i, '\n');
        let raw = s.subrange(i, k);
        let line = if k < s.len() && raw.len() > 0 && raw.last() == '\r' {
            raw.drop_last()
        } else {
            raw
        };
        let rest = if k >= s.len() {
            Seq::<Seq<char>>::empty()
        } else {
            paths_from(s, k + 1)
        };
        if line.len() == 0 {
            rest
        } else {
            seq![strip_pkg(line)] + rest
        }
    }
}

#[via_fn]
proof fn paths_from_dec(s: Seq<char>, i: int) {
    if 0 <= i < s.len() {
        lemma_find_ch_bounds(s, i, '\n');
    }
}

/// The package paths held in the whole of `s`.
pub open spec fn spec_package_paths(s: Seq<char>) -> Seq<Seq<char>> {
    paths_from(s, 0)
}

/// Whether the eight characters at `j` spell `package:`.
fn is_pkg_at(s: &str, j: usize) -> (b: bool)
    requires
        j + 8 <= s@.len(),
        s@.len() <= usize::MAX,
    ensures
        b == (s@.subrange(j as int, j as int + 8) == pkg_prefix()),
{
    let ghost w = s@.subrange(j as int, j as int + 8);
    if s.get_char(j) != 'p' {
        proof {
            assert(w[0] != pkg_prefix()[0]);
        }
        return false;
    }
    if s.get_char(j + 1) != 'a' {
        proof {
            assert(w[1] != pkg_prefix()[1]);
        }
        return false;
    }
    if s.get_char(j + 2) != 'c' {
        proof {
            assert(w[2] != pkg_prefix()[2]);
        }
        return false;
    }
    if s.get_char(j + 3) != 'k' {
        proof {
            assert(w[3] != pkg_prefix()[3]);
        }
        return false;
    }
    if s.get_char(j + 4) != 'a' {
        proof {
            assert(w[4] != pkg_prefix()[4]);
        }
        return false;
    }
    if s.get_char(j + 5) != 'g' {
        proof {
            assert(w[5] != pkg_prefix()[5]);
        }
        return false;
    }
    if s.get_char(j + 6) != 'e' {
        proof {
            assert(w[6] != pkg_prefix()[6]);
        }
        return false;
    }
    if s.get_char(j + 7) != ':' {
        proof {
            assert(w[7] != pkg_prefix()[7]);
        }
        return false;
    }
    proof {
        assert(w =~= pkg_prefix());
    }
    true
}

/// Splits the text a package manager printed into the listed package
/// paths: one per non-empty line, without the `package:` prefix.  An
/// installation is present exactly when the result is non-empty.
pub fn parse_package_paths(s: &str) -> (r: Vec<String>)
    ensures
        r@.map_values(|p: String| p@) == spec_package_paths(s@),
{
    let n = s.unicode_len();
    let mut out: Vec<String> = Vec::new();
    let mut i: usize = 0;
    while i < n
        invariant
            i <= n,
            n == s@.len(),
            spec_package_paths(s@) == out@.map_values(|p: String| p@) + paths_from(s@, i as int),
        decreases n - i,
    {
        let ghost out0 = out@.map_values(|p: String| p@);
        let k = find_char(s, i, '\n');
        let mut endx = k;
        if k < n && k > i && s.get_char(k - 1) == '\r' {
            endx = k - 1;
        }
        proof {
            let raw = s@.subrange(i as int, k as int);
            let line = if k < s@.len() && raw.len() > 0 && raw.last() == '\r' {
                raw.drop_last()
            } else {
                raw
            };
            assert(line =~= s@.subrange(i as int, endx as int));
        }
        if endx > i {
            let mut j: usize = i;
            while endx - j >= 8 && is_pkg_at(s, j)
                invariant
                    i <= j <= endx,
                    endx <= n == s@.len(),
                    strip_pkg(s@.subrange(i as int, endx as int)) == strip_pkg(
                        s@.subrange(j as int, endx as int),
                    ),
                decreases endx - j,
            {
                proof {
                    let t = s@.subrange(j as int, endx as int);
                    assert(t.subrange(0, 8) =~= s@.subrange(j as int, j as int + 8));
                    assert(t.subrange(8, t.len() as int) =~= s@.subrange(
                        j as int + 8,
                        endx as int,
                    ));
                }
                j = j + 8;
            }
            proof {
                let t = s@.subrange(j as int, endx as int);
                if t.len() >= 8 {
                    assert(t.subrange(0, 8) =~= s@.subrange(j as int, j as int + 8));
                }
                assert(strip_pkg(t) == t);
            }
            let path = s.substring_char(j, endx).to_owned();
            out.push(path);
            proof {
                assert(out@.map_values(|p: String| p@) =~= out0 + seq![
                    strip_pkg(s@.subrange(i as int, endx as int)),
                ]);
                assert(out0 + seq![strip_pkg(s@.subrange(i as int, endx as int))] + paths_from(
                    s@,
                    if k < n {
                        k as int + 1
                    } else {
                        n as int
                    },
                ) =~= out0 + paths_from(s@, i as int));
            }
        }
        if k < n {
            i = k + 1;
        } else {
            i = n;
        }
    }
    proof {
        assert(out@.map_values(|p: String| p@) =~= spec_package_paths(s@));
    }
    out
}

} // verus!
