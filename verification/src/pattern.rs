//! The four Bayer patterns and their channel-offset table.

use vstd::prelude::*;

verus! {

use vstd::string::StringSliceAdditionalSpecFns;

use crate::error::Error;

/// Whether `b` is an ASCII whitespace byte (space, tab, line feed, form
/// feed or carriage return).
pub open spec fn is_ws_byte(b: u8) -> bool {
    b == 32 || b == 9 || b == 10 || b == 12 || b == 13
}

/// `b` with an ASCII lowercase letter mapped to its uppercase form.
pub open spec fn ascii_upper(b: u8) -> u8 {
    if 97 <= b <= 122 {
        (b - 32) as u8
    } else {
        b
    }
}

/// `s` with its leading ASCII whitespace removed.
pub open spec fn trim_start_ws(s: Seq<u8>) -> Seq<u8>
    decreases s.len(),
{
    if s.len() > 0 && is_ws_byte(s[0]) {
        trim_start_ws(s.drop_first())
    } else {
        s
    }
}

/// `s` with its trailing ASCII whitespace removed.
pub open spec fn trim_end_ws(s: Seq<u8>) -> Seq<u8>
    decreases s.len(),
{
    if s.len() > 0 && is_ws_byte(s.last()) {
        trim_end_ws(s.drop_last())
    } else {
        s
    }
}

/// `s` trimmed of surrounding ASCII whitespace and folded to uppercase:
/// the form a pattern name is matched in.
pub open spec fn canonical_pattern_bytes(s: Seq<u8>) -> Seq<u8> {
    trim_end_ws(trim_start_ws(s)).map_values(|b: u8| ascii_upper(b))
}

/// The pattern a byte string names, if any: matching is case-insensitive
/// and ignores surrounding whitespace.
pub open spec fn spec_parse_pattern(s: Seq<u8>) -> Option<BayerPattern> {
    let c = canonical_pattern_bytes(s);
    if c == seq![82u8, 71u8, 71u8, 66u8] {
        Some(BayerPattern::RGGB)
    } else if c == seq![66u8, 71u8, 71u8, 82u8] {
        Some(BayerPattern::BGGR)
    } else if c == seq![71u8, 82u8, 66u8, 71u8] {
        Some(BayerPattern::GRBG)
    } else if c == seq![71u8, 66u8, 82u8, 71u8] {
        Some(BayerPattern::GBRG)
    } else {
        None
    }
}

/// A 2x2 Bayer color-filter arrangement. The four letters name the
/// channel sensed at the top-left, top-right, bottom-left and
/// bottom-right position of every 2x2 block.
#[derive(Clone, Copy, Debug, PartialEq, Eq, Structural)]
pub enum BayerPattern {
    RGGB,
    BGGR,
    GRBG,
    GBRG,
}

impl BayerPattern {
    /// The channel index (0 = red, 1 = green, 2 = blue) assigned to each
    /// of the four positions of a 2x2 block, in the order top-left,
    /// top-right, bottom-left, bottom-right.
    pub open spec fn spec_offsets(self) -> Seq<u8> {
        match self {
            BayerPattern::RGGB => seq![0u8, 1u8, 1u8, 2u8],
            BayerPattern::BGGR => seq![2u8, 1u8, 1u8, 0u8],
            BayerPattern::GRBG => seq![1u8, 0u8, 2u8, 1u8],
            BayerPattern::GBRG => seq![1u8, 2u8, 0u8, 1u8],
        }
    }

    /// The fixed channel-offset table, one entry per block position.
    pub fn color_offsets(&self) -> (r: Vec<u8>)
        ensures
            r@ == self.spec_offsets(),
            r@.len() == 4,
    {
        let r = match self {
            BayerPattern::RGGB => vec![0u8, 1u8, 1u8, 2u8],
            BayerPattern::BGGR => vec![2u8, 1u8, 1u8, 0u8],
            BayerPattern::GRBG => vec![1u8, 0u8, 2u8, 1u8],
            BayerPattern::GBRG => vec![1u8, 2u8, 0u8, 1u8],
        };
        proof {
            assert(r@ =~= self.spec_offsets());
        }
        r
    }

    /// The canonical name of this pattern.
    pub open spec fn spec_name(self) -> Seq<char> {
        match self {
            BayerPattern::RGGB => "RGGB"@,
            BayerPattern::BGGR => "BGGR"@,
            BayerPattern::GRBG => "GRBG"@,
            BayerPattern::GBRG => "GBRG"@,
        }
    }

    /// The canonical name of this pattern, for diagnostics.
    pub fn name(&self) -> (r: &'static str)
        ensures
            r@ == self.spec_name(),
    {
        match self {
            BayerPattern::RGGB => "RGGB",
            BayerPattern::BGGR => "BGGR",
            BayerPattern::GRBG => "GRBG",
            BayerPattern::GBRG => "GBRG",
        }
    }

    /// Parses a pattern name, ignoring case and surrounding whitespace.
    /// Any other input is rejected as `InvalidPatternString`.
    pub fn from_str(s: &str) -> (r: Result<BayerPattern, Error>)
        ensures
            r matches Ok(p) ==> spec_parse_pattern(s.spec_bytes()) == Some(p),
            r is Ok <==> spec_parse_pattern(s.spec_bytes()) is Some,
            r is Err ==> r == Err::<BayerPattern, Error>(Error::InvalidPatternString),
    {
        let b: &[u8] = s.as_bytes();
        let n: usize = b.len();
        let ghost all = b@;
        let mut lo: usize = 0;
        proof {
            assert(all.subrange(0, n as int) =~= all);
        }
        while lo < n && is_ws(b[lo])
            invariant
                0 <= lo <= n,
                n == all.len(),
                all == b@,
                trim_start_ws(all) == trim_start_ws(all.subrange(lo as int, n as int)),
            decreases n - lo,
        {
            proof {
                assert(all.subrange(lo as int, n as int).drop_first() =~= all.subrange(
                    lo as int + 1,
                    n as int,
                ));
            }
            lo = lo + 1;
        }
        let ghost t1 = all.subrange(lo as int, n as int);
        proof {
            assert(trim_start_ws(all) == t1);
        }
        let mut hi: usize = n;
        proof {
            assert(all.subrange(lo as int, hi as int) =~= t1);
        }
        while hi > lo && is_ws(b[hi - 1])
            invariant
                0 <= lo <= hi <= n,
                n == all.len(),
                all == b@,
                trim_end_ws(t1) == trim_end_ws(all.subrange(lo as int, hi as int)),
            decreases hi,
        {
            proof {
                assert(all.subrange(lo as int, hi as int).drop_last() =~= all.subrange(
                    lo as int,
                    hi as int - 1,
                ));
            }
            hi = hi - 1;
        }
        let ghost core = all.subrange(lo as int, hi as int);
        let ghost canon = canonical_pattern_bytes(all);
        proof {
            assert(trim_end_ws(t1) == core);
            assert(canon == core.map_values(|x: u8| ascii_upper(x)));
            assert(canon.len() == core.len());
        }
        if hi - lo != 4 {
            return Err(Error::InvalidPatternString);
        }
        let u0 = upper(b[lo]);
        let u1 = upper(b[lo + 1]);
        let u2 = upper(b[lo + 2]);
        let u3 = upper(b[lo + 3]);
        proof {
            assert(canon =~= seq![u0, u1, u2, u3]);
        }
        if u0 == 82 && u1 == 71 && u2 == 71 && u3 == 66 {
            Ok(BayerPattern::RGGB)
        } else if u0 == 66 && u1 == 71 && u2 == 71 && u3 == 82 {
            Ok(BayerPattern::BGGR)
        } else if u0 == 71 && u1 == 82 && u2 == 66 && u3 == 71 {
            Ok(BayerPattern::GRBG)
        } else if u0 == 71 && u1 == 66 && u2 == 82 && u3 == 71 {
            Ok(BayerPattern::GBRG)
        } else {
            Err(Error::InvalidPatternString)
        }
    }
}

/// Whether `b` is an ASCII whitespace byte.
fn is_ws(b: u8) -> (r: bool)
    ensures
        r == is_ws_byte(b),
{
    b == 32 || b == 9 || b == 10 || b == 12 || b == 13
}

/// `b` folded to ASCII uppercase.
fn upper(b: u8) -> (r: u8)
    ensures
        r == ascii_upper(b),
{
    if 97 <= b && b <= 122 {
        b - 32
    } else {
        b
    }
}

} // verus!
