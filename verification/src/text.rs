//! How chunk and tile indices are written out for people.
use vstd::prelude::*;

use crate::game_world::{ChunkIndex, TileIndex};

verus! {

/// The character of a decimal digit.
pub open spec fn digit_char(d: nat) -> char {
    if d == 0 { '0' } else if d == 1 { '1' } else if d == 2 { '2' } else if d == 3 { '3' }
    else if d == 4 { '4' } else if d == 5 { '5' } else if d == 6 { '6' } else if d == 7 { '7' }
    else if d == 8 { '8' } else { '9' }
}

/// The decimal notation of a number, without leading zeros.
pub open spec fn decimal(n: nat) -> Seq<char>
    decreases n,
{
    if n < 10 {
        seq![digit_char(n)]
    } else {
        decimal(n / 10).push(digit_char(n % 10))
    }
}

/// The one-character string of a decimal digit.
fn digit_str(d: u64) -> (r: &'static str)
    requires
        d < 10,
    ensures
        r@ == seq![digit_char(d as nat)],
{
    proof {
        reveal_strlit("0");
        reveal_strlit("1");
        reveal_strlit("2");
        reveal_strlit("3");
        reveal_strlit("4");
        reveal_strlit("5");
        reveal_strlit("6");
        reveal_strlit("7");
        reveal_strlit("8");
        reveal_strlit("9");
    }
    if d == 0 { "0" } else if d == 1 { "1" } else if d == 2 { "2" } else if d == 3 { "3" }
    else if d == 4 { "4" } else if d == 5 { "5" } else if d == 6 { "6" } else if d == 7 { "7" }
    else if d == 8 { "8" } else { "9" }
}

/// The decimal notation of `n`.
pub fn decimal_string(n: u64) -> (r: String)
    ensures
        r@ == decimal(n as nat),
    decreases n,
{
    if n < 10 {
        String::from_str(digit_str(n))
    } else {
        let mut s = decimal_string(n / 10);
        s.append(digit_str(n % 10));
        s
    }
}

impl ChunkIndex {
    /// The index written out, as in `ChunkIndex(2, 7)`.
    pub fn to_string(&self) -> (r: String)
        ensures
            r@ == "ChunkIndex("@ + decimal(self.0 as nat) + ", "@ + decimal(self.1 as nat) + ")"@,
    {
        let mut s = String::from_str("ChunkIndex(");
        let a = decimal_string(self.0);
        s.append(a.as_str());
        s.append(", ");
        let b = decimal_string(self.1);
        s.append(b.as_str());
        s.append(")");
        s
    }
}

impl TileIndex {
    /// The index written out, as in `TileIndex(2, 7)`.
    pub fn to_string(&self) -> (r: String)
        ensures
            r@ == "TileIndex("@ + decimal(self.0 as nat) + ", "@ + decimal(self.1 as nat) + ")"@,
    {
        let mut s = String::from_str("TileIndex(");
        let a = decimal_string(self.0);
        s.append(a.as_str());
        s.append(", ");
        let b = decimal_string(self.1);
        s.append(b.as_str());
        s.append(")");
        s
    }
}

} // verus!
