//! Tunnel addresses and the fixed pool they are drawn from.

use crate::text::{decimal, decimal_text};
use vstd::prelude::*;
use vstd::string::*;

verus! {

/// An IPv4 address, by its four octets.
#[derive(Clone, Copy, Debug, PartialEq, Eq, Structural)]
pub struct Address {
    pub a: u8,
    pub b: u8,
    pub c: u8,
    pub d: u8,
}

/// Number of addresses in the pool: 255 third octets times 253 fourth octets.
pub const POOL_SIZE: usize = 64515;

/// The pool is `10.0.c.d` with `c` in `0..=254` and `d` in `2..=254`.
pub open spec fn in_pool(addr: Address) -> bool {
    addr.a == 10 && addr.b == 0 && addr.c <= 254 && 2 <= addr.d <= 254
}

impl Address {
    /// The address as one number, most significant octet first. Addresses
    /// are ordered by this number.
    pub open spec fn value(self) -> int {
        self.a as int * 16777216 + self.b as int * 65536 + self.c as int * 256 + self.d as int
    }

    /// The address in dotted decimal, as in `10.0.3.4`.
    pub open spec fn dotted(self) -> Seq<char> {
        decimal(self.a as nat) + seq!['.'] + decimal(self.b as nat) + seq!['.'] + decimal(
            self.c as nat,
        ) + seq!['.'] + decimal(self.d as nat)
    }

    pub fn new(a: u8, b: u8, c: u8, d: u8) -> (addr: Address)
        ensures
            addr == (Address { a, b, c, d }),
    {
        Address { a, b, c, d }
    }

    /// The address as a 32-bit number, as `value` defines it.
    pub fn number(&self) -> (n: u32)
        ensures
            n as int == self.value(),
    {
        let a: u32 = self.a as u32;
        let b: u32 = self.b as u32;
        let c: u32 = self.c as u32;
        let d: u32 = self.d as u32;
        a * 16777216 + b * 65536 + c * 256 + d
    }

    /// Writes the address in dotted decimal.
    pub fn text(&self) -> (text: String)
        ensures
            text@ == self.dotted(),
    {
        proof {
            reveal_strlit(".");
        }
        let mut text = decimal_text(self.a);
        text.append(".");
        text.append(decimal_text(self.b).as_str());
        text.append(".");
        text.append(decimal_text(self.c).as_str());
        text.append(".");
        text.append(decimal_text(self.d).as_str());
        assert(text@ =~= self.dotted());
        text
    }

    /// Whether the address belongs to the pool.
    pub fn is_pooled(&self) -> (r: bool)
        ensures
            r == in_pool(*self),
    {
        self.a == 10 && self.b == 0 && self.c <= 254 && 2 <= self.d && self.d <= 254
    }
}

} // verus!
