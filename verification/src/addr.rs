//! Network addresses, normalized so that one total order covers both
//! address families: every IPv4 address sorts before every IPv6 address,
//! and within a family addresses sort by their numeric value.

use vstd::prelude::*;

verus! {

/// A parsed network address. An IPv4 address is stored with `is_v6 == false`
/// and its 32-bit value widened into `value`; an IPv6 address is stored with
/// `is_v6 == true` and its full 128-bit value.
#[derive(Clone, Copy, PartialEq, Eq, Structural, Debug)]
pub struct IpAddress {
    pub is_v6: bool,
    pub value: u128,
}

/// Total order on addresses: IPv4 before IPv6, numeric value within a family.
pub open spec fn addr_le(a: IpAddress, b: IpAddress) -> bool {
    if a.is_v6 == b.is_v6 {
        a.value <= b.value
    } else {
        !a.is_v6
    }
}

/// Strict version of [`addr_le`].
pub open spec fn addr_lt(a: IpAddress, b: IpAddress) -> bool {
    if a.is_v6 == b.is_v6 {
        a.value < b.value
    } else {
        !a.is_v6
    }
}

impl IpAddress {
    /// A well-formed IPv4 address fits in 32 bits.
    pub open spec fn wf(self) -> bool {
        !self.is_v6 ==> self.value < 0x1_0000_0000
    }

    /// The IPv4 address with the given 32-bit value.
    pub fn v4(value: u32) -> (a: IpAddress)
        ensures
            a == (IpAddress { is_v6: false, value: value as u128 }),
            a.wf(),
    {
        IpAddress { is_v6: false, value: value as u128 }
    }

    /// The IPv4 address `o1.o2.o3.o4`.
    pub fn v4_from_octets(o1: u8, o2: u8, o3: u8, o4: u8) -> (a: IpAddress)
        ensures
            !a.is_v6,
            a.value == o1 * 0x100_0000 + o2 * 0x1_0000 + o3 * 0x100 + o4,
            a.wf(),
    {
        let value: u32 =
            (o1 as u32) * 0x100_0000 + (o2 as u32) * 0x1_0000 + (o3 as u32) * 0x100 + (o4 as u32);
        IpAddress { is_v6: false, value: value as u128 }
    }

    /// The IPv6 address with the given 128-bit value.
    pub fn v6(value: u128) -> (a: IpAddress)
        ensures
            a == (IpAddress { is_v6: true, value }),
            a.wf(),
    {
        IpAddress { is_v6: true, value }
    }

    /// Whether `self` comes at or before `other` in the normalized order.
    pub fn le(&self, other: &IpAddress) -> (r: bool)
        ensures
            r == addr_le(*self, *other),
    {
        if self.is_v6 == other.is_v6 {
            self.value <= other.value
        } else {
            !self.is_v6
        }
    }

    /// Whether `self` comes strictly before `other` in the normalized order.
    pub fn lt(&self, other: &IpAddress) -> (r: bool)
        ensures
            r == addr_lt(*self, *other),
    {
        if self.is_v6 == other.is_v6 {
            self.value < other.value
        } else {
            !self.is_v6
        }
    }
}

} // verus!
