//! One announced range and the metadata of the autonomous system that
//! announces it.

use vstd::prelude::*;

use crate::addr::addr_le;
use crate::addr::addr_lt;
use crate::addr::IpAddress;

verus! {

/// An immutable record: the inclusive address range `[first_ip, last_ip]`
/// announced by AS `number`, with its country code and description.
#[derive(Debug)]
pub struct AsRecord {
    pub first_ip: IpAddress,
    pub last_ip: IpAddress,
    pub number: u32,
    pub country: String,
    pub description: String,
}

impl AsRecord {
    /// Both bounds are well-formed, belong to the same address family, and
    /// the range is non-empty (`first_ip <= last_ip`).
    pub open spec fn wf(self) -> bool {
        &&& self.first_ip.wf()
        &&& self.last_ip.wf()
        &&& self.first_ip.is_v6 == self.last_ip.is_v6
        &&& self.first_ip.value <= self.last_ip.value
    }

    /// The address lies within the record's inclusive range. Under the
    /// normalized order this can only hold for addresses of the record's
    /// own family: an IPv4 record never contains an IPv6 address and
    /// vice versa.
    pub open spec fn spec_contains(self, a: IpAddress) -> bool {
        addr_le(self.first_ip, a) && addr_le(a, self.last_ip)
    }

    /// Whether the record's range contains `a`.
    pub fn contains(&self, a: &IpAddress) -> (r: bool)
        ensures
            r == self.spec_contains(*a),
    {
        self.first_ip.le(a) && a.le(&self.last_ip)
    }
}

/// Containment is inclusive at both ends and confined to the record's range
/// and family: a well-formed record contains its own `first_ip` and
/// `last_ip`, contains no address strictly outside `[first_ip, last_ip]`,
/// and contains no address of the other family.
pub proof fn lemma_containment_bounds(r: AsRecord, a: IpAddress)
    requires
        r.wf(),
    ensures
        r.spec_contains(r.first_ip),
        r.spec_contains(r.last_ip),
        addr_lt(a, r.first_ip) ==> !r.spec_contains(a),
        addr_lt(r.last_ip, a) ==> !r.spec_contains(a),
        r.spec_contains(a) ==> a.is_v6 == r.first_ip.is_v6,
{
}

} // verus!
