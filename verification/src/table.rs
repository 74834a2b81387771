//! The range table: an immutable sequence of AS records, sorted by
//! `first_ip` and pairwise disjoint, answering point-containment queries
//! by binary search.

use vstd::prelude::*;

use crate::addr::addr_le;
use crate::addr::addr_lt;
use crate::addr::IpAddress;
use crate::record::AsRecord;

verus! {

/// Every record in the sequence is well-formed.
pub open spec fn records_wf(s: Seq<AsRecord>) -> bool {
    forall|i: int| 0 <= i < s.len() ==> (#[trigger] s[i]).wf()
}

/// Adjacent records are strictly separated: each record's range ends before
/// the next one begins. Together with [`records_wf`] this makes the whole
/// sequence sorted by `first_ip` and pairwise non-overlapping.
pub open spec fn records_separated(s: Seq<AsRecord>) -> bool {
    forall|i: int, j: int| 0 <= i && i + 1 == j && j < s.len() ==> addr_lt(
        (#[trigger] s[i]).last_ip,
        (#[trigger] s[j]).first_ip,
    )
}

/// A well-formed table: well-formed records, sorted and non-overlapping.
pub open spec fn table_wf(s: Seq<AsRecord>) -> bool {
    records_wf(s) && records_separated(s)
}

/// What a lookup must return: `Some(rec)` exactly when `rec` is a record of
/// the table whose range contains `a`, and `None` exactly when no record's
/// range contains `a`.
pub open spec fn lookup_post(s: Seq<AsRecord>, a: IpAddress, r: Option<AsRecord>) -> bool {
    match r {
        Some(rec) => rec.spec_contains(a) && exists|i: int|
            0 <= i < s.len() && (#[trigger] s[i]) == rec,
        None => forall|i: int| 0 <= i < s.len() ==> !(#[trigger] s[i]).spec_contains(a),
    }
}

/// The record value behind an optional reference, for stating contracts of
/// functions that hand a record out by reference.
pub open spec fn copied(r: Option<&AsRecord>) -> Option<AsRecord> {
    match r {
        Some(rec) => Some(*rec),
        None => None,
    }
}

/// In a well-formed table, any earlier record's range ends strictly before
/// any later record's range begins.
pub proof fn lemma_separated(s: Seq<AsRecord>, i: int, j: int)
    requires
        table_wf(s),
        0 <= i < j < s.len(),
    ensures
        addr_lt(s[i].last_ip, s[j].first_ip),
    decreases j - i,
{
    if i + 1 < j {
        lemma_separated(s, i, j - 1);
        assert(s[j - 1].wf());
    }
}

/// At most one record of a well-formed table contains any given address.
pub proof fn lemma_at_most_one_match(s: Seq<AsRecord>, a: IpAddress, i: int, j: int)
    requires
        table_wf(s),
        0 <= i < s.len(),
        0 <= j < s.len(),
        s[i].spec_contains(a),
        s[j].spec_contains(a),
    ensures
        i == j,
{
    if i < j {
        lemma_separated(s, i, j);
    } else if j < i {
        lemma_separated(s, j, i);
    }
}

/// Lookup against a fixed table is deterministic: any two results that the
/// lookup contract admits for the same table and address are the same.
pub proof fn lemma_lookup_deterministic(
    s: Seq<AsRecord>,
    a: IpAddress,
    r1: Option<AsRecord>,
    r2: Option<AsRecord>,
)
    requires
        table_wf(s),
        lookup_post(s, a, r1),
        lookup_post(s, a, r2),
    ensures
        r1 == r2,
{
    match (r1, r2) {
        (Some(rec1), Some(rec2)) => {
            let i = choose|i: int| 0 <= i < s.len() && (#[trigger] s[i]) == rec1;
            let j = choose|j: int| 0 <= j < s.len() && (#[trigger] s[j]) == rec2;
            lemma_at_most_one_match(s, a, i, j);
        },
        (Some(rec1), None) => {
            let i = choose|i: int| 0 <= i < s.len() && (#[trigger] s[i]) == rec1;
        },
        (None, Some(rec2)) => {
            let j = choose|j: int| 0 <= j < s.len() && (#[trigger] s[j]) == rec2;
        },
        (None, None) => {},
    }
}

/// An empty table answers every lookup with `None`: the lookup contract
/// admits no other result.
pub proof fn lemma_empty_lookup(s: Seq<AsRecord>, a: IpAddress, r: Option<AsRecord>)
    requires
        s.len() == 0,
        lookup_post(s, a, r),
    ensures
        r is None,
{
    if r is Some {
        let i = choose|i: int| 0 <= i < s.len() && (#[trigger] s[i]) == r->Some_0;
    }
}

/// Why a list of records was rejected as a table.
#[derive(Clone, Copy, PartialEq, Eq, Structural, Debug)]
pub enum MalformedTableError {
    /// The record at `index` is malformed: its bounds mix address families,
    /// its IPv4 bound overflows 32 bits, or `first_ip > last_ip`.
    InvalidRange { index: usize },
    /// The record at `index` starts at or before the end of the record
    /// before it: the list is unsorted or the two ranges overlap.
    OutOfOrder { index: usize },
}

/// An immutable, sorted, non-overlapping collection of AS records.
#[derive(Debug)]
pub struct RangeTable {
    records: Vec<AsRecord>,
}

impl View for RangeTable {
    type V = Seq<AsRecord>;

    closed spec fn view(&self) -> Seq<AsRecord> {
        self.records@
    }
}

impl RangeTable {
    /// The table upholds [`table_wf`].
    pub open spec fn wf(self) -> bool {
        table_wf(self@)
    }

    /// Builds a table from records already sorted by `first_ip` with
    /// pairwise disjoint ranges, validating that this is so. Accepts the
    /// list exactly when it forms a well-formed table; on rejection the
    /// error names the first offending record.
    pub fn new(records: Vec<AsRecord>) -> (r: Result<RangeTable, MalformedTableError>)
        ensures
            r is Ok <==> table_wf(records@),
            r matches Ok(t) ==> t@ == records@ && t.wf(),
            r matches Err(e) ==> match e {
                MalformedTableError::InvalidRange { index } => {
                    &&& index < records@.len()
                    &&& !records@[index as int].wf()
                    &&& forall|j: int| 0 <= j < index ==> (#[trigger] records@[j]).wf()
                    &&& forall|j: int, k: int| 0 <= j && j + 1 == k && k < index ==> addr_lt(
                        (#[trigger] records@[j]).last_ip,
                        (#[trigger] records@[k]).first_ip,
                    )
                },
                MalformedTableError::OutOfOrder { index } => {
                    &&& 0 < index < records@.len()
                    &&& !addr_lt(records@[index - 1].last_ip, records@[index as int].first_ip)
                    &&& forall|j: int| 0 <= j <= index ==> (#[trigger] records@[j]).wf()
                    &&& forall|j: int, k: int| 0 <= j && j + 1 == k && k < index ==> addr_lt(
                        (#[trigger] records@[j]).last_ip,
                        (#[trigger] records@[k]).first_ip,
                    )
                },
            },
    {
        let n = records.len();
        let mut i: usize = 0;
        while i < n
            invariant
                n == records@.len(),
                i <= n,
                forall|j: int| 0 <= j < i ==> (#[trigger] records@[j]).wf(),
                forall|j: int, k: int| 0 <= j && j + 1 == k && k < i ==> addr_lt(
                    (#[trigger] records@[j]).last_ip,
                    (#[trigger] records@[k]).first_ip,
                ),
            decreases n - i,
        {
            let rec = &records[i];
            let range_ok = rec.first_ip.is_v6 == rec.last_ip.is_v6
                && rec.first_ip.value <= rec.last_ip.value
                && (rec.first_ip.is_v6 || rec.first_ip.value < 0x1_0000_0000)
                && (rec.last_ip.is_v6 || rec.last_ip.value < 0x1_0000_0000);
            if !range_ok {
                return Err(MalformedTableError::InvalidRange { index: i });
            }
            if i > 0 && !records[i - 1].last_ip.lt(&rec.first_ip) {
                return Err(MalformedTableError::OutOfOrder { index: i });
            }
            i = i + 1;
        }
        Ok(RangeTable { records })
    }

    /// How many records the table holds.
    pub fn len(&self) -> (n: usize)
        ensures
            n == self@.len(),
    {
        self.records.len()
    }

    /// Binary search for the record whose range contains `addr`: find the
    /// last record with `first_ip <= addr`, then check `addr <= last_ip`.
    /// Returns the unique containing record, or `None` when the address
    /// falls in a gap, before the first range, or after the last.
    #[verifier::rlimit(50)]
    pub fn lookup(&self, addr: &IpAddress) -> (r: Option<&AsRecord>)
        requires
            self.wf(),
        ensures
            lookup_post(self@, *addr, copied(r)),
    {
        let mut lo: usize = 0;
        let mut hi: usize = self.records.len();
        while lo < hi
            invariant
                self.wf(),
                lo <= hi <= self@.len(),
                forall|i: int| 0 <= i < lo ==> addr_le((#[trigger] self@[i]).first_ip, *addr),
                forall|i: int| hi <= i < self@.len() ==> !addr_le(
                    (#[trigger] self@[i]).first_ip,
                    *addr,
                ),
            decreases hi - lo,
        {
            let mid = lo + (hi - lo) / 2;
            if self.records[mid].first_ip.le(addr) {
                proof {
                    assert forall|i: int| 0 <= i < mid + 1 implies addr_le(
                        (#[trigger] self@[i]).first_ip,
                        *addr,
                    ) by {
                        if i < mid {
                            lemma_separated(self@, i, mid as int);
                            assert(self@[i].wf());
                        }
                    }
                }
                lo = mid + 1;
            } else {
                proof {
                    assert forall|i: int| mid <= i < self@.len() implies !addr_le(
                        (#[trigger] self@[i]).first_ip,
                        *addr,
                    ) by {
                        if mid < i {
                            lemma_separated(self@, mid as int, i);
                            assert(self@[mid as int].wf());
                        }
                    }
                }
                hi = mid;
            }
        }
        if lo == 0 {
            return None;
        }
        let cand = &self.records[lo - 1];
        if addr.le(&cand.last_ip) {
            Some(cand)
        } else {
            proof {
                assert forall|i: int| 0 <= i < self@.len() implies !(
                #[trigger] self@[i]).spec_contains(*addr) by {
                    if i < lo - 1 {
                        lemma_separated(self@, i, lo - 1);
                    }
                }
            }
            None
        }
    }
}

} // verus!
