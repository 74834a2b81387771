//! The snapshot store: a single mutable slot holding a reference-counted,
//! immutable range table. Readers acquire a shared handle to the current
//! snapshot; the loader publishes a freshly built table by swapping the
//! slot. A handle acquired before a publish keeps referring to the table
//! it was given: a published-over table stays alive until the last handle
//! to it is dropped.

use vstd::prelude::*;

use std::sync::Arc;

use crate::addr::IpAddress;
use crate::record::AsRecord;
use crate::table::copied;
use crate::table::lookup_post;
use crate::table::RangeTable;

verus! {

/// Relies on Arc::clone: the returned handle is a new reference to the
/// same underlying table value.
#[verifier::external_body]
fn share_table(t: &Arc<RangeTable>) -> (r: Arc<RangeTable>)
    ensures
        *r == **t,
{
    Arc::clone(t)
}

/// The store: one current table at a time, shared with every handle that
/// [`SnapshotStore::acquire`] has handed out.
pub struct SnapshotStore {
    current: Arc<RangeTable>,
}

impl View for SnapshotStore {
    type V = Seq<AsRecord>;

    /// The contents of the currently served table.
    closed spec fn view(&self) -> Seq<AsRecord> {
        (*self.current)@
    }
}

impl SnapshotStore {
    /// The current table is well-formed.
    pub closed spec fn wf(self) -> bool {
        (*self.current).wf()
    }

    /// Creates a store serving `table` as its initial snapshot.
    pub fn new(table: RangeTable) -> (s: SnapshotStore)
        requires
            table.wf(),
        ensures
            s.wf(),
            s@ == table@,
    {
        SnapshotStore { current: Arc::new(table) }
    }

    /// Returns a shared handle to the table current at the moment of the
    /// call. The handle is stable: it keeps referring to this table, and
    /// keeps this table alive, however many publishes follow.
    pub fn acquire(&self) -> (h: Arc<RangeTable>)
        requires
            self.wf(),
        ensures
            (*h).wf(),
            (*h)@ == self@,
    {
        share_table(&self.current)
    }

    /// Atomically replaces the served table: every later [`Self::acquire`]
    /// sees `table`, while handles acquired earlier are untouched and keep
    /// observing the snapshot they were given.
    pub fn publish(&mut self, table: RangeTable)
        requires
            table.wf(),
        ensures
            final(self).wf(),
            final(self)@ == table@,
    {
        self.current = Arc::new(table);
    }

    /// Looks `addr` up in the current snapshot: acquires the current table
    /// and queries it. The sole query entry point for the request-handling
    /// layer.
    pub fn resolve(&self, addr: &IpAddress) -> (r: Option<&AsRecord>)
        requires
            self.wf(),
        ensures
            lookup_post(self@, *addr, copied(r)),
    {
        (&*self.current).lookup(addr)
    }
}

} // verus!
