//! The kernel pool: a bounded FIFO of idle kernel leases.
//!
//! A lease is a move-only handle naming one kernel instance and its scratch
//! directory; the shell maps the identifiers to the heavyweight objects.  The
//! pool tracks, in ghost state, how many leases were ever constructed and how
//! many are out, and its operations preserve the accounting invariant: the
//! leases out plus the leases idle never exceed the leases constructed.

use vstd::prelude::*;

verus! {

/// The most idle leases the pool will hold.
pub const POOL_MAX: usize = 8;

/// A move-only handle on one kernel instance and its scratch directory.
#[derive(Debug)]
pub struct KernelLease {
    /// Names the kernel instance the shell holds for this lease.
    pub kernel_id: u64,
    /// Names the scratch directory bound to this lease.
    pub scratch_id: u64,
}

/// A bounded FIFO of idle kernel leases.
pub struct KernelPool {
    idle: Vec<KernelLease>,
    constructed: Ghost<nat>,
    outstanding: Ghost<nat>,
}

impl KernelPool {
    /// The idle leases, oldest first.
    pub closed spec fn idle_view(&self) -> Seq<KernelLease> {
        self.idle@
    }

    /// How many leases were ever constructed and registered.
    pub closed spec fn constructed_count(&self) -> nat {
        self.constructed@
    }

    /// How many registered leases are out with a consumer.
    pub closed spec fn outstanding_count(&self) -> nat {
        self.outstanding@
    }

    /// The accounting invariant: no more than `POOL_MAX` leases idle, and
    /// leases out plus leases idle never exceed leases constructed.
    pub open spec fn wf(&self) -> bool {
        &&& self.idle_view().len() <= POOL_MAX
        &&& self.outstanding_count() + self.idle_view().len() <= self.constructed_count()
    }

    /// An empty pool.
    pub fn new() -> (r: KernelPool)
        ensures
            r.wf(),
            r.idle_view().len() == 0,
            r.constructed_count() == 0,
            r.outstanding_count() == 0,
    {
        KernelPool { idle: Vec::new(), constructed: Ghost(0), outstanding: Ghost(0) }
    }

    /// How many idle leases the pool holds.
    pub fn idle_len(&self) -> (r: usize)
        ensures
            r == self.idle_view().len(),
    {
        self.idle.len()
    }

    /// Registers a freshly constructed lease as out with its consumer.
    pub fn register(&mut self, lease: &KernelLease)
        requires
            old(self).wf(),
        ensures
            final(self).wf(),
            final(self).idle_view() == old(self).idle_view(),
            final(self).constructed_count() == old(self).constructed_count() + 1,
            final(self).outstanding_count() == old(self).outstanding_count() + 1,
    {
        proof {
            self.constructed@ = self.constructed@ + 1;
            self.outstanding@ = self.outstanding@ + 1;
        }
    }

    /// Takes the oldest idle lease, if one is there; the caller then holds
    /// it exclusively.
    pub fn lease(&mut self) -> (r: Option<KernelLease>)
        requires
            old(self).wf(),
        ensures
            final(self).wf(),
            final(self).constructed_count() == old(self).constructed_count(),
            old(self).idle_view().len() == 0 ==> r is None && *final(self) == *old(self),
            old(self).idle_view().len() > 0 ==> {
                &&& r matches Some(l) && l == old(self).idle_view()[0]
                &&& final(self).idle_view() == old(self).idle_view().drop_first()
                &&& final(self).outstanding_count() == old(self).outstanding_count() + 1
            },
    {
        if self.idle.len() == 0 {
            return None;
        }
        let lease = self.idle.remove(0);
        proof {
            self.outstanding@ = self.outstanding@ + 1;
            assert(self.idle@ =~= old(self).idle@.drop_first());
        }
        Some(lease)
    }

    /// Returns a lease to the pool: kept as the newest idle lease while
    /// fewer than `POOL_MAX` are idle, dropped otherwise.  The result says
    /// whether the lease was kept; a dropped lease's scratch directory is to
    /// be deleted by the shell.
    pub fn release(&mut self, lease: KernelLease) -> (kept: bool)
        requires
            old(self).wf(),
            old(self).outstanding_count() > 0,
        ensures
            final(self).wf(),
            final(self).constructed_count() == old(self).constructed_count(),
            final(self).outstanding_count() == old(self).outstanding_count() - 1,
            kept == (old(self).idle_view().len() < POOL_MAX),
            kept ==> final(self).idle_view() == old(self).idle_view().push(lease),
            !kept ==> final(self).idle_view() == old(self).idle_view(),
    {
        proof {
            self.outstanding@ = (self.outstanding@ - 1) as nat;
        }
        if self.idle.len() < POOL_MAX {
            self.idle.push(lease);
            true
        } else {
            false
        }
    }
}

/// How many kernel instances to pre-warm the pool with: twice the core
/// count, capped at `POOL_MAX`.
pub fn warm_target(cores: usize) -> (r: usize)
    ensures
        r == if 2 * cores < POOL_MAX {
            2 * cores
        } else {
            POOL_MAX as int
        },
        r <= POOL_MAX,
{
    if cores >= POOL_MAX {
        return POOL_MAX;
    }
    let doubled = cores * 2;
    if doubled < POOL_MAX {
        doubled
    } else {
        POOL_MAX
    }
}

} // verus!
