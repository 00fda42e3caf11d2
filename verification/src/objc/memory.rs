//! Retain counts and autorelease pools.

use vstd::prelude::*;
use crate::error::Error;
use crate::objc::ObjC;
use crate::objc::classes::ClassId;
use crate::objc::handle::Handle;
use crate::objc::object_table::{RetainRecord, TableView};
use crate::objc::payload::PayloadView;

verus! {

impl TableView {
    /// Whether `h` can be retained: it must be live.
    pub open spec fn retain_outcome(self, h: Handle) -> Result<(), Error> {
        if self.is_live(h) {
            Ok(())
        } else {
            Err(Error::InvalidHandle)
        }
    }

    /// The table after `h` was retained: a counted live object has one
    /// reference more, and nothing else has changed.
    pub open spec fn retained(self, h: Handle) -> TableView {
        if self.is_live(h) {
            match self.objects[h].retain {
                RetainRecord::Counted(n) => self.with_retain(h, RetainRecord::Counted((n + 1) as u64)),
                RetainRecord::Static => self,
            }
        } else {
            self
        }
    }

    /// What a release of `h` reports: for a live object, whether this release
    /// deallocated it; a failure for a handle that is stale, and another for
    /// one that never was an object.
    pub open spec fn release_outcome(self, h: Handle) -> Result<bool, Error> {
        if self.is_live(h) {
            match self.objects[h].retain {
                RetainRecord::Counted(n) => Ok(n <= 1),
                RetainRecord::Static => Ok(false),
            }
        } else if self.is_stale(h) {
            Err(Error::DoubleRelease)
        } else {
            Err(Error::InvalidHandle)
        }
    }

    /// The table after `h` was released: a counted live object has one
    /// reference less, and is gone with its last one.
    pub open spec fn released(self, h: Handle) -> TableView {
        if self.is_live(h) {
            match self.objects[h].retain {
                RetainRecord::Counted(n) => if n <= 1 {
                    self.removed(h)
                } else {
                    self.with_retain(h, RetainRecord::Counted((n - 1) as u64))
                },
                RetainRecord::Static => self,
            }
        } else {
            self
        }
    }

    /// The table after the handles of `pool` from position `from` on were
    /// released in order, with what the drain reports. The first release that
    /// fails ends the drain, and its failure is the report.
    pub open spec fn drained_from(self, pool: Seq<Handle>, from: int) -> (TableView, Result<(), Error>)
        decreases pool.len() - from,
    {
        if from < 0 || from >= pool.len() {
            (self, Ok(()))
        } else {
            match self.release_outcome(pool[from]) {
                Ok(_) => self.released(pool[from]).drained_from(pool, from + 1),
                Err(e) => (self, Err(e)),
            }
        }
    }

    /// The table after every handle of `pool` was released in order.
    pub open spec fn drained(self, pool: Seq<Handle>) -> (TableView, Result<(), Error>) {
        self.drained_from(pool, 0)
    }
}

impl ObjC {
    /// Adds a reference to a live object. An object outside reference
    /// counting is left as it is.
    pub fn retain(&mut self, handle: Handle) -> (r: Result<(), Error>)
        requires
            old(self).wf(),
            old(self).objects@.is_live(handle) ==> (old(self).objects@.objects[handle].retain matches RetainRecord::Counted(
                n,
            ) ==> n < u64::MAX),
        ensures
            final(self).wf(),
            final(self).classes == old(self).classes,
            final(self).pools == old(self).pools,
            r == old(self).objects@.retain_outcome(handle),
            final(self).objects@ == old(self).objects@.retained(handle),
    {
        match self.objects.retain_record(handle) {
            Err(e) => Err(e),
            Ok(RetainRecord::Static) => Ok(()),
            Ok(RetainRecord::Counted(n)) => {
                self.objects.set_retain_count(handle, n + 1);
                Ok(())
            },
        }
    }

    /// Drops a reference to a live object, and deallocates the object with
    /// its last reference: the handle is stale from then on. Reports whether
    /// the object was deallocated. An object outside reference counting is
    /// left as it is.
    pub fn release(&mut self, handle: Handle) -> (r: Result<bool, Error>)
        requires
            old(self).wf(),
        ensures
            final(self).wf(),
            final(self).classes == old(self).classes,
            final(self).pools == old(self).pools,
            r == old(self).objects@.release_outcome(handle),
            final(self).objects@ == old(self).objects@.released(handle),
    {
        match self.objects.retain_record(handle) {
            Err(_) => {
                if self.objects.was_issued(handle) {
                    Err(Error::DoubleRelease)
                } else {
                    Err(Error::InvalidHandle)
                }
            },
            Ok(RetainRecord::Static) => Ok(false),
            Ok(RetainRecord::Counted(n)) => {
                if n <= 1 {
                    let _ = self.objects.deallocate(handle);
                    Ok(true)
                } else {
                    self.objects.set_retain_count(handle, n - 1);
                    Ok(false)
                }
            },
        }
    }

    /// The number of open pools.
    pub fn pool_depth(&self) -> (n: usize)
        ensures
            n == self.pools_view().len(),
    {
        self.pools.len()
    }

    /// Opens a pool inside the pools that are open.
    pub fn push_pool(&mut self)
        ensures
            final(self).objects == old(self).objects,
            final(self).classes == old(self).classes,
            final(self).pools_view() == old(self).pools_view().push(Seq::<Handle>::empty()),
    {
        self.pools.push(Vec::new());
        assert(self.pools_view() =~= old(self).pools_view().push(Seq::<Handle>::empty()));
    }

    /// Whether an autorelease of `handle` registers it: a pool must be open,
    /// and the handle must be neither null nor an object outside reference
    /// counting.
    pub open spec fn autorelease_registers(&self, handle: Handle) -> bool {
        &&& self.pools_view().len() > 0
        &&& !handle.is_null()
        &&& !(self.objects@.is_live(handle) && self.objects@.objects[handle].retain is Static)
    }

    /// Registers `handle` with the innermost open pool, which releases it
    /// once for this registration when it is drained, and hands the handle
    /// back.
    pub fn autorelease(&mut self, handle: Handle) -> (r: Handle)
        ensures
            r == handle,
            final(self).objects == old(self).objects,
            final(self).classes == old(self).classes,
            final(self).pools_view() == if old(self).autorelease_registers(handle) {
                old(self).pools_view().update(
                    old(self).pools_view().len() - 1,
                    old(self).pools_view().last().push(handle),
                )
            } else {
                old(self).pools_view()
            },
    {
        let depth: usize = self.pools.len();
        if depth == 0 || handle.is_null() {
            return handle;
        }
        match self.objects.retain_record(handle) {
            Ok(RetainRecord::Static) => {
                return handle;
            },
            _ => {},
        }
        self.pools[depth - 1].push(handle);
        assert(self.pools_view() =~= old(self).pools_view().update(
            old(self).pools_view().len() - 1,
            old(self).pools_view().last().push(handle),
        ));
        handle
    }

    /// Closes the innermost pool: releases every handle registered to it, in
    /// the order of registration, once for each registration. The first
    /// release that fails ends the drain and is reported; the pool is closed
    /// all the same.
    pub fn drain_pool(&mut self) -> (r: Result<(), Error>)
        requires
            old(self).wf(),
            old(self).pools_view().len() > 0,
        ensures
            final(self).wf(),
            final(self).classes == old(self).classes,
            final(self).pools_view() == old(self).pools_view().drop_last(),
            (final(self).objects@, r) == old(self).objects@.drained(old(self).pools_view().last()),
    {
        let pool: Vec<Handle> = self.pools.pop().unwrap();
        assert(self.pools_view() =~= old(self).pools_view().drop_last());
        assert(pool@ == old(self).pools_view().last());
        let mut i: usize = 0;
        while i < pool.len()
            invariant
                i <= pool.len(),
                self.wf(),
                self.classes == old(self).classes,
                old(self).pools_view().len() > 0,
                self.pools_view() == old(self).pools_view().drop_last(),
                old(self).objects@.drained(old(self).pools_view().last())
                    == self.objects@.drained_from(pool@, i as int),
            decreases pool.len() - i,
        {
            match self.release(pool[i]) {
                Ok(_) => {},
                Err(e) => {
                    return Err(e);
                },
            }
            i = i + 1;
        }
        Ok(())
    }
}

/// An object that is allocated, retained once and released twice is live
/// after the first release and deallocated by the second, which alone
/// reports a deallocation; a third release fails as a double release.
pub proof fn lemma_allocate_retain_release(table: TableView, class: ClassId, payload: PayloadView)
    requires
        table.wf(),
        table.issued < usize::MAX,
    ensures
        ({
            let h = table.next_handle();
            let allocated = table.allocated(class, payload, RetainRecord::Counted(1));
            let retained = allocated.retained(h);
            let once = retained.released(h);
            let twice = once.released(h);
            &&& !table.is_live(h)
            &&& allocated.is_live(h)
            &&& allocated.retain_outcome(h) == Ok::<(), Error>(())
            &&& retained.is_live(h)
            &&& retained.release_outcome(h) == Ok::<bool, Error>(false)
            &&& once.is_live(h)
            &&& once.release_outcome(h) == Ok::<bool, Error>(true)
            &&& !twice.is_live(h)
            &&& twice.release_outcome(h) == Err::<bool, Error>(Error::DoubleRelease)
            &&& twice.released(h) == twice
            &&& twice.wf()
        }),
{
}

/// A retain followed by a release leaves the table as it was, and
/// deallocates nothing.
pub proof fn lemma_retain_then_release(table: TableView, h: Handle)
    requires
        table.wf(),
        table.is_live(h),
        table.objects[h].retain matches RetainRecord::Counted(n) ==> n < u64::MAX,
    ensures
        table.retained(h).release_outcome(h) == Ok::<bool, Error>(false),
        table.retained(h).released(h) == table,
{
    assert(table.retained(h).released(h) =~= table);
}

/// No release removes an object that is kept outside reference counting: it
/// is live and unchanged after any drain.
pub proof fn lemma_static_survives_drain(table: TableView, pool: Seq<Handle>, from: int, h: Handle)
    requires
        table.is_live(h),
        table.objects[h].retain is Static,
    ensures
        table.drained_from(pool, from).0.is_live(h),
        table.drained_from(pool, from).0.objects[h] == table.objects[h],
    decreases pool.len() - from,
{
    if 0 <= from < pool.len() {
        if table.release_outcome(pool[from]) is Ok {
            lemma_static_survives_drain(table.released(pool[from]), pool, from + 1, h);
        }
    }
}

/// A drain keeps the invariant of the table: no live object is left with a
/// count of zero.
pub proof fn lemma_drain_keeps_invariant(table: TableView, pool: Seq<Handle>, from: int)
    requires
        table.wf(),
    ensures
        table.drained_from(pool, from).0.wf(),
    decreases pool.len() - from,
{
    if 0 <= from < pool.len() {
        if table.release_outcome(pool[from]) is Ok {
            lemma_drain_keeps_invariant(table.released(pool[from]), pool, from + 1);
        }
    }
}

/// A pool releases its handles in the order of registration, once for each
/// registration: the drain of a pool with one more registration at its end
/// is the drain of the pool, followed by one release of that handle if the
/// drain went through.
pub proof fn lemma_drain_with_one_more(table: TableView, pool: Seq<Handle>, h: Handle, from: int)
    requires
        0 <= from <= pool.len(),
    ensures
        table.drained_from(pool.push(h), from) == ({
            let (drained, report) = table.drained_from(pool, from);
            if report is Ok {
                match drained.release_outcome(h) {
                    Ok(_) => (drained.released(h), Ok::<(), Error>(())),
                    Err(e) => (drained, Err::<(), Error>(e)),
                }
            } else {
                (drained, report)
            }
        }),
    decreases pool.len() - from,
{
    let longer = pool.push(h);
    if from < pool.len() {
        assert(longer[from] == pool[from]);
        if table.release_outcome(pool[from]) is Ok {
            lemma_drain_with_one_more(table.released(pool[from]), pool, h, from + 1);
        }
    } else {
        assert(longer[from] == h);
        if table.release_outcome(h) is Ok {
            assert(table.released(h).drained_from(longer, from + 1) == (
                table.released(h),
                Ok::<(), Error>(()),
            ));
        }
    }
}

} // verus!
