//! Bounded broadcast bus: a logical append-only multicast log.
//!
//! Publishers append entries; every subscriber holds an independent cursor
//! and reads each entry once, in publish order. The bound does not limit the
//! log's model, it limits how far a subscriber may fall behind: a cursor more
//! than `capacity` entries behind the head observes a lag instead of the next
//! entry, meaning entries it will never see have been dropped for it.

use vstd::prelude::*;

verus! {

/// A bounded multicast log.
pub struct Bus<T> {
    log: Vec<T>,
    capacity: usize,
}

/// One subscriber's read position in a bus's log.
#[derive(Debug, Clone, Copy, PartialEq, Eq, Structural)]
pub struct BusCursor {
    pos: usize,
}

impl BusCursor {
    /// The next log index this cursor will read.
    pub closed spec fn pos(self) -> int {
        self.pos as int
    }

    /// The cursor may read a bus whose log it does not outrun.
    pub open spec fn valid_for<T>(self, bus: Bus<T>) -> bool {
        self.pos() <= bus.entries().len()
    }
}

/// What one receive attempt yields: nothing new yet, a lag (the cursor fell
/// more than the bus's capacity behind and was moved to the oldest entry it
/// can still read), or the index of the entry to read.
#[derive(Debug, Clone, Copy, PartialEq, Eq, Structural)]
pub enum BusPoll {
    Pending,
    Lagged,
    Ready(usize),
}

impl<T> Bus<T> {
    /// Everything published so far, oldest first.
    pub closed spec fn entries(self) -> Seq<T> {
        self.log@
    }

    /// How far a subscriber may fall behind before it lags.
    pub closed spec fn cap(self) -> int {
        self.capacity as int
    }

    /// An empty bus allowing subscribers to fall `capacity` entries behind.
    pub fn new(capacity: usize) -> (r: Self)
        requires
            capacity >= 1,
        ensures
            r.entries() == Seq::<T>::empty(),
            r.cap() == capacity,
    {
        Bus { log: Vec::new(), capacity }
    }

    /// A new subscription, positioned at the head: it sees exactly the
    /// entries published after it was taken.
    pub fn subscribe(&self) -> (c: BusCursor)
        ensures
            c.pos() == self.entries().len(),
    {
        BusCursor { pos: self.log.len() }
    }

    /// Appends one entry; every subscriber behind the head will see it in
    /// this position.
    pub fn publish(&mut self, item: T)
        ensures
            final(self).entries() == old(self).entries().push(item),
            final(self).cap() == old(self).cap(),
    {
        self.log.push(item);
    }

    /// One receive attempt for the subscriber at `cursor`: `Pending` at the
    /// head, `Lagged` when more than `capacity` entries behind (the cursor
    /// jumps to the oldest readable entry), else the index of the next entry,
    /// which the cursor steps past. Per subscriber, successive `Ready`
    /// indexes are consecutive: delivery preserves publish order.
    pub fn poll(&self, cursor: &mut BusCursor) -> (r: BusPoll)
        requires
            old(cursor).valid_for(*self),
        ensures
            final(cursor).valid_for(*self),
            ({
                let len = self.entries().len() as int;
                let p = old(cursor).pos();
                if p >= len {
                    r == BusPoll::Pending && final(cursor).pos() == p
                } else if len - p > self.cap() {
                    r == BusPoll::Lagged && final(cursor).pos() == len - self.cap()
                } else {
                    r == BusPoll::Ready(p as usize) && final(cursor).pos() == p + 1
                }
            }),
    {
        if cursor.pos >= self.log.len() {
            BusPoll::Pending
        } else if self.log.len() - cursor.pos > self.capacity {
            cursor.pos = self.log.len() - self.capacity;
            BusPoll::Lagged
        } else {
            let i = cursor.pos;
            cursor.pos = i + 1;
            BusPoll::Ready(i)
        }
    }

    /// Reads the entry at `i`.
    pub fn get(&self, i: usize) -> (r: &T)
        requires
            i < self.entries().len(),
        ensures
            *r == self.entries()[i as int],
    {
        &self.log[i]
    }

    /// How many entries have been published.
    pub fn len(&self) -> (n: usize)
        ensures
            n == self.entries().len(),
    {
        self.log.len()
    }
}

} // verus!
