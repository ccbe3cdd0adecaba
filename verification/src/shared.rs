//! Values that several tasks read and change under a lock.
//!
//! Between two calls any task may change such a value, so a contract cannot say
//! what it is when a call begins. It can say what the call found under the lock
//! and what it left there.

use vstd::prelude::*;
use vstd::rwlock::{ReadHandle, RwLock, RwLockPredicate, WriteHandle};

verus! {

/// The lock was made around `v`.
pub open spec fn began<V, P: RwLockPredicate<V>>(lock: RwLock<V, P>, v: V) -> bool {
    exists|p: Ghost<P>| #[trigger] call_ensures(RwLock::<V, P>::new, (v, p), lock)
}

/// A reader found `v` under the lock.
pub open spec fn found<V, P: RwLockPredicate<V>>(lock: RwLock<V, P>, v: V) -> bool {
    exists|h: ReadHandle<'_, V, P>| #[trigger]
        call_ensures(RwLock::<V, P>::acquire_read, (&lock,), h) && h.view() == v
}

/// A writer found `before` under the lock and left `after` there.
pub open spec fn replaced<V, P: RwLockPredicate<V>>(
    lock: RwLock<V, P>,
    before: V,
    after: V,
) -> bool {
    exists|h: WriteHandle<'_, V, P>| #[trigger]
        call_ensures(RwLock::<V, P>::acquire_write, (&lock,), (before, h)) && call_ensures(
            WriteHandle::<'_, V, P>::release_write,
            (h, after),
            (),
        )
}

/// A lock around `v`, with no condition on what it may hold later.
pub fn lock_around<V>(v: V) -> (lock: RwLock<V, Unrestricted>)
    ensures
        began(lock, v),
{
    RwLock::new(v, Ghost(Unrestricted))
}

/// No condition on what a lock holds.
pub struct Unrestricted;

impl<V> RwLockPredicate<V> for Unrestricted {
    open spec fn inv(self, v: V) -> bool {
        true
    }
}

/// What is said to have happened under a lock happened while it was held.
pub proof fn law_lock_evidence<V, P: RwLockPredicate<V>>(lock: RwLock<V, P>, a: V, b: V)
    ensures
        began(lock, a) ==> exists|p: Ghost<P>| #[trigger]
            call_ensures(RwLock::<V, P>::new, (a, p), lock),
        found(lock, a) ==> exists|h: ReadHandle<'_, V, P>| #[trigger]
            call_ensures(RwLock::<V, P>::acquire_read, (&lock,), h) && h.view() == a,
        replaced(lock, a, b) ==> exists|h: WriteHandle<'_, V, P>| #[trigger]
            call_ensures(RwLock::<V, P>::acquire_write, (&lock,), (a, h)) && call_ensures(
                WriteHandle::<'_, V, P>::release_write,
                (h, b),
                (),
            ),
{
}

} // verus!
