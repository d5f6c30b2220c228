//! Shared mutable state: a value behind a reference-counted
//! readers-writer lock.
use vstd::prelude::*;
use vstd::rwlock::{RwLock, RwLockPredicate};
use std::sync::Arc;

verus! {

/// Admits every value.
pub struct AnyValue;

impl<T> RwLockPredicate<T> for AnyValue {
    open spec fn inv(self, v: T) -> bool {
        true
    }
}

/// `Arc::clone`: another handle to the same allocation, which is therefore
/// the same value.
#[verifier::external_body]
fn share_lock<T, P: RwLockPredicate<T>>(lock: &Arc<RwLock<T, P>>) -> (r: Arc<RwLock<T, P>>)
    ensures
        r == *lock,
{
    Arc::clone(lock)
}

/// `Arc::ptr_eq`: whether two handles point to one allocation. Each
/// allocation holds its own lock, and a lock's value carries the identity of
/// its cell, which no other live lock shares; so two handles point to one
/// allocation exactly when their locks are the same value.
#[verifier::external_body]
fn same_allocation<T, P: RwLockPredicate<T>>(a: &Arc<RwLock<T, P>>, b: &Arc<RwLock<T, P>>) -> (r: bool)
    ensures
        r == (*a == *b),
{
    Arc::ptr_eq(a, b)
}

/// A value shared between owners, read and written under a lock; every
/// value it holds satisfies the predicate `P` it was made with.
pub struct SharedMut<T, P: RwLockPredicate<T>>(Arc<RwLock<T, P>>);

impl<T, P: RwLockPredicate<T>> SharedMut<T, P> {
    /// The predicate that every value held satisfies.
    pub closed spec fn pred(&self) -> P {
        self.0.pred()
    }

    /// A new cell holding `value`, which satisfies `pred`.
    pub fn new(value: T, pred: P) -> (r: Self)
        requires
            pred.inv(value),
        ensures
            r.pred() == pred,
    {
        SharedMut(Arc::new(RwLock::new(value, Ghost(pred))))
    }

    /// Runs `f` on the value while holding a read lock; `f` sees a value that
    /// satisfies the predicate.
    pub fn read<F, R>(&self, f: F) -> (r: R)
        where
            F: FnOnce(&T) -> R,
        requires
            forall|v: &T| self.pred().inv(*v) ==> f.requires((v,)),
        ensures
            exists|v: &T| self.pred().inv(*v) && f.ensures((v,), r),
    {
        let handle = self.0.acquire_read();
        let v = handle.borrow();
        assert(self.pred().inv(*v));
        let r = f(v);
        handle.release_read();
        r
    }

    /// Runs `f` on the value while holding the write lock and keeps what `f`
    /// leaves, which must satisfy the predicate again.
    pub fn write<F, R>(&self, f: F) -> (r: R)
        where
            F: FnOnce(&mut T) -> R,
        requires
            forall|v: &mut T| self.pred().inv(*v) ==> f.requires((v,)),
            forall|v: &mut T, res: R| self.pred().inv(*v) && f.ensures((v,), res) ==> self.pred().inv(*final(v)),
        ensures
            exists|v: &mut T| self.pred().inv(*v) && self.pred().inv(*final(v)) && f.ensures((v,), r),
    {
        let (mut value, handle) = self.0.acquire_write();
        let r = f(&mut value);
        handle.release_write(value);
        r
    }

    /// Whether both handles share one cell.
    pub fn ptr_eq(&self, other: &Self) -> (r: bool)
        ensures
            r == (*self == *other),
    {
        same_allocation(&self.0, &other.0)
    }
}

impl<T, P: RwLockPredicate<T>> Clone for SharedMut<T, P> {
    /// Another handle to the same value.
    fn clone(&self) -> (r: Self)
        ensures
            r == *self,
    {
        SharedMut(share_lock(&self.0))
    }
}

} // verus!
