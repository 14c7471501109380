//! Shared-mutable cells.
//!
//! `PgCell` holds a copyable value behind a shared reference, under a data
//! invariant that every stored value satisfies. `PgRefCell` hands out
//! dynamically checked borrows. `SyncUnsafeCell` owns a value that is only
//! reached through exclusive access.
use std::cell::{Ref, RefCell, RefMut};
use vstd::cell::invcell::InvCell;
use vstd::prelude::*;

verus! {

/// A cell holding one copyable value that may be read and overwritten through
/// a shared reference. Every value it ever holds satisfies `inv`.
#[verifier::reject_recursive_types(T)]
pub struct PgCell<T> {
    cell: InvCell<T, spec_fn(T) -> bool>,
}

impl<T> PgCell<T> {
    /// The invariant that every value of the cell satisfies.
    pub closed spec fn inv(&self, v: T) -> bool {
        self.cell.inv(v)
    }

    /// A cell holding `x`, under the invariant that admits every value.
    pub fn new(x: T) -> (r: Self)
        ensures
            forall|v: T| r.inv(v),
    {
        PgCell { cell: InvCell::new(x, Ghost(|v: T| true)) }
    }

    /// A cell holding `x`, under the invariant `pred`.
    pub fn new_with_invariant(x: T, Ghost(pred): Ghost<spec_fn(T) -> bool>) -> (r: Self)
        requires
            pred(x),
        ensures
            forall|v: T| r.inv(v) == pred(v),
    {
        PgCell { cell: InvCell::new(x, Ghost(pred)) }
    }
}

impl<T: Copy> PgCell<T> {
    /// The value the cell holds now.
    pub fn get(&self) -> (r: T)
        ensures
            self.inv(r),
    {
        self.cell.get()
    }

    /// Overwrites the value the cell holds.
    pub fn set(&self, value: T)
        requires
            self.inv(value),
    {
        self.cell.set(value)
    }
}

#[verifier::external_type_specification]
#[verifier::external_body]
#[verifier::reject_recursive_types(T)]
pub struct ExRefCell<T: ?Sized>(RefCell<T>);

#[verifier::external_type_specification]
#[verifier::external_body]
#[verifier::reject_recursive_types(T)]
pub struct ExRef<'b, T: ?Sized>(Ref<'b, T>);

#[verifier::external_type_specification]
#[verifier::external_body]
#[verifier::reject_recursive_types(T)]
pub struct ExRefMut<'b, T: ?Sized + 'b>(RefMut<'b, T>);

/// Relies on `RefCell::new`: a cell that is not borrowed.
#[verifier::external_body]
fn ref_cell_new<T>(x: T) -> RefCell<T> {
    RefCell::new(x)
}

/// Relies on `RefCell::try_borrow`: a shared borrow, or `None` while the
/// value is mutably borrowed. It never panics.
#[verifier::external_body]
fn ref_cell_try_borrow<T>(c: &RefCell<T>) -> Option<Ref<'_, T>> {
    c.try_borrow().ok()
}

/// Relies on `RefCell::try_borrow_mut`: an exclusive borrow, or `None` while
/// the value is borrowed in any way. It never panics.
#[verifier::external_body]
fn ref_cell_try_borrow_mut<T>(c: &RefCell<T>) -> Option<RefMut<'_, T>> {
    c.try_borrow_mut().ok()
}

/// A cell holding one value of any shape, with borrows checked when they are
/// taken. A borrow that would overlap a mutable one is refused with `None`
/// instead of being handed out.
#[verifier::reject_recursive_types(T)]
pub struct PgRefCell<T> {
    cell: RefCell<T>,
}

impl<T> PgRefCell<T> {
    /// A cell holding `x`, not borrowed.
    pub fn new(x: T) -> Self {
        PgRefCell { cell: ref_cell_new(x) }
    }

    /// Exclusive access to the value, or `None` while any other borrow is alive.
    pub fn borrow_mut(&self) -> Option<RefMut<'_, T>> {
        ref_cell_try_borrow_mut(&self.cell)
    }

    /// Shared access to the value, or `None` while a mutable borrow is alive.
    pub fn borrow(&self) -> Option<Ref<'_, T>> {
        ref_cell_try_borrow(&self.cell)
    }
}

/// A cell that owns one value and gives access to it only through exclusive
/// ownership of the cell; sharing it across threads is safe because nothing
/// reaches the value through a shared reference but a read.
pub struct SyncUnsafeCell<T> {
    value: T,
}

impl<T> SyncUnsafeCell<T> {
    /// The value the cell holds.
    pub closed spec fn view(&self) -> T {
        self.value
    }

    /// A cell holding `value`.
    pub fn new(value: T) -> (r: Self)
        ensures
            r.view() == value,
    {
        SyncUnsafeCell { value }
    }

    /// Shared access to the value.
    pub fn get(&self) -> (r: &T)
        ensures
            *r == self.view(),
    {
        &self.value
    }

    /// Exclusive access to the value; what is written through it is what the
    /// cell holds afterwards.
    pub fn get_mut(&mut self) -> (r: &mut T)
        ensures
            *r == old(self).view(),
            final(self).view() == *final(r),
    {
        &mut self.value
    }
}

} // verus!
