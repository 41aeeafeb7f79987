//! The store behind a verified reader–writer lock, for use from concurrent
//! request handlers: each operation acquires the lock, runs one atomic store
//! operation, and releases the lock, so no caller ever observes a partial
//! effect.
//!
//! The lock carries the store's invariant, so every acquisition finds a
//! well-formed store. The full per-operation contracts, stated against the
//! store's model, live on [`OrderStore`]; what a concurrent caller can rely
//! on — other callers may run between its calls — is stated here.

use vstd::prelude::*;
use vstd::rwlock::RwLock;
use crate::order::{Order, OrderError, OrderStatus, UpdateStatusRequest, ValidationField, blank,
    order_valid};
use crate::store::OrderStore;

verus! {

/// An order store shared among concurrent callers under one lock.
pub struct SharedOrderStore {
    lock: RwLock<OrderStore, spec_fn(OrderStore) -> bool>,
}

impl SharedOrderStore {
    /// The lock holds exactly the well-formed stores.
    pub closed spec fn wf(&self) -> bool {
        forall|s: OrderStore| self.lock.inv(s) <==> s.wf()
    }

    /// An empty shared store.
    pub fn new() -> (s: Self)
        ensures
            s.wf(),
    {
        let store = OrderStore::new();
        SharedOrderStore { lock: RwLock::new(store, Ghost(|s: OrderStore| s.wf())) }
    }

    /// Create an order atomically. Succeeds exactly on valid input, and the
    /// record comes back as it was stored: status `Pending`, equal
    /// timestamps, the given name, items and amount.
    pub fn create_order(
        &self,
        customer_name: String,
        items: Vec<String>,
        total_amount_cents: i64,
    ) -> (r: Result<Order, OrderError>)
        requires
            self.wf(),
        ensures
            r is Ok <==> (!blank(customer_name@) && items@.len() > 0 && total_amount_cents > 0),
            match r {
                Ok(o) => {
                    &&& o@.customer_name == customer_name@
                    &&& o@.items == items.deep_view()
                    &&& o@.total_amount_cents == total_amount_cents
                    &&& o@.status == OrderStatus::Pending
                    &&& o@.created_at == o@.updated_at
                },
                Err(e) => e == (if blank(customer_name@) {
                    OrderError::Validation(ValidationField::CustomerName)
                } else if items@.len() == 0 {
                    OrderError::Validation(ValidationField::Items)
                } else {
                    OrderError::Validation(ValidationField::TotalAmount)
                }),
            },
    {
        let (mut store, handle) = self.lock.acquire_write();
        let r = store.create_order(customer_name, items, total_amount_cents);
        handle.release_write(store);
        r
    }

    /// Fetch a copy of the record under `id` atomically. Any record that
    /// comes back sits under `id` and is valid.
    pub fn get_order(&self, id: u128) -> (r: Result<Order, OrderError>)
        requires
            self.wf(),
        ensures
            match r {
                Ok(o) => o@.id == id && order_valid(o@),
                Err(e) => e == OrderError::NotFound,
            },
    {
        let read_handle = self.lock.acquire_read();
        let store = read_handle.borrow();
        let r = store.get_order(id);
        proof {
            assert(store.wf());
            if r is Ok {
                assert(store@.orders.contains_key(id));
                assert(store@.orders[id].id == id && order_valid(store@.orders[id]));
            }
        }
        read_handle.release_read();
        r
    }

    /// List a copy of every record atomically: each valid, each under its
    /// own identifier, no identifier twice.
    pub fn list_orders(&self) -> (r: Vec<Order>)
        requires
            self.wf(),
        ensures
            forall|i: int| 0 <= i < r@.len() ==> order_valid(#[trigger] r@[i]@),
            forall|i: int, j: int| 0 <= i < j < r@.len() ==> r@[i]@.id != r@[j]@.id,
    {
        let read_handle = self.lock.acquire_read();
        let store = read_handle.borrow();
        let r = store.list_orders();
        proof {
            assert(store.wf());
            assert forall|i: int| 0 <= i < r@.len() implies order_valid(#[trigger] r@[i]@) by {
                assert(store@.orders.contains_key(r@[i]@.id));
                assert(order_valid(store@.orders[r@[i]@.id]));
            }
        }
        read_handle.release_read();
        r
    }

    /// Set the status of the record under `id` atomically. Any record that
    /// comes back sits under `id`, carries the requested status, and is
    /// valid.
    pub fn update_order_status(&self, id: u128, req: UpdateStatusRequest) -> (r: Result<
        Order,
        OrderError,
    >)
        requires
            self.wf(),
        ensures
            match r {
                Ok(o) => o@.id == id && o@.status == req.status && order_valid(o@),
                Err(e) => e == OrderError::NotFound,
            },
    {
        let (mut store, handle) = self.lock.acquire_write();
        let ghost pre = store;
        let r = store.update_order_status(id, req);
        proof {
            assert(pre.wf());
            if r is Ok {
                assert(pre@.orders.contains_key(id));
                assert(pre@.orders[id].id == id && order_valid(pre@.orders[id]));
            }
        }
        handle.release_write(store);
        r
    }

    /// Remove the record under `id` atomically; the only failure is
    /// `NotFound`.
    pub fn delete_order(&self, id: u128) -> (r: Result<(), OrderError>)
        requires
            self.wf(),
        ensures
            r matches Err(e) ==> e == OrderError::NotFound,
    {
        let (mut store, handle) = self.lock.acquire_write();
        let r = store.delete_order(id);
        handle.release_write(store);
        r
    }
}

} // verus!
