//! The order store: the single owner of all order records, keyed by
//! identifier, with operations to create, fetch, list, set a status and
//! delete.
//!
//! Every mutating operation states its whole effect on the store's model; a
//! set of public lemmas states the laws that relate the operations to each
//! other (fresh identifiers are never reused, a deleted identifier never
//! comes back, counts move by exactly one).

use vstd::prelude::*;
use vstd::std_specs::iter::IteratorSpec;
use std::collections::HashMap;
use crate::order::{Order, OrderModel, OrderStatus, OrderError, ValidationField, UpdateStatusRequest,
    order_valid, blank, name_is_blank};

verus! {

broadcast use vstd::std_specs::hash::group_hash_axioms;

/// Relies on `uuid::Uuid::new_v4`: a version-4 UUID drawn from the process's
/// random source, read as its 128-bit value. The result is random, so nothing
/// is promised of it.
#[verifier::external_body]
fn random_order_id() -> u128 {
    uuid::Uuid::new_v4().as_u128()
}

/// Relies on `chrono::Utc::now`: the system clock, read as milliseconds of
/// Unix time. The clock may move either way between calls, so nothing is
/// promised of the result.
#[verifier::external_body]
fn current_time_millis() -> i64 {
    chrono::Utc::now().timestamp_millis()
}

/// The mathematical model of a store: the current records by identifier, and
/// every identifier that was ever issued, the deleted ones included.
pub ghost struct StoreModel {
    pub orders: Map<u128, OrderModel>,
    pub issued: Set<u128>,
}

/// What holds of every store the library ever hands out: the mapping is
/// finite, every present identifier was issued, every record sits under its
/// own identifier, and every record is valid.
pub open spec fn store_wf(m: StoreModel) -> bool {
    &&& m.orders.dom().finite()
    &&& m.issued.finite()
    &&& forall|k: u128| #[trigger] m.orders.contains_key(k) ==> m.issued.contains(k)
        && m.orders[k].id == k && order_valid(m.orders[k])
}

/// How one `create` call changes the store: the record sits under a
/// never-issued identifier, and that identifier is now issued.
pub open spec fn create_transition(pre: StoreModel, post: StoreModel, o: OrderModel) -> bool {
    &&& !pre.issued.contains(o.id)
    &&& post.orders == pre.orders.insert(o.id, o)
    &&& post.issued == pre.issued.insert(o.id)
}

/// One `delete` call: the record under `id` is gone, but `id` stays issued.
pub open spec fn delete_transition(pre: StoreModel, post: StoreModel, id: u128) -> bool {
    &&& pre.orders.contains_key(id)
    &&& post.orders == pre.orders.remove(id)
    &&& post.issued == pre.issued
}

/// An identifier that was never issued is absent from the mapping, so `get`,
/// `update_status` and `delete` all answer `NotFound` for it.
pub proof fn lemma_never_issued_absent(m: StoreModel, id: u128)
    requires
        store_wf(m),
        !m.issued.contains(id),
    ensures
        !m.orders.contains_key(id),
{
}

/// Two successive creations never hand out the same identifier, whatever
/// identifiers the random source produced.
pub proof fn lemma_created_ids_distinct(
    s0: StoreModel,
    s1: StoreModel,
    s2: StoreModel,
    o1: OrderModel,
    o2: OrderModel,
)
    requires
        create_transition(s0, s1, o1),
        create_transition(s1, s2, o2),
    ensures
        o1.id != o2.id,
{
    assert(s1.issued.contains(o1.id));
}

/// A deleted identifier is permanently unusable: no later creation, however
/// many steps later, returns it again, because deletion keeps it issued and
/// creation avoids every issued identifier.
pub proof fn lemma_deleted_id_never_reissued(
    s0: StoreModel,
    s1: StoreModel,
    s2: StoreModel,
    id: u128,
    o: OrderModel,
)
    requires
        store_wf(s0),
        delete_transition(s0, s1, id),
        create_transition(s1, s2, o),
    ensures
        o.id != id,
{
    assert(s0.issued.contains(id));
}

/// A successful creation grows the mapping by exactly one record.
pub proof fn lemma_create_count(pre: StoreModel, post: StoreModel, o: OrderModel)
    requires
        store_wf(pre),
        create_transition(pre, post, o),
    ensures
        post.orders.len() == pre.orders.len() + 1,
{
    assert(!pre.orders.contains_key(o.id)) by {
        lemma_never_issued_absent(pre, o.id);
    }
    assert(post.orders.dom() =~= pre.orders.dom().insert(o.id));
}

/// A successful deletion shrinks the mapping by exactly one record.
pub proof fn lemma_delete_count(pre: StoreModel, post: StoreModel, id: u128)
    requires
        store_wf(pre),
        delete_transition(pre, post, id),
    ensures
        post.orders.len() == pre.orders.len() - 1,
{
    assert(post.orders.dom() =~= pre.orders.dom().remove(id));
}

/// Any finite set that holds every identifier below `k` has at least `k`
/// elements.
proof fn lemma_prefix_in_set_len(s: Set<u128>, k: nat)
    requires
        s.finite(),
        k <= u128::MAX + 1,
        forall|j: u128| j < k ==> s.contains(j),
    ensures
        s.len() >= k,
    decreases k,
{
    if k > 0 {
        let prev = (k - 1) as u128;
        assert(s.contains(prev));
        let s2 = s.remove(prev);
        assert(forall|j: u128| j < k - 1 ==> s2.contains(j));
        lemma_prefix_in_set_len(s2, (k - 1) as nat);
    }
}

/// By pigeonhole, some identifier among `0 ..= issued.len()` is not issued
/// yet; return the least such. This is the deterministic fallback for the
/// (never yet observed) case that the random source repeats an identifier.
fn fallback_order_id(issued: &HashMap<u128, ()>) -> (id: u128)
    ensures
        !issued@.dom().contains(id),
{
    let n = issued.len();
    let mut i: u128 = 0;
    while i <= n as u128
        invariant
            n as nat == issued@.len(),
            i <= n as u128 + 1,
            forall|j: u128| j < i ==> issued@.dom().contains(j),
        decreases n as u128 + 1 - i,
    {
        if !issued.contains_key(&i) {
            return i;
        }
        i = i + 1;
    }
    proof {
        lemma_prefix_in_set_len(issued@.dom(), i as nat);
        assert(false);
    }
    vstd::pervasive::unreached()
}

/// The order store: exclusive owner of all records. `orders` maps each
/// current identifier to its record; `issued` remembers every identifier
/// ever handed out, so that none is ever issued twice.
pub struct OrderStore {
    orders: HashMap<u128, Order>,
    issued: HashMap<u128, ()>,
}

impl View for OrderStore {
    type V = StoreModel;

    closed spec fn view(&self) -> StoreModel {
        StoreModel {
            orders: self.orders@.map_values(|o: Order| o@),
            issued: self.issued@.dom(),
        }
    }
}

impl OrderStore {
    /// The store's invariant; every operation requires and preserves it.
    pub open spec fn wf(&self) -> bool {
        store_wf(self@)
    }

    /// An empty store.
    pub fn new() -> (s: Self)
        ensures
            s.wf(),
            s@.orders == Map::<u128, OrderModel>::empty(),
            s@.issued == Set::<u128>::empty(),
    {
        let s = OrderStore { orders: HashMap::new(), issued: HashMap::new() };
        proof {
            assert(s@.orders =~= Map::<u128, OrderModel>::empty());
            assert(s@.issued =~= Set::<u128>::empty());
        }
        s
    }

    /// Create an order: validate the request, issue a fresh identifier, and
    /// store the new record with status `Pending` and equal timestamps.
    ///
    /// Succeeds exactly on valid input (name not blank, at least one item, a
    /// positive amount); on invalid input the error names the first offending
    /// field and the store is unchanged.
    pub fn create_order(
        &mut self,
        customer_name: String,
        items: Vec<String>,
        total_amount_cents: i64,
    ) -> (r: Result<Order, OrderError>)
        requires
            old(self).wf(),
        ensures
            final(self).wf(),
            r is Ok <==> (!blank(customer_name@) && items@.len() > 0 && total_amount_cents > 0),
            match r {
                Ok(o) => {
                    &&& create_transition(old(self)@, final(self)@, o@)
                    &&& o@.customer_name == customer_name@
                    &&& o@.items == items.deep_view()
                    &&& o@.total_amount_cents == total_amount_cents
                    &&& o@.status == OrderStatus::Pending
                    &&& o@.created_at == o@.updated_at
                },
                Err(e) => {
                    &&& final(self)@ == old(self)@
                    &&& e == (if blank(customer_name@) {
                        OrderError::Validation(ValidationField::CustomerName)
                    } else if items@.len() == 0 {
                        OrderError::Validation(ValidationField::Items)
                    } else {
                        OrderError::Validation(ValidationField::TotalAmount)
                    })
                },
            },
    {
        if name_is_blank(customer_name.as_str()) {
            return Err(OrderError::Validation(ValidationField::CustomerName));
        }
        if items.len() == 0 {
            return Err(OrderError::Validation(ValidationField::Items));
        }
        if total_amount_cents <= 0 {
            return Err(OrderError::Validation(ValidationField::TotalAmount));
        }
        let mut id = random_order_id();
        if self.issued.contains_key(&id) {
            id = fallback_order_id(&self.issued);
        }
        let now = current_time_millis();
        let order = Order {
            id,
            customer_name,
            items,
            total_amount_cents,
            status: OrderStatus::Pending,
            created_at: now,
            updated_at: now,
        };
        let copy = order.clone();
        self.issued.insert(id, ());
        self.orders.insert(id, order);
        proof {
            assert(self@.orders =~= old(self)@.orders.insert(id, order@));
            assert(self@.issued =~= old(self)@.issued.insert(id));
            assert(self.wf());
        }
        Ok(copy)
    }

    /// Fetch a copy of the record under `id`; `NotFound` exactly when no
    /// record is under it. The store is unchanged.
    pub fn get_order(&self, id: u128) -> (r: Result<Order, OrderError>)
        ensures
            r is Ok <==> self@.orders.contains_key(id),
            match r {
                Ok(o) => self@.orders.contains_key(id) && o@ == self@.orders[id],
                Err(e) => e == OrderError::NotFound && !self@.orders.contains_key(id),
            },
    {
        match self.orders.get(&id) {
            Some(o) => Ok(o.clone()),
            None => Err(OrderError::NotFound),
        }
    }

    /// List a copy of every current record, each exactly once, in no
    /// promised order. The store is unchanged.
    pub fn list_orders(&self) -> (r: Vec<Order>)
        requires
            self.wf(),
        ensures
            r@.len() == self@.orders.len(),
            forall|i: int|
                0 <= i < r@.len() ==> self@.orders.contains_key(#[trigger] r@[i]@.id)
                    && self@.orders[r@[i]@.id] == r@[i]@,
            forall|i: int, j: int| 0 <= i < j < r@.len() ==> r@[i]@.id != r@[j]@.id,
            forall|k: u128|
                #[trigger] self@.orders.contains_key(k) ==> exists|i: int|
                    0 <= i < r@.len() && r@[i]@.id == k,
    {
        let mut r: Vec<Order> = Vec::new();
        for pair in it: self.orders.iter()
            invariant
                r@.len() == it.index(),
                it.seq() == self.orders.iter().remaining(),
                it.seq().no_duplicates(),
                forall|i: int| 0 <= i < r@.len() ==> r@[i]@ == #[trigger] it.seq()[i].1@,
        {
            r.push(pair.1.clone());
        }
        proof {
            vstd::std_specs::hash::axiom_spec_hash_map_iter(&self.orders);
            let v = self.orders.iter().remaining();
            assert(self@.orders.dom() =~= self.orders@.dom());
            assert(r@.len() == v.len());
            assert forall|i: int|
                0 <= i < r@.len() implies self@.orders.contains_key(#[trigger] r@[i]@.id)
                    && self@.orders[r@[i]@.id] == r@[i]@ by {
                assert(self.orders@.contains_key(*v[i].0) && self.orders@[*v[i].0] == *v[i].1);
                assert(self@.orders[*v[i].0] == v[i].1@);
                assert(r@[i]@.id == *v[i].0);
            }
            assert forall|k: u128| #[trigger] self@.orders.contains_key(k) implies exists|i: int|
                0 <= i < r@.len() && r@[i]@.id == k by {
                assert(self.orders@.contains_key(k));
                assert(v.contains((&k, &self.orders@[k])));
                let i = choose|i: int| 0 <= i < v.len() && v[i] == (&k, &self.orders@[k]);
                assert(self@.orders[k] == self.orders@[k]@);
                assert(r@[i]@ == v[i].1@);
                assert(v[i].1@ == self.orders@[k]@);
                assert(self@.orders[k].id == k);
                assert(r@[i]@.id == k);
            }
            assert forall|i: int, j: int| 0 <= i < j < r@.len() implies r@[i]@.id != r@[j]@.id by {
                if r@[i]@.id == r@[j]@.id {
                    assert(self.orders@.contains_key(*v[i].0) && self.orders@[*v[i].0] == *v[i].1);
                    assert(self.orders@.contains_key(*v[j].0) && self.orders@[*v[j].0] == *v[j].1);
                    assert(*v[i].0 == r@[i]@.id && *v[j].0 == r@[j]@.id);
                    assert(*v[i].1 == *v[j].1);
                    assert(v[i] == v[j]);
                    assert(false);
                }
            }
        }
        r
    }

    /// Set the status of the record under `id` — any status may be set, no
    /// transition graph is enforced — move its update timestamp forward, and
    /// return a copy of the new record. `NotFound` exactly when no record is
    /// under `id`, and then the store is unchanged.
    pub fn update_order_status(&mut self, id: u128, req: UpdateStatusRequest) -> (r: Result<
        Order,
        OrderError,
    >)
        requires
            old(self).wf(),
        ensures
            final(self).wf(),
            final(self)@.issued == old(self)@.issued,
            r is Ok <==> old(self)@.orders.contains_key(id),
            match r {
                Ok(o) => {
                    &&& final(self)@.orders == old(self)@.orders.insert(id, o@)
                    &&& o@ == OrderModel { status: req.status, updated_at: o@.updated_at, ..old(self)@.orders[id] }
                    &&& o@.updated_at >= old(self)@.orders[id].updated_at
                },
                Err(e) => e == OrderError::NotFound && final(self)@ == old(self)@,
            },
    {
        let stored = match self.orders.get(&id) {
            Some(o) => o.clone(),
            None => { return Err(OrderError::NotFound); },
        };
        proof {
            assert(old(self)@.orders.contains_key(id));
            assert(stored@ == old(self)@.orders[id]);
        }
        let mut updated = stored;
        updated.status = req.status;
        let now = current_time_millis();
        if now > updated.updated_at {
            updated.updated_at = now;
        }
        let copy = updated.clone();
        self.orders.insert(id, updated);
        proof {
            assert(self@.orders =~= old(self)@.orders.insert(id, updated@));
            assert(self@.issued =~= old(self)@.issued);
            assert(self.wf());
        }
        Ok(copy)
    }

    /// Remove the record under `id` irreversibly; its identifier stays
    /// issued, so it can never be used again. `NotFound` exactly when no
    /// record is under `id`, and then the store is unchanged.
    pub fn delete_order(&mut self, id: u128) -> (r: Result<(), OrderError>)
        requires
            old(self).wf(),
        ensures
            final(self).wf(),
            r is Ok <==> old(self)@.orders.contains_key(id),
            match r {
                Ok(_) => delete_transition(old(self)@, final(self)@, id),
                Err(e) => e == OrderError::NotFound && final(self)@ == old(self)@,
            },
    {
        let removed = self.orders.remove(&id);
        proof {
            assert(self.orders@ == old(self).orders@.remove(id));
            assert(self@.orders =~= old(self)@.orders.remove(id));
            assert(self@.issued =~= old(self)@.issued);
            assert(self.wf());
            if !old(self).orders@.contains_key(id) {
                assert(self@.orders =~= old(self)@.orders);
            }
        }
        match removed {
            Some(_) => Ok(()),
            None => Err(OrderError::NotFound),
        }
    }
}

} // verus!
