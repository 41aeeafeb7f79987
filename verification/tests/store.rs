use order_store::order::{OrderError, OrderStatus, UpdateStatusRequest, ValidationField};
use order_store::store::OrderStore;

fn one_item(s: &str) -> Vec<String> {
    vec![s.to_string()]
}

#[test]
fn create_returns_pending_with_equal_timestamps() {
    let mut store = OrderStore::new();
    let order = store
        .create_order("Alice".to_string(), one_item("widget"), 999)
        .expect("valid input must create an order");
    assert!(matches!(order.status, OrderStatus::Pending));
    assert_eq!(order.created_at, order.updated_at);
    assert_eq!(order.customer_name, "Alice");
    assert_eq!(order.items, vec!["widget".to_string()]);
    assert_eq!(order.total_amount_cents, 999);
}

#[test]
fn create_rejects_empty_name() {
    let mut store = OrderStore::new();
    let r = store.create_order(String::new(), one_item("widget"), 999);
    assert_eq!(r.unwrap_err(), OrderError::Validation(ValidationField::CustomerName));
    assert_eq!(store.list_orders().len(), 0);
}

#[test]
fn create_rejects_whitespace_only_name() {
    let mut store = OrderStore::new();
    let r = store.create_order(" \t\n\u{a0} ".to_string(), one_item("widget"), 999);
    assert_eq!(r.unwrap_err(), OrderError::Validation(ValidationField::CustomerName));
    assert_eq!(store.list_orders().len(), 0);
}

#[test]
fn create_rejects_empty_items() {
    let mut store = OrderStore::new();
    let r = store.create_order("Alice".to_string(), Vec::new(), 999);
    assert_eq!(r.unwrap_err(), OrderError::Validation(ValidationField::Items));
    assert_eq!(store.list_orders().len(), 0);
}

#[test]
fn create_rejects_nonpositive_amount() {
    let mut store = OrderStore::new();
    let r = store.create_order("Alice".to_string(), one_item("widget"), 0);
    assert_eq!(r.unwrap_err(), OrderError::Validation(ValidationField::TotalAmount));
    let r = store.create_order("Alice".to_string(), one_item("widget"), -500);
    assert_eq!(r.unwrap_err(), OrderError::Validation(ValidationField::TotalAmount));
    assert_eq!(store.list_orders().len(), 0);
}

#[test]
fn lookups_of_never_issued_id_fail() {
    let mut store = OrderStore::new();
    assert_eq!(store.get_order(42).unwrap_err(), OrderError::NotFound);
    assert_eq!(
        store
            .update_order_status(42, UpdateStatusRequest { status: OrderStatus::Shipped })
            .unwrap_err(),
        OrderError::NotFound
    );
    assert_eq!(store.delete_order(42).unwrap_err(), OrderError::NotFound);
}

#[test]
fn update_sets_status_and_moves_timestamp_forward() {
    let mut store = OrderStore::new();
    let order = store
        .create_order("Alice".to_string(), one_item("widget"), 999)
        .unwrap();
    let before = order.updated_at;
    let updated = store
        .update_order_status(order.id, UpdateStatusRequest { status: OrderStatus::Shipped })
        .expect("the order exists");
    assert!(matches!(updated.status, OrderStatus::Shipped));
    assert!(updated.updated_at >= before);
    assert_eq!(updated.created_at, order.created_at);
    let fetched = store.get_order(order.id).unwrap();
    assert!(matches!(fetched.status, OrderStatus::Shipped));
    assert_eq!(fetched.updated_at, updated.updated_at);
}

#[test]
fn any_status_may_follow_any_other() {
    let mut store = OrderStore::new();
    let order = store
        .create_order("Alice".to_string(), one_item("widget"), 999)
        .unwrap();
    for status in [
        OrderStatus::Delivered,
        OrderStatus::Pending,
        OrderStatus::Cancelled,
        OrderStatus::Processing,
    ] {
        let updated = store
            .update_order_status(order.id, UpdateStatusRequest { status })
            .unwrap();
        assert_eq!(updated.status, status);
    }
}

#[test]
fn delete_then_get_is_not_found() {
    let mut store = OrderStore::new();
    let order = store
        .create_order("Alice".to_string(), one_item("widget"), 999)
        .unwrap();
    store.delete_order(order.id).expect("the order exists");
    assert_eq!(store.get_order(order.id).unwrap_err(), OrderError::NotFound);
    assert_eq!(store.delete_order(order.id).unwrap_err(), OrderError::NotFound);
}

#[test]
fn list_counts_creations_minus_deletions() {
    let mut store = OrderStore::new();
    let mut ids = Vec::new();
    for i in 0..5i64 {
        let order = store
            .create_order(format!("Customer {i}"), one_item("widget"), 100 + i)
            .unwrap();
        ids.push(order.id);
    }
    assert_eq!(store.list_orders().len(), 5);
    store.delete_order(ids[0]).unwrap();
    store.delete_order(ids[3]).unwrap();
    assert_eq!(store.list_orders().len(), 3);
    let listed = store.list_orders();
    for order in &listed {
        assert!(ids.contains(&order.id));
        assert_ne!(order.id, ids[0]);
        assert_ne!(order.id, ids[3]);
    }
}

#[test]
fn many_creations_yield_distinct_ids() {
    let mut store = OrderStore::new();
    let mut ids = Vec::new();
    for i in 0..300i64 {
        let order = store
            .create_order("Alice".to_string(), one_item("widget"), 1 + i)
            .unwrap();
        ids.push(order.id);
    }
    let mut sorted = ids.clone();
    sorted.sort_unstable();
    sorted.dedup();
    assert_eq!(sorted.len(), 300);
    assert_eq!(store.list_orders().len(), 300);
}

#[test]
fn status_names_are_lowercase() {
    assert_eq!(OrderStatus::Pending.name(), "pending");
    assert_eq!(OrderStatus::Processing.name(), "processing");
    assert_eq!(OrderStatus::Shipped.name(), "shipped");
    assert_eq!(OrderStatus::Delivered.name(), "delivered");
    assert_eq!(OrderStatus::Cancelled.name(), "cancelled");
}

#[test]
fn error_messages_match_the_wire_contract() {
    assert_eq!(
        OrderError::Validation(ValidationField::CustomerName).response().error,
        "Customer name cannot be empty"
    );
    assert_eq!(
        OrderError::Validation(ValidationField::Items).response().error,
        "Order must contain at least one item"
    );
    assert_eq!(
        OrderError::Validation(ValidationField::TotalAmount).response().error,
        "Total amount must be greater than zero"
    );
    assert_eq!(OrderError::NotFound.response().error, "Order not found");
}

#[test]
fn end_to_end_order_lifecycle() {
    let mut store = OrderStore::new();
    let order = store
        .create_order("Alice".to_string(), one_item("widget"), 999)
        .expect("valid input");
    assert_eq!(order.status.name(), "pending");
    let first_updated_at = order.updated_at;
    let shipped = store
        .update_order_status(order.id, UpdateStatusRequest { status: OrderStatus::Shipped })
        .expect("the order exists");
    assert_eq!(shipped.status.name(), "shipped");
    assert!(shipped.updated_at >= first_updated_at);
    store.delete_order(order.id).expect("the order exists");
    assert_eq!(store.get_order(order.id).unwrap_err(), OrderError::NotFound);
}
