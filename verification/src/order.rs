//! The order record, its mathematical model, and the validation rules
//! that guard creation.

use vstd::prelude::*;
use vstd::string::StrSliceExecFns;

verus! {

/// The status of an order. Any status may be set to any other status:
/// no transition graph is enforced.
#[derive(Debug, Clone, Copy, PartialEq, Eq, Structural)]
pub enum OrderStatus {
    Pending,
    Processing,
    Shipped,
    Delivered,
    Cancelled,
}

/// The lowercase wire name of a status.
pub open spec fn status_name(s: OrderStatus) -> Seq<char> {
    match s {
        OrderStatus::Pending => "pending"@,
        OrderStatus::Processing => "processing"@,
        OrderStatus::Shipped => "shipped"@,
        OrderStatus::Delivered => "delivered"@,
        OrderStatus::Cancelled => "cancelled"@,
    }
}

impl OrderStatus {
    /// The lowercase name under which a status appears on the wire.
    pub fn name(&self) -> (s: &'static str)
        ensures
            s@ == status_name(*self),
    {
        match self {
            OrderStatus::Pending => "pending",
            OrderStatus::Processing => "processing",
            OrderStatus::Shipped => "shipped",
            OrderStatus::Delivered => "delivered",
            OrderStatus::Cancelled => "cancelled",
        }
    }
}

/// The field whose value made a creation request invalid.
#[derive(Debug, Clone, Copy, PartialEq, Eq, Structural)]
pub enum ValidationField {
    CustomerName,
    Items,
    TotalAmount,
}

/// Everything that can go wrong with a store operation: a creation request
/// with an invalid field, or a lookup of an identifier that is not present.
#[derive(Debug, Clone, Copy, PartialEq, Eq, Structural)]
pub enum OrderError {
    Validation(ValidationField),
    NotFound,
}

/// The message that describes an error on the wire.
pub open spec fn error_message(e: OrderError) -> Seq<char> {
    match e {
        OrderError::Validation(ValidationField::CustomerName) => "Customer name cannot be empty"@,
        OrderError::Validation(ValidationField::Items) => "Order must contain at least one item"@,
        OrderError::Validation(ValidationField::TotalAmount) => (
            "Total amount must be greater than zero"@
        ),
        OrderError::NotFound => "Order not found"@,
    }
}

/// The body of a status-update request: the status to set.
#[derive(Debug, Clone, Copy, PartialEq, Eq, Structural)]
pub struct UpdateStatusRequest {
    pub status: OrderStatus,
}

/// The body of an error reply.
#[derive(Debug)]
pub struct ErrorResponse {
    pub error: String,
}

impl OrderError {
    /// The message that describes this error.
    pub fn message(&self) -> (s: &'static str)
        ensures
            s@ == error_message(*self),
    {
        match self {
            OrderError::Validation(ValidationField::CustomerName) => "Customer name cannot be empty",
            OrderError::Validation(ValidationField::Items) => "Order must contain at least one item",
            OrderError::Validation(ValidationField::TotalAmount) => "Total amount must be greater than zero",
            OrderError::NotFound => "Order not found",
        }
    }

    /// The error reply body that carries this error's message.
    pub fn response(&self) -> (r: ErrorResponse)
        ensures
            r.error@ == error_message(*self),
    {
        ErrorResponse { error: self.message().to_owned() }
    }
}

/// Whether a character has the Unicode `White_Space` property.
pub open spec fn is_space(c: char) -> bool {
    ||| c as u32 == 0x09
    ||| c as u32 == 0x0A
    ||| c as u32 == 0x0B
    ||| c as u32 == 0x0C
    ||| c as u32 == 0x0D
    ||| c as u32 == 0x20
    ||| c as u32 == 0x85
    ||| c as u32 == 0xA0
    ||| c as u32 == 0x1680
    ||| 0x2000 <= c as u32 <= 0x200A
    ||| c as u32 == 0x2028
    ||| c as u32 == 0x2029
    ||| c as u32 == 0x202F
    ||| c as u32 == 0x205F
    ||| c as u32 == 0x3000
}

/// Whether a string is empty or consists of whitespace alone, so that
/// trimming it would leave nothing.
pub open spec fn blank(s: Seq<char>) -> bool {
    forall|i: int| 0 <= i < s.len() ==> is_space(s[i])
}

fn is_space_char(c: char) -> (b: bool)
    ensures
        b == is_space(c),
{
    let u = c as u32;
    u == 0x09 || u == 0x0A || u == 0x0B || u == 0x0C || u == 0x0D || u == 0x20 || u == 0x85
        || u == 0xA0 || u == 0x1680 || (0x2000 <= u && u <= 0x200A) || u == 0x2028 || u == 0x2029
        || u == 0x202F || u == 0x205F || u == 0x3000
}

/// Whether a customer name would trim to the empty string.
pub fn name_is_blank(s: &str) -> (b: bool)
    ensures
        b == blank(s@),
{
    let len = s.unicode_len();
    let mut i: usize = 0;
    while i < len
        invariant
            i <= len,
            len == s@.len(),
            forall|j: int| 0 <= j < i ==> is_space(s@[j]),
        decreases len - i,
    {
        let c = s.get_char(i);
        if !is_space_char(c) {
            return false;
        }
        i = i + 1;
    }
    true
}

/// The mathematical model of an order record.
pub ghost struct OrderModel {
    pub id: u128,
    pub customer_name: Seq<char>,
    pub items: Seq<Seq<char>>,
    pub total_amount_cents: i64,
    pub status: OrderStatus,
    pub created_at: i64,
    pub updated_at: i64,
}

/// What holds of every order that the store ever held: it was created from
/// valid inputs, and its update timestamp never precedes its creation.
pub open spec fn order_valid(o: OrderModel) -> bool {
    &&& !blank(o.customer_name)
    &&& o.items.len() > 0
    &&& o.total_amount_cents > 0
    &&& o.created_at <= o.updated_at
}

/// An order record. The identifier is assigned by the store at creation and
/// never changes; the amount is in minor currency units (cents); the
/// timestamps are milliseconds of Unix time.
#[derive(Debug)]
pub struct Order {
    pub id: u128,
    pub customer_name: String,
    pub items: Vec<String>,
    pub total_amount_cents: i64,
    pub status: OrderStatus,
    pub created_at: i64,
    pub updated_at: i64,
}

impl View for Order {
    type V = OrderModel;

    open spec fn view(&self) -> OrderModel {
        OrderModel {
            id: self.id,
            customer_name: self.customer_name@,
            items: self.items.deep_view(),
            total_amount_cents: self.total_amount_cents,
            status: self.status,
            created_at: self.created_at,
            updated_at: self.updated_at,
        }
    }
}

fn clone_strings(v: &Vec<String>) -> (r: Vec<String>)
    ensures
        r.deep_view() == v.deep_view(),
{
    let mut r: Vec<String> = Vec::new();
    let mut i: usize = 0;
    while i < v.len()
        invariant
            i <= v.len(),
            r@.len() == i,
            forall|j: int| 0 <= j < i ==> r@[j]@ == v@[j]@,
        decreases v.len() - i,
    {
        r.push(v[i].clone());
        i = i + 1;
    }
    assert(r.deep_view() =~= v.deep_view());
    r
}

impl Clone for Order {
    /// A clone is a fresh record with the same model.
    fn clone(&self) -> (r: Self)
        ensures
            r@ == self@,
    {
        Order {
            id: self.id,
            customer_name: self.customer_name.clone(),
            items: clone_strings(&self.items),
            total_amount_cents: self.total_amount_cents,
            status: self.status,
            created_at: self.created_at,
            updated_at: self.updated_at,
        }
    }
}

} // verus!
