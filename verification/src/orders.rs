//! Data model of the order ledger: payment methods, order rows, line
//! items, and the result and report shapes the ledger hands back.
//!
//! Monetary amounts are integers in minor currency units, so totals and
//! subtotals are exact.  Each exec type has a view onto a ghost record
//! over `int` and `Seq<char>`; all contracts speak of those views.

use vstd::prelude::*;

use crate::calendar::Date;
use crate::calendar::Timestamp;

verus! {

/// The closed set of accepted payment methods.  Using an enum makes the
/// constraint a matter of typing: no order can carry anything else.
#[derive(Clone, Copy, PartialEq, Eq, Structural, Debug)]
pub enum PaymentMethod {
    Cash,
    Promptpay,
    Card,
}

/// One line of a cart as submitted at sale time.  `item_name` and
/// `price` are snapshots of the catalog item: later menu edits must not
/// alter the recorded sale.  `qty` is a positive count; `price` is the
/// unit price in minor currency units.
#[derive(Clone, Debug)]
pub struct OrderItemInput {
    pub item_id: i32,
    pub item_name: String,
    pub qty: u32,
    pub price: u32,
}

/// Ghost record of one line item.
pub struct LineView {
    pub item_id: int,
    pub item_name: Seq<char>,
    pub qty: int,
    pub price: int,
}

impl View for OrderItemInput {
    type V = LineView;

    open spec fn view(&self) -> LineView {
        LineView {
            item_id: self.item_id as int,
            item_name: self.item_name@,
            qty: self.qty as int,
            price: self.price as int,
        }
    }
}

/// One committed order: the header row together with its line items.
/// `id` is the globally unique identifier; `order_number` is unique
/// only among orders created on the same local calendar day.
#[derive(Clone, Debug)]
pub struct OrderRecord {
    pub id: String,
    pub order_number: u64,
    pub total: u64,
    pub payment_method: PaymentMethod,
    pub cashier_id: String,
    pub cashier_name: String,
    pub created_at: Timestamp,
    pub lines: Vec<OrderItemInput>,
}

/// Ghost record of one committed order.
pub struct OrderView {
    pub id: Seq<char>,
    pub order_number: int,
    pub total: int,
    pub payment_method: PaymentMethod,
    pub cashier_id: Seq<char>,
    pub cashier_name: Seq<char>,
    pub created_at: Timestamp,
    pub lines: Seq<LineView>,
}

impl View for OrderRecord {
    type V = OrderView;

    open spec fn view(&self) -> OrderView {
        OrderView {
            id: self.id@,
            order_number: self.order_number as int,
            total: self.total as int,
            payment_method: self.payment_method,
            cashier_id: self.cashier_id@,
            cashier_name: self.cashier_name@,
            created_at: self.created_at,
            lines: self.lines@.map_values(|l: OrderItemInput| l@),
        }
    }
}

/// Which storage write of a `create_order` attempt fails, if any.  The
/// in-memory store itself cannot fail, so the caller injects the
/// outcome the storage backend reported: `OnLine(k)` makes the `k`-th
/// line insert fail (counted from zero; it fires only when the cart has
/// more than `k` lines).
#[derive(Clone, Copy, PartialEq, Eq, Structural, Debug)]
pub enum WriteFault {
    Absent,
    OnHeader,
    OnLine(usize),
}

/// Whether an injected fault actually interrupts an attempt that
/// writes one header and `n_lines` line rows.
pub open spec fn fault_fires(fault: WriteFault, n_lines: int) -> bool {
    match fault {
        WriteFault::Absent => false,
        WriteFault::OnHeader => true,
        WriteFault::OnLine(k) => k < n_lines,
    }
}

/// The write stage a failed `create_order` attempt reports: the header
/// insert or a line-item insert.  Both resolve to a full rollback.
#[derive(Clone, Copy, PartialEq, Eq, Structural, Debug)]
pub enum OrderError {
    HeaderInsert,
    LineInsert,
}

/// Outcome of a `create_order` attempt.  On success `order_id` and
/// `order_number` are set; on failure `error` names the stage that
/// failed and nothing was persisted.
#[derive(Clone, Debug)]
pub struct CreateOrderResult {
    pub success: bool,
    pub order_id: Option<String>,
    pub order_number: Option<u64>,
    pub error: Option<OrderError>,
}

/// One row of the daily register: an order header plus the sum of its
/// line quantities.
#[derive(Clone, Debug)]
pub struct OrderSummary {
    pub id: String,
    pub order_number: u64,
    pub total: u64,
    pub payment_method: PaymentMethod,
    pub cashier_name: String,
    pub created_at: Timestamp,
    pub item_count: u128,
}

/// Ghost record of one register row.
pub struct SummaryView {
    pub id: Seq<char>,
    pub order_number: int,
    pub total: int,
    pub payment_method: PaymentMethod,
    pub cashier_name: Seq<char>,
    pub created_at: Timestamp,
    pub item_count: int,
}

impl View for OrderSummary {
    type V = SummaryView;

    open spec fn view(&self) -> SummaryView {
        SummaryView {
            id: self.id@,
            order_number: self.order_number as int,
            total: self.total as int,
            payment_method: self.payment_method,
            cashier_name: self.cashier_name@,
            created_at: self.created_at,
            item_count: self.item_count as int,
        }
    }
}

/// One line of a receipt: the stored snapshot fields plus the computed
/// subtotal `qty * price`, exact in minor units.
#[derive(Clone, Debug)]
pub struct OrderItemDetail {
    pub item_id: i32,
    pub item_name: String,
    pub qty: u32,
    pub price: u32,
    pub subtotal: u64,
}

/// Ghost record of one receipt line.
pub struct ItemDetailView {
    pub item_id: int,
    pub item_name: Seq<char>,
    pub qty: int,
    pub price: int,
    pub subtotal: int,
}

impl View for OrderItemDetail {
    type V = ItemDetailView;

    open spec fn view(&self) -> ItemDetailView {
        ItemDetailView {
            item_id: self.item_id as int,
            item_name: self.item_name@,
            qty: self.qty as int,
            price: self.price as int,
            subtotal: self.subtotal as int,
        }
    }
}

/// A full order as shown on a receipt or history view: the header and
/// every line item with its subtotal.
#[derive(Clone, Debug)]
pub struct OrderDetail {
    pub id: String,
    pub order_number: u64,
    pub total: u64,
    pub payment_method: PaymentMethod,
    pub cashier_id: String,
    pub cashier_name: String,
    pub created_at: Timestamp,
    pub items: Vec<OrderItemDetail>,
}

/// Ghost record of a full order detail.
pub struct DetailView {
    pub id: Seq<char>,
    pub order_number: int,
    pub total: int,
    pub payment_method: PaymentMethod,
    pub cashier_id: Seq<char>,
    pub cashier_name: Seq<char>,
    pub created_at: Timestamp,
    pub items: Seq<ItemDetailView>,
}

impl View for OrderDetail {
    type V = DetailView;

    open spec fn view(&self) -> DetailView {
        DetailView {
            id: self.id@,
            order_number: self.order_number as int,
            total: self.total as int,
            payment_method: self.payment_method,
            cashier_id: self.cashier_id@,
            cashier_name: self.cashier_name@,
            created_at: self.created_at,
            items: self.items@.map_values(|l: OrderItemDetail| l@),
        }
    }
}

/// Per-day revenue report: how many orders the day saw, the revenue
/// they brought in, and that revenue broken out by payment method.
/// The wide counters can hold any sum of `u64` totals, so the report
/// is total: no input can overflow it.
#[derive(Clone, Debug)]
pub struct DailySummary {
    pub date: Date,
    pub total_orders: u64,
    pub total_revenue: u128,
    pub cash_total: u128,
    pub promptpay_total: u128,
    pub card_total: u128,
}

} // verus!
