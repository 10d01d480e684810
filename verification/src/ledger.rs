//! The order ledger: an in-memory store of committed orders with the
//! four operations the surrounding application calls.
//!
//! The store stands for the order tables of the storage backend; the
//! surrounding application owns the actual connection and feeds the
//! ledger the outcome of each write (see `WriteFault`).  Every
//! operation's contract is stated against the ledger's view, a
//! `Seq<OrderView>` in creation order, and every write preserves the
//! ledger invariant `ledger_wf`.

use vstd::prelude::*;

use crate::calendar::Date;
use crate::calendar::Timestamp;
use crate::calendar::now_local;
use crate::model::contains_id;
use crate::model::day_orders;
use crate::model::day_orders_desc;
use crate::model::detail_of;
use crate::model::item_detail_of;
use crate::model::ledger_wf;
use crate::model::lemma_day_len;
use crate::model::lemma_day_orders_wf;
use crate::model::lemma_desc_add;
use crate::model::lemma_max_is_count;
use crate::model::lemma_methods_partition;
use crate::model::lemma_mul_fits_u128;
use crate::model::lemma_sum_method_le;
use crate::model::lemma_sum_qty_bound;
use crate::model::lemma_sum_total_bound;
use crate::model::listing;
use crate::model::made_order;
use crate::model::max_number;
use crate::model::next_number;
use crate::model::order_wf;
use crate::model::sum_method;
use crate::model::sum_qty;
use crate::model::sum_total;
use crate::model::summary_of;
use crate::orders::CreateOrderResult;
use crate::orders::DailySummary;
use crate::orders::LineView;
use crate::orders::OrderDetail;
use crate::orders::OrderError;
use crate::orders::OrderItemDetail;
use crate::orders::OrderItemInput;
use crate::orders::OrderRecord;
use crate::orders::OrderSummary;
use crate::orders::OrderView;
use crate::orders::PaymentMethod;
use crate::orders::WriteFault;
use crate::orders::fault_fires;

verus! {

/// The committed orders, in creation order.
pub struct Ledger {
    orders: Vec<OrderRecord>,
}

impl View for Ledger {
    type V = Seq<OrderView>;

    closed spec fn view(&self) -> Seq<OrderView> {
        self.orders@.map_values(|o: OrderRecord| o@)
    }
}

impl Ledger {
    /// The ledger invariant holds of the current state.
    pub open spec fn wf(self) -> bool {
        ledger_wf(self@)
    }

    /// An empty ledger: no orders recorded yet.
    pub fn new() -> (l: Ledger)
        ensures
            l@ == Seq::<OrderView>::empty(),
            l.wf(),
    {
        let l = Ledger { orders: Vec::new() };
        proof {
            assert(l@ =~= Seq::<OrderView>::empty());
        }
        l
    }

    /// Whether some committed order carries this identifier.
    fn contains_id_exec(&self, id: &String) -> (b: bool)
        ensures
            b == contains_id(self@, id@),
    {
        let len = self.orders.len();
        let mut i: usize = 0;
        while i < len
            invariant
                0 <= i <= len,
                len == self@.len(),
                len == self.orders@.len(),
                forall|j: int| 0 <= j < i ==> (#[trigger] self@[j]).id != id@,
            decreases len - i,
        {
            if self.orders[i].id == *id {
                proof {
                    assert(self@[i as int].id == id@);
                }
                return true;
            }
            i += 1;
        }
        false
    }

    /// The number the next order of day `date` gets: one more than the
    /// greatest number already recorded that day, 1 if the day is
    /// empty.  Under the ledger invariant that is one more than the
    /// count of the day's orders.
    pub fn next_order_number(&self, date: Date) -> (n: u64)
        requires
            self.wf(),
            self@.len() < u64::MAX,
        ensures
            n == next_number(self@, date),
            n == day_orders(self@, date).len() + 1,
    {
        let len = self.orders.len();
        let mut m: u64 = 0;
        let mut i: usize = 0;
        while i < len
            invariant
                0 <= i <= len,
                len == self@.len(),
                len == self.orders@.len(),
                m == max_number(self@.take(i as int), date),
            decreases len - i,
        {
            let rec = &self.orders[i];
            proof {
                assert(self@.take(i + 1).drop_last() =~= self@.take(i as int));
                assert(self@.take(i + 1).last() == self@[i as int]);
            }
            if rec.created_at.date == date && rec.order_number > m {
                m = rec.order_number;
            }
            i += 1;
        }
        proof {
            assert(self@.take(len as int) =~= self@);
            lemma_max_is_count(self@, date);
            lemma_day_len(self@, date);
        }
        m + 1
    }

    /// Records one completed sale under a caller-supplied identifier:
    /// allocates the day's next sequence number, then writes the
    /// header and the line items as one atomic unit.  The attempt
    /// succeeds exactly when no injected fault fires and the
    /// identifier is not already taken (the header row's primary key);
    /// on any failure nothing is persisted and the error names the
    /// stage that failed.
    pub fn create_order_with_id(
        &mut self,
        order_id: String,
        items: Vec<OrderItemInput>,
        total: u64,
        payment_method: PaymentMethod,
        cashier_id: String,
        cashier_name: String,
        now: Timestamp,
        fault: WriteFault,
    ) -> (r: CreateOrderResult)
        requires
            old(self).wf(),
            old(self)@.len() < u64::MAX,
            now.wf(),
            forall|i: int| 0 <= i < items@.len() ==> 1 <= (#[trigger] items@[i]).qty,
        ensures
            final(self).wf(),
            r.success <==> !fault_fires(fault, items@.len() as int)
                && !contains_id(old(self)@, order_id@),
            r.success ==> final(self)@ == old(self)@.push(
                made_order(
                    order_id@,
                    next_number(old(self)@, now.date),
                    total as int,
                    payment_method,
                    cashier_id@,
                    cashier_name@,
                    now,
                    items@.map_values(|l: OrderItemInput| l@),
                ),
            ),
            r.success ==> (r.order_id matches Some(oid) && oid@ == order_id@),
            r.success ==> (r.order_number matches Some(n)
                && n == next_number(old(self)@, now.date)
                && n == day_orders(old(self)@, now.date).len() + 1),
            r.success ==> r.error is None,
            !r.success ==> final(self)@ == old(self)@,
            !r.success ==> r.order_id is None && r.order_number is None,
            r.error is Some <==> !r.success,
            r.error == Some(OrderError::HeaderInsert) <==> (fault == WriteFault::OnHeader
                || contains_id(old(self)@, order_id@)),
            r.error == Some(OrderError::LineInsert) <==> (fault != WriteFault::OnHeader
                && !contains_id(old(self)@, order_id@)
                && fault_fires(fault, items@.len() as int)),
    {
        let ghost s0 = self@;
        let n = self.next_order_number(now.date);

        let header_fails = matches!(fault, WriteFault::OnHeader) || self.contains_id_exec(&order_id);
        if header_fails {
            return CreateOrderResult {
                success: false,
                order_id: None,
                order_number: None,
                error: Some(OrderError::HeaderInsert),
            };
        }

        if let WriteFault::OnLine(k) = fault {
            if k < items.len() {
                return CreateOrderResult {
                    success: false,
                    order_id: None,
                    order_number: None,
                    error: Some(OrderError::LineInsert),
                };
            }
        }

        let id_out = order_id.clone();
        let rec = OrderRecord {
            id: order_id,
            order_number: n,
            total: total,
            payment_method: payment_method,
            cashier_id: cashier_id,
            cashier_name: cashier_name,
            created_at: now,
            lines: items,
        };
        self.orders.push(rec);

        proof {
            let o = made_order(
                order_id@,
                next_number(s0, now.date),
                total as int,
                payment_method,
                cashier_id@,
                cashier_name@,
                now,
                items@.map_values(|l: OrderItemInput| l@),
            );
            assert(self@ =~= s0.push(o));
            self.lemma_push_preserves_wf(s0, o);
        }

        CreateOrderResult {
            success: true,
            order_id: Some(id_out),
            order_number: Some(n),
            error: None,
        }
    }

    /// The pushed order keeps the ledger invariant: its identifier is
    /// fresh, its number is the day's next, and its fields are within
    /// range.
    proof fn lemma_push_preserves_wf(&self, s0: Seq<OrderView>, o: OrderView)
        requires
            self@ == s0.push(o),
            ledger_wf(s0),
            !contains_id(s0, o.id),
            o.order_number == day_orders(s0, o.created_at.date).len() + 1,
            o.order_number <= u64::MAX,
            0 <= o.total <= u64::MAX,
            o.created_at.wf(),
            forall|i: int| 0 <= i < o.lines.len() ==>
                1 <= (#[trigger] o.lines[i]).qty <= u32::MAX
                && 0 <= o.lines[i].price <= u32::MAX,
        ensures
            self.wf(),
    {
        let s = self@;
        let len = s0.len() as int;
        assert forall|i: int, j: int|
            #![trigger s[i], s[j]]
            0 <= i < j < s.len() implies s[i].id != s[j].id by {
            if j < len {
                assert(s0[i].id != s0[j].id);
            } else {
                assert(s[j] == o);
                assert(!(exists|k: int| 0 <= k < s0.len() && (#[trigger] s0[k]).id == o.id));
                assert(s0[i].id != o.id);
            }
        }
        assert forall|i: int| 0 <= i < s.len() implies
            (#[trigger] s[i]).order_number
                == day_orders(s.take(i), s[i].created_at.date).len() + 1 by {
            if i < len {
                assert(s.take(i) =~= s0.take(i));
                assert(s0[i].order_number == day_orders(s0.take(i), s0[i].created_at.date).len() + 1);
            } else {
                assert(s[i] == o);
                assert(s.take(i) =~= s0);
            }
        }
        assert forall|i: int| 0 <= i < s.len() implies
            crate::model::order_wf(#[trigger] s[i]) by {
            if i < len {
                assert(crate::model::order_wf(s0[i]));
            }
        }
    }

    /// Records one completed sale: draws a fresh globally unique
    /// identifier, then proceeds as `create_order_with_id`.  Whatever
    /// identifier the generator returned, a failed attempt leaves the
    /// ledger exactly as it was, and the error still names the stage
    /// an injected fault hit.  Success is owed whenever no fault fires
    /// and no stored identifier is 36 characters long — then the drawn
    /// identifier cannot collide with anything stored.
    pub fn create_order(
        &mut self,
        items: Vec<OrderItemInput>,
        total: u64,
        payment_method: PaymentMethod,
        cashier_id: String,
        cashier_name: String,
        now: Timestamp,
        fault: WriteFault,
    ) -> (r: CreateOrderResult)
        requires
            old(self).wf(),
            old(self)@.len() < u64::MAX,
            now.wf(),
            forall|i: int| 0 <= i < items@.len() ==> 1 <= (#[trigger] items@[i]).qty,
        ensures
            final(self).wf(),
            fault_fires(fault, items@.len() as int) ==> !r.success,
            (!fault_fires(fault, items@.len() as int) && (forall|j: int|
                0 <= j < old(self)@.len() ==> (#[trigger] old(self)@[j]).id.len() != 36))
                ==> r.success,
            !r.success ==> final(self)@ == old(self)@,
            !r.success ==> r.order_id is None && r.order_number is None && r.error is Some,
            fault == WriteFault::OnHeader ==> r.error == Some(OrderError::HeaderInsert),
            r.error == Some(OrderError::LineInsert) ==> fault != WriteFault::OnHeader
                && fault_fires(fault, items@.len() as int),
            r.success ==> r.error is None,
            r.success ==> (r.order_id matches Some(oid)
                && oid@.len() == 36
                && !contains_id(old(self)@, oid@)
                && final(self)@ == old(self)@.push(
                    made_order(
                        oid@,
                        next_number(old(self)@, now.date),
                        total as int,
                        payment_method,
                        cashier_id@,
                        cashier_name@,
                        now,
                        items@.map_values(|l: OrderItemInput| l@),
                    ),
                )),
            r.success ==> (r.order_number matches Some(n)
                && n == next_number(old(self)@, now.date)
                && n == day_orders(old(self)@, now.date).len() + 1),
    {
        let ghost s0 = self@;
        let id = fresh_order_id();
        proof {
            if (forall|j: int| 0 <= j < s0.len() ==> (#[trigger] s0[j]).id.len() != 36)
                && contains_id(s0, id@) {
                let j = choose|j: int| 0 <= j < s0.len() && (#[trigger] s0[j]).id == id@;
                assert(s0[j].id.len() != 36);
                assert(s0[j].id == id@);
                assert(id@.len() == 36);
                assert(false);
            }
        }
        self.create_order_with_id(id, items, total, payment_method, cashier_id, cashier_name, now, fault)
    }

    /// The register rows for the orders of one day, most recent first.
    #[verifier::rlimit(30)]
    fn list_day(&self, d: Date) -> (v: Vec<OrderSummary>)
        requires
            self.wf(),
        ensures
            v@.map_values(|o: OrderSummary| o@) == listing(self@, d),
    {
        let mut v: Vec<OrderSummary> = Vec::new();
        let mut i: usize = self.orders.len();
        proof {
            assert(self@.skip(i as int) =~= Seq::<OrderView>::empty());
            assert(v@.map_values(|o: OrderSummary| o@)
                =~= listing(self@.skip(i as int), d));
        }
        while i > 0
            invariant
                0 <= i <= self@.len(),
                self@.len() == self.orders@.len(),
                self.wf(),
                v@.map_values(|o: OrderSummary| o@) == listing(self@.skip(i as int), d),
            decreases i,
        {
            i -= 1;
            let ghost prev = self@.skip(i as int + 1);
            let ghost ov = self@[i as int];
            proof {
                assert(self@.skip(i as int) =~= seq![ov] + prev);
                lemma_desc_add(seq![ov], prev, d);
                assert(seq![ov].len() == 1);
                assert(seq![ov].drop_last() =~= Seq::<OrderView>::empty());
                assert(day_orders_desc(Seq::<OrderView>::empty(), d)
                    =~= Seq::<OrderView>::empty());
                assert(seq![ov].last() == ov);
                if ov.created_at.date == d {
                    assert(day_orders_desc(seq![ov], d)
                        == seq![ov] + day_orders_desc(seq![ov].drop_last(), d));
                    assert(day_orders_desc(seq![ov], d) =~= seq![ov]);
                    assert(day_orders_desc(self@.skip(i as int), d)
                        =~= day_orders_desc(prev, d).push(ov));
                } else {
                    assert(day_orders_desc(seq![ov], d)
                        == day_orders_desc(seq![ov].drop_last(), d));
                    assert(day_orders_desc(seq![ov], d) =~= Seq::<OrderView>::empty());
                    assert(day_orders_desc(self@.skip(i as int), d)
                        =~= day_orders_desc(prev, d));
                }
            }
            let rec = &self.orders[i];
            if rec.created_at.date == d {
                let count = sum_qty_exec(&rec.lines);
                let row = OrderSummary {
                    id: rec.id.clone(),
                    order_number: rec.order_number,
                    total: rec.total,
                    payment_method: rec.payment_method,
                    cashier_name: rec.cashier_name.clone(),
                    created_at: rec.created_at,
                    item_count: count,
                };
                let ghost vh = v@;
                v.push(row);
                proof {
                    assert(ov.lines == self.orders@[i as int].lines@.map_values(|l: OrderItemInput| l@));
                    assert(v@ == vh.push(row));
                    assert(row@ == summary_of(ov));
                    assert(v@.map_values(|o: OrderSummary| o@)
                        =~= vh.map_values(|o: OrderSummary| o@).push(row@));
                    assert(v@.map_values(|o: OrderSummary| o@)
                        =~= listing(self@.skip(i as int), d));
                }
            }
        }
        proof {
            assert(self@.skip(0) =~= self@);
        }
        v
    }

    /// The day's register: one summary row per order created on the
    /// requested day, most recent first; with no date supplied the
    /// current local day is used.
    pub fn get_orders(&self, date: Option<Date>) -> (v: Vec<OrderSummary>)
        requires
            self.wf(),
        ensures
            (date matches Some(d) ==> v@.map_values(|o: OrderSummary| o@) == listing(self@, d)),
            date is None ==> (exists|d: Date|
                #![auto]
                d.wf() && v@.map_values(|o: OrderSummary| o@) == listing(self@, d)),
    {
        let d = match date {
            Some(dd) => dd,
            None => now_local().date,
        };
        let v = self.list_day(d);
        proof {
            if date is None {
                assert(d.wf() && v@.map_values(|o: OrderSummary| o@) == listing(self@, d));
            }
        }
        v
    }

    /// The full receipt for one order, or nothing if the identifier
    /// is unknown.  Absence is a normal outcome, not a fault: the
    /// result is absent exactly when no order carries the identifier.
    /// Every returned line's subtotal is exactly `qty * price`.
    pub fn get_order_detail(&self, order_id: String) -> (r: Option<OrderDetail>)
        requires
            self.wf(),
        ensures
            r is Some <==> contains_id(self@, order_id@),
            (r matches Some(det) ==> (exists|i: int|
                #![auto]
                0 <= i < self@.len() && self@[i].id == order_id@ && det@ == detail_of(self@[i]))),
            (r matches Some(det) ==> forall|j: int|
                0 <= j < det@.items.len() ==>
                    (#[trigger] det@.items[j]).subtotal == det@.items[j].qty * det@.items[j].price),
    {
        let len = self.orders.len();
        let mut i: usize = 0;
        while i < len
            invariant
                0 <= i <= len,
                len == self@.len(),
                len == self.orders@.len(),
                forall|j: int| 0 <= j < i ==> (#[trigger] self@[j]).id != order_id@,
            decreases len - i,
        {
            if self.orders[i].id == order_id {
                let rec = &self.orders[i];
                let items = detail_items(&rec.lines);
                let det = OrderDetail {
                    id: rec.id.clone(),
                    order_number: rec.order_number,
                    total: rec.total,
                    payment_method: rec.payment_method,
                    cashier_id: rec.cashier_id.clone(),
                    cashier_name: rec.cashier_name.clone(),
                    created_at: rec.created_at,
                    items: items,
                };
                proof {
                    let ov = self@[i as int];
                    assert(ov.id == order_id@);
                    assert(det@.items =~= ov.lines.map_values(|l: LineView| item_detail_of(l)));
                    assert(det@ == detail_of(ov));
                    assert forall|j: int| 0 <= j < det@.items.len() implies
                        (#[trigger] det@.items[j]).subtotal
                            == det@.items[j].qty * det@.items[j].price by {
                        assert(det@.items[j] == item_detail_of(ov.lines[j]));
                    }
                }
                return Some(det);
            }
            i += 1;
        }
        None
    }

    /// The day's report: order count, revenue, and the revenue split
    /// by payment method; with no date supplied the current local day
    /// is used.  The three method subtotals always add up to the total
    /// revenue.
    pub fn get_daily_summary(&self, date: Option<Date>) -> (s: DailySummary)
        requires
            self.wf(),
        ensures
            (date matches Some(d) ==> s.date == d),
            date is None ==> s.date.wf(),
            s.total_orders == day_orders(self@, s.date).len(),
            s.total_revenue == sum_total(day_orders(self@, s.date)),
            s.cash_total == sum_method(day_orders(self@, s.date), PaymentMethod::Cash),
            s.promptpay_total == sum_method(day_orders(self@, s.date), PaymentMethod::Promptpay),
            s.card_total == sum_method(day_orders(self@, s.date), PaymentMethod::Card),
            s.cash_total + s.promptpay_total + s.card_total == s.total_revenue,
    {
        let d = match date {
            Some(dd) => dd,
            None => now_local().date,
        };
        let len = self.orders.len();
        let mut count: u64 = 0;
        let mut revenue: u128 = 0;
        let mut cash: u128 = 0;
        let mut promptpay: u128 = 0;
        let mut card: u128 = 0;
        let mut i: usize = 0;
        while i < len
            invariant
                0 <= i <= len,
                len == self@.len(),
                len == self.orders@.len(),
                self.wf(),
                count == day_orders(self@.take(i as int), d).len(),
                count <= i,
                revenue == sum_total(day_orders(self@.take(i as int), d)),
                cash == sum_method(day_orders(self@.take(i as int), d), PaymentMethod::Cash),
                promptpay == sum_method(day_orders(self@.take(i as int), d), PaymentMethod::Promptpay),
                card == sum_method(day_orders(self@.take(i as int), d), PaymentMethod::Card),
            decreases len - i,
        {
            let ghost t0 = day_orders(self@.take(i as int), d);
            let ghost t1 = day_orders(self@.take(i as int + 1), d);
            proof {
                assert(self@.take(i as int + 1).drop_last() =~= self@.take(i as int));
                assert(self@.take(i as int + 1).last() == self@[i as int]);
            }
            let rec = &self.orders[i];
            if rec.created_at.date == d {
                proof {
                    let ov = self@[i as int];
                    assert(t1 == t0.push(ov));
                    assert(t1.drop_last() =~= t0);
                    assert(t1.last() == ov);
                    assert(sum_total(t1) == sum_total(t0) + ov.total);
                    assert(sum_method(t1, PaymentMethod::Cash)
                        == sum_method(t0, PaymentMethod::Cash)
                            + if ov.payment_method == PaymentMethod::Cash { ov.total } else { 0int });
                    assert(sum_method(t1, PaymentMethod::Promptpay)
                        == sum_method(t0, PaymentMethod::Promptpay)
                            + if ov.payment_method == PaymentMethod::Promptpay { ov.total } else { 0int });
                    assert(sum_method(t1, PaymentMethod::Card)
                        == sum_method(t0, PaymentMethod::Card)
                            + if ov.payment_method == PaymentMethod::Card { ov.total } else { 0int });
                    assert forall|k: int| 0 <= k < self@.take(i as int + 1).len() implies
                        order_wf(#[trigger] self@.take(i as int + 1)[k]) by {
                        assert(self@.take(i as int + 1)[k] == self@[k]);
                    }
                    lemma_day_orders_wf(self@.take(i as int + 1), d);
                    assert forall|k: int| 0 <= k < t1.len() implies
                        0 <= (#[trigger] t1[k]).total <= u64::MAX by {
                        assert(order_wf(t1[k]));
                    }
                    lemma_sum_total_bound(t1);
                    lemma_day_len(self@.take(i as int + 1), d);
                    assert(t1.len() * (u64::MAX as int) <= (i + 1) * (u64::MAX as int))
                        by (nonlinear_arith)
                        requires
                            t1.len() <= i + 1,
                    ;
                    lemma_mul_fits_u128(i as int + 1, u64::MAX as int);
                    lemma_sum_method_le(t1, PaymentMethod::Cash);
                    lemma_sum_method_le(t1, PaymentMethod::Promptpay);
                    lemma_sum_method_le(t1, PaymentMethod::Card);
                }
                count = count + 1;
                revenue = revenue + (rec.total as u128);
                match rec.payment_method {
                    PaymentMethod::Cash => {
                        cash = cash + (rec.total as u128);
                    },
                    PaymentMethod::Promptpay => {
                        promptpay = promptpay + (rec.total as u128);
                    },
                    PaymentMethod::Card => {
                        card = card + (rec.total as u128);
                    },
                }
            } else {
                proof {
                    assert(t1 == t0);
                }
            }
            i += 1;
        }
        proof {
            assert(self@.take(len as int) =~= self@);
            lemma_methods_partition(day_orders(self@, d));
        }
        DailySummary {
            date: d,
            total_orders: count,
            total_revenue: revenue,
            cash_total: cash,
            promptpay_total: promptpay,
            card_total: card,
        }
    }
}

/// Sums the line quantities of one order into a counter wide enough
/// never to overflow.
fn sum_qty_exec(lines: &Vec<OrderItemInput>) -> (c: u128)
    ensures
        c == sum_qty(lines@.map_values(|l: OrderItemInput| l@)),
{
    let ghost lv = lines@.map_values(|l: OrderItemInput| l@);
    let len = lines.len();
    let mut c: u128 = 0;
    let mut i: usize = 0;
    proof {
        assert(lv.take(0) =~= Seq::<LineView>::empty());
    }
    while i < len
        invariant
            0 <= i <= len,
            len == lines@.len(),
            lv == lines@.map_values(|l: OrderItemInput| l@),
            c == sum_qty(lv.take(i as int)),
        decreases len - i,
    {
        proof {
            assert(lv.take(i as int + 1).drop_last() =~= lv.take(i as int));
            assert(lv.take(i as int + 1).last() == lv[i as int]);
            assert(lv[i as int] == lines@[i as int]@);
            assert forall|k: int| 0 <= k < lv.take(i as int + 1).len() implies
                0 <= (#[trigger] lv.take(i as int + 1)[k]).qty <= u32::MAX by {
                assert(lv.take(i as int + 1)[k] == lv[k]);
                assert(lv[k] == lines@[k]@);
            }
            lemma_sum_qty_bound(lv.take(i as int + 1));
            assert(lv.take(i as int + 1).len() * (u32::MAX as int)
                <= (i + 1) * (u32::MAX as int))
                by (nonlinear_arith)
                requires
                    lv.take(i as int + 1).len() <= i + 1,
            ;
            lemma_mul_fits_u128(i as int + 1, u32::MAX as int);
        }
        c = c + (lines[i].qty as u128);
        i += 1;
    }
    proof {
        assert(lv.take(len as int) =~= lv);
    }
    c
}

/// Builds the receipt lines of one order, each with its exact
/// subtotal.
fn detail_items(lines: &Vec<OrderItemInput>) -> (v: Vec<OrderItemDetail>)
    ensures
        v@.map_values(|x: OrderItemDetail| x@)
            == lines@.map_values(|l: OrderItemInput| l@).map_values(|l: LineView| item_detail_of(l)),
{
    let ghost lv = lines@.map_values(|l: OrderItemInput| l@);
    let len = lines.len();
    let mut v: Vec<OrderItemDetail> = Vec::new();
    let mut i: usize = 0;
    while i < len
        invariant
            0 <= i <= len,
            len == lines@.len(),
            lv == lines@.map_values(|l: OrderItemInput| l@),
            v@.len() == i,
            v@.map_values(|x: OrderItemDetail| x@) == lv.take(i as int).map_values(|l: LineView| item_detail_of(l)),
        decreases len - i,
    {
        let line = &lines[i];
        proof {
            assert((line.qty as int) * (line.price as int) <= u64::MAX)
                by (nonlinear_arith)
                requires
                    0 <= line.qty <= u32::MAX,
                    0 <= line.price <= u32::MAX,
            ;
        }
        let sub: u64 = (line.qty as u64) * (line.price as u64);
        let det = OrderItemDetail {
            item_id: line.item_id,
            item_name: line.item_name.clone(),
            qty: line.qty,
            price: line.price,
            subtotal: sub,
        };
        let ghost vh = v@;
        v.push(det);
        proof {
            assert(lv[i as int] == lines@[i as int]@);
            assert(det@ == item_detail_of(lv[i as int]));
            assert(v@ == vh.push(det));
            assert(v@.map_values(|x: OrderItemDetail| x@)
                =~= vh.map_values(|x: OrderItemDetail| x@).push(det@));
            assert(lv.take(i as int + 1).drop_last() =~= lv.take(i as int));
            assert(lv.take(i as int + 1).last() == lv[i as int]);
            assert(v@.map_values(|x: OrderItemDetail| x@)
                =~= lv.take(i as int + 1).map_values(|l: LineView| item_detail_of(l)));
        }
        i += 1;
    }
    proof {
        assert(lv.take(len as int) =~= lv);
    }
    v
}

/// Draws a globally unique order identifier.  Relies on
/// `uuid::Uuid::new_v4` and its `Display` form: a random version-4
/// UUID rendered as the 36-character hyphenated string.  Nothing more
/// is assumed of the random value.
#[verifier::external_body]
fn fresh_order_id() -> (id: String)
    ensures
        id@.len() == 36,
{
    uuid::Uuid::new_v4().to_string()
}

} // verus!
