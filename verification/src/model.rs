//! Mathematical model of the ledger.
//!
//! A ledger state is a `Seq<OrderView>` in creation order.  The spec
//! functions here say what each operation returns: which orders fall on
//! a day, the next sequence number for a day, and the various sums the
//! reports expose.  The proof functions state the laws the model obeys:
//! per-day numbers are contiguous from 1, payment methods partition
//! revenue, and the day listing carries exactly the day's revenue.

use vstd::prelude::*;

use crate::calendar::Date;
use crate::calendar::Timestamp;
use crate::orders::DetailView;
use crate::orders::ItemDetailView;
use crate::orders::LineView;
use crate::orders::OrderView;
use crate::orders::PaymentMethod;
use crate::orders::SummaryView;

verus! {

/// A line item as stored: positive quantity, and fields small enough
/// to have come out of the exec representation.
pub open spec fn line_wf(l: LineView) -> bool {
    &&& 1 <= l.qty <= u32::MAX
    &&& 0 <= l.price <= u32::MAX
}

/// An order as stored: a well-formed creation instant, fields within
/// the exec ranges, and well-formed lines.
pub open spec fn order_wf(o: OrderView) -> bool {
    &&& o.created_at.wf()
    &&& 1 <= o.order_number <= u64::MAX
    &&& 0 <= o.total <= u64::MAX
    &&& forall|i: int| 0 <= i < o.lines.len() ==> line_wf(#[trigger] o.lines[i])
}

/// No two orders share an identifier.
pub open spec fn ids_unique(s: Seq<OrderView>) -> bool {
    forall|i: int, j: int|
        #![trigger s[i], s[j]]
        0 <= i < j < s.len() ==> s[i].id != s[j].id
}

/// Every order's sequence number is one more than the count of earlier
/// orders on its own calendar day: numbering restarts at 1 each day
/// and follows creation order.
pub open spec fn numbering_ok(s: Seq<OrderView>) -> bool {
    forall|i: int| 0 <= i < s.len() ==>
        (#[trigger] s[i]).order_number
            == day_orders(s.take(i), s[i].created_at.date).len() + 1
}

/// The ledger invariant: constructors establish it and every write
/// preserves it.
pub open spec fn ledger_wf(s: Seq<OrderView>) -> bool {
    &&& ids_unique(s)
    &&& numbering_ok(s)
    &&& forall|i: int| 0 <= i < s.len() ==> order_wf(#[trigger] s[i])
}

/// The orders created on day `d`, in creation order.
pub open spec fn day_orders(s: Seq<OrderView>, d: Date) -> Seq<OrderView>
    decreases s.len(),
{
    if s.len() == 0 {
        Seq::empty()
    } else if s.last().created_at.date == d {
        day_orders(s.drop_last(), d).push(s.last())
    } else {
        day_orders(s.drop_last(), d)
    }
}

/// The orders created on day `d`, most recent first.
pub open spec fn day_orders_desc(s: Seq<OrderView>, d: Date) -> Seq<OrderView>
    decreases s.len(),
{
    if s.len() == 0 {
        Seq::empty()
    } else if s.last().created_at.date == d {
        seq![s.last()] + day_orders_desc(s.drop_last(), d)
    } else {
        day_orders_desc(s.drop_last(), d)
    }
}

/// The greatest sequence number recorded on day `d`, or 0 if the day
/// has no orders yet.
pub open spec fn max_number(s: Seq<OrderView>, d: Date) -> int
    decreases s.len(),
{
    if s.len() == 0 {
        0
    } else {
        let rest = max_number(s.drop_last(), d);
        if s.last().created_at.date == d && s.last().order_number > rest {
            s.last().order_number
        } else {
            rest
        }
    }
}

/// The number the allocator owes for the next order of day `d`: the
/// smallest integer above every number already recorded that day.
pub open spec fn next_number(s: Seq<OrderView>, d: Date) -> int {
    max_number(s, d) + 1
}

/// Sum of the orders' totals.
pub open spec fn sum_total(s: Seq<OrderView>) -> int
    decreases s.len(),
{
    if s.len() == 0 {
        0
    } else {
        sum_total(s.drop_last()) + s.last().total
    }
}

/// Sum of the totals of the orders paid by method `m`.
pub open spec fn sum_method(s: Seq<OrderView>, m: PaymentMethod) -> int
    decreases s.len(),
{
    if s.len() == 0 {
        0
    } else {
        sum_method(s.drop_last(), m)
            + if s.last().payment_method == m {
                s.last().total
            } else {
                0
            }
    }
}

/// Sum of the line quantities of one order.
pub open spec fn sum_qty(ls: Seq<LineView>) -> int
    decreases ls.len(),
{
    if ls.len() == 0 {
        0
    } else {
        sum_qty(ls.drop_last()) + ls.last().qty
    }
}

/// Sum of the `total` fields of a listing's rows.
pub open spec fn sum_listing_totals(q: Seq<SummaryView>) -> int
    decreases q.len(),
{
    if q.len() == 0 {
        0
    } else {
        q.first().total + sum_listing_totals(q.drop_first())
    }
}

/// Some stored order carries this identifier.
pub open spec fn contains_id(s: Seq<OrderView>, id: Seq<char>) -> bool {
    exists|i: int| 0 <= i < s.len() && (#[trigger] s[i]).id == id
}

/// The stored order a successful `create_order` appends.
pub open spec fn made_order(
    id: Seq<char>,
    number: int,
    total: int,
    method: PaymentMethod,
    cashier_id: Seq<char>,
    cashier_name: Seq<char>,
    created_at: Timestamp,
    lines: Seq<LineView>,
) -> OrderView {
    OrderView {
        id: id,
        order_number: number,
        total: total,
        payment_method: method,
        cashier_id: cashier_id,
        cashier_name: cashier_name,
        created_at: created_at,
        lines: lines,
    }
}

/// The register row a stored order produces.
pub open spec fn summary_of(o: OrderView) -> SummaryView {
    SummaryView {
        id: o.id,
        order_number: o.order_number,
        total: o.total,
        payment_method: o.payment_method,
        cashier_name: o.cashier_name,
        created_at: o.created_at,
        item_count: sum_qty(o.lines),
    }
}

/// The receipt line a stored line produces: the snapshot fields plus
/// the exact subtotal.
pub open spec fn item_detail_of(l: LineView) -> ItemDetailView {
    ItemDetailView {
        item_id: l.item_id,
        item_name: l.item_name,
        qty: l.qty,
        price: l.price,
        subtotal: l.qty * l.price,
    }
}

/// The receipt a stored order produces.
pub open spec fn detail_of(o: OrderView) -> DetailView {
    DetailView {
        id: o.id,
        order_number: o.order_number,
        total: o.total,
        payment_method: o.payment_method,
        cashier_id: o.cashier_id,
        cashier_name: o.cashier_name,
        created_at: o.created_at,
        items: o.lines.map_values(|l: LineView| item_detail_of(l)),
    }
}

/// The full register for day `d`: one row per order, most recent
/// first.
pub open spec fn listing(s: Seq<OrderView>, d: Date) -> Seq<SummaryView> {
    day_orders_desc(s, d).map_values(|o: OrderView| summary_of(o))
}

/// Dropping the newest order keeps the ledger invariant.
pub proof fn lemma_wf_drop_last(s: Seq<OrderView>)
    requires
        ledger_wf(s),
        s.len() > 0,
    ensures
        ledger_wf(s.drop_last()),
{
    let t = s.drop_last();
    assert forall|i: int| 0 <= i < t.len() implies
        (#[trigger] t[i]).order_number
            == day_orders(t.take(i), t[i].created_at.date).len() + 1 by {
        assert(t[i] == s[i]);
        assert(t.take(i) =~= s.take(i));
        assert(s[i].order_number == day_orders(s.take(i), s[i].created_at.date).len() + 1);
    }
}

/// A day never holds more orders than the whole ledger.
pub proof fn lemma_day_len(s: Seq<OrderView>, d: Date)
    ensures
        day_orders(s, d).len() <= s.len(),
    decreases s.len(),
{
    if s.len() > 0 {
        lemma_day_len(s.drop_last(), d);
    }
}

/// Under the ledger invariant, the greatest number recorded on a day
/// equals the count of that day's orders, so the allocator's `max + 1`
/// is exactly `count + 1`.
pub proof fn lemma_max_is_count(s: Seq<OrderView>, d: Date)
    requires
        ledger_wf(s),
    ensures
        max_number(s, d) == day_orders(s, d).len(),
    decreases s.len(),
{
    if s.len() > 0 {
        lemma_wf_drop_last(s);
        lemma_max_is_count(s.drop_last(), d);
        if s.last().created_at.date == d {
            assert(s[s.len() - 1].order_number
                == day_orders(s.take(s.len() - 1), s[s.len() - 1].created_at.date).len() + 1);
            assert(s.take(s.len() - 1) =~= s.drop_last());
        }
    }
}

/// On each day the recorded numbers are exactly 1, 2, 3, ... in
/// creation order: unique, contiguous, and starting at 1.
pub proof fn lemma_day_numbers_contiguous(s: Seq<OrderView>, d: Date)
    requires
        ledger_wf(s),
    ensures
        forall|k: int| 0 <= k < day_orders(s, d).len() ==>
            (#[trigger] day_orders(s, d)[k]).order_number == k + 1,
    decreases s.len(),
{
    if s.len() > 0 {
        lemma_wf_drop_last(s);
        lemma_day_numbers_contiguous(s.drop_last(), d);
        if s.last().created_at.date == d {
            assert(s[s.len() - 1].order_number
                == day_orders(s.take(s.len() - 1), s[s.len() - 1].created_at.date).len() + 1);
            assert(s.take(s.len() - 1) =~= s.drop_last());
            assert(day_orders(s, d) == day_orders(s.drop_last(), d).push(s.last()));
        }
    }
}

/// The three payment methods partition revenue: their sums add up to
/// the total, on any set of orders.
pub proof fn lemma_methods_partition(s: Seq<OrderView>)
    ensures
        sum_total(s) == sum_method(s, PaymentMethod::Cash)
            + sum_method(s, PaymentMethod::Promptpay)
            + sum_method(s, PaymentMethod::Card),
    decreases s.len(),
{
    if s.len() > 0 {
        lemma_methods_partition(s.drop_last());
    }
}

/// Summing the `total` column of a day's register gives exactly the
/// day's revenue as the daily report states it.
pub proof fn lemma_listing_revenue(s: Seq<OrderView>, d: Date)
    ensures
        sum_listing_totals(listing(s, d)) == sum_total(day_orders(s, d)),
    decreases s.len(),
{
    if s.len() == 0 {
        assert(listing(s, d) =~= Seq::<SummaryView>::empty());
    } else {
        lemma_listing_revenue(s.drop_last(), d);
        if s.last().created_at.date == d {
            let q = listing(s, d);
            assert(q =~= seq![summary_of(s.last())] + listing(s.drop_last(), d));
            assert(q.first() == summary_of(s.last()));
            assert(q.drop_first() =~= listing(s.drop_last(), d));
            assert(sum_listing_totals(q) == q.first().total + sum_listing_totals(q.drop_first()));
            assert(day_orders(s, d) == day_orders(s.drop_last(), d).push(s.last()));
            assert(day_orders(s, d).drop_last() =~= day_orders(s.drop_last(), d));
            assert(day_orders(s, d).last() == s.last());
        } else {
            assert(listing(s, d) =~= listing(s.drop_last(), d));
        }
    }
}

/// The most-recent-first day listing is the creation-order day listing
/// reversed.
pub proof fn lemma_desc_is_reverse(s: Seq<OrderView>, d: Date)
    ensures
        day_orders_desc(s, d) == day_orders(s, d).reverse(),
    decreases s.len(),
{
    if s.len() == 0 {
        assert(day_orders(s, d).reverse() =~= Seq::<OrderView>::empty());
    } else {
        lemma_desc_is_reverse(s.drop_last(), d);
        if s.last().created_at.date == d {
            assert(day_orders(s, d).reverse()
                =~= seq![s.last()] + day_orders(s.drop_last(), d).reverse());
        }
    }
}

/// A product of a count below 2^64 and a `u64`-sized amount fits in a
/// `u128`: the wide report counters cannot overflow.
pub proof fn lemma_mul_fits_u128(a: int, b: int)
    by (nonlinear_arith)
    requires
        0 <= a <= 0x1_0000_0000_0000_0000,
        0 <= b <= 0xffff_ffff_ffff_ffff,
    ensures
        a * b <= u128::MAX,
{
}

/// The most-recent-first listing of a concatenation: the later part
/// comes first.
pub proof fn lemma_desc_add(a: Seq<OrderView>, b: Seq<OrderView>, d: Date)
    ensures
        day_orders_desc(a + b, d) == day_orders_desc(b, d) + day_orders_desc(a, d),
    decreases b.len(),
{
    if b.len() == 0 {
        assert(a + b =~= a);
        assert(day_orders_desc(b, d) + day_orders_desc(a, d) =~= day_orders_desc(a, d));
    } else {
        lemma_desc_add(a, b.drop_last(), d);
        assert((a + b).drop_last() =~= a + b.drop_last());
        assert((a + b).last() == b.last());
        if b.last().created_at.date == d {
            assert(seq![b.last()] + (day_orders_desc(b.drop_last(), d) + day_orders_desc(a, d))
                =~= (seq![b.last()] + day_orders_desc(b.drop_last(), d)) + day_orders_desc(a, d));
        }
    }
}

/// Every order of a day's listing is an order of the ledger, so the
/// well-formedness of stored orders carries over to the listing.
pub proof fn lemma_day_orders_wf(s: Seq<OrderView>, d: Date)
    requires
        forall|i: int| 0 <= i < s.len() ==> order_wf(#[trigger] s[i]),
    ensures
        forall|k: int| 0 <= k < day_orders(s, d).len() ==> order_wf(#[trigger] day_orders(s, d)[k]),
    decreases s.len(),
{
    if s.len() > 0 {
        assert forall|i: int| 0 <= i < s.drop_last().len() implies
            order_wf(#[trigger] s.drop_last()[i]) by {
            assert(s.drop_last()[i] == s[i]);
        }
        lemma_day_orders_wf(s.drop_last(), d);
        if s.last().created_at.date == d {
            assert(day_orders(s, d) == day_orders(s.drop_last(), d).push(s.last()));
        }
    }
}

/// Line quantities are bounded, so their sum is bounded by the line
/// count.
pub proof fn lemma_sum_qty_bound(ls: Seq<LineView>)
    requires
        forall|i: int| 0 <= i < ls.len() ==> 0 <= (#[trigger] ls[i]).qty <= u32::MAX,
    ensures
        0 <= sum_qty(ls) <= ls.len() * u32::MAX,
    decreases ls.len(),
{
    if ls.len() == 0 {
    } else {
        assert forall|i: int| 0 <= i < ls.drop_last().len() implies
            0 <= (#[trigger] ls.drop_last()[i]).qty <= u32::MAX by {
            assert(ls.drop_last()[i] == ls[i]);
        }
        lemma_sum_qty_bound(ls.drop_last());
        assert(ls[ls.len() - 1].qty <= u32::MAX);
        assert((ls.len() - 1) * (u32::MAX as int) + u32::MAX == ls.len() * (u32::MAX as int))
            by (nonlinear_arith);
    }
}

/// Order totals are bounded, so the revenue sum is bounded by the
/// order count.
pub proof fn lemma_sum_total_bound(s: Seq<OrderView>)
    requires
        forall|i: int| 0 <= i < s.len() ==> 0 <= (#[trigger] s[i]).total <= u64::MAX,
    ensures
        0 <= sum_total(s) <= s.len() * u64::MAX,
    decreases s.len(),
{
    if s.len() == 0 {
    } else {
        assert forall|i: int| 0 <= i < s.drop_last().len() implies
            0 <= (#[trigger] s.drop_last()[i]).total <= u64::MAX by {
            assert(s.drop_last()[i] == s[i]);
        }
        lemma_sum_total_bound(s.drop_last());
        assert(s[s.len() - 1].total <= u64::MAX);
        assert((s.len() - 1) * (u64::MAX as int) + u64::MAX == s.len() * (u64::MAX as int))
            by (nonlinear_arith);
    }
}

/// The orders stand in the sequence in the order their timestamps
/// gave them: the clock never ran backwards between two commits.
pub open spec fn time_ordered(s: Seq<OrderView>) -> bool {
    forall|i: int, j: int|
        #![trigger s[i], s[j]]
        0 <= i <= j < s.len() ==> s[i].created_at.le(s[j].created_at)
}

/// A day's creation-order listing of a time-ordered ledger is itself
/// time-ordered, and nothing in it is later than the ledger's newest
/// order.
pub proof fn lemma_day_orders_time_ordered(s: Seq<OrderView>, d: Date)
    requires
        time_ordered(s),
    ensures
        time_ordered(day_orders(s, d)),
        s.len() > 0 ==> forall|k: int| 0 <= k < day_orders(s, d).len() ==>
            (#[trigger] day_orders(s, d)[k]).created_at.le(s.last().created_at),
    decreases s.len(),
{
    if s.len() > 0 {
        let t = s.drop_last();
        assert forall|i: int, j: int|
            #![trigger t[i], t[j]]
            0 <= i <= j < t.len() implies t[i].created_at.le(t[j].created_at) by {
            assert(t[i] == s[i]);
            assert(t[j] == s[j]);
        }
        lemma_day_orders_time_ordered(t, d);
        let prev = day_orders(t, d);
        assert forall|k: int| 0 <= k < prev.len() implies
            (#[trigger] prev[k]).created_at.le(s.last().created_at) by {
            assert(prev[k].created_at.le(t.last().created_at));
            assert(t.last() == s[s.len() - 2]);
            assert(s[s.len() - 2].created_at.le(s[s.len() - 1].created_at));
        }
        if s.last().created_at.date == d {
            let cur = day_orders(s, d);
            assert(cur == prev.push(s.last()));
            assert(s[s.len() - 1].created_at.le(s[s.len() - 1].created_at));
            assert forall|i: int, j: int|
                #![trigger cur[i], cur[j]]
                0 <= i <= j < cur.len() implies cur[i].created_at.le(cur[j].created_at) by {
                if j < prev.len() {
                    assert(cur[i] == prev[i]);
                    assert(cur[j] == prev[j]);
                } else {
                    assert(cur[j] == s.last());
                    if i < prev.len() {
                        assert(cur[i] == prev[i]);
                    }
                }
            }
        }
    }
}

/// The day register of a time-ordered ledger really is most recent
/// first: its timestamps never increase from one row to the next.
pub proof fn lemma_listing_most_recent_first(s: Seq<OrderView>, d: Date)
    requires
        time_ordered(s),
    ensures
        forall|i: int, j: int|
            #![trigger day_orders_desc(s, d)[i], day_orders_desc(s, d)[j]]
            0 <= i <= j < day_orders_desc(s, d).len() ==>
                day_orders_desc(s, d)[j].created_at.le(day_orders_desc(s, d)[i].created_at),
{
    lemma_day_orders_time_ordered(s, d);
    lemma_desc_is_reverse(s, d);
    let asc = day_orders(s, d);
    let desc = day_orders_desc(s, d);
    assert forall|i: int, j: int|
        #![trigger desc[i], desc[j]]
        0 <= i <= j < desc.len() implies
        desc[j].created_at.le(desc[i].created_at) by {
        assert(desc[i] == asc[asc.len() - 1 - i]);
        assert(desc[j] == asc[asc.len() - 1 - j]);
        assert(asc[asc.len() - 1 - j].created_at.le(asc[asc.len() - 1 - i].created_at));
    }
}

/// A method's share never exceeds the whole revenue.
pub proof fn lemma_sum_method_le(s: Seq<OrderView>, m: PaymentMethod)
    requires
        forall|i: int| 0 <= i < s.len() ==> 0 <= (#[trigger] s[i]).total,
    ensures
        0 <= sum_method(s, m) <= sum_total(s),
    decreases s.len(),
{
    if s.len() > 0 {
        assert forall|i: int| 0 <= i < s.drop_last().len() implies
            0 <= (#[trigger] s.drop_last()[i]).total by {
            assert(s.drop_last()[i] == s[i]);
        }
        lemma_sum_method_le(s.drop_last(), m);
        assert(0 <= s[s.len() - 1].total);
    }
}

} // verus!
