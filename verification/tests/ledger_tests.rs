use order_ledger::Date;
use order_ledger::Ledger;
use order_ledger::Timestamp;
use order_ledger::orders::CreateOrderResult;
use order_ledger::orders::OrderError;
use order_ledger::orders::OrderItemInput;
use order_ledger::orders::PaymentMethod;
use order_ledger::orders::WriteFault;

fn day(year: i32, month: u8, day: u8) -> Date {
    Date { year, month, day }
}

fn at(date: Date, secs_of_day: u32) -> Timestamp {
    Timestamp { date, secs_of_day }
}

fn latte(qty: u32) -> OrderItemInput {
    // 60.00 in minor units
    OrderItemInput { item_id: 1, item_name: "Latte".to_string(), qty, price: 6000 }
}

fn create_simple(
    ledger: &mut Ledger,
    id: &str,
    total: u64,
    method: PaymentMethod,
    now: Timestamp,
    lines: Vec<OrderItemInput>,
) -> CreateOrderResult {
    ledger.create_order_with_id(
        id.to_string(),
        lines,
        total,
        method,
        "u1".to_string(),
        "Amy".to_string(),
        now,
        WriteFault::Absent,
    )
}

#[test]
fn first_order_of_the_day_gets_number_one() {
    let mut ledger = Ledger::new();
    let today = day(2024, 3, 15);
    let r = create_simple(
        &mut ledger,
        "order-a",
        12000,
        PaymentMethod::Cash,
        at(today, 32_400),
        vec![latte(2)],
    );
    assert!(r.success);
    assert_eq!(r.order_id.as_deref(), Some("order-a"));
    assert_eq!(r.order_number, Some(1));
    assert_eq!(r.error, None);
}

#[test]
fn second_order_same_day_gets_number_two() {
    let mut ledger = Ledger::new();
    let today = day(2024, 3, 15);
    let r1 = create_simple(
        &mut ledger,
        "order-a",
        12000,
        PaymentMethod::Cash,
        at(today, 32_400),
        vec![latte(2)],
    );
    let r2 = create_simple(
        &mut ledger,
        "order-b",
        6000,
        PaymentMethod::Cash,
        at(today, 33_000),
        vec![latte(1)],
    );
    assert!(r1.success && r2.success);
    assert_eq!(r1.order_number, Some(1));
    assert_eq!(r2.order_number, Some(2));
}

#[test]
fn numbering_restarts_on_a_new_day() {
    let mut ledger = Ledger::new();
    let monday = day(2024, 3, 18);
    let tuesday = day(2024, 3, 19);
    let r1 = create_simple(
        &mut ledger,
        "order-a",
        6000,
        PaymentMethod::Cash,
        at(monday, 60_000),
        vec![latte(1)],
    );
    let r2 = create_simple(
        &mut ledger,
        "order-b",
        6000,
        PaymentMethod::Cash,
        at(tuesday, 100),
        vec![latte(1)],
    );
    assert_eq!(r1.order_number, Some(1));
    assert_eq!(r2.order_number, Some(1));
    assert_eq!(ledger.next_order_number(monday), 2);
    assert_eq!(ledger.next_order_number(tuesday), 2);
    assert_eq!(ledger.next_order_number(day(2024, 3, 20)), 1);
}

#[test]
fn next_order_number_on_empty_day_is_one() {
    let ledger = Ledger::new();
    assert_eq!(ledger.next_order_number(day(2024, 1, 1)), 1);
}

#[test]
fn listing_is_most_recent_first_with_item_counts() {
    let mut ledger = Ledger::new();
    let today = day(2024, 3, 15);
    create_simple(
        &mut ledger,
        "order-a",
        12000,
        PaymentMethod::Cash,
        at(today, 32_400),
        vec![latte(2)],
    );
    create_simple(
        &mut ledger,
        "order-b",
        6000,
        PaymentMethod::Cash,
        at(today, 33_000),
        vec![latte(1)],
    );
    let rows = ledger.get_orders(Some(today));
    assert_eq!(rows.len(), 2);
    assert_eq!(rows[0].id, "order-b");
    assert_eq!(rows[0].order_number, 2);
    assert_eq!(rows[0].item_count, 1);
    assert_eq!(rows[1].id, "order-a");
    assert_eq!(rows[1].order_number, 1);
    assert_eq!(rows[1].item_count, 2);
    assert_eq!(rows[0].cashier_name, "Amy");
}

#[test]
fn listing_of_another_day_is_empty() {
    let mut ledger = Ledger::new();
    create_simple(
        &mut ledger,
        "order-a",
        12000,
        PaymentMethod::Cash,
        at(day(2024, 3, 15), 32_400),
        vec![latte(2)],
    );
    assert!(ledger.get_orders(Some(day(2024, 3, 16))).is_empty());
}

#[test]
fn daily_summary_counts_and_sums_the_day() {
    let mut ledger = Ledger::new();
    let today = day(2024, 3, 15);
    create_simple(
        &mut ledger,
        "order-a",
        12000,
        PaymentMethod::Cash,
        at(today, 32_400),
        vec![latte(2)],
    );
    create_simple(
        &mut ledger,
        "order-b",
        6000,
        PaymentMethod::Cash,
        at(today, 33_000),
        vec![latte(1)],
    );
    let s = ledger.get_daily_summary(Some(today));
    assert_eq!(s.date, today);
    assert_eq!(s.total_orders, 2);
    assert_eq!(s.total_revenue, 12000 + 6000);
    assert_eq!(s.cash_total, s.total_revenue);
    assert_eq!(s.promptpay_total, 0);
    assert_eq!(s.card_total, 0);
}

#[test]
fn payment_methods_partition_revenue() {
    let mut ledger = Ledger::new();
    let today = day(2024, 3, 15);
    create_simple(&mut ledger, "a", 100, PaymentMethod::Cash, at(today, 1), vec![latte(1)]);
    create_simple(&mut ledger, "b", 250, PaymentMethod::Promptpay, at(today, 2), vec![latte(1)]);
    create_simple(&mut ledger, "c", 775, PaymentMethod::Card, at(today, 3), vec![latte(1)]);
    create_simple(&mut ledger, "d", 125, PaymentMethod::Card, at(today, 4), vec![latte(1)]);
    let s = ledger.get_daily_summary(Some(today));
    assert_eq!(s.cash_total, 100);
    assert_eq!(s.promptpay_total, 250);
    assert_eq!(s.card_total, 900);
    assert_eq!(s.total_revenue, 1250);
    assert_eq!(s.cash_total + s.promptpay_total + s.card_total, s.total_revenue);
}

#[test]
fn listing_totals_match_daily_summary_revenue() {
    let mut ledger = Ledger::new();
    let today = day(2024, 3, 15);
    create_simple(&mut ledger, "a", 4200, PaymentMethod::Cash, at(today, 1), vec![latte(1)]);
    create_simple(&mut ledger, "b", 1800, PaymentMethod::Card, at(today, 2), vec![latte(1)]);
    create_simple(&mut ledger, "c", 9999, PaymentMethod::Promptpay, at(today, 3), vec![]);
    let rows = ledger.get_orders(Some(today));
    let listed: u128 = rows.iter().map(|r| r.total as u128).sum();
    let s = ledger.get_daily_summary(Some(today));
    assert_eq!(listed, s.total_revenue);
}

#[test]
fn detail_of_unknown_id_is_absent_not_an_error() {
    let mut ledger = Ledger::new();
    create_simple(
        &mut ledger,
        "order-a",
        12000,
        PaymentMethod::Cash,
        at(day(2024, 3, 15), 32_400),
        vec![latte(2)],
    );
    assert!(ledger.get_order_detail("nonexistent-id".to_string()).is_none());
    assert!(Ledger::new().get_order_detail("nonexistent-id".to_string()).is_none());
}

#[test]
fn detail_carries_snapshots_and_exact_subtotals() {
    let mut ledger = Ledger::new();
    let today = day(2024, 3, 15);
    let lines = vec![
        latte(2),
        OrderItemInput { item_id: 7, item_name: "Mocha".to_string(), qty: 3, price: 7550 },
    ];
    create_simple(&mut ledger, "order-a", 34_650, PaymentMethod::Card, at(today, 32_400), lines);
    let det = ledger.get_order_detail("order-a".to_string()).expect("order must be found");
    assert_eq!(det.id, "order-a");
    assert_eq!(det.order_number, 1);
    assert_eq!(det.total, 34_650);
    assert_eq!(det.payment_method, PaymentMethod::Card);
    assert_eq!(det.cashier_id, "u1");
    assert_eq!(det.cashier_name, "Amy");
    assert_eq!(det.created_at, at(today, 32_400));
    assert_eq!(det.items.len(), 2);
    assert_eq!(det.items[0].item_name, "Latte");
    assert_eq!(det.items[0].subtotal, 2 * 6000);
    assert_eq!(det.items[1].item_name, "Mocha");
    assert_eq!(det.items[1].subtotal, 3 * 7550);
    for item in &det.items {
        assert_eq!(item.subtotal, item.qty as u64 * item.price as u64);
    }
}

#[test]
fn failed_line_insert_rolls_back_everything() {
    let mut ledger = Ledger::new();
    let today = day(2024, 3, 15);
    create_simple(&mut ledger, "a", 12000, PaymentMethod::Cash, at(today, 1), vec![latte(2)]);
    create_simple(&mut ledger, "b", 6000, PaymentMethod::Cash, at(today, 2), vec![latte(1)]);

    let r = ledger.create_order_with_id(
        "c".to_string(),
        vec![latte(1), latte(4)],
        30000,
        PaymentMethod::Cash,
        "u1".to_string(),
        "Amy".to_string(),
        at(today, 3),
        WriteFault::OnLine(1),
    );
    assert!(!r.success);
    assert_eq!(r.error, Some(OrderError::LineInsert));
    assert_eq!(r.order_id, None);
    assert_eq!(r.order_number, None);

    // the prior two orders are untouched and no third row appeared
    let rows = ledger.get_orders(Some(today));
    assert_eq!(rows.len(), 2);
    assert_eq!(rows[0].id, "b");
    assert_eq!(rows[1].id, "a");
    assert!(ledger.get_order_detail("c".to_string()).is_none());
    assert_eq!(ledger.get_daily_summary(Some(today)).total_orders, 2);
    // the aborted attempt did not consume a sequence number
    assert_eq!(ledger.next_order_number(today), 3);
}

#[test]
fn failed_header_insert_rolls_back_everything() {
    let mut ledger = Ledger::new();
    let today = day(2024, 3, 15);
    let r = ledger.create_order_with_id(
        "a".to_string(),
        vec![latte(1)],
        6000,
        PaymentMethod::Cash,
        "u1".to_string(),
        "Amy".to_string(),
        at(today, 1),
        WriteFault::OnHeader,
    );
    assert!(!r.success);
    assert_eq!(r.error, Some(OrderError::HeaderInsert));
    assert!(ledger.get_orders(Some(today)).is_empty());
}

#[test]
fn line_fault_beyond_the_cart_never_fires() {
    let mut ledger = Ledger::new();
    let today = day(2024, 3, 15);
    let r = ledger.create_order_with_id(
        "a".to_string(),
        vec![latte(1)],
        6000,
        PaymentMethod::Cash,
        "u1".to_string(),
        "Amy".to_string(),
        at(today, 1),
        WriteFault::OnLine(1),
    );
    assert!(r.success);
    assert_eq!(r.order_number, Some(1));
}

#[test]
fn duplicate_identifier_fails_at_the_header_stage() {
    let mut ledger = Ledger::new();
    let today = day(2024, 3, 15);
    let r1 = create_simple(&mut ledger, "a", 6000, PaymentMethod::Cash, at(today, 1), vec![latte(1)]);
    assert!(r1.success);
    let r2 = create_simple(&mut ledger, "a", 6000, PaymentMethod::Cash, at(today, 2), vec![latte(1)]);
    assert!(!r2.success);
    assert_eq!(r2.error, Some(OrderError::HeaderInsert));
    assert_eq!(ledger.get_daily_summary(Some(today)).total_orders, 1);
}

#[test]
fn empty_cart_is_allowed() {
    let mut ledger = Ledger::new();
    let today = day(2024, 3, 15);
    let r = create_simple(&mut ledger, "a", 0, PaymentMethod::Promptpay, at(today, 1), vec![]);
    assert!(r.success);
    let rows = ledger.get_orders(Some(today));
    assert_eq!(rows.len(), 1);
    assert_eq!(rows[0].item_count, 0);
    let det = ledger.get_order_detail("a".to_string()).expect("order must be found");
    assert!(det.items.is_empty());
}

#[test]
fn generated_identifiers_are_hyphenated_uuids() {
    let mut ledger = Ledger::new();
    let today = day(2024, 3, 15);
    let r1 = ledger.create_order(
        vec![latte(1)],
        6000,
        PaymentMethod::Cash,
        "u1".to_string(),
        "Amy".to_string(),
        at(today, 1),
        WriteFault::Absent,
    );
    let r2 = ledger.create_order(
        vec![latte(1)],
        6000,
        PaymentMethod::Cash,
        "u1".to_string(),
        "Amy".to_string(),
        at(today, 2),
        WriteFault::Absent,
    );
    assert!(r1.success && r2.success);
    let id1 = r1.order_id.expect("id must be set");
    let id2 = r2.order_id.expect("id must be set");
    assert_eq!(id1.len(), 36);
    assert_eq!(id1.chars().filter(|c| *c == '-').count(), 4);
    assert_ne!(id1, id2);
    assert_eq!(r1.order_number, Some(1));
    assert_eq!(r2.order_number, Some(2));
}

#[test]
fn default_date_is_a_real_calendar_day() {
    let ledger = Ledger::new();
    let s = ledger.get_daily_summary(None);
    assert!((1..=12).contains(&s.date.month));
    assert!((1..=31).contains(&s.date.day));
    assert_eq!(s.total_orders, 0);
    assert_eq!(s.total_revenue, 0);
    assert!(ledger.get_orders(None).is_empty());
}
