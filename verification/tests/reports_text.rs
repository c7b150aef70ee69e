use purchases_manager::manager::LineOutcome;
use purchases_manager::manager::PurchasesManager;

fn chars(s: &str) -> Vec<char> {
    s.chars().collect()
}

fn string_of(v: &Vec<char>) -> String {
    v.iter().collect()
}

fn sep() -> String {
    format!("{}\n", "=".repeat(32))
}

/// The end-to-end scenario: two catalog lines (the second with a
/// trailing space), four purchase lines, one of them naming an unknown
/// product.
fn scenario() -> PurchasesManager {
    let mut m = PurchasesManager::new();
    for line in ["P1 Widget gym 10.5 sale,new", "P2 Gadget technology 20 "] {
        m.add_product_line(&chars(line));
    }
    for line in ["T1 P1 2", "T1 P2 1", "T2 P1 3", "T3 P9 5"] {
        m.add_purchase_line(&chars(line));
    }
    m
}

/// The quantity-weighted price total of one purchase, summed in cart
/// order, as the host computes it for the ticket.
fn total_price(m: &PurchasesManager, purchase_id: &str) -> Option<f32> {
    let products = m.get_products();
    for p in m.get_purchases().iter() {
        if string_of(p.get_id()) == purchase_id {
            let mut total: f32 = 0.0;
            for item in p.get_cart().iter() {
                let price: f32 = string_of(products[item.get_product()].get_price())
                    .parse()
                    .unwrap();
                total += price * item.get_quantity() as f32;
            }
            return Some(total);
        }
    }
    None
}

#[test]
fn scenario_product_purchases_report() {
    let m = scenario();
    let got = string_of(&m.generate_products_purchases_number());
    let want = "Product with id: P1, name: Widget, category: Gym, and price: $10.5 bought 5 units\nProduct with id: P2, name: Gadget, category: Technology, and price: $20 bought 1 units\n";
    assert_eq!(got, want);
}

#[test]
fn scenario_category_report() {
    let m = scenario();
    let got = string_of(&m.generate_category_purchases_number());
    assert_eq!(got, "Gym bought 5 units\nTechnology bought 1 units\n");
}

#[test]
fn scenario_by_label_report() {
    let m = scenario();
    let got = string_of(&m.generate_products_by_label());
    let p1 = "Product with id: P1, name: Widget, category: Gym, and price: $10.5";
    let p2 = "Product with id: P2, name: Gadget, category: Technology, and price: $20";
    let want = format!(
        "{}LABEL 'sale'\n{}\n{}LABEL 'new'\n{}\n{}LABEL ''\n{}\n{}",
        sep(),
        p1,
        sep(),
        p1,
        sep(),
        p2,
        sep()
    );
    assert_eq!(got, want);
}

#[test]
fn scenario_ticket_total_is_cart_order_float_sum() {
    let m = scenario();
    assert_eq!(total_price(&m, "T2"), Some(31.5));
    assert_eq!(total_price(&m, "T1"), Some(41.0));
}

#[test]
fn scenario_ticket_text() {
    let m = scenario();
    let total = total_price(&m, "T2").unwrap();
    let ticket = m
        .generate_ticket(&chars("T2"), &chars(&format!("{}", total)))
        .unwrap();
    let want = format!(
        "{}TICKET FOR PURCHASE ID T2\n{}{:<15}{:<10}{:<15}\n{:<15}{:<10}{:<15}\n{}{:<25}{:<15}\n{}",
        sep(),
        sep(),
        "PRODUCT",
        "QUANTITY",
        "PRICE",
        "Widget",
        3,
        "10.5",
        sep(),
        "TOTAL",
        "31.5",
        sep()
    );
    assert_eq!(string_of(&ticket), want);
}

#[test]
fn scenario_unknown_purchase_has_no_ticket() {
    let mut m = scenario();
    assert_eq!(m.add_purchase_line(&chars("T3 P9 5")), LineOutcome::UnknownProduct);
    assert!(m.generate_ticket(&chars("T3"), &chars("0")).is_none());
    let ids: Vec<String> = m.get_purchases().iter().map(|p| string_of(p.get_id())).collect();
    assert_eq!(ids, vec!["T1".to_string(), "T2".to_string()]);
}

#[test]
fn empty_store_renders_empty_reports() {
    let m = PurchasesManager::new();
    assert_eq!(string_of(&m.generate_products_purchases_number()), "");
    assert_eq!(string_of(&m.generate_category_purchases_number()), "");
    assert_eq!(string_of(&m.generate_products_by_label()), sep());
}

#[test]
fn product_purchases_report_sorts_by_id() {
    let mut m = PurchasesManager::new();
    m.add_product_line(&chars("B Beta gym 1"));
    m.add_product_line(&chars("A Alpha gym 2"));
    m.add_purchase_line(&chars("T1 B 1"));
    m.add_purchase_line(&chars("T1 A 2"));
    let got = string_of(&m.generate_products_purchases_number());
    let want = "Product with id: A, name: Alpha, category: Gym, and price: $2 bought 2 units\nProduct with id: B, name: Beta, category: Gym, and price: $1 bought 1 units\n";
    assert_eq!(got, want);
}

#[test]
fn report_skips_products_without_recorded_counter() {
    let mut m = PurchasesManager::new();
    m.add_product_line(&chars("A Alpha gym 1"));
    m.add_product_line(&chars("B Beta gym 1"));
    m.add_purchase_line(&chars("T1 B 4"));
    let got = string_of(&m.generate_products_purchases_number());
    assert_eq!(
        got,
        "Product with id: B, name: Beta, category: Gym, and price: $1 bought 4 units\n"
    );
}

#[test]
fn ticket_pads_long_fields_without_truncation() {
    let mut m = PurchasesManager::new();
    m.add_product_line(&chars("P1 AVeryLongProductName none 123456789.125"));
    assert_eq!(
        m.add_purchase_line(&chars("LONGPURCHASEID P1 12345678901")),
        LineOutcome::Malformed
    );
    m.add_purchase_line(&chars("LONGPURCHASEID P1 1234567890"));
    let ticket = m.generate_ticket(&chars("LONGPURCHASEID"), &chars("x")).unwrap();
    let want = format!(
        "{}TICKET FOR PURCHASE ID LONGPURCHASEID\n{}{:<15}{:<10}{:<15}\n{:<15}{:<10}{:<15}\n{}{:<25}{:<15}\n{}",
        sep(),
        sep(),
        "PRODUCT",
        "QUANTITY",
        "PRICE",
        "AVeryLongProductName",
        1234567890u32,
        "123456789.125",
        sep(),
        "TOTAL",
        "x",
        sep()
    );
    assert_eq!(string_of(&ticket), want);
}
