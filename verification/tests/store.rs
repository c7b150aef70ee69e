use purchases_manager::manager::LineOutcome;
use purchases_manager::manager::PurchasesManager;
use purchases_manager::products::Product;

fn chars(s: &str) -> Vec<char> {
    s.chars().collect()
}

fn string_of(v: &Vec<char>) -> String {
    v.iter().collect()
}

#[test]
fn malformed_product_lines_leave_store_unchanged() {
    let mut m = PurchasesManager::new();
    m.add_product_line(&chars("P1 Widget gym 10.5"));
    assert_eq!(m.get_products().len(), 1);
    for bad in ["", "P2", "P2 Gadget", "P2 Gadget technology", "P2 Gadget technology abc"] {
        m.add_product_line(&chars(bad));
        assert_eq!(m.get_products().len(), 1, "line {:?} must be skipped", bad);
        assert_eq!(m.get_label_buckets().len(), 0);
    }
}

#[test]
fn counter_accumulates_over_qualifying_lines_only() {
    let mut m = PurchasesManager::new();
    m.add_product_line(&chars("P1 Widget gym 10.5"));
    m.add_product_line(&chars("P2 Gadget technology 20"));
    assert_eq!(m.add_purchase_line(&chars("T1 P1 2")), LineOutcome::Applied);
    assert_eq!(m.add_purchase_line(&chars("T1 P1")), LineOutcome::Malformed);
    assert_eq!(m.add_purchase_line(&chars("T2 P1 x")), LineOutcome::Malformed);
    assert_eq!(m.add_purchase_line(&chars("T2 P9 7")), LineOutcome::UnknownProduct);
    assert_eq!(m.add_purchase_line(&chars("T2 P1 3")), LineOutcome::Applied);
    assert_eq!(m.add_purchase_line(&chars("T3 P2 4")), LineOutcome::Applied);
    assert_eq!(m.get_counts()[0], 5);
    assert_eq!(m.get_counts()[1], 4);
    assert!(m.get_counted()[0]);
    assert!(m.get_counted()[1]);
}

#[test]
fn unreferenced_product_has_no_recorded_counter() {
    let mut m = PurchasesManager::new();
    m.add_product_line(&chars("P1 Widget gym 10.5"));
    assert_eq!(m.get_counts()[0], 0);
    assert!(!m.get_counted()[0]);
}

#[test]
fn zero_quantity_line_records_the_counter() {
    let mut m = PurchasesManager::new();
    m.add_product_line(&chars("P1 Widget gym 10.5"));
    assert_eq!(m.add_purchase_line(&chars("T1 P1 0")), LineOutcome::Applied);
    assert_eq!(m.get_counts()[0], 0);
    assert!(m.get_counted()[0]);
}

#[test]
fn cart_keeps_line_order() {
    let mut m = PurchasesManager::new();
    m.add_product_line(&chars("P1 Widget gym 10.5"));
    m.add_product_line(&chars("P2 Gadget technology 20"));
    m.add_purchase_line(&chars("T1 P2 1"));
    m.add_purchase_line(&chars("T1 P1 2"));
    m.add_purchase_line(&chars("T1 P2 3"));
    let purchases = m.get_purchases();
    assert_eq!(purchases.len(), 1);
    assert_eq!(string_of(purchases[0].get_id()), "T1");
    let cart = purchases[0].get_cart();
    assert_eq!(cart.len(), 3);
    assert_eq!(cart[0].get_product(), 1);
    assert_eq!(cart[0].get_quantity(), 1);
    assert_eq!(cart[1].get_product(), 0);
    assert_eq!(cart[1].get_quantity(), 2);
    assert_eq!(cart[2].get_product(), 1);
    assert_eq!(cart[2].get_quantity(), 3);
}

#[test]
fn purchases_are_created_on_first_reference() {
    let mut m = PurchasesManager::new();
    m.add_product_line(&chars("P1 Widget gym 10.5"));
    m.add_purchase_line(&chars("T2 P1 1"));
    m.add_purchase_line(&chars("T1 P1 1"));
    m.add_purchase_line(&chars("T2 P1 1"));
    let ids: Vec<String> = m.get_purchases().iter().map(|p| string_of(p.get_id())).collect();
    assert_eq!(ids, vec!["T2".to_string(), "T1".to_string()]);
    assert_eq!(m.get_purchases()[0].get_cart().len(), 2);
    assert_eq!(m.get_purchases()[1].get_cart().len(), 1);
}

#[test]
fn duplicate_product_ids_both_enter_the_sequence() {
    let mut m = PurchasesManager::new();
    m.add_product_line(&chars("P1 First gym 1"));
    m.add_product_line(&chars("P1 Second gym 2"));
    assert_eq!(m.get_products().len(), 2);
    // lookups resolve to the first entry
    m.add_purchase_line(&chars("T1 P1 5"));
    assert_eq!(m.get_counts()[0], 5);
    assert_eq!(m.get_counts()[1], 0);
    assert!(!m.get_counted()[1]);
}

#[test]
fn add_product_directly_files_labels() {
    let mut m = PurchasesManager::new();
    let p = Product::from_line(&chars("P1 Widget gym 10.5 a,b,a"));
    m.add_product(p);
    let buckets = m.get_label_buckets();
    assert_eq!(buckets.len(), 2);
    assert_eq!(string_of(buckets[0].get_label()), "a");
    assert_eq!(*buckets[0].get_members(), vec![0usize, 0]);
    assert_eq!(string_of(buckets[1].get_label()), "b");
    assert_eq!(*buckets[1].get_members(), vec![0usize]);
}

#[test]
fn category_counters_follow_product_categories() {
    let mut m = PurchasesManager::new();
    m.add_product_line(&chars("P1 A gym 1"));
    m.add_product_line(&chars("P2 B gym 1"));
    m.add_product_line(&chars("P3 C tables 1"));
    m.add_purchase_line(&chars("T1 P1 2"));
    m.add_purchase_line(&chars("T1 P3 4"));
    m.add_purchase_line(&chars("T2 P2 3"));
    let cats = m.get_categories();
    assert_eq!(cats.len(), 2);
    assert_eq!(cats[0].count, 5);
    assert_eq!(cats[1].count, 4);
}
