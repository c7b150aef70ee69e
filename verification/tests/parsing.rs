use purchases_manager::products::Product;
use purchases_manager::products::ProductCategory;
use purchases_manager::purchases::read_purchase_line;

fn chars(s: &str) -> Vec<char> {
    s.chars().collect()
}

fn string_of(v: &Vec<char>) -> String {
    v.iter().collect()
}

#[test]
fn product_line_parses_fields() {
    let p = Product::from_line(&chars("P1 Widget gym 10.5 sale,new"));
    assert!(!p.is_empty());
    assert_eq!(string_of(p.get_id()), "P1");
    assert_eq!(string_of(p.get_name()), "Widget");
    assert_eq!(p.get_category(), ProductCategory::Gym);
    assert_eq!(string_of(p.get_price()), "10.5");
    let labels: Vec<String> = p.get_labels().iter().map(string_of).collect();
    assert_eq!(labels, vec!["sale".to_string(), "new".to_string()]);
}

#[test]
fn product_line_without_labels_token() {
    let p = Product::from_line(&chars("P2 Gadget technology 20"));
    assert!(!p.is_empty());
    assert_eq!(p.get_category(), ProductCategory::Technology);
    assert_eq!(p.get_labels().len(), 0);
}

#[test]
fn product_line_with_few_tokens_is_sentinel() {
    assert!(Product::from_line(&chars("P1 Widget gym")).is_empty());
    assert!(Product::from_line(&chars("")).is_empty());
    assert!(Product::from_line(&chars("P1")).is_empty());
}

#[test]
fn product_line_with_bad_price_is_sentinel() {
    assert!(Product::from_line(&chars("P1 Widget gym abc")).is_empty());
    assert!(Product::from_line(&chars("P1 Widget gym .")).is_empty());
    assert!(Product::from_line(&chars("P1 Widget gym 1.2.3")).is_empty());
    assert!(Product::from_line(&chars("P1 Widget gym 1e")).is_empty());
    assert!(Product::from_line(&chars("P1 Widget gym e5")).is_empty());
    assert!(Product::from_line(&chars("P1 Widget gym --1")).is_empty());
}

#[test]
fn price_grammar_accepts_float_forms() {
    for tok in [
        "1", "1.5", ".5", "5.", "1e3", "1E-3", "+inf", "NaN", "-2.5e+10", "-0", "007",
        "infinity",
    ] {
        let line = format!("P1 Widget gym {}", tok);
        let p = Product::from_line(&chars(&line));
        assert!(!p.is_empty(), "price token {:?} should be accepted", tok);
        assert_eq!(string_of(p.get_price()), tok);
        assert!(tok.parse::<f32>().is_ok(), "{:?}", tok);
    }
}

#[test]
fn price_grammar_rejects_what_float_parse_rejects() {
    for tok in ["abc", ".", "1.2.3", "1e", "e5", "--1", "+", "1f", "0x1"] {
        let line = format!("P1 Widget gym {}", tok);
        assert!(
            Product::from_line(&chars(&line)).is_empty(),
            "price token {:?} should be rejected",
            tok
        );
        assert!(tok.parse::<f32>().is_err(), "{:?}", tok);
    }
}

#[test]
fn category_matching_is_case_insensitive() {
    let cases = [
        ("GYM", ProductCategory::Gym),
        ("Technology", ProductCategory::Technology),
        ("tablegames", ProductCategory::Tablegames),
        ("VideoGames", ProductCategory::Videogames),
        ("television", ProductCategory::Television),
        ("TABLES", ProductCategory::Tables),
        ("none", ProductCategory::NoCategory),
        ("garden", ProductCategory::NoCategory),
    ];
    for (tok, want) in cases {
        let line = format!("P1 Widget {} 5", tok);
        assert_eq!(Product::from_line(&chars(&line)).get_category(), want);
    }
}

#[test]
fn labels_are_lowercased() {
    let p = Product::from_line(&chars("P1 Widget gym 5 SALE,New"));
    let labels: Vec<String> = p.get_labels().iter().map(string_of).collect();
    assert_eq!(labels, vec!["sale".to_string(), "new".to_string()]);
}

#[test]
fn trailing_empty_labels_token_yields_one_empty_label() {
    let p = Product::from_line(&chars("P3 Thing none 5 "));
    assert!(!p.is_empty());
    let labels: Vec<String> = p.get_labels().iter().map(string_of).collect();
    assert_eq!(labels, vec!["".to_string()]);
}

#[test]
fn sentinel_product_has_empty_name() {
    let p = Product::new();
    assert!(p.is_empty());
    assert_eq!(string_of(p.get_id()), "");
    assert_eq!(p.get_category(), ProductCategory::NoCategory);
}

#[test]
fn purchase_line_parses_three_tokens() {
    let r = read_purchase_line(&chars("T1 P1 2")).unwrap();
    assert_eq!(string_of(&r.0), "T1");
    assert_eq!(string_of(&r.1), "P1");
    assert_eq!(r.2, 2);
}

#[test]
fn purchase_line_ignores_extra_tokens() {
    let r = read_purchase_line(&chars("T1 P1 2 junk more")).unwrap();
    assert_eq!(string_of(&r.0), "T1");
    assert_eq!(r.2, 2);
}

#[test]
fn purchase_line_with_few_tokens_is_discarded() {
    assert!(read_purchase_line(&chars("T1 P1")).is_none());
    assert!(read_purchase_line(&chars("T1")).is_none());
    assert!(read_purchase_line(&chars("")).is_none());
}

#[test]
fn purchase_line_with_bad_quantity_is_discarded() {
    assert!(read_purchase_line(&chars("T1 P1 x")).is_none());
    assert!(read_purchase_line(&chars("T1 P1 -1")).is_none());
    assert!(read_purchase_line(&chars("T1 P1 2.5")).is_none());
    assert!(read_purchase_line(&chars("T1 P1 ")).is_none());
}

#[test]
fn purchase_quantity_bounds_match_u32() {
    assert_eq!(read_purchase_line(&chars("T1 P1 4294967295")).unwrap().2, u32::MAX);
    assert!(read_purchase_line(&chars("T1 P1 4294967296")).is_none());
    assert_eq!(read_purchase_line(&chars("T1 P1 +3")).unwrap().2, 3);
    assert_eq!(read_purchase_line(&chars("T1 P1 0007")).unwrap().2, 7);
}
