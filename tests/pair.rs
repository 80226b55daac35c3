use world_graph::{Pair, Triple};

fn canon(x: &str, y: &str) -> (String, String) {
    let p = Pair::new(x.to_string(), y.to_string()).canonical();
    (p.a, p.b)
}

#[test]
fn canonical_puts_greater_operand_first() {
    assert_eq!(canon("king", "woman"), ("woman".to_string(), "king".to_string()));
    assert_eq!(canon("woman", "king"), ("woman".to_string(), "king".to_string()));
}

#[test]
fn canonical_ignores_operand_order() {
    let cases = [
        ("water", "fire"),
        ("", "a"),
        ("ab", "a"),
        ("Zebra", "apple"),
        ("é", "z"),
        ("same", "same"),
    ];
    for (x, y) in cases {
        assert_eq!(canon(x, y), canon(y, x));
    }
}

#[test]
fn canonical_keeps_equal_operands() {
    assert_eq!(canon("planet", "planet"), ("planet".to_string(), "planet".to_string()));
    assert_eq!(canon("", ""), (String::new(), String::new()));
}

#[test]
fn canonical_orders_by_code_point_not_case() {
    // 'W' < 'k' by code point, so the lower-case operand comes first.
    assert_eq!(canon("Woman", "king"), ("king".to_string(), "Woman".to_string()));
    assert_eq!(canon("Woman", "King"), ("Woman".to_string(), "King".to_string()));
    // A prefix sorts before the longer string.
    assert_eq!(canon("sea", "seat"), ("seat".to_string(), "sea".to_string()));
    // Non-ASCII code points sort after ASCII.
    assert_eq!(canon("z", "é"), ("é".to_string(), "z".to_string()));
}

#[test]
fn triples_compare_by_all_three_parts() {
    let t = Triple::new("a".to_string(), "b".to_string(), "c".to_string());
    let u = Triple::new("a".to_string(), "b".to_string(), "c".to_string());
    let v = Triple::new("a".to_string(), "b".to_string(), "d".to_string());
    assert_eq!(t, u);
    assert_ne!(t, v);
    assert_eq!(t.clone(), t);
}
