use world_graph::{Triple, TripleStore};

fn t(a: &str, b: &str, c: &str) -> Triple {
    Triple::new(a.to_string(), b.to_string(), c.to_string())
}

#[test]
fn get_misses_on_empty_store() {
    let s = TripleStore::new();
    assert!(s.get("woman", "king").is_none());
}

#[test]
fn get_returns_first_of_duplicate_rows() {
    let mut s = TripleStore::new();
    s.insert(t("woman", "king", "queen"));
    s.insert(t("woman", "king", "empress"));
    assert_eq!(s.get("woman", "king"), Some(t("woman", "king", "queen")));
    assert!(s.get("king", "woman").is_none());
}

#[test]
fn find_by_operand_matches_any_part_in_order() {
    let mut s = TripleStore::new();
    s.insert(t("water", "fire", "steam"));
    s.insert(t("sea", "water", "ocean"));
    s.insert(t("sand", "mud", "water"));
    s.insert(t("king", "crown", "queen"));
    let r = s.find_by_operand("water");
    assert_eq!(r, vec![t("water", "fire", "steam"), t("sea", "water", "ocean"), t("sand", "mud", "water")]);
    assert!(s.find_by_operand("nothing").is_empty());
}

#[test]
fn list_all_returns_every_row_unfiltered() {
    let mut s = TripleStore::new();
    s.insert(t("woman", "king", "queen"));
    s.insert(t("woman", "king", "queen"));
    s.insert(t("x", "y", "undefined"));
    assert_eq!(
        s.list_all(),
        vec![t("woman", "king", "queen"), t("woman", "king", "queen"), t("x", "y", "undefined")]
    );
    assert!(TripleStore::new().list_all().is_empty());
}
