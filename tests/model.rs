use geraldo::audit::Auditable;
use geraldo::formula::Formula;
use geraldo::fornecedor::Fornecedor;
use geraldo::item::Item;
use geraldo::runtime::{fresh_id, now_millis};

#[test]
fn fresh_ids_are_hyphenated_and_distinct() {
    let a = fresh_id();
    let b = fresh_id();
    assert_eq!(a.len(), 36);
    assert_ne!(a, b);
}

#[test]
fn clock_is_after_epoch() {
    assert!(now_millis() > 1_600_000_000_000);
}

#[test]
fn touch_moves_timestamp_only() {
    let mut s = Fornecedor::new("S".to_string());
    s.updated_at = 0;
    s.touch();
    assert!(s.updated_at() > 0);
    assert_eq!(s.nome, "S");
}

#[test]
fn new_entities_share_timestamps() {
    let s = Fornecedor::new("S".to_string());
    let i = Item::new("i".to_string(), s.clone());
    assert_eq!(i.created_at, i.updated_at);
    assert_eq!(i.fornecedor_id, s.id);
}

fn formula_ab() -> (Formula, Item, Item) {
    let s = Fornecedor::new("S".to_string());
    let a = Item::new("a".to_string(), s.clone());
    let b = Item::new("b".to_string(), s);
    let mut f = Formula::new("F".to_string(), vec![]);
    f.add_item_by_weight(a.clone(), 30_000);
    f.add_item_by_weight(b.clone(), 10_000);
    (f, a, b)
}

#[test]
fn formula_new_gives_zero_weights() {
    let s = Fornecedor::new("S".to_string());
    let a = Item::new("a".to_string(), s);
    let f = Formula::new("F".to_string(), vec![a.clone()]);
    assert_eq!(f.itens.len(), 1);
    assert_eq!(f.itens[0].peso, 0);
    assert_eq!(f.total_weight(), 0);
}

#[test]
fn proportions_in_parts_per_million() {
    let (f, a, b) = formula_ab();
    assert_eq!(f.total_weight(), 40_000);
    let p = f.get_proportions();
    assert_eq!(p[0].proporcao, 750_000);
    assert_eq!(p[1].proporcao, 250_000);
    assert_eq!(f.get_proportion(&a.id), Some(750_000));
    assert_eq!(f.get_proportion(&b.id), Some(250_000));
    assert_eq!(f.get_proportion("none"), None);
}

#[test]
fn proportions_zero_when_total_not_positive() {
    let s = Fornecedor::new("S".to_string());
    let a = Item::new("a".to_string(), s);
    let f = Formula::new("F".to_string(), vec![a.clone()]);
    assert_eq!(f.get_proportions()[0].proporcao, 0);
    assert_eq!(f.get_proportion(&a.id), Some(0));
}

#[test]
fn proportions_round_to_nearest() {
    let s = Fornecedor::new("S".to_string());
    let mut f = Formula::new("F".to_string(), vec![]);
    for n in ["a", "b", "c"] {
        f.add_item_by_weight(Item::new(n.to_string(), s.clone()), 1);
    }
    assert!(f.get_proportions().iter().all(|p| p.proporcao == 333_333));
}

#[test]
fn add_by_proportion_uses_fraction_of_unit() {
    let s = Fornecedor::new("S".to_string());
    let a = Item::new("a".to_string(), s.clone());
    let b = Item::new("b".to_string(), s.clone());
    let c = Item::new("c".to_string(), s);
    let mut f = Formula::new("F".to_string(), vec![]);
    f.add_itens_by_proportion(vec![a, b, c], vec![3, 1]);
    assert_eq!(f.itens.len(), 2);
    assert_eq!(f.itens[0].peso, 750);
    assert_eq!(f.itens[1].peso, 250);
}

#[test]
fn add_by_proportion_zero_total_gives_zero() {
    let s = Fornecedor::new("S".to_string());
    let a = Item::new("a".to_string(), s);
    let mut f = Formula::new("F".to_string(), vec![]);
    f.add_itens_by_proportion(vec![a], vec![0]);
    assert_eq!(f.itens[0].peso, 0);
}

#[test]
fn refresh_item_keeps_weight() {
    let (mut f, a, _) = formula_ab();
    let mut a2 = a.clone();
    a2.nome = "renamed".to_string();
    assert!(f.refresh_item(&a2));
    assert_eq!(f.itens[0].item.nome, "renamed");
    assert_eq!(f.itens[0].peso, 30_000);
    assert_eq!(f.itens[1].item.nome, "b");
}
