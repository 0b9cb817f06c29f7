use geraldo::catalog::{new_formula, new_item, position_named, position_of, ErrorKind};
use geraldo::fornecedor::Fornecedor;
use geraldo::item::Item;
use geraldo::user::{admin_missing, Role, User};

#[test]
fn new_item_embeds_supplier() {
    let sups = vec![Fornecedor::new("A".to_string()), Fornecedor::new("B".to_string())];
    let item = new_item("x".to_string(), &sups[1].id, &sups).unwrap();
    assert_eq!(item.nome, "x");
    assert_eq!(item.fornecedor_id, sups[1].id);
    assert_eq!(item.fornecedor.nome, "B");
}

#[test]
fn new_item_for_unknown_supplier_fails() {
    let sups = vec![Fornecedor::new("A".to_string())];
    assert_eq!(new_item("x".to_string(), "missing", &sups).unwrap_err(), ErrorKind::ValidationFailure);
}

#[test]
fn new_formula_resolves_items_and_weights() {
    let s = Fornecedor::new("S".to_string());
    let a = Item::new("a".to_string(), s.clone());
    let b = Item::new("b".to_string(), s);
    let catalog = vec![a.clone(), b.clone()];
    let req = vec![(b.id.clone(), 20_000), (a.id.clone(), 30_000)];
    let f = new_formula("F".to_string(), &req, &catalog).unwrap();
    assert_eq!(f.nome, "F");
    assert_eq!(f.itens.len(), 2);
    assert_eq!(f.itens[0].item.id, b.id);
    assert_eq!(f.itens[0].peso, 20_000);
    assert_eq!(f.itens[1].item.id, a.id);
    assert_eq!(f.itens[1].peso, 30_000);
}

#[test]
fn new_formula_repeated_item_takes_last_weight() {
    let s = Fornecedor::new("S".to_string());
    let a = Item::new("a".to_string(), s);
    let catalog = vec![a.clone()];
    let req = vec![(a.id.clone(), 1), (a.id.clone(), 2)];
    let f = new_formula("F".to_string(), &req, &catalog).unwrap();
    assert_eq!(f.itens.len(), 2);
    assert_eq!(f.itens[0].peso, 2);
    assert_eq!(f.itens[1].peso, 2);
}

#[test]
fn new_formula_with_unknown_item_fails() {
    let s = Fornecedor::new("S".to_string());
    let a = Item::new("a".to_string(), s);
    let req = vec![(a.id.clone(), 1), ("nope".to_string(), 2)];
    assert_eq!(new_formula("F".to_string(), &req, &vec![a]).unwrap_err(), ErrorKind::ValidationFailure);
}

#[test]
fn positions_by_key_and_name() {
    let users = vec![
        User::new("ana".to_string(), "pw".to_string(), Role::User),
        User::new("bia".to_string(), "pw".to_string(), Role::User),
    ];
    assert_eq!(position_of(&users, &users[1].id), Some(1));
    assert_eq!(position_of(&users, "none"), None);
    assert_eq!(position_named(&users, "bia"), Some(1));
    assert_eq!(position_named(&users, "BIA"), None);
}

#[test]
fn admin_missing_checks_exact_name() {
    assert!(admin_missing(&vec![]));
    assert!(admin_missing(&vec!["Admin".to_string(), "op".to_string()]));
    assert!(!admin_missing(&vec!["op".to_string(), "admin".to_string()]));
}

#[test]
fn role_label_ignores_case() {
    assert_eq!(Role::from_label("ADMIN"), Role::Admin);
    assert_eq!(Role::from_label("Admin"), Role::Admin);
    assert_eq!(Role::from_label("admin"), Role::Admin);
    assert_eq!(Role::from_label("user"), Role::User);
    assert_eq!(Role::from_label("administrator"), Role::User);
}
