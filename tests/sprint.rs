use geraldo::fornecedor::Fornecedor;
use geraldo::item::Item;
use geraldo::sprint::{lookup_amount, ItemAmount, Sprint, SprintItem};
use geraldo::user::{Role, User};

fn items() -> (Item, Item) {
    let f = Fornecedor::new("X".to_string());
    (Item::new("A".to_string(), f.clone()), Item::new("B".to_string(), f))
}

#[test]
fn divergence_is_actual_minus_target() {
    let (a, _) = items();
    let mut si = SprintItem::new(a, 30_000);
    assert_eq!(si.divergence(), 0);
    si.set_actual(31_500);
    assert_eq!(si.divergence(), 1_500);
    si.set_actual(i64::MIN);
    assert_eq!(si.divergence(), i64::MIN as i128 - 30_000);
}

#[test]
fn matched_sprint_has_zero_total_divergence() {
    let (a, b) = items();
    let op = User::new("op".to_string(), "pw".to_string(), Role::User);
    let mut sa = SprintItem::new(a, 30_000);
    sa.set_actual(30_000);
    let mut sb = SprintItem::new(b, 20_000);
    sb.set_actual(20_000);
    let s = Sprint::new("p".to_string(), 1, vec![sa, sb], op);
    assert_eq!(s.total_divergence(), 0);
}

#[test]
fn total_divergence_sums_entries() {
    let (a, b) = items();
    let op = User::new("op".to_string(), "pw".to_string(), Role::User);
    let mut sa = SprintItem::new(a, 30_000);
    sa.set_actual(31_500);
    let mut sb = SprintItem::new(b, 20_000);
    sb.set_actual(19_000);
    let s = Sprint::new("p".to_string(), 1, vec![sa, sb], op);
    assert_eq!(s.total_divergence(), 500);
}

#[test]
fn set_actual_for_item_finds_first_entry() {
    let (a, b) = items();
    let op = User::new("op".to_string(), "pw".to_string(), Role::User);
    let mut s = Sprint::new("p".to_string(), 1, vec![SprintItem::new(a.clone(), 1), SprintItem::new(a.clone(), 2)], op);
    assert!(s.set_actual_for_item(&a.id, 7));
    assert_eq!(s.itens[0].actual, Some(7));
    assert_eq!(s.itens[1].actual, None);
    assert!(!s.set_actual_for_item(&b.id, 7));
}

#[test]
fn add_item_appends() {
    let (a, b) = items();
    let op = User::new("op".to_string(), "pw".to_string(), Role::User);
    let mut s = Sprint::new("p".to_string(), 3, vec![SprintItem::new(a, 1)], op);
    s.add_item(SprintItem::new(b.clone(), 9));
    assert_eq!(s.itens.len(), 2);
    assert_eq!(s.itens[1].item.id, b.id);
    assert_eq!(s.itens[1].target, 9);
}

#[test]
fn apply_suggestions_sets_known_targets() {
    let (a, b) = items();
    let op = User::new("op".to_string(), "pw".to_string(), Role::User);
    let mut s = Sprint::new("p".to_string(), 1, vec![SprintItem::new(a.clone(), 1), SprintItem::new(b.clone(), 2)], op);
    let sugg = vec![
        ItemAmount { item_id: a.id.clone(), amount: 10 },
        ItemAmount { item_id: a.id.clone(), amount: 11 },
    ];
    s.apply_suggestions(&sugg);
    assert_eq!(s.itens[0].target, 11);
    assert_eq!(s.itens[1].target, 2);
}

#[test]
fn divergence_per_item_keys_by_item() {
    let (a, b) = items();
    let op = User::new("op".to_string(), "pw".to_string(), Role::User);
    let mut sa = SprintItem::new(a.clone(), 10);
    sa.set_actual(4);
    let s = Sprint::new("p".to_string(), 1, vec![sa, SprintItem::new(b.clone(), 3)], op);
    let d = s.divergence_per_item();
    assert_eq!(lookup_amount(&d, &a.id), Some(-6));
    assert_eq!(lookup_amount(&d, &b.id), Some(0));
}
