use geraldo::formula::Formula;
use geraldo::fornecedor::Fornecedor;
use geraldo::item::Item;
use geraldo::processo::{next_target, Processo};
use geraldo::quantity::{FINITE_BOUND, TARGET_BOUND};
use geraldo::sprint::{lookup_amount, ItemAmount, Sprint, SprintItem};
use geraldo::user::{Role, User};

fn amount<N: Copy>(entries: &Vec<ItemAmount<N>>, id: &String) -> Option<N> {
    lookup_amount(entries, id)
}

// Quantities are thousandths of a unit: 30.0 is 30_000.
#[test]
fn test_suggest_next_sprint_targets_per_sprint() {
    let mut formula = Formula::new("F".to_string(), vec![]);
    let f = Fornecedor::new("X".to_string());
    let item_a = Item::new("A".to_string(), f.clone());
    let item_b = Item::new("B".to_string(), f.clone());
    formula.add_item_by_weight(item_a.clone(), 30_000);
    formula.add_item_by_weight(item_b.clone(), 20_000);

    let mut processo = Processo::new("P".to_string(), formula, "ok".to_string(), 0);
    let op = User::new("op".to_string(), "pw".to_string(), Role::User);

    let mut si_a = SprintItem::new(item_a.clone(), 30_000);
    si_a.set_actual(31_500);
    let mut si_b = SprintItem::new(item_b.clone(), 20_000);
    si_b.set_actual(19_000);

    let sprint = Sprint::new(processo.id.clone(), 1, vec![si_a, si_b], op);
    processo.add_sprint(sprint);

    // One sprint run, one to go: the gap to the two-sprint plan is spread
    // over the remaining sprint and added to the weight.
    let suggestions = processo.suggest_next_sprint_targets(1);
    let a = amount(&suggestions, &item_a.id).unwrap();
    let b = amount(&suggestions, &item_b.id).unwrap();
    assert_eq!(a, 58_500, "A suggested {} != 58.5", a);
    assert_eq!(b, 41_000, "B suggested {} != 41.0", b);
}

fn sample_process() -> (Processo, Item, Item) {
    let f = Fornecedor::new("X".to_string());
    let item_a = Item::new("A".to_string(), f.clone());
    let item_b = Item::new("B".to_string(), f);
    let mut formula = Formula::new("F".to_string(), vec![]);
    formula.add_item_by_weight(item_a.clone(), 30_000);
    formula.add_item_by_weight(item_b.clone(), 20_000);
    let p = Processo::start("P".to_string(), formula);
    (p, item_a, item_b)
}

#[test]
fn start_sums_weights_and_runs() {
    let (p, _, _) = sample_process();
    assert_eq!(p.weight, 50_000);
    assert_eq!(p.status, "Em Andamento");
    assert!(p.sprints.is_empty());
}

#[test]
fn zero_remaining_suggests_nothing() {
    let (mut p, a, b) = sample_process();
    let op = User::new("op".to_string(), "pw".to_string(), Role::User);
    let mut si = SprintItem::new(a, 30_000);
    si.set_actual(45_000);
    p.add_sprint(Sprint::new(String::new(), 1, vec![si, SprintItem::new(b, 20_000)], op));
    assert!(p.suggest_next_sprint_targets(0).is_empty());
}

#[test]
fn correction_spread_over_remaining_sprints() {
    let (mut p, a, b) = sample_process();
    let op = User::new("op".to_string(), "pw".to_string(), Role::User);
    let mut si_a = SprintItem::new(a.clone(), 30_000);
    si_a.set_actual(31_500);
    let mut si_b = SprintItem::new(b.clone(), 20_000);
    si_b.set_actual(19_000);
    p.add_sprint(Sprint::new(String::new(), 1, vec![si_a, si_b], op));
    // Four sprints in all: A planned 120.0, consumed 31.5, gap 88.5 over 3
    // sprints is 29.5, suggested 59.5. B: 80.0 - 19.0 = 61.0 over 3 is
    // 20.333..., rounded to 20.333, suggested 40.333.
    let s = p.suggest_next_sprint_targets(3);
    assert_eq!(amount(&s, &a.id), Some(59_500));
    assert_eq!(amount(&s, &b.id), Some(40_333));
}

#[test]
fn unrecorded_actual_counts_zero() {
    let (mut p, a, b) = sample_process();
    let op = User::new("op".to_string(), "pw".to_string(), Role::User);
    p.add_sprint(Sprint::new(String::new(), 1, vec![SprintItem::new(a.clone(), 30_000)], op));
    // A: 60.0 planned, nothing recorded: 30 + 60 = 90. B never appears: 20 + 40.
    let s = p.suggest_next_sprint_targets(1);
    assert_eq!(amount(&s, &a.id), Some(90_000));
    assert_eq!(amount(&s, &b.id), Some(60_000));
}

#[test]
fn over_delivery_can_suggest_negative() {
    let (mut p, a, _b) = sample_process();
    let op = User::new("op".to_string(), "pw".to_string(), Role::User);
    let mut si = SprintItem::new(a.clone(), 30_000);
    si.set_actual(200_000);
    p.add_sprint(Sprint::new(String::new(), 1, vec![si], op));
    // 60 - 200 = -140 over one sprint: 30 - 140 = -110.
    let s = p.suggest_next_sprint_targets(1);
    assert_eq!(amount(&s, &a.id), Some(-110_000));
}

#[test]
fn clamp_at_upper_and_lower_bound() {
    assert_eq!(next_target(i64::MAX / 4, 0, 1, Some(0)), TARGET_BOUND);
    assert_eq!(next_target(i64::MIN / 4, 0, 1, Some(0)), -TARGET_BOUND);
    assert_eq!(next_target(0, 1, 1, Some(3_000_000_000_000_000)), -TARGET_BOUND);
    // Just inside the bound stays as computed.
    assert_eq!(next_target(0, 0, 1, Some(-TARGET_BOUND as i128)), TARGET_BOUND);
    assert_eq!(next_target(0, 0, 1, Some(1 - TARGET_BOUND as i128)), TARGET_BOUND - 1);
}

#[test]
fn huge_planned_total_clamps_by_sign() {
    // u = 2w, far above the bound.
    assert_eq!(next_target(i64::MAX, 0, usize::MAX, Some(0)), TARGET_BOUND);
    assert_eq!(next_target(i64::MIN, 0, usize::MAX, Some(0)), -TARGET_BOUND);
    assert_eq!(next_target(i64::MAX, usize::MAX, usize::MAX, Some(FINITE_BOUND)), TARGET_BOUND);
    assert_eq!(next_target(i64::MIN, usize::MAX, usize::MAX, Some(-FINITE_BOUND)), -TARGET_BOUND);
    assert_eq!(next_target(-1, usize::MAX, usize::MAX, Some(FINITE_BOUND)), -TARGET_BOUND);
}

#[test]
fn non_finite_recorded_total_gives_zero() {
    assert_eq!(next_target(30_000, 1, 1, None), 0);
}

#[test]
fn next_target_rounds_half_away_from_zero() {
    // w = 0, two sprints left, one run, recorded -1: gap 1 over 2 is 0.5.
    assert_eq!(next_target(0, 1, 2, Some(-1)), 1);
    assert_eq!(next_target(0, 1, 2, Some(1)), -1);
    assert_eq!(next_target(0, 1, 3, Some(-1)), 0);
}

#[test]
fn accumulate_with_no_sprints_is_empty() {
    let (p, _, _) = sample_process();
    assert!(p.accumulate_divergences().is_empty());
}

#[test]
fn accumulate_sums_actual_minus_target_per_item() {
    let (mut p, a, b) = sample_process();
    let op = User::new("op".to_string(), "pw".to_string(), Role::User);
    let mut s1a = SprintItem::new(a.clone(), 30_000);
    s1a.set_actual(31_500);
    let s1b = SprintItem::new(b.clone(), 20_000);
    p.add_sprint(Sprint::new(String::new(), 1, vec![s1a, s1b], op.clone()));
    let mut s2a = SprintItem::new(a.clone(), 28_000);
    s2a.set_actual(27_000);
    let mut s2b = SprintItem::new(b.clone(), 20_000);
    s2b.set_actual(22_000);
    p.add_sprint(Sprint::new(String::new(), 2, vec![s2a, s2b], op));
    let d = p.accumulate_divergences();
    assert_eq!(d.len(), 2);
    assert_eq!(amount(&d, &a.id), Some(500));
    assert_eq!(amount(&d, &b.id), Some(2_000));
}

#[test]
fn add_sprint_marks_owner_and_touches() {
    let (mut p, a, _) = sample_process();
    let op = User::new("op".to_string(), "pw".to_string(), Role::User);
    p.add_sprint(Sprint::new("other".to_string(), 1, vec![SprintItem::new(a, 1)], op));
    assert_eq!(p.sprints.len(), 1);
    assert_eq!(p.sprints[0].processo_id, p.id);
    assert!(p.updated_at >= p.created_at);
}

#[test]
fn plan_next_sprint_uses_suggestions() {
    let (mut p, a, b) = sample_process();
    let op = User::new("op".to_string(), "pw".to_string(), Role::User);
    let mut si_a = SprintItem::new(a.clone(), 30_000);
    si_a.set_actual(31_500);
    let mut si_b = SprintItem::new(b.clone(), 20_000);
    si_b.set_actual(19_000);
    p.add_sprint(Sprint::new(String::new(), 1, vec![si_a, si_b], op.clone()));
    let next = p.plan_next_sprint(1, op.clone());
    assert_eq!(next.numero, 2);
    assert_eq!(next.processo_id, p.id);
    assert_eq!(next.itens.len(), 2);
    assert_eq!(next.itens[0].target, 58_500);
    assert_eq!(next.itens[1].target, 41_000);
    assert!(next.itens.iter().all(|i| i.actual.is_none()));
    assert_eq!(next.operador_id.id, op.id);

    let plain = p.plan_next_sprint(0, op);
    assert_eq!(plain.itens[0].target, 30_000);
    assert_eq!(plain.itens[1].target, 20_000);
}

#[test]
fn finalize_and_clear() {
    let (mut p, a, _) = sample_process();
    let op = User::new("op".to_string(), "pw".to_string(), Role::User);
    p.add_sprint(Sprint::new(String::new(), 1, vec![SprintItem::new(a, 1)], op));
    p.finalize();
    assert_eq!(p.status, "Terminado");
    p.clear_sprints();
    assert!(p.sprints.is_empty());
    p.update_status("Pausado".to_string());
    assert_eq!(p.status, "Pausado");
}
