use geraldo::fornecedor::Fornecedor;
use geraldo::item::Item;
use geraldo::sprint::Sprint;
use geraldo::store::{paginate, search_by_name};
use geraldo::user::{Role, User};

#[test]
fn pages_concatenate_to_whole_collection() {
    let docs: Vec<u32> = (0..7).collect();
    let mut all = Vec::new();
    let mut page = 0;
    loop {
        let p = paginate(docs.clone(), page, 3);
        let short = p.len() < 3;
        all.extend(p);
        if short {
            break;
        }
        page += 1;
    }
    assert_eq!(page, 2);
    assert_eq!(all, docs);
}

#[test]
fn exact_multiple_ends_with_empty_page() {
    let docs: Vec<u32> = (0..6).collect();
    assert_eq!(paginate(docs.clone(), 0, 3), vec![0, 1, 2]);
    assert_eq!(paginate(docs.clone(), 1, 3), vec![3, 4, 5]);
    assert!(paginate(docs, 2, 3).is_empty());
}

#[test]
fn page_beyond_end_and_huge_page_are_empty() {
    let docs: Vec<u32> = (0..4).collect();
    assert!(paginate(docs.clone(), 9, 2).is_empty());
    assert!(paginate(docs.clone(), usize::MAX, usize::MAX).is_empty());
    assert!(paginate(docs.clone(), 0, 0).is_empty());
    assert_eq!(paginate(docs, 0, usize::MAX), vec![0, 1, 2, 3]);
}

#[test]
fn empty_collection_has_empty_first_page() {
    let docs: Vec<u32> = Vec::new();
    assert!(paginate(docs, 0, 10).is_empty());
}

fn suppliers(names: &[&str]) -> Vec<Fornecedor> {
    names.iter().map(|n| Fornecedor::new(n.to_string())).collect()
}

#[test]
fn search_ignores_case() {
    let docs = suppliers(&["Acme Steel", "Beta", "ACME Paper", "gamma acme"]);
    let found = search_by_name(docs, "acme", 0, 10);
    let names: Vec<&str> = found.iter().map(|f| f.nome.as_str()).collect();
    assert_eq!(names, vec!["Acme Steel", "ACME Paper", "gamma acme"]);
}

#[test]
fn search_filters_before_paginating() {
    let docs = suppliers(&["x1", "y", "x2", "y", "y", "x3", "x4"]);
    let page1 = search_by_name(docs.clone(), "X", 1, 2);
    let names: Vec<&str> = page1.iter().map(|f| f.nome.as_str()).collect();
    assert_eq!(names, vec!["x3", "x4"]);
    assert!(search_by_name(docs, "X", 2, 2).is_empty());
}

#[test]
fn empty_query_matches_everything() {
    let docs = suppliers(&["a", "b"]);
    assert_eq!(search_by_name(docs, "", 0, 5).len(), 2);
}

#[test]
fn search_users_by_username() {
    let users = vec![
        User::new("Maria".to_string(), "pw".to_string(), Role::User),
        User::new("jose".to_string(), "pw".to_string(), Role::Admin),
    ];
    let found = search_by_name(users, "MAR", 0, 10);
    assert_eq!(found.len(), 1);
    assert_eq!(found[0].username, "Maria");
}

#[test]
fn items_of_supplier_filtered_then_paged() {
    let s1 = Fornecedor::new("S1".to_string());
    let s2 = Fornecedor::new("S2".to_string());
    let items = vec![
        Item::new("a".to_string(), s1.clone()),
        Item::new("b".to_string(), s2.clone()),
        Item::new("c".to_string(), s1.clone()),
        Item::new("d".to_string(), s1.clone()),
    ];
    let first = Item::list_by_fornecedor(items.clone(), &s1.id, 0, 2);
    assert_eq!(first.iter().map(|i| i.nome.as_str()).collect::<Vec<_>>(), vec!["a", "c"]);
    let second = Item::list_by_fornecedor(items, &s1.id, 1, 2);
    assert_eq!(second.iter().map(|i| i.nome.as_str()).collect::<Vec<_>>(), vec!["d"]);
}

#[test]
fn sprints_of_process() {
    let op = User::new("op".to_string(), "pw".to_string(), Role::User);
    let sprints = vec![
        Sprint::new("proc-a".to_string(), 1, vec![], op.clone()),
        Sprint::new("proc-b".to_string(), 1, vec![], op.clone()),
        Sprint::new("proc-a".to_string(), 2, vec![], op),
    ];
    let mine = Sprint::list_by_processo(sprints, "proc-a");
    assert_eq!(mine.iter().map(|s| s.numero).collect::<Vec<_>>(), vec![1, 2]);
}

use geraldo::text::text_contains;

#[test]
fn substring_search_on_characters() {
    assert!(text_contains("fórmula", "rmu"));
    assert!(text_contains("fórmula", "ó"));
    assert!(text_contains("abc", ""));
    assert!(text_contains("", ""));
    assert!(!text_contains("", "a"));
    assert!(!text_contains("ab", "abc"));
    assert!(!text_contains("aab", "abb"));
    assert!(text_contains("aaab", "aab"));
}
