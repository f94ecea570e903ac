use engine::params::{Key, Params, TypeId};
use engine::rules::Entry;
use engine::select::Select;

fn key(id: u64, t: u64) -> Key {
    Key { id, type_id: TypeId(t) }
}

fn keys(p: &Params) -> Vec<Key> {
    (0..p.len()).map(|i| p.key_at(i)).collect()
}

#[test]
fn put_replaces_key_of_same_type() {
    let mut p = Params::from_keys(vec![key(1, 5), key(2, 3)]);
    p.put(key(9, 5));
    assert_eq!(keys(&p), vec![key(2, 3), key(9, 5)]);
    assert_eq!(p.find(TypeId(5)), Some(key(9, 5)));
    assert_eq!(p.find(TypeId(4)), None);
}

#[test]
fn from_keys_keeps_the_last_of_a_type() {
    let p = Params::from_keys(vec![key(1, 2), key(2, 1), key(3, 2)]);
    assert_eq!(keys(&p), vec![key(2, 1), key(3, 2)]);
}

#[test]
fn retain_types_keeps_listed_types_in_order() {
    let mut p = Params::from_keys(vec![key(1, 1), key(2, 2), key(3, 3)]);
    p.retain_types(&vec![TypeId(3), TypeId(1)]);
    assert_eq!(keys(&p), vec![key(1, 1), key(3, 3)]);
}

#[test]
fn narrowing_makes_equal_memo_keys() {
    let entry = Entry::Root(std::sync::Arc::new(vec![TypeId(1)]));
    let a = Select::new(Params::from_keys(vec![key(1, 1), key(2, 2)]), TypeId(9), entry.clone());
    let b = Select::new(Params::from_keys(vec![key(1, 1), key(7, 3)]), TypeId(9), entry);
    assert_eq!(a, b);
    assert_eq!(a.params, b.params);
}

#[test]
fn narrowing_to_a_param_entry() {
    let s = Select::new(Params::from_keys(vec![key(1, 1), key(2, 2)]), TypeId(2), Entry::Param(TypeId(2)));
    assert_eq!(keys(&s.params), vec![key(2, 2)]);
}

#[test]
fn empty_params() {
    let p = Params::new();
    assert_eq!(p.len(), 0);
    assert_eq!(p.find(TypeId(0)), None);
    assert_eq!(p, Params::from_keys(vec![]));
}

#[test]
fn find_in_a_larger_bag() {
    let p = Params::from_keys((0..50).map(|i| key(i * 10, i * 2)).collect());
    assert_eq!(p.len(), 50);
    for i in 0..50 {
        assert_eq!(p.find(TypeId(i * 2)), Some(key(i * 10, i * 2)));
        assert_eq!(p.find(TypeId(i * 2 + 1)), None);
    }
}
