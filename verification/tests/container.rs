use traitvec::traitvec::{Error, InnerVec, TraitVec};
use traitvec::value::Value;

#[test]
fn main() {
    let mut v: TraitVec<Value> = TraitVec::new();
    let _x = v.push(Value::Int(1));
    let h = v.push(Value::List(vec![1, 2, 3]));
    match v.get_mut(h) {
        Value::List(l) => {
            for i in 0..100i64 {
                l.push(i);
            }
        }
        _ => panic!("expected a list"),
    }
    match v.get_mut(h) {
        Value::List(l) => {
            for i in 0..100i64 {
                l.push(i);
            }
        }
        _ => panic!("expected a list"),
    }
    drop(v);
}

#[test]
fn handle_survives_appends() {
    let mut c: TraitVec<i64> = TraitVec::new();
    let h = c.push(7);
    for v in 0..50i64 {
        c.push(v);
    }
    assert_eq!(c.get(h), Ok(&7));
}

#[test]
fn inner_handle_survives_appends() {
    let mut c: InnerVec<i64> = InnerVec::new();
    let h = c.push(42);
    for v in 0..10i64 {
        c.push(v);
    }
    assert_eq!(c.get(h), Ok(&42));
}

#[test]
fn length_counts_appends() {
    let mut c: TraitVec<i64> = TraitVec::new();
    assert_eq!(c.len(), 0);
    for v in 0..9i64 {
        c.push(v);
    }
    assert_eq!(c.len(), 9);
}

#[test]
fn iterate_insertion_order() {
    let mut c: TraitVec<Value> = TraitVec::new();
    c.push(Value::Int(1));
    c.push(Value::Text(String::from("a")));
    c.push(Value::Int(2));
    let views = c.iter();
    assert_eq!(views.len(), 3);
    assert_eq!(views[0].as_int(), Ok(1));
    assert_eq!(views[1].as_text(), Ok(&String::from("a")));
    assert_eq!(views[2].as_int(), Ok(2));
}

#[test]
fn drain_middle_keeps_outer_handles() {
    let mut c: TraitVec<i64> = TraitVec::new();
    let ha = c.push(10);
    let hb = c.push(20);
    let hc = c.push(30);
    let removed = c.drain(1, 2);
    assert_eq!(removed, vec![20]);
    let views = c.iter();
    assert_eq!(views, vec![&10, &30]);
    assert_eq!(c.get(ha), Ok(&10));
    assert_eq!(c.get(hc), Ok(&30));
    assert_eq!(c.get(hb), Err(Error::UseAfterDrain));
}

#[test]
fn index_matches_iterate() {
    let mut c: TraitVec<i64> = TraitVec::new();
    c.push(5);
    c.push(6);
    c.push(7);
    let views = c.iter();
    for i in 0..c.len() {
        assert_eq!(c.index(i), Ok(views[i]));
    }
}

#[test]
fn index_out_of_range() {
    let mut c: TraitVec<i64> = TraitVec::new();
    c.push(5);
    assert_eq!(c.index(c.len()), Err(Error::IndexOutOfRange));
    assert_eq!(c.index(100), Err(Error::IndexOutOfRange));
}

#[test]
fn append_then_mutate_through_handle() {
    let mut c: TraitVec<Value> = TraitVec::new();
    c.push(Value::Int(1));
    let h = c.push(Value::List(vec![1, 2, 3]));
    match c.get_mut(h) {
        Value::List(l) => l.push(4),
        _ => panic!("expected a list"),
    }
    let views = c.iter();
    assert_eq!(views.len(), 2);
    assert_eq!(views[0].as_int(), Ok(1));
    assert_eq!(views[1].as_list(), Ok(&vec![1, 2, 3, 4]));
}

#[test]
fn type_mismatch_on_wrong_view() {
    let text = Value::Text(String::from("a"));
    let num = Value::Int(3);
    assert_eq!(text.as_int(), Err(Error::TypeMismatch));
    assert_eq!(num.as_text(), Err(Error::TypeMismatch));
    assert_eq!(num.as_list(), Err(Error::TypeMismatch));
    assert_eq!(num.as_int(), Ok(3));
}

#[test]
fn iter_mut_exchanges_values() {
    let mut c: TraitVec<i64> = TraitVec::new();
    let h = c.push(1);
    c.push(2);
    c.push(3);
    let prev = c.iter_mut(vec![4, 5, 6]);
    assert_eq!(prev, vec![1, 2, 3]);
    assert_eq!(c.iter(), vec![&4, &5, &6]);
    assert_eq!(c.get(h), Ok(&4));
}

#[test]
fn inner_iter_mut_exchanges_values() {
    let mut c: InnerVec<i64> = InnerVec::new();
    c.push(8);
    c.push(9);
    let prev = c.iter_mut(vec![18, 19]);
    assert_eq!(prev, vec![8, 9]);
    assert_eq!(c.iter(), vec![&18, &19]);
}

#[test]
fn empty_container() {
    let c: TraitVec<i64> = TraitVec::new();
    assert_eq!(c.len(), 0);
    assert!(c.iter().is_empty());
    assert_eq!(c.index(0), Err(Error::IndexOutOfRange));
}

#[test]
fn drain_empty_range_removes_nothing() {
    let mut c: TraitVec<i64> = TraitVec::new();
    let h = c.push(1);
    c.push(2);
    let removed = c.drain(1, 1);
    assert!(removed.is_empty());
    assert_eq!(c.len(), 2);
    assert_eq!(c.get(h), Ok(&1));
}

#[test]
fn drain_everything_empties_container() {
    let mut c: TraitVec<i64> = TraitVec::new();
    let h = c.push(1);
    c.push(2);
    c.push(3);
    let removed = c.drain(0, 3);
    assert_eq!(removed, vec![1, 2, 3]);
    assert_eq!(c.len(), 0);
    assert!(c.iter().is_empty());
    assert_eq!(c.get(h), Err(Error::UseAfterDrain));
}

#[test]
fn inner_drain_matches_wrapper() {
    let mut c: InnerVec<i64> = InnerVec::new();
    c.push(10);
    c.push(20);
    c.push(30);
    c.push(40);
    let removed = c.drain(1, 3);
    assert_eq!(removed, vec![20, 30]);
    assert_eq!(c.iter(), vec![&10, &40]);
    assert_eq!(c.len(), 2);
}

#[test]
fn push_after_drain_issues_fresh_handle() {
    let mut c: TraitVec<i64> = TraitVec::new();
    c.push(1);
    let hb = c.push(2);
    c.drain(1, 2);
    let hd = c.push(4);
    assert_eq!(c.get(hd), Ok(&4));
    assert_eq!(c.get(hb), Err(Error::UseAfterDrain));
    assert_eq!(c.iter(), vec![&1, &4]);
}
