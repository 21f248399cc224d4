use std::cell::Cell;
use std::rc::Rc;
use traitvec::traitvec::TraitVec;

struct Counting {
    counter: Rc<Cell<usize>>,
}

impl Drop for Counting {
    fn drop(&mut self) {
        self.counter.set(self.counter.get() + 1);
    }
}

#[test]
fn destroy_releases_each_element_once() {
    let counter = Rc::new(Cell::new(0usize));
    let mut c: TraitVec<Counting> = TraitVec::new();
    for _ in 0..4 {
        c.push(Counting { counter: Rc::clone(&counter) });
    }
    assert_eq!(counter.get(), 0);
    c.destroy();
    assert_eq!(counter.get(), 4);
}

#[test]
fn drain_transfers_ownership_once() {
    let counter = Rc::new(Cell::new(0usize));
    let mut c: TraitVec<Counting> = TraitVec::new();
    for _ in 0..3 {
        c.push(Counting { counter: Rc::clone(&counter) });
    }
    let removed = c.drain(0, 2);
    assert_eq!(counter.get(), 0);
    drop(removed);
    assert_eq!(counter.get(), 2);
    c.destroy();
    assert_eq!(counter.get(), 3);
}
