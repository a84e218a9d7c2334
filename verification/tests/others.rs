use std::rc::Rc;

use lib::counter::add_to_count;
use lib::naming::Foo;
use lib::shared_list::{cons_shared, List};
use lib::split::split_at_mut;

fn values(l: &List) -> Vec<i32> {
    let mut out = Vec::new();
    let mut cur = l;
    while let List::Cons(v, next) = cur {
        out.push(*v);
        cur = next;
    }
    out
}

#[test]
fn shared_tail_is_not_copied() {
    let a = Rc::new(List::Cons(5, Rc::new(List::Cons(10, Rc::new(List::Nil)))));
    assert_eq!(Rc::strong_count(&a), 1);
    let b = cons_shared(3, &a);
    assert_eq!(Rc::strong_count(&a), 2);
    {
        let c = cons_shared(4, &a);
        assert_eq!(Rc::strong_count(&a), 3);
        assert_eq!(values(&c), vec![4, 5, 10]);
    }
    assert_eq!(Rc::strong_count(&a), 2);
    assert_eq!(values(&b), vec![3, 5, 10]);
    assert_eq!(values(&a), vec![5, 10]);
}

#[test]
fn split_in_the_middle() {
    let mut v = vec![1, 2, 3, 4, 5, 6];
    let (a, b) = split_at_mut(&mut v[..], 3);
    assert_eq!(a, &mut [1, 2, 3]);
    assert_eq!(b, &mut [4, 5, 6]);
}

#[test]
fn split_at_the_ends() {
    let mut v = vec![1, 2, 3];
    {
        let (a, b) = split_at_mut(&mut v[..], 0);
        assert!(a.is_empty());
        assert_eq!(b, &mut [1, 2, 3]);
    }
    let (a, b) = split_at_mut(&mut v[..], 3);
    assert_eq!(a, &mut [1, 2, 3]);
    assert!(b.is_empty());
}

#[test]
fn writes_through_halves_reach_the_slice() {
    let mut v = vec![1, 2, 3, 4, 5, 6];
    {
        let (a, b) = split_at_mut(&mut v[..], 2);
        a[0] = 10;
        b[3] = 60;
    }
    assert_eq!(v, vec![10, 2, 3, 4, 5, 60]);
}

#[test]
fn counter_adds() {
    let mut counter: u32 = 0;
    add_to_count(&mut counter, 3);
    assert_eq!(counter, 3);
    add_to_count(&mut counter, 4);
    assert_eq!(counter, 7);
}

#[test]
fn i32_names_itself() {
    let num: i32 = 42;
    assert_eq!(num.name(), "i32です");
}
