use lists::persistently_linked::List;

#[test]
fn test_append() {
    let list = List::new().append(1).append(2).append(3);

    let mut iter = list.iter();
    assert_eq!(iter.next(), Some(&3));
    assert_eq!(iter.next(), Some(&2));
    assert_eq!(iter.next(), Some(&1));
}

fn values(list: &List<i32>) -> Vec<i32> {
    let mut out = Vec::new();
    let mut iter = list.iter();
    while let Some(v) = iter.next() {
        out.push(*v);
    }
    out
}

#[test]
fn versions_share_and_stay_apart() {
    let l1 = List::new().append(10).append(20);
    let l2 = l1.append(30);
    let l3 = l1.tail();

    assert_eq!(values(&l1), vec![20, 10]);
    assert_eq!(values(&l2), vec![30, 20, 10]);
    assert_eq!(values(&l3), vec![10]);
}

#[test]
fn tail_of_empty_is_empty() {
    let empty: List<i32> = List::new();
    let t = empty.tail();
    assert_eq!(t.head(), None);
    assert_eq!(values(&t), Vec::<i32>::new());
}

#[test]
fn head_after_tail_is_second_value() {
    let list = List::new().append(1).append(2).append(3);
    assert_eq!(list.head(), Some(&3));
    assert_eq!(list.tail().head(), Some(&2));

    let single = List::new().append(7);
    assert_eq!(single.tail().head(), None);
}

#[test]
fn iteration_ends() {
    let list = List::new().append(5);
    let mut iter = list.iter();
    assert_eq!(iter.next(), Some(&5));
    assert_eq!(iter.next(), None);
    assert_eq!(iter.next(), None);
}
