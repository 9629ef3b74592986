use voidchess_engine_rs::base::rc_list::RcList;
use voidchess_engine_rs::Move;

#[test]
fn test_basics() {
    let list = RcList::new();

    // Check empty list is empty
    assert_eq!(list.is_empty(), true);
    assert_eq!(list.count(), 0);

    // Populate list
    let child_list = list.append_new(1);
    assert_eq!(list.is_empty(), true);
    assert_eq!(child_list.is_empty(), false);
    assert_eq!(child_list.count(), 1);
}

#[test]
fn test_iter() {
    let list = RcList::new();
    let list1 = list.append_new(1);
    let list2 = list1.append_new(2);
    let list3 = list2.append_new(3);
    let mut reverse_iter = list3.reverse_iter();

    assert_eq!(reverse_iter.next(), Some(&3));
    assert_eq!(reverse_iter.next(), Some(&2));
    assert_eq!(reverse_iter.next(), Some(&1));
    assert!(reverse_iter.next().is_none());
}

#[test]
fn test_toggle_rows() {
    let list = RcList::new();
    let list1 = list.append_new("a1-h8".parse::<Move>().unwrap());
    let list2 = list1.append_new("b1-b2".parse::<Move>().unwrap());
    let list3 = list2.append_new("c8-c1".parse::<Move>().unwrap());

    let toggled_list = list3.toggle_rows();
    let mut reverse_iter = toggled_list.reverse_iter();

    assert_eq!(*reverse_iter.next().unwrap(), "c1-c8".parse::<Move>().unwrap());
    assert_eq!(*reverse_iter.next().unwrap(), "b8-b7".parse::<Move>().unwrap());
    assert_eq!(*reverse_iter.next().unwrap(), "a8-h1".parse::<Move>().unwrap());
    assert!(reverse_iter.next().is_none());
}

#[test]
fn test_peek() {
    let list = RcList::new();
    assert!(list.peek().is_none(), "peek of empty list should be None");
    let list1 = list.append_new(1);
    assert_eq!(list1.peek(), Some(&1));
    let list2 = list1.append_new(2);
    assert_eq!(list2.peek(), Some(&2));
}

#[test]
fn rc_list_shares_its_tail() {
    let list1 = RcList::new().append_new(1);
    let list2a = list1.append_new(2);
    let list2b = list1.append_new(3);
    assert_eq!(list1.count(), 1);
    assert_eq!(list2a.count(), 2);
    assert_eq!(list2b.count(), 2);
    assert_eq!(list2a.peek(), Some(&2));
    assert_eq!(list2b.peek(), Some(&3));
    let mut iter = list2b.reverse_iter();
    assert!(iter.has_next());
    assert_eq!(iter.next(), Some(&3));
    assert_eq!(iter.next(), Some(&1));
    assert!(!iter.has_next());
}

#[test]
fn toggling_the_rows_of_a_list_twice_gives_it_back() {
    let list = RcList::new()
        .append_new("e2-e4".parse::<Move>().unwrap())
        .append_new("g8Qh8".parse::<Move>().unwrap());
    let twice = list.toggle_rows().toggle_rows();
    let mut a = list.reverse_iter();
    let mut b = twice.reverse_iter();
    assert_eq!(a.next(), b.next());
    assert_eq!(a.next(), b.next());
    assert!(b.next().is_none());
}
