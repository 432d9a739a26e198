use linked_list::List;

#[test]
fn push() {
    let mut l = List::<i32>::new();

    l.push(&1);
    l.push(&2);
    l.push(&3);
    l.push(&4);

    assert_eq!(l.display(), "[1, 2, 3, 4]");
    assert_eq!(l.length(), 4);
}

#[test]
fn pop_1() {
    let mut l = List::<i32>::new();

    l.push(&1);
    l.push(&2);
    l.push(&3);

    l.pop();
    l.pop();

    assert_eq!(l.display(), "[1]");
    assert_eq!(l.length(), 1);
}

#[test]
fn pop_2() {
    let mut l = List::<i32>::new();

    l.pop();

    l.push(&1);
    l.push(&2);
    l.push(&3);

    l.pop();
    l.push(&4);
    l.push(&5);
    l.pop();
    l.push(&6);

    assert_eq!(l.display(), "[1, 2, 4, 6]");
    assert_eq!(l.length(), 4);
}

#[test]
fn pop_empty_is_noop() {
    let mut l = List::<i32>::new();

    l.pop();

    assert_eq!(l.display(), "[]");
    assert_eq!(l.length(), 0);
}

#[test]
fn new_list_is_empty() {
    let l = List::<i32>::new();

    assert_eq!(l.display(), "[]");
    assert_eq!(l.length(), 0);
}

#[test]
fn length_follows_clamped_count() {
    let mut l = List::<i32>::new();

    l.push(&1);
    l.pop();
    l.pop();
    l.push(&2);
    l.push(&3);

    assert_eq!(l.length(), 2);
    assert_eq!(l.display(), "[2, 3]");
}

#[test]
fn pop_decrements_length_by_one() {
    let mut l = List::<i32>::new();

    l.push(&7);
    l.push(&8);
    l.push(&9);

    assert_eq!(l.length(), 3);
    l.pop();
    assert_eq!(l.length(), 2);
    l.pop();
    assert_eq!(l.length(), 1);
    l.pop();
    assert_eq!(l.length(), 0);
    l.pop();
    assert_eq!(l.length(), 0);
}

#[test]
fn push_appends_at_the_end() {
    let mut l = List::<i32>::new();

    l.push(&10);
    l.push(&20);
    assert_eq!(l.display(), "[10, 20]");

    l.push(&30);
    assert_eq!(l.display(), "[10, 20, 30]");
}

#[test]
fn display_negative_and_zero() {
    let mut l = List::<i32>::new();

    l.push(&-12);
    l.push(&345);
    l.push(&0);

    assert_eq!(l.display(), "[-12, 345, 0]");
}

#[test]
fn display_extreme_values() {
    let mut l = List::<i32>::new();

    l.push(&i32::MIN);
    l.push(&i32::MAX);

    assert_eq!(l.display(), "[-2147483648, 2147483647]");
}

#[test]
fn items_are_borrowed_not_copied() {
    let a = 5;
    let b = 6;
    let mut l = List::new();

    l.push(&a);
    l.push(&b);
    l.pop();
    l.push(&a);

    assert_eq!(l.display(), "[5, 5]");
    assert_eq!(l.length(), 2);
}
