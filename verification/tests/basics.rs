use blizzard::uid::Uid;

#[test]
fn run_game() {
    assert_eq!(2 + 2, 4);
}

#[test]
fn lib_it_works() {
    assert_eq!(2 + 2, 4);
}

#[test]
fn test() {
    let id = Uid::new_numerical(2);
    println!("{}", id);
    assert!(id < 100);
    assert!(id > 0);
}

#[test]
fn identifiers_have_at_most_the_digits_asked_for() {
    for _ in 0..200 {
        assert!(Uid::new_numerical(1) < 10);
        assert!(Uid::new_numerical(4) < 10_000);
        assert!(Uid::new_numerical(9) < 1_000_000_000);
    }
    assert_eq!(Uid::new_numerical(0), 0);
}

#[test]
fn zero_is_no_identifier() {
    for _ in 0..2000 {
        let id = Uid::new_numerical(1);
        assert!(0 < id && id < 10);
    }
    for _ in 0..2000 {
        assert!(Uid::new_numerical(2) > 0);
    }
}

#[test]
fn identifiers_vary() {
    let first = Uid::new_numerical(9);
    let mut differs = false;
    for _ in 0..50 {
        differs = differs || Uid::new_numerical(9) != first;
    }
    assert!(differs);
}

#[test]
fn digits_are_read_least_significant_first() {
    assert_eq!(Uid::from_digits(&vec![]), 0);
    assert_eq!(Uid::from_digits(&vec![7]), 7);
    assert_eq!(Uid::from_digits(&vec![1, 2, 3]), 321);
    assert_eq!(Uid::from_digits(&vec![0, 0, 0, 4]), 4000);
    assert_eq!(Uid::from_digits(&vec![9, 9, 9, 9, 9, 9, 9, 9, 9]), 999_999_999);
}
