use roguecore::combinations::Combination;

#[test]
fn test_little() {
    assert_eq!(Combination::new(2).combine(), vec![(0, 0), (0, 1), (1, 0), (1, 1),]);
}

#[test]
fn combine_rectangular() {
    let v = Combination::new_2d(2, 3).combine();
    assert_eq!(v, vec![(0, 0), (0, 1), (0, 2), (1, 0), (1, 1), (1, 2)]);
}

#[test]
fn combine_empty_side() {
    assert_eq!(Combination::new_2d(0, 5).combine(), vec![]);
    assert_eq!(Combination::new_2d(5, 0).combine(), vec![]);
}

#[test]
fn consume_applies_in_row_major_order() {
    let v = Combination::new_2d(2, 2).consume(|i, j| *i * 10 + *j);
    assert_eq!(v, vec![0, 1, 10, 11]);
}

#[test]
fn map_is_square_consume() {
    let v = Combination::map(2, |i, j| *i + *j);
    assert_eq!(v, vec![0, 1, 1, 2]);
}

#[test]
fn for_each_visits_every_pair() {
    let count = std::cell::Cell::new(0usize);
    Combination::new(3).for_each(|_p| count.set(count.get() + 1));
    assert_eq!(count.get(), 9);
}

#[test]
fn from_conversions() {
    let c: Combination = 4usize.into();
    assert_eq!(c.combine().len(), 16);
    let c2: Combination = (2usize, 5usize).into();
    assert_eq!(c2.combine().len(), 10);
}
