use sparse::itertools::cartesian_product;

#[test]
fn test_cartesian_product() {
    let mut it = cartesian_product((0..5).collect(), (0..5).collect());
    for expected_i in 0..5 {
        for expected_j in 0..5 {
            let (i, j) = it.next().expect("Iterator terminated early.");
            assert_eq!(i, expected_i);
            assert_eq!(j, expected_j);
        }
    }
}

#[test]
fn test_cartesian_product_empty() {
    let mut it = cartesian_product::<i32, i32>((0..0).collect(), (0..5).collect());
    while let Some((_, _)) = it.next() {
        panic!("Cartesian product of empty input should not yield.");
    }
    let mut it = cartesian_product::<i32, i32>((0..5).collect(), (0..0).collect());
    while let Some((_, _)) = it.next() {
        panic!("Cartesian product of empty input should not yield.");
    }
    let mut it = cartesian_product::<i32, i32>((0..0).collect(), (0..0).collect());
    while let Some((_, _)) = it.next() {
        panic!("Cartesian product of empty input should not yield.");
    }
}

#[test]
fn product_of_unequal_lengths_is_row_major() {
    let mut it = cartesian_product(vec!['a', 'b', 'c'], vec![10u8, 20, 30, 40]);
    let mut got = Vec::new();
    while let Some(p) = it.next() {
        got.push(p);
    }
    assert_eq!(got.len(), 12);
    assert_eq!(got[0], ('a', 10));
    assert_eq!(got[3], ('a', 40));
    assert_eq!(got[4], ('b', 10));
    assert_eq!(got[1 * 4 + 2], ('b', 30));
    assert_eq!(got[11], ('c', 40));
}

#[test]
fn exhausted_product_stays_exhausted() {
    let mut it = cartesian_product(vec![1u64, 2], vec![7u64]);
    assert_eq!(it.next(), Some((1, 7)));
    assert_eq!(it.next(), Some((2, 7)));
    assert_eq!(it.next(), None);
    assert_eq!(it.next(), None);
    assert_eq!(it.next(), None);
}

#[test]
fn single_outer_item_pairs_with_every_inner_item() {
    let mut it = cartesian_product(vec![9i32], vec![1i32, 2, 3]);
    assert_eq!(it.next(), Some((9, 1)));
    assert_eq!(it.next(), Some((9, 2)));
    assert_eq!(it.next(), Some((9, 3)));
    assert_eq!(it.next(), None);
}
