use rust_rl::space::{
    all_elems_as_vec, elem_of_index, gen_random_discrete, is_valid_discrete, space_elem_as_int,
    space_size,
};

#[test]
fn test_all_elems_as_vec() {
    let space = vec![3, 3];
    let v = all_elems_as_vec(&space).into_iter().collect::<Vec<_>>();
    assert_eq!(v.len(), 9);
}

#[test]
fn enumeration_order_last_dimension_fastest() {
    let space = vec![2, 3];
    let v = all_elems_as_vec(&space);
    assert_eq!(
        v,
        vec![
            vec![0, 0],
            vec![0, 1],
            vec![0, 2],
            vec![1, 0],
            vec![1, 1],
            vec![1, 2]
        ]
    );
}

#[test]
fn enumeration_of_space_without_dimensions_has_one_point() {
    let space: Vec<usize> = vec![];
    assert_eq!(all_elems_as_vec(&space), vec![Vec::<usize>::new()]);
}

#[test]
fn mixed_radix_index_exact() {
    assert_eq!(space_elem_as_int(&[2, 1], &[3, 3]), 7);
    assert_eq!(space_elem_as_int(&[1, 2, 3], &[2, 3, 4]), 23);
    assert_eq!(space_elem_as_int(&[], &[]), 0);
}

#[test]
fn index_round_trip() {
    let dims = vec![2, 3, 4];
    for i in 0..24 {
        let e = elem_of_index(&dims, i);
        assert!(is_valid_discrete(&e, &dims));
        assert_eq!(space_elem_as_int(&e, &dims), i);
    }
    assert_eq!(elem_of_index(&dims, 23), vec![1, 2, 3]);
}

#[test]
fn space_size_products() {
    assert_eq!(space_size(&[3, 3]), Some(9));
    assert_eq!(space_size(&[]), Some(1));
    assert_eq!(space_size(&[5, 0, 7]), Some(0));
    assert_eq!(space_size(&[usize::MAX, 2]), None);
    assert_eq!(space_size(&[usize::MAX, 2, 0]), Some(0));
}

#[test]
fn validity_checks_length_and_bounds() {
    assert!(is_valid_discrete(&[2, 0], &[3, 3]));
    assert!(!is_valid_discrete(&[3, 0], &[3, 3]));
    assert!(!is_valid_discrete(&[2], &[3, 3]));
    assert!(!is_valid_discrete(&[2, 0, 0], &[3, 3]));
}

#[test]
fn random_points_lie_in_the_space() {
    let dims = vec![3, 1, 5];
    for _ in 0..200 {
        let p = gen_random_discrete(&dims);
        assert!(is_valid_discrete(&p, &dims));
        assert_eq!(p[1], 0);
    }
}
