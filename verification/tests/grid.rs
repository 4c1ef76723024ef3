use chapaty_garden::grid::{grid_points, grid_size_fits, number_kept, product2, product3};

#[test]
fn points_enumerate_last_axis_fastest() {
    let pts = grid_points(&vec![2, 3]);
    assert_eq!(pts, vec![vec![0, 0], vec![0, 1], vec![0, 2], vec![1, 0], vec![1, 1], vec![1, 2]]);
}

#[test]
fn empty_axis_gives_empty_grid() {
    assert!(grid_points(&vec![4, 0, 5]).is_empty());
    assert_eq!(grid_points(&vec![]), vec![Vec::<usize>::new()]);
}

#[test]
fn every_combination_exactly_once() {
    let dims = vec![3, 1, 4, 2];
    let pts = grid_points(&dims);
    assert_eq!(pts.len(), 24);
    let mut seen = std::collections::HashSet::new();
    for p in &pts {
        assert!(p.iter().zip(&dims).all(|(x, d)| x < d));
        assert!(seen.insert(p.clone()));
    }
}

#[test]
fn products_pair_and_number_elements() {
    let p = product2(&vec!['a', 'b'], &vec![1, 2, 3]);
    assert_eq!(p[0], (0, ('a', 1)));
    assert_eq!(p[4], (4, ('b', 2)));
    let q = product3(&vec![0.1f64, 0.2], &vec![5i64], &vec![true, false]);
    assert_eq!(q.len(), 4);
    assert_eq!(q[3], (3, (0.2, 5, false)));
}

#[test]
fn kept_entries_numbered_consecutively() {
    assert_eq!(number_kept(&vec![false, true, true, false, true]), vec![(0, 1), (1, 2), (2, 4)]);
}

#[test]
fn scalping_baseline_space_has_11664_combinations() {
    // vwap, inner, outer, rsi length, rsi lower, rsi upper, stop, target, pyramid, cooldown
    let dims = vec![3, 3, 3, 3, 2, 2, 3, 2, 3, 2];
    let pts = grid_points(&dims);
    assert_eq!(pts.len(), 11664);
    assert_eq!(pts[0], vec![0; 10]);
    assert_eq!(pts[11663], vec![2, 2, 2, 2, 1, 1, 2, 1, 2, 1]);
    assert_eq!(pts[1], vec![0, 0, 0, 0, 0, 0, 0, 0, 0, 1]);
}

#[test]
fn grid_size_fits_checks_the_product() {
    assert!(grid_size_fits(&vec![2, 3, 4]));
    assert!(grid_size_fits(&vec![]));
    assert!(grid_size_fits(&vec![usize::MAX, 1]));
    assert!(!grid_size_fits(&vec![usize::MAX, 2]));
    assert!(!grid_size_fits(&vec![usize::MAX / 2 + 1, 3, 1]));
    // an empty axis makes the grid empty, however large the others
    assert!(grid_size_fits(&vec![usize::MAX, 0, usize::MAX]));
}
