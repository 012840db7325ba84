use stochasticsampling::mesh::{periodic_pred, periodic_succ, wrap_index, CellIndex, GridSize};

#[test]
fn test_wrap_index() {
    // wrap around of periodic axis lookups, one axis at a time
    assert_eq!(wrap_index(0, 2), 0);
    assert_eq!(wrap_index(-1, 2), 1);
    assert_eq!(wrap_index(-9, 2), 1);
    assert_eq!(wrap_index(-3, 3), 0);
    assert_eq!(wrap_index(21, 2), 1);
    assert_eq!(wrap_index(3, 2), 1);
    assert_eq!(wrap_index(4, 3), 1);
}

#[test]
fn test_wrap_index_in_range() {
    for i in -50i64..50 {
        for n in 1usize..7 {
            let r = wrap_index(i, n);
            assert!(r < n);
            // congruent to the input
            assert_eq!((i - r as i64) % n as i64, 0);
        }
    }
}

#[test]
fn test_periodic_neighbors() {
    assert_eq!(periodic_succ(4, 5), 0);
    assert_eq!(periodic_succ(3, 5), 4);
    assert_eq!(periodic_pred(0, 5), 4);
    assert_eq!(periodic_pred(1, 5), 0);
}

#[test]
fn test_checked_total() {
    let g = GridSize { x: 10, y: 10, z: 6, phi: 3, theta: 2 };
    assert_eq!(g.checked_total(), Some(3600));
    assert_eq!(g.checked_spatial_total(), Some(600));

    let huge = GridSize {
        x: usize::MAX,
        y: usize::MAX,
        z: 1,
        phi: 1,
        theta: 1,
    };
    assert_eq!(huge.checked_total(), None);
}

#[test]
fn test_flatten_row_major() {
    let g = GridSize { x: 2, y: 3, z: 2, phi: 1, theta: 1 };
    // angular axes vary fastest; last spatial axis before them
    let c = CellIndex { x: 1, y: 0, z: 1, phi: 0, theta: 0 };
    assert_eq!(c.flatten(&g), (1 * 3 + 0) * 2 + 1);
    let c = CellIndex { x: 0, y: 2, z: 0, phi: 0, theta: 0 };
    assert_eq!(c.flatten(&g), 2 * 2);
    // flattening is injective over the whole grid
    let mut seen = vec![false; 12];
    for x in 0..2 {
        for y in 0..3 {
            for z in 0..2 {
                let c = CellIndex { x, y, z, phi: 0, theta: 0 };
                let f = c.flatten(&g);
                assert!(!seen[f]);
                seen[f] = true;
            }
        }
    }
}
