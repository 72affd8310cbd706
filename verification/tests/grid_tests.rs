use simple_ray_tracer::grid::{dims_are_addressable, GridND};

#[test]
fn gridnd_zeroed_fills_with_zeros() {
    let dims = vec![4, 4];
    let grid = GridND::<u32>::new_zeroed(dims);

    for i in 0..4 {
        let row = grid.at(i);
        for j in 0..4 {
            assert_eq!(*row.get(j), 0);
        }
    }
}

#[test]
fn gridnd_indexing_1d_works() {
    let dims = vec![10];
    let mut grid = GridND::<u32>::new_zeroed(dims);

    assert_eq!(*grid.get(3), 0);
    assert_eq!(*grid.get_mut(3), 0);

    *grid.get_mut(3) = 42;

    assert_eq!(*grid.get(3), 42);
    assert_eq!(*grid.get_mut(3), 42);
}

#[test]
fn gridnd_indexing_2d_works() {
    let dims = vec![10, 10];
    let mut grid = GridND::<u32>::new_zeroed(dims);

    assert_eq!(*grid.at(3).get(3), 0);
    assert_eq!(*grid.at_mut(3).get(3), 0);
    assert_eq!(*grid.at_mut(3).get_mut(3), 0);

    *grid.at_mut(3).get_mut(3) = 42;

    assert_eq!(*grid.at(3).get(3), 42);
    assert_eq!(*grid.at_mut(3).get(3), 42);
    assert_eq!(*grid.at_mut(3).get_mut(3), 42);
}

#[test]
fn gridnd_indexing_nd_works() {
    let dims = vec![10, 10, 10];
    let mut grid = GridND::<u32>::new_zeroed(dims);

    assert_eq!(*grid.at(3).at(3).get(3), 0);
    assert_eq!(*grid.at_mut(3).at(3).get(3), 0);
    assert_eq!(*grid.at_mut(3).at_mut(3).get(3), 0);
    assert_eq!(*grid.at_mut(3).at_mut(3).get_mut(3), 0);

    *grid.at_mut(3).at_mut(3).get_mut(3) = 42;

    assert_eq!(*grid.at(3).at(3).get(3), 42);
    assert_eq!(*grid.at_mut(3).at(3).get(3), 42);
    assert_eq!(*grid.at_mut(3).at_mut(3).get(3), 42);
    assert_eq!(*grid.at_mut(3).at_mut(3).get_mut(3), 42);
}

#[test]
fn test_gridnd_shape() {
    let grid = GridND::<u32>::new_zeroed(vec![10, 10]);
    assert_eq!(grid.shape(), vec![10, 10]);
}

#[test]
fn test_gridviewnd_shape() {
    let grid = GridND::<u32>::new_zeroed(vec![10, 10, 10]);
    let view = grid.at(0);
    assert_eq!(view.shape(), vec![10, 10]);
}

#[test]
fn test_gridviewndmut_shape() {
    let mut grid = GridND::<u32>::new_zeroed(vec![10, 10, 10]);
    let view = grid.at_mut(0);
    assert_eq!(view.shape(), vec![10, 10]);
}

#[test]
fn test_1d() {
    let dims = vec![5];
    let mut grid = GridND::<u32>::new_zeroed(dims);
    let mut it = grid.iter();
    while let Some(val) = it.next() {
        assert_eq!(*val, 0);
    }

    for i in 0..5 {
        *grid.get_mut(i) = 42;
    }

    let mut it = grid.iter();
    while let Some(val) = it.next() {
        assert_eq!(*val, 42);
    }

    let mut sum = 0u32;
    let mut it = grid.iter();
    while let Some(val) = it.next() {
        sum += *val;
    }
    assert_eq!(sum, 42 * 5);
}

#[test]
fn test_2d() {
    let dims = vec![5, 5];
    let mut grid = GridND::<u32>::new_zeroed(dims);
    let mut it = grid.at(2).iter();
    while let Some(val) = it.next() {
        assert_eq!(*val, 0);
    }
    {
        let row = grid.at_mut(2);
        for j in 0..5 {
            assert_eq!(*row.get(j), 0);
        }
    }

    for i in 0..5 {
        for j in 0..5 {
            *grid.at_mut(i).get_mut(j) = 1;
        }
    }

    let mut rows = grid.subviews();
    while let Some(row) = rows.next() {
        let mut it = row.iter();
        while let Some(val) = it.next() {
            assert_eq!(*val, 1);
        }
    }

    for j in 0..5 {
        *grid.at_mut(2).get_mut(j) = 42;
    }

    let mut sum = 0u32;
    let mut rows = grid.subviews();
    while let Some(row) = rows.next() {
        let mut it = row.iter();
        while let Some(val) = it.next() {
            sum += *val;
        }
    }
    assert_eq!(sum, 42 * 5 + 1 * 5 * 4);
}

#[test]
fn test_3d() {
    let dims = vec![5, 5, 5];
    let mut grid = GridND::<u32>::new_zeroed(dims);
    let mut it = grid.at(2).at(2).iter();
    while let Some(val) = it.next() {
        assert_eq!(*val, 0);
    }
    {
        let plane = grid.at_mut(2);
        let row = plane.at(2);
        let mut it = row.iter();
        while let Some(val) = it.next() {
            assert_eq!(*val, 0);
        }
    }

    for i in 0..5 {
        for j in 0..5 {
            for k in 0..5 {
                *grid.at_mut(i).at_mut(j).get_mut(k) = 1;
            }
        }
    }

    let mut planes = grid.subviews();
    while let Some(plane) = planes.next() {
        let mut rows = plane.subviews();
        while let Some(row) = rows.next() {
            let mut it = row.iter();
            while let Some(val) = it.next() {
                assert_eq!(*val, 1);
            }
        }
    }

    for k in 0..5 {
        *grid.at_mut(2).at_mut(2).get_mut(k) = 42;
    }

    let mut sum = 0u32;
    let mut planes = grid.subviews();
    while let Some(plane) = planes.next() {
        let mut rows = plane.subviews();
        while let Some(row) = rows.next() {
            let mut it = row.iter();
            while let Some(val) = it.next() {
                sum += *val;
            }
        }
    }
    assert_eq!(sum, 42 * 5 + 1 * 5 * 4 + 1 * 5 * 5 * 4);
}

#[test]
fn grid_shape_and_count_match_request() {
    let grid = GridND::<u32>::new_zeroed(vec![3, 4]);
    assert_eq!(grid.shape(), vec![3, 4]);
    // total element count equals the product of the dimensions
    let mut count = 0usize;
    for i in 0..3 {
        let mut it = grid.at(i).iter();
        while it.next().is_some() {
            count += 1;
        }
    }
    assert_eq!(count, 3 * 4);
}

#[test]
fn mutable_view_reads_match_shared_reads() {
    let mut grid = GridND::<u32>::new_zeroed(vec![2, 3]);
    *grid.at_mut(1).get_mut(2) = 9;
    {
        let view = grid.at_mut(1);
        let mut it = view.iter();
        assert_eq!(it.next(), Some(&0));
        assert_eq!(it.next(), Some(&0));
        assert_eq!(it.next(), Some(&9));
        assert_eq!(it.next(), None);
    }
    assert_eq!(*grid.at(1).get(2), 9);
    assert_eq!(*grid.at(0).get(2), 0);
}

#[test]
fn grid_new_fills_with_value() {
    let grid = GridND::<u64>::new(vec![3, 2], 7);
    for i in 0..3 {
        let row = grid.at(i);
        for j in 0..2 {
            assert_eq!(*row.get(j), 7);
        }
    }
    assert_eq!(grid.shape(), vec![3, 2]);
}

#[test]
fn grid_random_has_requested_shape() {
    let grid = GridND::<u32>::new_random(vec![4, 3]);
    assert_eq!(grid.shape(), vec![4, 3]);
    for i in 0..4 {
        let row = grid.at(i);
        for j in 0..3 {
            // every cell is readable; nothing is promised of the values
            let _ = *row.get(j);
        }
    }
}

#[test]
fn grid_with_zero_dimension_is_empty() {
    let grid = GridND::<u32>::new_zeroed(vec![3, 0]);
    assert_eq!(grid.shape(), vec![3, 0]);
    assert_eq!(grid.at(1).shape(), vec![0]);
    let mut it = grid.at(1).iter();
    assert!(it.next().is_none());
}

#[test]
fn tuple_read_write_round_trip() {
    let mut grid = GridND::<u32>::new_zeroed(vec![4, 3, 2]);
    grid.write_at(&[2, 1, 1], 77);
    assert_eq!(*grid.read_at(&[2, 1, 1]), 77);
    assert_eq!(*grid.read_at(&[2, 1, 0]), 0);
    assert_eq!(*grid.read_at(&[0, 0, 0]), 0);
    // the tuple accessors agree with the chained view descent
    assert_eq!(*grid.at(2).at(1).get(1), 77);
    *grid.at_mut(3).at_mut(2).get_mut(0) = 5;
    assert_eq!(*grid.read_at(&[3, 2, 0]), 5);
    assert_eq!(*grid.at(2).read_at(&[1, 1]), 77);
    grid.at_mut(3).write_at(&[2, 1], 8);
    assert_eq!(*grid.read_at(&[3, 2, 1]), 8);
}

#[test]
fn dims_addressability_check() {
    assert!(dims_are_addressable(&[10, 10, 10]));
    assert!(dims_are_addressable(&[]));
    assert!(dims_are_addressable(&[2, usize::MAX, 0]));
    assert!(!dims_are_addressable(&[usize::MAX, 2]));
    assert!(!dims_are_addressable(&[0, usize::MAX, usize::MAX]));
}

#[test]
fn subview_iteration_matches_indexing() {
    let mut grid = GridND::<u32>::new_zeroed(vec![3, 2]);
    for i in 0..3 {
        for j in 0..2 {
            *grid.at_mut(i).get_mut(j) = (i * 2 + j) as u32;
        }
    }
    let mut rows = grid.subviews();
    let mut i = 0;
    while let Some(row) = rows.next() {
        assert_eq!(row.shape(), vec![2]);
        for j in 0..2 {
            assert_eq!(*row.get(j), (i * 2 + j) as u32);
        }
        i += 1;
    }
    assert_eq!(i, 3);
}

#[test]
fn iterator_is_forward_only_and_finite() {
    let grid = GridND::<u32>::new(vec![2], 5);
    let mut it = grid.iter();
    assert_eq!(it.next(), Some(&5));
    assert_eq!(it.next(), Some(&5));
    assert_eq!(it.next(), None);
    assert_eq!(it.next(), None);
}
