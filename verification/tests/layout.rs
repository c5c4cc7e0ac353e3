use windsim::{Dims, Fixed, Pos, WindError, WindGrid};

#[test]
fn index_is_a_bijection_on_a_4_4_4_grid() {
    let grid: WindGrid<Fixed> = WindGrid::new(4, 4, 4).unwrap();
    let mut seen = vec![false; 216];
    for z in 0..6 {
        for y in 0..6 {
            for x in 0..6 {
                let i = grid.get_index(x, y, z).unwrap();
                assert!(i < 216);
                assert!(!seen[i]);
                seen[i] = true;
            }
        }
    }
    assert!(seen.iter().all(|s| *s));
}

#[test]
fn index_runs_along_x_first() {
    let d = Dims::new(96, 96, 4).unwrap();
    assert_eq!(d.index(0, 0, 0), 0);
    assert_eq!(d.index(1, 0, 0), 1);
    assert_eq!(d.index(0, 1, 0), 98);
    assert_eq!(d.index(0, 0, 1), 98 * 98);
    assert_eq!(d.index(3, 4, 2), 3 + 98 * (4 + 98 * 2));
    assert_eq!(d.index(97, 97, 5), 98 * 98 * 6 - 1);
}

#[test]
fn strides_and_cell_count() {
    let d = Dims::new(96, 96, 4).unwrap();
    assert_eq!(d.row(), 98);
    assert_eq!(d.plane(), 98 * 98);
    assert_eq!(d.cells(), 98 * 98 * 6);
}

#[test]
fn contains_ends_at_the_halo() {
    let d = Dims::new(3, 4, 5).unwrap();
    assert!(d.contains(0, 0, 0));
    assert!(d.contains(4, 5, 6));
    assert!(!d.contains(5, 0, 0));
    assert!(!d.contains(0, 6, 0));
    assert!(!d.contains(0, 0, 7));
}

#[test]
fn an_empty_axis_is_degenerate() {
    assert_eq!(Dims::new(0, 4, 4), Err(WindError::DegenerateConfiguration));
    assert_eq!(Dims::new(4, 0, 4), Err(WindError::DegenerateConfiguration));
    assert_eq!(Dims::new(4, 4, 0), Err(WindError::DegenerateConfiguration));
    assert!(WindGrid::<Fixed>::new(0, 1, 1).is_err());
}

#[test]
fn too_many_cells_are_degenerate() {
    assert_eq!(Dims::new(usize::MAX, 1, 1), Err(WindError::DegenerateConfiguration));
    assert_eq!(Dims::new(usize::MAX - 2, 1, 1), Err(WindError::DegenerateConfiguration));
    assert_eq!(
        Dims::new(usize::MAX / 16, usize::MAX / 16, 1),
        Err(WindError::DegenerateConfiguration)
    );
    assert_eq!(Dims::new(1, 1, 1), Ok(Dims { x: 1, y: 1, z: 1 }));
}

#[test]
fn get_index_refuses_cells_outside_the_padded_grid() {
    let grid: WindGrid<Fixed> = WindGrid::new(4, 5, 6).unwrap();
    assert_eq!(grid.get_index(5, 6, 7), Ok(5 + 6 * (6 + 7 * 7)));
    assert_eq!(grid.get_index(6, 0, 0), Err(WindError::IndexOutOfBounds));
    assert_eq!(grid.get_index(0, 7, 0), Err(WindError::IndexOutOfBounds));
    assert_eq!(grid.get_index(0, 0, 8), Err(WindError::IndexOutOfBounds));
    assert_eq!(grid.get_index(usize::MAX, usize::MAX, usize::MAX), Err(WindError::IndexOutOfBounds));
}

#[test]
fn a_position_is_three_coordinates() {
    let p = Pos { x: 1, y: 2, z: 3 };
    assert_eq!((p.x, p.y, p.z), (1, 2, 3));
}
