use windsim::{step_fluid, Fixed, Pos, Vel, WindError, WindGrid};

fn fx(raw: i64) -> Fixed {
    Fixed { raw }
}

fn vel(x: i64, y: i64, z: i64) -> Vel<Fixed> {
    Vel { x: fx(x), y: fx(y), z: fx(z) }
}

#[test]
fn a_new_grid_is_at_rest() {
    let grid: WindGrid<Fixed> = WindGrid::new(96, 96, 4).unwrap();
    let n = 98 * 98 * 6;
    assert_eq!(grid.dims().cells(), n);
    assert_eq!(grid.iterations(), 1);
    for field in [grid.density(), grid.x_vel(), grid.y_vel(), grid.z_vel()] {
        assert_eq!(field.len(), n);
        assert!(field.iter().all(|v| v.raw == 0));
    }
}

#[test]
fn a_grid_with_an_empty_axis_is_refused() {
    assert!(matches!(
        WindGrid::<Fixed>::new(4, 0, 4),
        Err(WindError::DegenerateConfiguration)
    ));
    assert!(matches!(
        WindGrid::<Fixed>::new(usize::MAX, 4, 4),
        Err(WindError::DegenerateConfiguration)
    ));
}

#[test]
fn a_velocity_source_replaces_the_cell() {
    let mut grid: WindGrid<Fixed> = WindGrid::new(4, 4, 4).unwrap();
    let pos = Pos { x: 2, y: 3, z: 1 };
    let at = grid.get_index(2, 3, 1).unwrap();
    assert_eq!(at, 2 + 6 * (3 + 6 * 1));
    assert_eq!(grid.add_velocity_source(pos, vel(10, 20, 30)), Ok(()));
    assert_eq!(grid.add_velocity_source(pos, vel(1, 2, 3)), Ok(()));
    assert_eq!(grid.x_vel()[at], fx(1));
    assert_eq!(grid.y_vel()[at], fx(2));
    assert_eq!(grid.z_vel()[at], fx(3));
    assert_eq!(grid.x_vel().iter().filter(|v| v.raw != 0).count(), 1);
    assert_eq!(grid.y_vel().iter().filter(|v| v.raw != 0).count(), 1);
    assert_eq!(grid.z_vel().iter().filter(|v| v.raw != 0).count(), 1);
    assert!(grid.density().iter().all(|v| v.raw == 0));
}

#[test]
fn a_density_source_replaces_the_cell() {
    let mut grid: WindGrid<Fixed> = WindGrid::new(4, 4, 4).unwrap();
    let pos = Pos { x: 5, y: 0, z: 5 };
    let at = grid.get_index(5, 0, 5).unwrap();
    assert_eq!(grid.add_density_source(pos, fx(330)), Ok(()));
    assert_eq!(grid.add_density_source(pos, fx(7)), Ok(()));
    assert_eq!(grid.density()[at], fx(7));
    assert_eq!(grid.density().iter().filter(|v| v.raw != 0).count(), 1);
    assert!(grid.x_vel().iter().all(|v| v.raw == 0));
}

#[test]
fn a_velocity_is_read_back_component_by_component() {
    let mut grid: WindGrid<Fixed> = WindGrid::new(3, 3, 3).unwrap();
    let pos = Pos { x: 1, y: 2, z: 3 };
    grid.add_velocity_source(pos, vel(11, 22, 33)).unwrap();
    // The z component comes from the z field, not from the y field.
    assert_eq!(grid.get_velocity(pos), Ok(vel(11, 22, 33)));
    assert_eq!(grid.get_velocity(Pos { x: 1, y: 2, z: 2 }), Ok(vel(0, 0, 0)));
    assert_eq!(grid.get_velocity(Pos { x: 1, y: 2, z: 5 }), Err(WindError::IndexOutOfBounds));
}

#[test]
fn a_velocity_source_outside_the_grid_is_refused() {
    let mut grid: WindGrid<Fixed> = WindGrid::new(4, 4, 4).unwrap();
    grid.add_velocity_source(Pos { x: 1, y: 1, z: 1 }, vel(5, 6, 7)).unwrap();
    grid.add_density_source(Pos { x: 2, y: 2, z: 2 }, fx(9)).unwrap();
    let density = grid.density().clone();
    let x_vel = grid.x_vel().clone();
    let y_vel = grid.y_vel().clone();
    let z_vel = grid.z_vel().clone();
    assert_eq!(
        grid.add_velocity_source(Pos { x: 4 + 5, y: 1, z: 1 }, vel(1, 1, 1)),
        Err(WindError::IndexOutOfBounds)
    );
    assert_eq!(
        grid.add_velocity_source(Pos { x: 1, y: 6, z: 1 }, vel(1, 1, 1)),
        Err(WindError::IndexOutOfBounds)
    );
    assert_eq!(
        grid.add_velocity_source(Pos { x: 1, y: 1, z: usize::MAX }, vel(1, 1, 1)),
        Err(WindError::IndexOutOfBounds)
    );
    assert_eq!(grid.density(), &density);
    assert_eq!(grid.x_vel(), &x_vel);
    assert_eq!(grid.y_vel(), &y_vel);
    assert_eq!(grid.z_vel(), &z_vel);
}

#[test]
fn a_density_source_outside_the_grid_is_refused() {
    let mut grid: WindGrid<Fixed> = WindGrid::new(4, 4, 4).unwrap();
    assert_eq!(
        grid.add_density_source(Pos { x: 6, y: 0, z: 0 }, fx(1)),
        Err(WindError::IndexOutOfBounds)
    );
    assert!(grid.density().iter().all(|v| v.raw == 0));
    assert_eq!(grid.add_density_source(Pos { x: 5, y: 5, z: 5 }, fx(1)), Ok(()));
    assert_eq!(grid.density()[215], fx(1));
}

#[test]
fn a_fixed_point_grid_at_rest_stays_at_rest() {
    let mut grid: WindGrid<Fixed> = WindGrid::new(4, 3, 2).unwrap();
    grid.set_iterations(3);
    for _ in 0..4 {
        assert_eq!(step_fluid(&mut grid, fx(1 << 22), fx(1 << 28), fx(1 << 28), true), Ok(()));
        for field in [grid.density(), grid.x_vel(), grid.y_vel(), grid.z_vel()] {
            assert!(field.iter().all(|v| v.raw == 0));
        }
    }
}

#[test]
fn a_negative_time_step_is_refused() {
    let mut grid: WindGrid<Fixed> = WindGrid::new(3, 3, 3).unwrap();
    grid.add_density_source(Pos { x: 2, y: 2, z: 2 }, fx(1 << 32)).unwrap();
    let density = grid.density().clone();
    assert_eq!(step_fluid(&mut grid, fx(-1), fx(1), fx(1), true), Err(WindError::NonFiniteInput));
    assert_eq!(step_fluid(&mut grid, fx(1), fx(-1), fx(1), true), Err(WindError::NonFiniteInput));
    assert_eq!(step_fluid(&mut grid, fx(1), fx(1), fx(-1), true), Err(WindError::NonFiniteInput));
    assert_eq!(grid.density(), &density);
    assert_eq!(step_fluid(&mut grid, fx(1 << 22), fx(1 << 28), fx(1 << 28), true), Ok(()));
    assert_ne!(grid.density(), &density);
}

#[test]
fn two_runs_from_one_state_agree() {
    let mut a: WindGrid<Fixed> = WindGrid::new(4, 4, 2).unwrap();
    let mut b: WindGrid<Fixed> = WindGrid::new(4, 4, 2).unwrap();
    for grid in [&mut a, &mut b] {
        grid.add_velocity_source(Pos { x: 2, y: 2, z: 1 }, vel(200 << 32, 200 << 32, 20 << 32))
            .unwrap();
        grid.add_density_source(Pos { x: 2, y: 2, z: 1 }, fx(330 << 32)).unwrap();
        for _ in 0..3 {
            step_fluid(grid, fx(1 << 22), fx(1 << 28), fx(1 << 28), true).unwrap();
        }
    }
    assert_eq!(a.density(), b.density());
    assert_eq!(a.x_vel(), b.x_vel());
    assert_eq!(a.y_vel(), b.y_vel());
    assert_eq!(a.z_vel(), b.z_vel());
    assert!(a.density().iter().any(|v| v.raw != 0));
}

#[test]
fn the_default_velocity_stands_still() {
    assert_eq!(Vel::<Fixed>::default(), vel(0, 0, 0));
}

#[test]
fn a_grid_can_be_copied_and_compared() {
    let mut grid: WindGrid<Fixed> = WindGrid::new(2, 2, 2).unwrap();
    let rest = grid.clone();
    assert_eq!(grid, rest);
    grid.add_density_source(Pos { x: 1, y: 1, z: 1 }, fx(4)).unwrap();
    assert_ne!(grid, rest);
}
