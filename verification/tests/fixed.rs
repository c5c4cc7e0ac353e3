use windsim::fixed::{HALF, UNIT};
use windsim::{advect, diffuse, set_borders, BorderKind, Dims, Fixed, Scalar};

fn fx(raw: i64) -> Fixed {
    Fixed { raw }
}

fn whole(n: i64) -> Fixed {
    Fixed { raw: n * UNIT }
}

#[test]
fn the_constants_of_fixed_point() {
    assert_eq!(UNIT, 1 << 32);
    assert_eq!(HALF, 1 << 31);
    assert_eq!(Fixed::zero(), fx(0));
    assert_eq!(Fixed::one(), fx(UNIT));
    assert_eq!(Fixed::half(), fx(HALF));
    assert_eq!(Fixed::from_count(6), whole(6));
    assert_eq!(Fixed::from_count(0), fx(0));
}

#[test]
fn a_count_too_large_saturates() {
    assert_eq!(Fixed::from_count(0x7fff_ffff), whole(0x7fff_ffff));
    assert_eq!(Fixed::from_count(0x8000_0000), fx(i64::MAX));
    assert_eq!(Fixed::from_count(usize::MAX), fx(i64::MAX));
}

#[test]
fn sums_and_differences_saturate() {
    assert_eq!(whole(2).plus(fx(HALF)), fx(2 * UNIT + HALF));
    assert_eq!(whole(2).minus(whole(5)), whole(-3));
    assert_eq!(fx(i64::MAX).plus(fx(1)), fx(i64::MAX));
    assert_eq!(fx(i64::MIN).plus(fx(-1)), fx(i64::MIN));
    assert_eq!(fx(i64::MIN).minus(fx(1)), fx(i64::MIN));
    assert_eq!(fx(i64::MAX).minus(fx(-1)), fx(i64::MAX));
    assert_eq!(fx(0).minus(fx(i64::MIN)), fx(i64::MAX));
}

#[test]
fn negation_saturates_at_the_least_number() {
    assert_eq!(whole(3).negated(), whole(-3));
    assert_eq!(fx(0).negated(), fx(0));
    assert_eq!(fx(i64::MIN).negated(), fx(i64::MAX));
    assert_eq!(fx(i64::MAX).negated(), fx(i64::MIN + 1));
}

#[test]
fn products_round_toward_zero() {
    assert_eq!(fx(3 * HALF).times(fx(5 * HALF)), fx(15 * (UNIT / 4)));
    assert_eq!(whole(-3).times(whole(4)), whole(-12));
    assert_eq!(whole(-3).times(whole(-4)), whole(12));
    assert_eq!(fx(1).times(fx(HALF)), fx(0));
    assert_eq!(fx(-1).times(fx(HALF)), fx(0));
    assert_eq!(fx(3).times(fx(HALF)), fx(1));
    assert_eq!(fx(-3).times(fx(HALF)), fx(-1));
    assert_eq!(whole(7).times(fx(0)), fx(0));
}

#[test]
fn products_saturate() {
    assert_eq!(whole(1 << 20).times(whole(1 << 20)), fx(i64::MAX));
    assert_eq!(whole(-(1 << 20)).times(whole(1 << 20)), fx(i64::MIN));
    assert_eq!(fx(i64::MIN).times(fx(i64::MIN)), fx(i64::MAX));
    assert_eq!(fx(i64::MIN).times(fx(UNIT)), fx(i64::MIN));
    assert_eq!(fx(i64::MIN).times(fx(-UNIT)), fx(i64::MAX));
}

#[test]
fn quotients_round_toward_zero() {
    assert_eq!(whole(15).over(whole(4)), fx(15 * (UNIT / 4)));
    assert_eq!(whole(-15).over(whole(4)), fx(-15 * (UNIT / 4)));
    assert_eq!(whole(1).over(whole(3)), fx(0x5555_5555));
    assert_eq!(whole(-1).over(whole(3)), fx(-0x5555_5555));
    assert_eq!(whole(1).over(whole(-3)), fx(-0x5555_5555));
    assert_eq!(fx(0).over(whole(6)), fx(0));
}

#[test]
fn quotients_saturate_and_division_by_zero_gives_zero() {
    assert_eq!(whole(5).over(fx(0)), fx(0));
    assert_eq!(fx(i64::MAX).over(fx(1)), fx(i64::MAX));
    assert_eq!(fx(i64::MIN).over(fx(1)), fx(i64::MIN));
    assert_eq!(fx(i64::MIN).over(fx(-1)), fx(i64::MAX));
    assert_eq!(fx(i64::MIN).over(fx(UNIT)), fx(i64::MIN));
}

#[test]
fn order_and_whole_part() {
    assert!(fx(-1).at_most(fx(0)));
    assert!(fx(5).at_most(fx(5)));
    assert!(!fx(6).at_most(fx(5)));
    assert_eq!(fx(7 * UNIT + HALF).to_count(), 7);
    assert_eq!(fx(UNIT - 1).to_count(), 0);
    assert_eq!(whole(-4).to_count(), 0);
    assert_eq!(fx(i64::MAX).to_count(), 0x7fff_ffff);
    assert!(fx(i64::MIN).is_finite());
}

#[test]
fn fixed_point_borders_are_exact() {
    let d = Dims::new(2, 2, 2).unwrap();
    let before: Vec<Fixed> = (0..d.cells()).map(|i| fx(i as i64 + 1)).collect();
    let mut g = before.clone();
    set_borders(&mut g, &d, BorderKind::XWall);
    assert_eq!(g[d.index(0, 1, 2)], fx(-before[d.index(1, 1, 2)].raw));
    assert_eq!(g[d.index(3, 2, 1)], fx(-before[d.index(2, 2, 1)].raw));
    assert_eq!(g[d.index(1, 0, 1)], before[d.index(1, 1, 1)]);
    assert_eq!(g[d.index(1, 1, 1)], before[d.index(1, 1, 1)]);
}

#[test]
fn fixed_point_diffusion_divides_by_one_plus_six_rates() {
    // 27 cells and dt * coefficient = 1/8: the rate is 27/8, the divisor 85/4.
    let d = Dims::new(1, 1, 1).unwrap();
    let mut g = vec![fx(0); d.cells()];
    g[d.index(1, 1, 1)] = whole(85);
    let source = g.clone();
    diffuse(&mut g, &source, &d, fx(HALF), fx(UNIT / 4), 1, false, BorderKind::Density);
    assert_eq!(g[d.index(1, 1, 1)], whole(4));
    diffuse(&mut g, &source, &d, fx(HALF), fx(0), 1, true, BorderKind::Density);
    assert_eq!(g[d.index(1, 1, 1)], whole(4));
    assert_eq!(g.iter().filter(|v| v.raw != 0).count(), 1);
}

#[test]
fn fixed_point_diffusion_spreads_a_peak() {
    let d = Dims::new(3, 3, 3).unwrap();
    let mut g = vec![fx(0); d.cells()];
    g[d.index(2, 2, 2)] = whole(1);
    let source = g.clone();
    diffuse(&mut g, &source, &d, fx(UNIT / 1024), fx(UNIT / 8), 1, false, BorderKind::Density);
    let centre = g[d.index(2, 2, 2)].raw;
    assert!(0 < centre && centre < UNIT);
    for (x, y, z) in [(1, 2, 2), (3, 2, 2), (2, 1, 2), (2, 3, 2), (2, 2, 1), (2, 2, 3)] {
        let beside = g[d.index(x, y, z)].raw;
        assert!(0 < beside && beside < centre);
    }
}

#[test]
fn fixed_point_advection_at_zero_velocity_carries_nothing() {
    let d = Dims::new(4, 4, 4).unwrap();
    let prev: Vec<Fixed> = (0..d.cells()).map(|i| fx(1000 * i as i64 + 1)).collect();
    let still = vec![fx(0); d.cells()];
    let mut g = vec![fx(-5); d.cells()];
    advect(&mut g, &prev, &still, &still, &still, &d, whole(3), false, BorderKind::Density);
    for z in 1..4 {
        for y in 1..4 {
            for x in 1..4 {
                assert_eq!(g[d.index(x, y, z)], prev[d.index(x, y, z)]);
            }
        }
    }
    assert_eq!(g[d.index(0, 2, 2)], fx(-5));
    let a = prev[d.index(3, 2, 2)].raw;
    let b = prev[d.index(4, 2, 2)].raw;
    assert_eq!(g[d.index(4, 2, 2)], fx(a / 2 + b / 2));
}

#[test]
fn fixed_point_advection_follows_the_velocity() {
    // dt * 4 cells = 1, so a velocity of a quarter traces a quarter cell back.
    let d = Dims::new(4, 4, 4).unwrap();
    let mut prev = vec![fx(0); d.cells()];
    prev[d.index(1, 2, 2)] = whole(8);
    prev[d.index(2, 2, 2)] = whole(16);
    let mut vx = vec![fx(0); d.cells()];
    vx[d.index(2, 2, 2)] = fx(UNIT / 4);
    let still = vec![fx(0); d.cells()];
    let mut g = vec![fx(0); d.cells()];
    advect(&mut g, &prev, &vx, &still, &still, &d, fx(UNIT / 4), false, BorderKind::Density);
    assert_eq!(g[d.index(2, 2, 2)], whole(14));
}
