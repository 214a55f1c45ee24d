use memetopia::fixed::{pixels, UNIT};
use memetopia::rotation::Rotation;

#[test]
fn identity_is_cosine_one_sine_zero() {
    let r = Rotation::identity();
    assert_eq!(r, Rotation { cos: UNIT, sin: 0 });
}

#[test]
fn inverse_negates_the_sine() {
    let r = Rotation { cos: 600_000, sin: 800_000 };
    assert_eq!(r.inverse(), Rotation { cos: 600_000, sin: -800_000 });
    assert_eq!(r.inverse().inverse(), r);
    assert_eq!(Rotation::identity().inverse(), Rotation::identity());
}

#[test]
fn toward_a_three_four_five_vector() {
    assert_eq!(Rotation::toward(pixels(3), pixels(4)), Rotation { cos: 600_000, sin: 800_000 });
    assert_eq!(Rotation::toward(3, 4), Rotation { cos: 600_000, sin: 800_000 });
    assert_eq!(Rotation::toward(-3, 4), Rotation { cos: -600_000, sin: 800_000 });
    assert_eq!(Rotation::toward(-3, -4), Rotation { cos: -600_000, sin: -800_000 });
    assert_eq!(Rotation::toward(3, -4), Rotation { cos: 600_000, sin: -800_000 });
}

#[test]
fn toward_the_axes() {
    assert_eq!(Rotation::toward(pixels(70), 0), Rotation { cos: UNIT, sin: 0 });
    assert_eq!(Rotation::toward(0, pixels(70)), Rotation { cos: 0, sin: UNIT });
    assert_eq!(Rotation::toward(pixels(-70), 0), Rotation { cos: -UNIT, sin: 0 });
    assert_eq!(Rotation::toward(0, pixels(-70)), Rotation { cos: 0, sin: -UNIT });
}

#[test]
fn toward_the_zero_vector_is_the_identity() {
    assert_eq!(Rotation::toward(0, 0), Rotation::identity());
}

#[test]
fn toward_the_diagonal_rounds_toward_zero() {
    // One over the square root of two is 0.70710678...
    assert_eq!(Rotation::toward(pixels(1), pixels(1)), Rotation { cos: 707_106, sin: 707_106 });
    assert_eq!(Rotation::toward(pixels(-1), pixels(1)), Rotation { cos: -707_106, sin: 707_106 });
}

#[test]
fn toward_a_short_vector_is_as_exact_as_toward_a_long_one() {
    assert_eq!(Rotation::toward(1, 1), Rotation { cos: 707_106, sin: 707_106 });
    // (2, 1) over the square root of five is (0.894427..., 0.447213...).
    assert_eq!(Rotation::toward(2, 1), Rotation { cos: 894_427, sin: 447_213 });
    assert_eq!(Rotation::toward(2_000_000_000, 1_000_000_000), Rotation::toward(2, 1));
    assert_eq!(Rotation::toward(4_000_000_000, 2_000_000_000), Rotation::toward(2, 1));
    assert_eq!(Rotation::toward(-1, 0), Rotation { cos: -UNIT, sin: 0 });
}

#[test]
fn toward_the_longest_vectors_stays_within_one() {
    for (dx, dy) in [
        (i64::MAX, i64::MAX),
        (i64::MIN, i64::MIN),
        (i64::MIN, i64::MAX),
        (i64::MAX, 0),
        (0, i64::MIN),
        (i64::MIN, 1),
    ] {
        let r = Rotation::toward(dx, dy);
        assert!(-UNIT <= r.cos && r.cos <= UNIT);
        assert!(-UNIT <= r.sin && r.sin <= UNIT);
    }
    assert_eq!(Rotation::toward(i64::MIN, 0), Rotation { cos: -UNIT, sin: 0 });
    assert_eq!(Rotation::toward(0, i64::MAX), Rotation { cos: 0, sin: UNIT });
}

#[test]
fn compose_adds_quarter_turns() {
    let quarter = Rotation { cos: 0, sin: UNIT };
    let half = quarter.compose(&quarter);
    assert_eq!(half, Rotation { cos: -UNIT, sin: 0 });
    let three_quarters = half.compose(&quarter);
    assert_eq!(three_quarters, Rotation { cos: 0, sin: -UNIT });
    assert_eq!(three_quarters.compose(&quarter), Rotation::identity());
}

#[test]
fn compose_with_the_identity_changes_nothing_exact() {
    let quarter = Rotation { cos: 0, sin: UNIT };
    assert_eq!(quarter.compose(&Rotation::identity()), quarter);
    assert_eq!(Rotation::identity().compose(&quarter), quarter);
    assert_eq!(Rotation::identity().compose(&Rotation::identity()), Rotation::identity());
}

#[test]
fn compose_with_the_inverse_is_the_identity() {
    let r = Rotation { cos: 600_000, sin: 800_000 };
    assert_eq!(r.compose(&r.inverse()), Rotation::identity());
    assert_eq!(r.inverse().compose(&r), Rotation::identity());
}

#[test]
fn compose_doubles_the_angle_of_three_four_five() {
    // (3 + 4i)^2 = -7 + 24i, of length 25.
    let r = Rotation { cos: 600_000, sin: 800_000 };
    assert_eq!(r.compose(&r), Rotation { cos: -280_000, sin: 960_000 });
}

#[test]
fn unrotate_under_the_identity_keeps_the_vector() {
    let r = Rotation::identity();
    assert_eq!(r.unrotate(pixels(25), pixels(-10)), (pixels(25), pixels(-10)));
    assert_eq!(r.unrotate(0, 0), (0, 0));
    assert_eq!(r.unrotate(-1, 1), (-1, 1));
}

#[test]
fn unrotate_maps_zero_to_zero_under_any_rotation() {
    for r in [
        Rotation::identity(),
        Rotation { cos: 0, sin: UNIT },
        Rotation { cos: 600_000, sin: -800_000 },
        Rotation { cos: -707_107, sin: 707_107 },
    ] {
        assert_eq!(r.unrotate(0, 0), (0, 0));
    }
}

#[test]
fn unrotate_by_a_quarter_turn() {
    // A quarter turn takes the x axis to the y axis; undoing it takes the
    // y axis back to the x axis.
    let quarter = Rotation { cos: 0, sin: UNIT };
    assert_eq!(quarter.unrotate(0, pixels(50)), (pixels(50), 0));
    assert_eq!(quarter.unrotate(pixels(50), 0), (0, pixels(-50)));
}

#[test]
fn unrotate_by_three_four_five() {
    let r = Rotation { cos: 600_000, sin: 800_000 };
    // (3, 4) lies along the direction of the rotation: five along x.
    assert_eq!(r.unrotate(pixels(3), pixels(4)), (pixels(5), 0));
    // (-4, 3) lies across it.
    assert_eq!(r.unrotate(pixels(-4), pixels(3)), (0, pixels(5)));
    // x = (10 * 0.6 + 0 * 0.8), y = (0 * 0.6 - 10 * 0.8)
    assert_eq!(r.unrotate(pixels(10), 0), (pixels(6), pixels(-8)));
}

#[test]
fn unrotate_rounds_toward_zero() {
    let r = Rotation { cos: 600_000, sin: 800_000 };
    // 1 * 0.6 = 0.6 and -1 * 0.8 = -0.8 both round to zero.
    assert_eq!(r.unrotate(1, 0), (0, 0));
    assert_eq!(r.unrotate(-1, 0), (0, 0));
    assert_eq!(r.unrotate(2, 0), (1, -1));
    assert_eq!(r.unrotate(-2, 0), (-1, 1));
}

#[test]
fn validity_of_a_rotation() {
    assert!(Rotation::identity().is_wf());
    assert!(Rotation { cos: 0, sin: -UNIT }.is_wf());
    assert!(Rotation { cos: 600_000, sin: -800_000 }.is_wf());
    assert!(Rotation { cos: 707_106, sin: 707_106 }.is_wf());
    assert!(Rotation { cos: 707_107, sin: 707_107 }.is_wf());
    // Too long and too short.
    assert!(!Rotation { cos: -UNIT, sin: UNIT }.is_wf());
    assert!(!Rotation { cos: 0, sin: 0 }.is_wf());
    assert!(!Rotation { cos: UNIT, sin: 2_237 }.is_wf());
    assert!(Rotation { cos: UNIT, sin: 2_236 }.is_wf());
    assert!(!Rotation { cos: 999_997, sin: 0 }.is_wf());
    assert!(Rotation { cos: 999_998, sin: 0 }.is_wf());
    assert!(!Rotation { cos: UNIT + 1, sin: 0 }.is_wf());
    assert!(!Rotation { cos: 0, sin: -UNIT - 1 }.is_wf());
    assert!(!Rotation { cos: i64::MIN, sin: i64::MAX }.is_wf());
}

#[test]
fn toward_is_the_direction_of_the_vector() {
    for (dx, dy) in [
        (1_i64, 1_i64),
        (2, 1),
        (-7, 3),
        (123_456_789, -987_654_321),
        (-5_000_000, -1),
        (1, 4_294_967_296_000_000),
        (8_589_934_592_000_000, -8_589_934_592_000_000),
    ] {
        let r = Rotation::toward(dx, dy);
        // On the same side of each axis.
        assert!(r.cos.signum() == dx.signum() || r.cos == 0);
        assert!(r.sin.signum() == dy.signum() || r.sin == 0);
        // Parallel within the rounding.
        let cross = r.cos as i128 * dy as i128 - r.sin as i128 * dx as i128;
        assert!(cross.abs() < dx.abs() as i128 + dy.abs() as i128);
        // Longer than one once each component is a millionth larger.
        let (c, s) = (r.cos.abs() as i128 + 1, r.sin.abs() as i128 + 1);
        assert!(c * c + s * s > UNIT as i128 * UNIT as i128);
    }
}

#[test]
fn toward_any_vector_is_of_length_one() {
    for (dx, dy) in [
        (1, 1),
        (1, -3),
        (pixels(1), pixels(1)),
        (pixels(3), pixels(-2)),
        (pixels(-70), pixels(1)),
        (pixels(500), pixels(499)),
        (pixels(-1), pixels(-2_000_000)),
        (2_147_483_647, 2_147_483_647),
        (2_147_483_648, 1),
        (-2_147_483_648, -2_147_483_648),
        (i64::MAX, i64::MIN),
        (i64::MIN, 12_345),
    ] {
        let r = Rotation::toward(dx, dy);
        assert!(r.is_wf());
        let square = r.cos as i128 * r.cos as i128 + r.sin as i128 * r.sin as i128;
        let one = UNIT as i128 * UNIT as i128;
        // Within four millionths of one.
        assert!((square - one).abs() <= 4 * UNIT as i128);
    }
}

#[test]
fn composing_keeps_the_length_one() {
    let step = Rotation::toward(pixels(500), pixels(1));
    let mut r = Rotation::identity();
    for _ in 0..10_000 {
        r = r.compose(&step);
        assert!(r.is_wf());
        r = r.inverse().compose(&step.inverse()).inverse();
        assert!(r.is_wf());
    }
}

#[test]
fn turning_and_turning_back_is_the_identity() {
    for r in [
        Rotation::identity(),
        Rotation { cos: 0, sin: -UNIT },
        Rotation { cos: 707_106, sin: 707_106 },
        Rotation { cos: 707_107, sin: -707_107 },
        Rotation::toward(pixels(-3), pixels(11)),
        Rotation::toward(1, i64::MIN),
    ] {
        assert_eq!(r.compose(&r.inverse()), Rotation::identity());
        assert_eq!(r.inverse().compose(&r), Rotation::identity());
    }
}

#[test]
fn turning_a_vector_keeps_its_length() {
    let r = Rotation::toward(pixels(7), pixels(-24));
    assert_eq!(r, Rotation { cos: 280_000, sin: -960_000 });
    for (dx, dy) in [(pixels(25), 0), (pixels(-50), pixels(125)), (pixels(3), pixels(4))] {
        let (lx, ly) = r.unrotate(dx, dy);
        let before = dx as i128 * dx as i128 + dy as i128 * dy as i128;
        let after = lx as i128 * lx as i128 + ly as i128 * ly as i128;
        assert_eq!(before, after);
    }
    // Along the direction of the rotation and across it.
    assert_eq!(r.unrotate(pixels(7), pixels(-24)), (pixels(25), 0));
    assert_eq!(r.unrotate(pixels(24), pixels(7)), (0, pixels(25)));
}
