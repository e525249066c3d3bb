use boids::boid::{AvoidVelocity, BoidBundle, FollowVelocity, Speed, TurnRate};
use boids::fixed::ONE;
use boids::motion::{advance, update_position, Motion};
use boids::vector::Vec2;

fn mover(up: Vec2, follow: Vec2, avoid: Vec2) -> BoidBundle {
    let mut boid = BoidBundle::default();
    boid.spatial.up = up;
    boid.follow_velocity = FollowVelocity(follow);
    boid.avoid_velocity = AvoidVelocity(avoid);
    boid
}

#[test]
fn translation_uses_the_heading_from_before_the_turn() {
    // Facing +Y with the desired direction along +X: a quarter turn is pending.
    let boid = mover(Vec2::new(0, ONE), Vec2::new(ONE, 0), Vec2::new(0, 0));
    let motion = advance(&boid, ONE as u32);
    assert_eq!(motion.translation, Vec2::new(0, 50 * ONE));
    assert_eq!(motion.rotation, -45 * ONE);
}

#[test]
fn forward_speed_is_constant() {
    let tenth = (ONE / 10) as u32;
    let steerings = vec![
        (Vec2::new(0, 0), Vec2::new(0, 0)),
        (Vec2::new(ONE, 0), Vec2::new(0, 0)),
        (Vec2::new(-ONE, 0), Vec2::new(0, -ONE)),
        (Vec2::new(0, -ONE), Vec2::new(0, 0)),
        (Vec2::new(0, ONE), Vec2::new(0, 0)),
    ];
    for (follow, avoid) in steerings {
        let boid = mover(Vec2::new(0, ONE), follow, avoid);
        assert_eq!(advance(&boid, tenth).translation, Vec2::new(0, 5 * ONE));
    }
    let boid = mover(Vec2::new(600_000, -800_000), Vec2::new(0, ONE), Vec2::new(0, 0));
    assert_eq!(advance(&boid, tenth).translation, Vec2::new(3 * ONE, -4 * ONE));
}

#[test]
fn forward_motion_starts_from_the_position() {
    let mut boid = mover(Vec2::new(-ONE, 0), Vec2::new(0, 0), Vec2::new(0, 0));
    boid.spatial.translation = Vec2::new(7 * ONE, -2 * ONE);
    boid.speed = Speed(3 * ONE as u32);
    let motion = advance(&boid, 2 * ONE as u32);
    assert_eq!(motion, Motion { translation: Vec2::new(ONE, -2 * ONE), rotation: 0 });
}

#[test]
fn displacement_rounds_toward_zero() {
    let mut boid = mover(Vec2::new(333_333, -333_333), Vec2::new(0, 0), Vec2::new(0, 0));
    boid.speed = Speed(1_000_000);
    // 333_333 * 1_000_000 * 5 / 10^12 = 1.666665
    assert_eq!(advance(&boid, 5).translation, Vec2::new(1, -1));
    assert_eq!(advance(&boid, 6).translation, Vec2::new(1, -1));
    assert_eq!(advance(&boid, 7).translation, Vec2::new(2, -2));
}

#[test]
fn turn_is_bounded_by_the_turn_rate() {
    let headings = vec![Vec2::new(0, ONE), Vec2::new(ONE, 0), Vec2::new(-600_000, 800_000)];
    let wishes = vec![
        Vec2::new(ONE, 0),
        Vec2::new(-ONE, 0),
        Vec2::new(0, -ONE),
        Vec2::new(0, ONE),
        Vec2::new(1, -999_999),
    ];
    let tenth = (ONE / 10) as u32;
    for up in headings {
        for wish in wishes.iter() {
            let boid = mover(up, *wish, Vec2::new(0, 0));
            let rotation = advance(&boid, tenth).rotation;
            assert!(rotation.abs() <= 4_500_000);
            assert!(rotation == 0 || rotation.abs() == 4_500_000);
        }
    }
}

#[test]
fn turn_direction_follows_the_desired_side() {
    let up = Vec2::new(0, ONE);
    let left = mover(up, Vec2::new(-ONE, 0), Vec2::new(0, 0));
    let right = mover(up, Vec2::new(ONE, 0), Vec2::new(0, 0));
    let ahead = mover(up, Vec2::new(0, ONE), Vec2::new(0, 0));
    let behind = mover(up, Vec2::new(0, -ONE), Vec2::new(0, 0));
    assert_eq!(advance(&left, ONE as u32).rotation, 45 * ONE);
    assert_eq!(advance(&right, ONE as u32).rotation, -45 * ONE);
    assert_eq!(advance(&ahead, ONE as u32).rotation, 0);
    assert_eq!(advance(&behind, ONE as u32).rotation, 45 * ONE);
}

#[test]
fn the_smallest_angle_still_gives_a_whole_step() {
    let boid = mover(Vec2::new(0, ONE), Vec2::new(-1, 999_999), Vec2::new(0, ONE));
    assert_eq!(advance(&boid, ONE as u32).rotation, 45 * ONE);
    let boid = mover(Vec2::new(0, ONE), Vec2::new(1, 999_999), Vec2::new(0, ONE));
    assert_eq!(advance(&boid, ONE as u32).rotation, -45 * ONE);
    let boid = mover(Vec2::new(0, ONE), Vec2::new(0, 999_999), Vec2::new(0, ONE));
    assert_eq!(advance(&boid, ONE as u32).rotation, 0);
}

#[test]
fn an_agent_that_faces_its_steering_does_not_turn() {
    let facing = Vec2::new(-9101, 1928).normalize_or_zero();
    let boid = mover(facing, facing, Vec2::new(0, 0));
    assert_eq!(advance(&boid, ONE as u32).rotation, 0);
    let truncated = Vec2::new(-978_288, 207_245);
    let boid = mover(truncated, truncated, Vec2::new(0, 0));
    assert_eq!(advance(&boid, ONE as u32).rotation, 0);
}

#[test]
fn no_desired_direction_means_no_turn() {
    let none = mover(Vec2::new(0, ONE), Vec2::new(0, 0), Vec2::new(0, 0));
    let cancelled = mover(Vec2::new(0, ONE), Vec2::new(ONE, 0), Vec2::new(-ONE, 0));
    assert_eq!(advance(&none, ONE as u32).rotation, 0);
    assert_eq!(advance(&cancelled, ONE as u32).rotation, 0);
    assert_eq!(advance(&cancelled, ONE as u32).translation, Vec2::new(0, 50 * ONE));
}

#[test]
fn steering_vectors_are_combined() {
    // Follow pulls along +Y, avoidance pushes along -X: the sum lies to the left.
    let boid = mover(Vec2::new(0, ONE), Vec2::new(0, ONE), Vec2::new(-ONE, 0));
    assert_eq!(advance(&boid, ONE as u32).rotation, 45 * ONE);
    let boid = mover(Vec2::new(0, ONE), Vec2::new(0, ONE), Vec2::new(600_000, -800_000));
    assert_eq!(advance(&boid, ONE as u32).rotation, -45 * ONE);
}

#[test]
fn turn_step_rounds_down() {
    let mut boid = mover(Vec2::new(0, ONE), Vec2::new(ONE, 0), Vec2::new(0, 0));
    boid.turn_rate = TurnRate(1_999_999);
    assert_eq!(advance(&boid, 1).rotation, -1);
    boid.turn_rate = TurnRate(999_999);
    assert_eq!(advance(&boid, 1).rotation, 0);
}

#[test]
fn zero_time_changes_nothing() {
    let mut boid = mover(Vec2::new(0, ONE), Vec2::new(ONE, 0), Vec2::new(0, 0));
    boid.spatial.translation = Vec2::new(11, -12);
    assert_eq!(advance(&boid, 0), Motion { translation: Vec2::new(11, -12), rotation: 0 });
}

#[test]
fn largest_speed_and_time_do_not_overflow() {
    let mut boid = mover(Vec2::new(0, -ONE), Vec2::new(ONE, 0), Vec2::new(0, 0));
    boid.speed = Speed(u32::MAX);
    boid.turn_rate = TurnRate(u32::MAX);
    let motion = advance(&boid, u32::MAX);
    assert_eq!(motion.translation, Vec2::new(0, -18_446_744_065_119));
    assert_eq!(motion.rotation, 18_446_744_065_119);
}

#[test]
fn update_position_moves_every_agent() {
    let mut first = mover(Vec2::new(0, ONE), Vec2::new(ONE, 0), Vec2::new(0, 0));
    first.spatial.translation = Vec2::new(ONE, ONE);
    let second = mover(Vec2::new(ONE, 0), Vec2::new(0, ONE), Vec2::new(0, 0));
    let third = mover(Vec2::new(ONE, 0), Vec2::new(0, 0), Vec2::new(0, 0));
    let mut boids = vec![first, second, third];
    let before = boids.clone();
    let rotations = update_position(&mut boids, ONE as u32);
    assert_eq!(rotations, vec![-45 * ONE, 45 * ONE, 0]);
    assert_eq!(boids[0].spatial.translation, Vec2::new(ONE, 51 * ONE));
    assert_eq!(boids[1].spatial.translation, Vec2::new(50 * ONE, 0));
    assert_eq!(boids[2].spatial.translation, Vec2::new(50 * ONE, 0));
    for i in 0..3 {
        let mut expected = before[i];
        expected.spatial.translation = boids[i].spatial.translation;
        assert_eq!(boids[i], expected);
        let motion = advance(&before[i], ONE as u32);
        assert_eq!(motion.translation, boids[i].spatial.translation);
        assert_eq!(motion.rotation, rotations[i]);
    }
}
