use boids::boid::{
    AvoidVelocity, Avoidance, Boid, BoidBundle, Follow, FollowVelocity, Spatial, Speed, TurnRate,
};
use boids::schedule::check_tick;
use boids::fixed::ONE;
use boids::spawn::{
    random_position, setup, spawn, spawn_boid, COLLIDER_RADIUS, POPULATION, SPAWN_EXTENT,
};
use boids::vector::Vec2;

#[test]
fn default_boid_has_the_documented_values() {
    let boid = BoidBundle::default();
    let expected = BoidBundle {
        boid: Boid,
        speed: Speed(50 * ONE as u32),
        turn_rate: TurnRate(45 * ONE as u32),
        follow: Follow,
        follow_velocity: FollowVelocity(Vec2::new(0, 0)),
        avoidance: Avoidance { radius: 10 * ONE as u32 },
        avoid_velocity: AvoidVelocity(Vec2::new(0, 0)),
        spatial: Spatial { translation: Vec2::new(0, 0), up: Vec2::new(0, ONE) },
    };
    assert_eq!(boid, expected);
    assert!(boid.is_wf());
}

#[test]
fn spawned_boid_avoids_at_twice_its_body() {
    let boid = spawn_boid(Vec2::new(7, -9), 10 * ONE as u32);
    let mut expected = BoidBundle::default();
    expected.avoidance = Avoidance { radius: 20 * ONE as u32 };
    expected.spatial.translation = Vec2::new(7, -9);
    assert_eq!(boid, expected);
    assert_eq!(spawn_boid(Vec2::new(0, 0), 0).avoidance.radius, 0);
    assert_eq!(spawn_boid(Vec2::new(0, 0), 0x7fff_ffff).avoidance.radius, 0xffff_fffe);
}

#[test]
fn random_positions_lie_in_the_square() {
    for _ in 0..1000 {
        let p = random_position(5);
        assert!(-5 <= p.x && p.x < 5);
        assert!(-5 <= p.y && p.y < 5);
    }
    let p = random_position(1);
    assert!(p.x == -1 || p.x == 0);
    assert!(p.y == -1 || p.y == 0);
}

#[test]
fn random_positions_differ() {
    let first = random_position(SPAWN_EXTENT);
    let mut differs = false;
    for _ in 0..50 {
        let next = random_position(SPAWN_EXTENT);
        if next != first {
            differs = true;
        }
    }
    assert!(differs);
}

#[test]
fn random_positions_cover_the_square() {
    let mut seen = vec![false; 16];
    for _ in 0..2000 {
        let p = random_position(2);
        seen[((p.x + 2) * 4 + (p.y + 2)) as usize] = true;
    }
    assert!(seen.iter().all(|hit| *hit));
}

#[test]
fn spawn_makes_the_asked_number() {
    assert!(spawn(0, 10, 1).is_empty());
    let boids = spawn(7, 3 * ONE, 2 * ONE as u32);
    assert_eq!(boids.len(), 7);
    for boid in boids.iter() {
        assert_eq!(*boid, spawn_boid(boid.spatial.translation, 2 * ONE as u32));
        assert!(-3 * ONE <= boid.spatial.translation.x && boid.spatial.translation.x < 3 * ONE);
        assert!(-3 * ONE <= boid.spatial.translation.y && boid.spatial.translation.y < 3 * ONE);
    }
}

#[test]
fn setup_makes_the_starting_world() {
    assert_eq!(POPULATION, 100);
    assert_eq!(COLLIDER_RADIUS, 10 * ONE as u32);
    assert_eq!(SPAWN_EXTENT, 300 * ONE);
    let (targets, boids) = setup();
    assert_eq!(targets.len(), 1);
    assert_eq!(targets[0].0, Vec2::new(0, 0));
    assert_eq!(boids.len(), 100);
    assert!(check_tick(&targets, &boids));
    let mut distinct = false;
    for boid in boids.iter() {
        assert_eq!(boid.avoidance.radius, 20 * ONE as u32);
        assert_eq!(boid.speed, Speed(50 * ONE as u32));
        assert_eq!(boid.turn_rate, TurnRate(45 * ONE as u32));
        assert_eq!(boid.spatial.up, Vec2::new(0, ONE));
        let p = boid.spatial.translation;
        assert!(-300 * ONE <= p.x && p.x < 300 * ONE);
        assert!(-300 * ONE <= p.y && p.y < 300 * ONE);
        if p != boids[0].spatial.translation {
            distinct = true;
        }
    }
    assert!(distinct);
}
