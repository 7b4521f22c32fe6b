use zombie_arena::collision::CollisionSize;
use zombie_arena::combat::{AttackDelay, CombatBundle, Health};
use zombie_arena::geometry::{Heading, Vec2};
use zombie_arena::map::{create_map, MapBounds};
use zombie_arena::survivour::{
    look_at_cursor, shoot_bullet, spawn_survivour, survivour_walks, update_bullet, update_camera,
    Bullet, BulletBundle, Intent, Survivour, BULLET_RANGE, BULLET_SPEED, SHOT_DELAY_MS,
};
use zombie_arena::timer::Timer;
use zombie_arena::zombies::MovementSpeed;

fn idle() -> Intent {
    Intent { up: false, down: false, left: false, right: false, shoot: false }
}

#[test]
fn the_survivour_begins_at_the_origin_in_full_health() {
    assert_eq!(
        spawn_survivour(),
        Survivour {
            position: Vec2::new(0, 0),
            heading: Heading::new(1000, 0),
            combat_bundle: CombatBundle {
                health: Health(3),
                attack_delay: AttackDelay { delay: Timer::from_millis(600) },
            },
            movement_speed: MovementSpeed { speed: 10 },
            collision_size: CollisionSize(Vec2::new(32_000, 32_000)),
        }
    );
}

#[test]
fn the_survivour_walks_a_hundred_and_fifty_units_a_second() {
    let bounds = create_map();
    let mut s = spawn_survivour();
    survivour_walks(Some(&mut s), &Intent { right: true, ..idle() }, Some(&bounds), 1_000);
    assert_eq!(s.position, Vec2::new(150_000, 0));
    survivour_walks(Some(&mut s), &Intent { up: true, ..idle() }, Some(&bounds), 100);
    assert_eq!(s.position, Vec2::new(150_000, 15_000));
    survivour_walks(Some(&mut s), &Intent { left: true, ..idle() }, Some(&bounds), 16);
    assert_eq!(s.position, Vec2::new(150_000 - 2_400, 15_000));
    survivour_walks(Some(&mut s), &Intent { down: true, ..idle() }, Some(&bounds), 1);
    assert_eq!(s.position, Vec2::new(147_600, 14_850));
}

#[test]
fn walking_aslant_is_faster_than_walking_straight() {
    let bounds = create_map();
    let mut s = spawn_survivour();
    survivour_walks(Some(&mut s), &Intent { right: true, down: true, ..idle() }, Some(&bounds), 200);
    assert_eq!(s.position, Vec2::new(30_000, -30_000));
}

#[test]
fn opposite_directions_cancel() {
    let bounds = create_map();
    let mut s = spawn_survivour();
    let before = s;
    survivour_walks(Some(&mut s), &Intent { left: true, right: true, ..idle() }, Some(&bounds), 500);
    assert_eq!(s, before);
    survivour_walks(
        Some(&mut s),
        &Intent { up: true, down: true, left: true, ..idle() },
        Some(&bounds),
        500,
    );
    assert_eq!(s.position, Vec2::new(-75_000, 0));
    survivour_walks(Some(&mut s), &idle(), Some(&bounds), 500);
    assert_eq!(s.position, Vec2::new(-75_000, 0));
}

#[test]
fn the_survivour_stays_on_the_ground() {
    let bounds = create_map();
    let mut s = spawn_survivour();
    survivour_walks(Some(&mut s), &Intent { right: true, up: true, ..idle() }, Some(&bounds), 60_000);
    assert_eq!(s.position, Vec2::new(1_008_000, 1_008_000));
    survivour_walks(Some(&mut s), &Intent { left: true, down: true, ..idle() }, Some(&bounds), u64::MAX);
    assert_eq!(s.position, Vec2::new(-1_008_000, -1_008_000));
    let narrow = MapBounds::new(1, 3).unwrap();
    survivour_walks(Some(&mut s), &idle(), Some(&narrow), 0);
    assert_eq!(s.position, Vec2::new(-16_000, -80_000));
}

#[test]
fn a_walk_changes_nothing_but_the_position() {
    let bounds = create_map();
    let mut s = spawn_survivour();
    s.heading = Heading::new(0, -1000);
    s.combat_bundle.health.0 = 2;
    let before = s;
    survivour_walks(Some(&mut s), &Intent { up: true, shoot: true, ..idle() }, Some(&bounds), 10);
    assert_eq!(s, Survivour { position: Vec2::new(0, 1_500), ..before });
}

#[test]
fn nobody_walks_without_bounds_or_without_a_survivour() {
    let mut s = spawn_survivour();
    let before = s;
    survivour_walks(Some(&mut s), &Intent { right: true, ..idle() }, None, 1_000);
    assert_eq!(s, before);
    survivour_walks(None, &Intent { right: true, ..idle() }, Some(&create_map()), 1_000);
}

#[test]
fn a_faster_survivour_walks_farther() {
    let bounds = create_map();
    let mut s = spawn_survivour();
    s.movement_speed.speed = 20;
    survivour_walks(Some(&mut s), &Intent { left: true, ..idle() }, Some(&bounds), 1_000);
    assert_eq!(s.position, Vec2::new(-300_000, 0));
}

#[test]
fn the_survivour_turns_toward_the_aim_at_once() {
    let mut s = spawn_survivour();
    look_at_cursor(Some(&mut s), &Vec2::new(-30_000, 40_000));
    assert_eq!(s.heading, Heading::new(-600, 800));
    assert_eq!(Survivour { heading: Heading::new(1000, 0), ..s }, spawn_survivour());
    look_at_cursor(Some(&mut s), &Vec2::new(0, -1));
    assert_eq!(s.heading, Heading::new(0, -1000));
    look_at_cursor(Some(&mut s), &Vec2::new(0, 0));
    assert_eq!(s.heading, Heading::new(0, -1000));
    look_at_cursor(None, &Vec2::new(1, 1));
}

#[test]
fn the_first_shot_waits_for_the_pause() {
    let mut s = spawn_survivour();
    let held = Intent { shoot: true, ..idle() };
    assert_eq!(shoot_bullet(Some(&mut s), &held, 599), None);
    assert_eq!(s.combat_bundle.attack_delay.delay.elapsed(), 599);
    let bullet = shoot_bullet(Some(&mut s), &held, 1);
    assert_eq!(
        bullet,
        Some(BulletBundle {
            position: Vec2::new(30_000, 0),
            heading: Heading::new(1000, 0),
            bullet: Bullet { speed: 700, start_position: Vec2::new(30_000, 0) },
            collision_size: CollisionSize(Vec2::new(16_000, 16_000)),
        })
    );
    assert_eq!(s.combat_bundle.attack_delay.delay, Timer::from_millis(600));
    assert_eq!(s, spawn_survivour());
    assert_eq!(SHOT_DELAY_MS, 600);
    assert_eq!(BULLET_SPEED, 700);
}

#[test]
fn shots_follow_each_other_at_the_pace_of_the_pause() {
    let mut s = spawn_survivour();
    let held = Intent { shoot: true, ..idle() };
    let mut shots = 0;
    for _ in 0..100 {
        if shoot_bullet(Some(&mut s), &held, 60).is_some() {
            shots += 1;
        }
    }
    assert_eq!(shots, 10);
}

#[test]
fn a_ready_gun_waits_for_the_trigger() {
    let mut s = spawn_survivour();
    assert_eq!(shoot_bullet(Some(&mut s), &idle(), 10_000), None);
    assert!(s.combat_bundle.attack_delay.delay.finished());
    assert_eq!(shoot_bullet(Some(&mut s), &idle(), 16), None);
    assert!(shoot_bullet(Some(&mut s), &Intent { shoot: true, ..idle() }, 0).is_some());
    assert_eq!(shoot_bullet(Some(&mut s), &Intent { shoot: true, ..idle() }, 0), None);
}

#[test]
fn a_bullet_leaves_thirty_units_ahead_along_the_heading() {
    let mut s = spawn_survivour();
    s.position = Vec2::new(100_000, -50_000);
    s.heading = Heading::new(-600, 800);
    let b = shoot_bullet(Some(&mut s), &Intent { shoot: true, ..idle() }, 600).unwrap();
    assert_eq!(b.position, Vec2::new(100_000 - 18_000, -50_000 + 24_000));
    assert_eq!(b.bullet.start_position, b.position);
    assert_eq!(b.heading, Heading::new(-600, 800));
    assert_eq!(s.position, Vec2::new(100_000, -50_000));
}

#[test]
fn nobody_shoots_without_a_survivour() {
    assert_eq!(shoot_bullet(None, &Intent { shoot: true, ..idle() }, 10_000), None);
}

#[test]
fn bullets_fly_on_along_their_heading() {
    let mut s = spawn_survivour();
    s.heading = Heading::new(0, 1000);
    let b = shoot_bullet(Some(&mut s), &Intent { shoot: true, ..idle() }, 600).unwrap();
    let mut bullets = vec![b, BulletBundle { heading: Heading::new(-1000, 0), ..b }];
    assert_eq!(update_bullet(&mut bullets, 100), vec![false, false]);
    assert_eq!(bullets[0].position, Vec2::new(0, 100_000));
    assert_eq!(bullets[1].position, Vec2::new(-70_000, 30_000));
    assert_eq!(bullets[0].bullet, b.bullet);
    assert_eq!(update_bullet(&mut bullets, 0), vec![false, false]);
    assert_eq!(bullets[0].position, Vec2::new(0, 100_000));
}

#[test]
fn a_bullet_beyond_two_thousand_units_is_lost() {
    let mut s = spawn_survivour();
    let b = shoot_bullet(Some(&mut s), &Intent { shoot: true, ..idle() }, 600).unwrap();
    let mut bullets = vec![b];
    assert_eq!(BULLET_RANGE, 2_000_000);
    // 700 units a second for 2857 milliseconds are 1999.9 units.
    assert_eq!(update_bullet(&mut bullets, 2_857), vec![false]);
    assert_eq!(bullets[0].position, Vec2::new(30_000 + 1_999_900, 0));
    assert!(!bullets[0].out_of_range());
    assert_eq!(update_bullet(&mut bullets, 1), vec![false]);
    assert_eq!(bullets[0].position, Vec2::new(30_000 + 2_000_600, 0));
    assert!(bullets[0].out_of_range());
    let there = bullets[0];
    assert_eq!(update_bullet(&mut bullets, 16), vec![true]);
    assert_eq!(bullets[0], there);
}

#[test]
fn a_bullet_at_exactly_two_thousand_units_flies_on() {
    let mut bullets = vec![BulletBundle {
        position: Vec2::new(0, -2_000_000),
        heading: Heading::new(0, -1000),
        bullet: Bullet { speed: 700, start_position: Vec2::new(0, 0) },
        collision_size: CollisionSize(Vec2::new(16_000, 16_000)),
    }];
    assert_eq!(update_bullet(&mut bullets, 10), vec![false]);
    assert_eq!(bullets[0].position, Vec2::new(0, -2_007_000));
    assert_eq!(update_bullet(&mut bullets, 10), vec![true]);
    assert!(update_bullet(&mut Vec::new(), 10).is_empty());
}

#[test]
fn the_view_follows_in_the_open_and_holds_near_the_edges() {
    let bounds = create_map();
    let window = Vec2::new(1_000_000, 800_000);
    let mut s = spawn_survivour();
    let mut camera = Vec2::new(0, 0);
    s.position = Vec2::new(100_000, -200_000);
    update_camera(Some(&s), Some(&mut camera), window, Some(&bounds));
    assert_eq!(camera, Vec2::new(100_000, -200_000));
    // Half the view is 500 wide: the view follows up to 524 units from the middle.
    s.position = Vec2::new(523_999, 623_999);
    update_camera(Some(&s), Some(&mut camera), window, Some(&bounds));
    assert_eq!(camera, Vec2::new(523_999, 623_999));
    s.position = Vec2::new(524_000, 624_000);
    update_camera(Some(&s), Some(&mut camera), window, Some(&bounds));
    assert_eq!(camera, Vec2::new(523_999, 623_999));
    s.position = Vec2::new(900_000, 0);
    update_camera(Some(&s), Some(&mut camera), window, Some(&bounds));
    assert_eq!(camera, Vec2::new(523_999, 0));
    s.position = Vec2::new(-523_999, -900_000);
    update_camera(Some(&s), Some(&mut camera), window, Some(&bounds));
    assert_eq!(camera, Vec2::new(-523_999, 0));
    s.position = Vec2::new(-524_000, -624_000);
    update_camera(Some(&s), Some(&mut camera), window, Some(&bounds));
    assert_eq!(camera, Vec2::new(-523_999, 0));
}

#[test]
fn a_view_wider_than_the_ground_never_follows() {
    let bounds = MapBounds::new(2, 2).unwrap();
    let mut camera = Vec2::new(5, 5);
    let s = spawn_survivour();
    update_camera(Some(&s), Some(&mut camera), Vec2::new(128_000, 200_000), Some(&bounds));
    assert_eq!(camera, Vec2::new(5, 5));
    update_camera(Some(&s), Some(&mut camera), Vec2::new(127_999, 200_000), Some(&bounds));
    assert_eq!(camera, Vec2::new(0, 5));
}

#[test]
fn the_view_rests_where_something_is_missing() {
    let bounds = create_map();
    let window = Vec2::new(1_000_000, 800_000);
    let mut s = spawn_survivour();
    s.position = Vec2::new(1, 1);
    let mut camera = Vec2::new(9, 9);
    update_camera(None, Some(&mut camera), window, Some(&bounds));
    assert_eq!(camera, Vec2::new(9, 9));
    update_camera(Some(&s), Some(&mut camera), window, None);
    assert_eq!(camera, Vec2::new(9, 9));
    update_camera(Some(&s), None, window, Some(&bounds));
}
