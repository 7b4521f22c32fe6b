use zombie_arena::collision::{
    blood_of, collide, collision_zombies_bullets, despawn_blood, despawn_powerup, drop_pickups,
    health_pickup_spawn, survivour_health_pickup, BloodTimer, CollisionSize, Decal, Kill,
    BLOOD_LIFETIME_MS,
};
use zombie_arena::geometry::{Heading, Vec2};
use zombie_arena::powerups::{
    Pickup, PowerUp, PowerupSpawnChance, PowerupTimer, POWERUP_LIFETIME_MS,
};
use zombie_arena::survivour::{spawn_survivour, Bullet, BulletBundle};
use zombie_arena::sweep::discard;
use zombie_arena::timer::Timer;
use zombie_arena::waves::{Score, ZombieCount};
use zombie_arena::zombies::ZombieBundle;

fn bullet_at(x: i32, y: i32) -> BulletBundle {
    BulletBundle {
        position: Vec2::new(x, y),
        heading: Heading::new(1000, 0),
        bullet: Bullet { speed: 700, start_position: Vec2::new(x, y) },
        collision_size: CollisionSize(Vec2::new(16_000, 16_000)),
    }
}

fn health_pickup_at(x: i32, y: i32) -> Pickup {
    health_pickup_spawn(
        &PowerupSpawnChance { health: 100 },
        &Heading::new(1000, 0),
        &Vec2::new(x, y),
        0,
    )
    .unwrap()
}

#[test]
fn boxes_that_share_area_collide() {
    let size = Vec2::new(10_000, 10_000);
    assert!(collide(Vec2::new(0, 0), size, Vec2::new(0, 0), size));
    assert!(collide(Vec2::new(0, 0), size, Vec2::new(9_999, 0), size));
    assert!(collide(Vec2::new(0, 0), size, Vec2::new(-9_999, 9_999), size));
    assert!(collide(Vec2::new(0, 0), Vec2::new(100_000, 100_000), Vec2::new(20_000, 20_000), size));
}

#[test]
fn boxes_that_only_touch_do_not_collide() {
    let size = Vec2::new(10_000, 10_000);
    assert!(!collide(Vec2::new(0, 0), size, Vec2::new(10_000, 0), size));
    assert!(!collide(Vec2::new(0, 0), size, Vec2::new(0, -10_000), size));
    assert!(!collide(Vec2::new(0, 0), size, Vec2::new(10_001, 0), size));
    assert!(!collide(Vec2::new(0, 0), size, Vec2::new(0, 50_000), size));
}

#[test]
fn boxes_of_odd_sizes_are_halved_exactly() {
    let a = Vec2::new(3, 3);
    let b = Vec2::new(2, 2);
    assert!(collide(Vec2::new(0, 0), a, Vec2::new(2, 0), b));
    assert!(!collide(Vec2::new(0, 0), a, Vec2::new(3, 0), b));
    assert!(!collide(Vec2::new(0, 0), Vec2::new(1, 1), Vec2::new(1, 0), Vec2::new(1, 1)));
}

#[test]
fn boxes_at_the_ends_of_the_plane_can_be_compared() {
    let huge = Vec2::new(i32::MAX, i32::MAX);
    assert!(!collide(Vec2::new(i32::MIN, i32::MIN), huge, Vec2::new(i32::MAX, i32::MAX), huge));
    assert!(collide(Vec2::new(i32::MAX, i32::MAX), huge, Vec2::new(i32::MAX, i32::MAX), huge));
    assert!(!collide(Vec2::new(0, 0), Vec2::new(-5, -5), Vec2::new(0, 0), Vec2::new(1, 1)));
}

#[test]
fn a_chaser_dies_of_one_bullet() {
    let mut zombies = vec![ZombieBundle::chaser(Vec2::new(0, 0))];
    let bullets = vec![bullet_at(1_000, 1_000)];
    let mut count = ZombieCount { chaser: 1, crawler: 0, bloater: 0 };
    let mut score = Score(0);
    let hits = collision_zombies_bullets(&mut zombies, &bullets, &mut count, &mut score);
    assert_eq!(hits.spent, vec![true]);
    assert_eq!(hits.kills, vec![Kill { zombie: 0, bullet: 0 }]);
    assert_eq!(zombies[0].combat_bundle.health.0, 0);
    assert_eq!(count, ZombieCount::zero());
    assert_eq!(score, Score(1));
}

#[test]
fn a_crawler_is_worth_three_and_a_wound_is_worth_nothing() {
    let mut zombies = vec![ZombieBundle::crawler(Vec2::new(0, 0))];
    let mut count = ZombieCount { chaser: 0, crawler: 1, bloater: 0 };
    let mut score = Score(10);
    for wound in 1..=2 {
        let hits =
            collision_zombies_bullets(&mut zombies, &vec![bullet_at(0, 0)], &mut count, &mut score);
        assert_eq!(hits.spent, vec![true]);
        assert!(hits.kills.is_empty());
        assert_eq!(zombies[0].combat_bundle.health.0, 3 - wound);
        assert_eq!(score, Score(10));
        assert_eq!(count.crawler, 1);
    }
    let hits =
        collision_zombies_bullets(&mut zombies, &vec![bullet_at(0, 0)], &mut count, &mut score);
    assert_eq!(hits.kills, vec![Kill { zombie: 0, bullet: 0 }]);
    assert_eq!(score, Score(13));
    assert_eq!(count.crawler, 0);
}

#[test]
fn a_bloater_dies_exactly_on_the_fifth_hit() {
    let mut zombies = vec![ZombieBundle::bloater(Vec2::new(0, 0))];
    let mut count = ZombieCount { chaser: 2, crawler: 1, bloater: 1 };
    let mut score = Score(0);
    for hit in 1..=4 {
        let bullets = vec![bullet_at(5_000, -5_000)];
        let hits = collision_zombies_bullets(&mut zombies, &bullets, &mut count, &mut score);
        assert_eq!(hits.spent, vec![true]);
        assert!(hits.kills.is_empty());
        assert_eq!(zombies[0].combat_bundle.health.0, 5 - hit);
        assert_eq!(score, Score(0));
        assert_eq!(count, ZombieCount { chaser: 2, crawler: 1, bloater: 1 });
    }
    let bullets = vec![bullet_at(5_000, -5_000)];
    let hits = collision_zombies_bullets(&mut zombies, &bullets, &mut count, &mut score);
    assert_eq!(hits.spent, vec![true]);
    assert_eq!(hits.kills, vec![Kill { zombie: 0, bullet: 0 }]);
    assert_eq!(zombies[0].combat_bundle.health.0, 0);
    assert_eq!(score, Score(5));
    assert_eq!(count, ZombieCount { chaser: 2, crawler: 1, bloater: 0 });
}

#[test]
fn a_dead_zombie_is_struck_no_more() {
    let mut zombies = vec![ZombieBundle::chaser(Vec2::new(0, 0))];
    let bullets = vec![bullet_at(0, 0), bullet_at(1_000, 0), bullet_at(0, 1_000)];
    let mut count = ZombieCount { chaser: 3, crawler: 0, bloater: 0 };
    let mut score = Score(0);
    let hits = collision_zombies_bullets(&mut zombies, &bullets, &mut count, &mut score);
    assert_eq!(hits.spent, vec![true, false, false]);
    assert_eq!(hits.kills, vec![Kill { zombie: 0, bullet: 0 }]);
    assert_eq!(zombies[0].combat_bundle.health.0, 0);
    assert_eq!(count.chaser, 2);
    assert_eq!(score, Score(1));
    let again = collision_zombies_bullets(&mut zombies, &bullets, &mut count, &mut score);
    assert_eq!(again.spent, vec![false, false, false]);
    assert!(again.kills.is_empty());
    assert_eq!(zombies[0].combat_bundle.health.0, 0);
    assert_eq!(count.chaser, 2);
    assert_eq!(score, Score(1));
}

#[test]
fn several_bullets_wound_one_zombie_in_the_same_step() {
    let mut zombies = vec![ZombieBundle::bloater(Vec2::new(0, 0))];
    let bullets = vec![bullet_at(0, 0), bullet_at(500_000, 0), bullet_at(1_000, 0), bullet_at(0, 2_000)];
    let mut count = ZombieCount { chaser: 0, crawler: 0, bloater: 1 };
    let mut score = Score(0);
    let hits = collision_zombies_bullets(&mut zombies, &bullets, &mut count, &mut score);
    assert_eq!(hits.spent, vec![true, false, true, true]);
    assert!(hits.kills.is_empty());
    assert_eq!(zombies[0].combat_bundle.health.0, 2);
    assert_eq!(count.bloater, 1);
    assert_eq!(score, Score(0));
}

#[test]
fn a_bullet_strikes_only_the_first_zombie_it_meets() {
    let mut zombies =
        vec![ZombieBundle::crawler(Vec2::new(0, 0)), ZombieBundle::chaser(Vec2::new(2_000, 0))];
    let bullets = vec![bullet_at(1_000, 0)];
    let mut count = ZombieCount { chaser: 1, crawler: 1, bloater: 0 };
    let mut score = Score(0);
    let hits = collision_zombies_bullets(&mut zombies, &bullets, &mut count, &mut score);
    assert_eq!(hits.spent, vec![true]);
    assert!(hits.kills.is_empty());
    assert_eq!(zombies[0].combat_bundle.health.0, 2);
    assert_eq!(zombies[1].combat_bundle.health.0, 1);
    assert_eq!(count, ZombieCount { chaser: 1, crawler: 1, bloater: 0 });
}

#[test]
fn kills_of_one_step_are_noted_in_the_order_of_the_zombies() {
    let mut zombies = vec![
        ZombieBundle::chaser(Vec2::new(0, 0)),
        ZombieBundle::bloater(Vec2::new(500_000, 0)),
        ZombieBundle::chaser(Vec2::new(-500_000, 0)),
    ];
    let bullets = vec![bullet_at(-500_000, 0), bullet_at(500_000, 0), bullet_at(0, 0)];
    let mut count = ZombieCount { chaser: 2, crawler: 0, bloater: 1 };
    let mut score = Score(7);
    let hits = collision_zombies_bullets(&mut zombies, &bullets, &mut count, &mut score);
    assert_eq!(hits.spent, vec![true, true, true]);
    assert_eq!(hits.kills, vec![Kill { zombie: 0, bullet: 2 }, Kill { zombie: 2, bullet: 0 }]);
    assert_eq!(zombies[1].combat_bundle.health.0, 4);
    assert_eq!(count, ZombieCount { chaser: 0, crawler: 0, bloater: 1 });
    assert_eq!(score, Score(9));
}

#[test]
fn a_miss_changes_nothing() {
    let mut zombies = vec![ZombieBundle::chaser(Vec2::new(0, 0))];
    let before = zombies.clone();
    let bullets = vec![bullet_at(100_000, 0)];
    let mut count = ZombieCount { chaser: 1, crawler: 0, bloater: 0 };
    let mut score = Score(3);
    let hits = collision_zombies_bullets(&mut zombies, &bullets, &mut count, &mut score);
    assert_eq!(hits.spent, vec![false]);
    assert!(hits.kills.is_empty());
    assert_eq!(zombies, before);
    assert_eq!(count.chaser, 1);
    assert_eq!(score, Score(3));
}

#[test]
fn nothing_meets_where_there_are_no_bullets_or_no_zombies() {
    let mut zombies = vec![ZombieBundle::chaser(Vec2::new(0, 0))];
    let mut count = ZombieCount { chaser: 1, crawler: 0, bloater: 0 };
    let mut score = Score(0);
    let hits = collision_zombies_bullets(&mut zombies, &Vec::new(), &mut count, &mut score);
    assert!(hits.spent.is_empty() && hits.kills.is_empty());
    let mut nobody: Vec<ZombieBundle> = Vec::new();
    let hits = collision_zombies_bullets(&mut nobody, &vec![bullet_at(0, 0)], &mut count, &mut score);
    assert_eq!(hits.spent, vec![false]);
    assert!(hits.kills.is_empty());
}

#[test]
fn the_edge_of_a_zombies_box_is_not_a_hit() {
    // A chaser's box is 19 wide and a bullet's 16: they touch at a distance of 17.5.
    let mut zombies = vec![ZombieBundle::chaser(Vec2::new(0, 0))];
    let mut count = ZombieCount { chaser: 1, crawler: 0, bloater: 0 };
    let mut score = Score(0);
    let hits =
        collision_zombies_bullets(&mut zombies, &vec![bullet_at(17_500, 0)], &mut count, &mut score);
    assert_eq!(hits.spent, vec![false]);
    let hits =
        collision_zombies_bullets(&mut zombies, &vec![bullet_at(17_499, 0)], &mut count, &mut score);
    assert_eq!(hits.spent, vec![true]);
}

#[test]
fn blood_lies_where_the_zombie_stood_for_ten_seconds() {
    let z = ZombieBundle::bloater(Vec2::new(12, -34));
    let decal = blood_of(&z);
    assert_eq!(
        decal,
        Decal { position: Vec2::new(12, -34), timer: BloodTimer(Timer::from_millis(10_000)) }
    );
    assert_eq!(BLOOD_LIFETIME_MS, 10_000);
}

#[test]
fn a_pickup_is_left_when_the_draw_lies_below_the_chance() {
    let chance = PowerupSpawnChance { health: 10 };
    let heading = Heading::new(600, -800);
    let at = Vec2::new(100_000, 200_000);
    for roll in 0..10 {
        assert!(chance.grants_health(roll));
        assert!(health_pickup_spawn(&chance, &heading, &at, roll).is_some());
    }
    for roll in 10..100 {
        assert!(!chance.grants_health(roll));
        assert_eq!(health_pickup_spawn(&chance, &heading, &at, roll), None);
    }
}

#[test]
fn a_health_pickup_lies_where_the_zombie_fell_and_slides_the_way_of_the_bullet() {
    let p = health_pickup_spawn(
        &PowerupSpawnChance { health: 15 },
        &Heading::new(600, -800),
        &Vec2::new(100_000, 200_000),
        14,
    );
    assert_eq!(
        p,
        Some(Pickup {
            position: Vec2::new(100_000, 200_000),
            rest: Vec2::new(115_000, 180_000),
            powerup: PowerUp::Health,
            timer: PowerupTimer(Timer::from_millis(60_000)),
            collision_size: CollisionSize(Vec2::new(32_000, 26_000)),
        })
    );
    assert_eq!(POWERUP_LIFETIME_MS, 60_000);
}

#[test]
fn a_pickup_near_the_edge_of_the_plane_rests_at_the_edge() {
    let p = health_pickup_spawn(
        &PowerupSpawnChance { health: 1 },
        &Heading::new(1000, -1000),
        &Vec2::new(i32::MAX - 10, i32::MIN + 10),
        0,
    )
    .unwrap();
    assert_eq!(p.rest, Vec2::new(i32::MAX, i32::MIN));
}

#[test]
fn each_kill_gets_its_own_draw() {
    let mut sure = ZombieBundle::chaser(Vec2::new(1, 2));
    sure.powerup_spawn_chance = PowerupSpawnChance { health: 100 };
    let mut never = ZombieBundle::bloater(Vec2::new(3, 4));
    never.powerup_spawn_chance = PowerupSpawnChance { health: 0 };
    let zombies = vec![sure, never];
    let mut up = bullet_at(0, 0);
    up.heading = Heading::new(0, 1000);
    let bullets = vec![bullet_at(0, 0), up];
    let kills = vec![
        Kill { zombie: 1, bullet: 0 },
        Kill { zombie: 0, bullet: 1 },
        Kill { zombie: 0, bullet: 0 },
    ];
    for _ in 0..50 {
        let drops = drop_pickups(&kills, &zombies, &bullets);
        assert_eq!(drops.len(), 3);
        assert_eq!(drops[0], None);
        assert_eq!(drops[1].unwrap().position, Vec2::new(1, 2));
        assert_eq!(drops[1].unwrap().rest, Vec2::new(1, 25_002));
        assert_eq!(drops[2].unwrap().rest, Vec2::new(25_001, 2));
    }
    assert!(drop_pickups(&Vec::new(), &zombies, &bullets).is_empty());
}

#[test]
fn a_chance_between_none_and_all_drops_sometimes() {
    let mut z = ZombieBundle::chaser(Vec2::new(0, 0));
    z.powerup_spawn_chance = PowerupSpawnChance { health: 50 };
    let zombies = vec![z];
    let bullets = vec![bullet_at(0, 0)];
    let kills = vec![Kill { zombie: 0, bullet: 0 }; 400];
    let drops = drop_pickups(&kills, &zombies, &bullets);
    let dropped = drops.iter().filter(|d| d.is_some()).count();
    assert!(0 < dropped && dropped < 400);
}

#[test]
fn a_survivour_in_full_health_gathers_a_pickup_and_stays_at_three() {
    let mut survivour = spawn_survivour();
    let pickups = vec![health_pickup_at(10_000, 10_000)];
    let gathered = survivour_health_pickup(Some(&mut survivour), &pickups);
    assert_eq!(gathered, vec![true]);
    assert_eq!(survivour.combat_bundle.health.0, 3);
    let mut unchanged = spawn_survivour();
    unchanged.combat_bundle.health = survivour.combat_bundle.health;
    assert_eq!(survivour, unchanged);
}

#[test]
fn every_pickup_touched_is_gathered_but_health_stops_at_three() {
    let mut survivour = spawn_survivour();
    survivour.combat_bundle.health.0 = 1;
    let pickups = vec![
        health_pickup_at(0, 0),
        health_pickup_at(500_000, 0),
        health_pickup_at(5_000, 0),
        health_pickup_at(0, -5_000),
    ];
    let gathered = survivour_health_pickup(Some(&mut survivour), &pickups);
    assert_eq!(gathered, vec![true, false, true, true]);
    assert_eq!(survivour.combat_bundle.health.0, 3);
}

#[test]
fn one_pickup_gives_one_point_of_health() {
    let mut survivour = spawn_survivour();
    survivour.combat_bundle.health.0 = 0;
    let gathered = survivour_health_pickup(Some(&mut survivour), &vec![health_pickup_at(0, 0)]);
    assert_eq!(gathered, vec![true]);
    assert_eq!(survivour.combat_bundle.health.0, 1);
    let gathered = survivour_health_pickup(Some(&mut survivour), &vec![health_pickup_at(0, 0)]);
    assert_eq!(gathered, vec![true]);
    assert_eq!(survivour.combat_bundle.health.0, 2);
}

#[test]
fn a_pickup_out_of_reach_is_left_alone() {
    let mut survivour = spawn_survivour();
    survivour.combat_bundle.health.0 = 2;
    // The survivour's box is 32 wide and a pickup's 32: they touch at a distance of 32.
    let pickups = vec![health_pickup_at(32_000, 0), health_pickup_at(0, 29_000)];
    let gathered = survivour_health_pickup(Some(&mut survivour), &pickups);
    assert_eq!(gathered, vec![false, false]);
    assert_eq!(survivour.combat_bundle.health.0, 2);
    let pickups = vec![health_pickup_at(31_999, 0), health_pickup_at(0, 28_999)];
    let gathered = survivour_health_pickup(Some(&mut survivour), &pickups);
    assert_eq!(gathered, vec![true, true]);
}

#[test]
fn nobody_gathers_without_a_survivour() {
    let pickups = vec![health_pickup_at(0, 0), health_pickup_at(1, 1)];
    assert_eq!(survivour_health_pickup(None, &pickups), vec![false, false]);
}

#[test]
fn blood_is_gone_at_exactly_ten_seconds() {
    let z = ZombieBundle::chaser(Vec2::new(5, 5));
    let mut blood = vec![blood_of(&z)];
    assert_eq!(despawn_blood(&mut blood, 9_999), vec![false]);
    assert_eq!(blood[0].timer.0.elapsed(), 9_999);
    assert_eq!(blood[0].position, Vec2::new(5, 5));
    assert_eq!(despawn_blood(&mut blood, 1), vec![true]);
    assert!(blood[0].timer.0.finished());
    let mut other = vec![blood_of(&z), blood_of(&z)];
    other[1].timer.0.tick(4_000);
    assert_eq!(despawn_blood(&mut other, 6_000), vec![false, true]);
    assert_eq!(despawn_blood(&mut other, 4_000), vec![true, false]);
}

#[test]
fn a_pickup_is_gone_at_exactly_sixty_seconds() {
    let mut pickups = vec![health_pickup_at(0, 0), health_pickup_at(9, 9)];
    pickups[1].timer.0.tick(30_000);
    assert_eq!(despawn_powerup(&mut pickups, 29_999), vec![false, false]);
    assert_eq!(pickups[0].timer.0.elapsed(), 29_999);
    assert_eq!(pickups[1].timer.0.elapsed(), 59_999);
    assert_eq!(pickups[1].position, Vec2::new(9, 9));
    assert_eq!(despawn_powerup(&mut pickups, 1), vec![false, true]);
    assert_eq!(despawn_powerup(&mut pickups, 30_000), vec![true, false]);
}

#[test]
fn discard_keeps_what_is_not_marked_in_its_order() {
    assert_eq!(discard(&vec![1, 2, 3, 4], &vec![false, true, false, true]), vec![1, 3]);
    assert_eq!(discard(&vec![1, 2, 3], &vec![true, true, true]), Vec::<i32>::new());
    assert_eq!(discard(&vec![1, 2, 3], &vec![false, false, false]), vec![1, 2, 3]);
    assert_eq!(discard(&vec![1, 2, 3], &vec![true]), vec![2, 3]);
    assert_eq!(discard(&vec![1], &vec![false, true, true]), vec![1]);
    assert_eq!(discard(&Vec::<i32>::new(), &vec![true]), Vec::<i32>::new());
}
