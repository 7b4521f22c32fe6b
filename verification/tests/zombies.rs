use zombie_arena::collision::CollisionSize;
use zombie_arena::combat::{AttackDelay, CombatBundle, Health};
use zombie_arena::geometry::{Heading, Vec2};
use zombie_arena::powerups::PowerupSpawnChance;
use zombie_arena::survivour::spawn_survivour;
use zombie_arena::timer::Timer;
use zombie_arena::zombies::{zombies_walk, MovementSpeed, Zombie, ZombieBundle};

#[test]
fn a_chaser_is_quick_and_frail() {
    let z = ZombieBundle::chaser(Vec2::new(10, 20));
    assert_eq!(
        z,
        ZombieBundle {
            position: Vec2::new(10, 20),
            heading: Heading::new(1000, 0),
            zombie: Zombie::Chaser,
            movement_speed: MovementSpeed { speed: 100 },
            combat_bundle: CombatBundle {
                health: Health(1),
                attack_delay: AttackDelay { delay: Timer::from_millis(1_000) },
            },
            collision_size: CollisionSize(Vec2::new(19_000, 41_000)),
            powerup_spawn_chance: PowerupSpawnChance { health: 10 },
        }
    );
}

#[test]
fn a_crawler_is_slower_and_tougher() {
    let z = ZombieBundle::crawler(Vec2::new(-5, 0));
    assert_eq!(
        z,
        ZombieBundle {
            position: Vec2::new(-5, 0),
            heading: Heading::new(1000, 0),
            zombie: Zombie::Crawler,
            movement_speed: MovementSpeed { speed: 80 },
            combat_bundle: CombatBundle {
                health: Health(3),
                attack_delay: AttackDelay { delay: Timer::from_millis(2_000) },
            },
            collision_size: CollisionSize(Vec2::new(38_000, 32_000)),
            powerup_spawn_chance: PowerupSpawnChance { health: 12 },
        }
    );
}

#[test]
fn a_bloater_is_slowest_and_toughest() {
    let z = ZombieBundle::bloater(Vec2::new(0, 0));
    assert_eq!(
        z,
        ZombieBundle {
            position: Vec2::new(0, 0),
            heading: Heading::new(1000, 0),
            zombie: Zombie::Bloater,
            movement_speed: MovementSpeed { speed: 60 },
            combat_bundle: CombatBundle {
                health: Health(5),
                attack_delay: AttackDelay { delay: Timer::from_millis(3_000) },
            },
            collision_size: CollisionSize(Vec2::new(31_000, 51_000)),
            powerup_spawn_chance: PowerupSpawnChance { health: 15 },
        }
    );
}

#[test]
fn each_kind_has_its_own_numbers() {
    assert_eq!(Zombie::Chaser.starting_health(), 1);
    assert_eq!(Zombie::Crawler.starting_health(), 3);
    assert_eq!(Zombie::Bloater.starting_health(), 5);
    assert_eq!(Zombie::Chaser.speed(), 100);
    assert_eq!(Zombie::Crawler.speed(), 80);
    assert_eq!(Zombie::Bloater.speed(), 60);
    assert_eq!(Zombie::Chaser.points(), 1);
    assert_eq!(Zombie::Crawler.points(), 3);
    assert_eq!(Zombie::Bloater.points(), 5);
    assert_eq!(Zombie::Chaser.drop_chance(), 10);
    assert_eq!(Zombie::Crawler.drop_chance(), 12);
    assert_eq!(Zombie::Bloater.drop_chance(), 15);
    assert_eq!(Zombie::Chaser.attack_delay(), 1_000);
    assert_eq!(Zombie::Crawler.attack_delay(), 2_000);
    assert_eq!(Zombie::Bloater.attack_delay(), 3_000);
    assert_eq!(Zombie::Chaser.collision_size(), Vec2::new(19_000, 41_000));
    assert_eq!(Zombie::Crawler.collision_size(), Vec2::new(38_000, 32_000));
    assert_eq!(Zombie::Bloater.collision_size(), Vec2::new(31_000, 51_000));
}

#[test]
fn of_kind_agrees_with_the_named_makers() {
    let at = Vec2::new(7, 8);
    assert_eq!(ZombieBundle::of_kind(Zombie::Chaser, at), ZombieBundle::chaser(at));
    assert_eq!(ZombieBundle::of_kind(Zombie::Crawler, at), ZombieBundle::crawler(at));
    assert_eq!(ZombieBundle::of_kind(Zombie::Bloater, at), ZombieBundle::bloater(at));
}

#[test]
fn zombies_walk_straight_toward_the_survivour() {
    let survivour = spawn_survivour();
    let mut zombies = vec![
        ZombieBundle::chaser(Vec2::new(100_000, 0)),
        ZombieBundle::crawler(Vec2::new(0, -100_000)),
        ZombieBundle::bloater(Vec2::new(-30_000, -40_000)),
    ];
    zombies_walk(Some(&survivour), &mut zombies, 1_000);
    assert_eq!(zombies[0].position, Vec2::new(0, 0));
    assert_eq!(zombies[0].heading, Heading::new(-1000, 0));
    assert_eq!(zombies[1].position, Vec2::new(0, -20_000));
    assert_eq!(zombies[1].heading, Heading::new(0, 1000));
    assert_eq!(zombies[2].position, Vec2::new(-30_000 + 36_000, -40_000 + 48_000));
    assert_eq!(zombies[2].heading, Heading::new(600, 800));
    assert_eq!(zombies[2].combat_bundle, ZombieBundle::bloater(Vec2::new(0, 0)).combat_bundle);
    assert_eq!(zombies[2].zombie, Zombie::Bloater);
}

#[test]
fn zombies_turn_at_once_when_the_survivour_moves() {
    let mut survivour = spawn_survivour();
    let mut zombies = vec![ZombieBundle::chaser(Vec2::new(50_000, 0))];
    zombies_walk(Some(&survivour), &mut zombies, 100);
    assert_eq!(zombies[0].position, Vec2::new(40_000, 0));
    survivour.position = Vec2::new(40_000, 70_000);
    zombies_walk(Some(&survivour), &mut zombies, 100);
    assert_eq!(zombies[0].heading, Heading::new(0, 1000));
    assert_eq!(zombies[0].position, Vec2::new(40_000, 10_000));
}

#[test]
fn a_zombie_on_the_survivour_walks_along_the_x_axis() {
    let survivour = spawn_survivour();
    let mut zombies = vec![ZombieBundle::crawler(Vec2::new(0, 0))];
    zombies_walk(Some(&survivour), &mut zombies, 500);
    assert_eq!(zombies[0].heading, Heading::new(1000, 0));
    assert_eq!(zombies[0].position, Vec2::new(40_000, 0));
}

#[test]
fn zombies_stand_still_without_a_survivour() {
    let mut zombies =
        vec![ZombieBundle::chaser(Vec2::new(1, 2)), ZombieBundle::bloater(Vec2::new(3, 4))];
    let before = zombies.clone();
    zombies_walk(None, &mut zombies, 1_000);
    assert_eq!(zombies, before);
}

#[test]
fn no_time_no_walk_but_the_zombie_turns() {
    let survivour = spawn_survivour();
    let mut zombies = vec![ZombieBundle::chaser(Vec2::new(0, 9_000))];
    zombies_walk(Some(&survivour), &mut zombies, 0);
    assert_eq!(zombies[0].position, Vec2::new(0, 9_000));
    assert_eq!(zombies[0].heading, Heading::new(0, -1000));
}
