use zombie_arena::geometry::{saturate_coord, travel_along, whole_root, Heading, Vec2};

#[test]
fn a_bullet_flies_its_speed_times_the_time() {
    let p = Vec2::new(0, 0).advance(Heading::new(1000, 0), 700, 16);
    assert_eq!(p, Vec2::new(11_200, 0));
    let q = Vec2::new(5, -7).advance(Heading::new(0, -1000), 100, 1_000);
    assert_eq!(q, Vec2::new(5, -100_007));
}

#[test]
fn a_slanted_step_is_split_between_the_axes() {
    let p = Vec2::new(0, 0).advance(Heading::new(600, 800), 100, 10);
    assert_eq!(p, Vec2::new(600, 800));
    let q = Vec2::new(1_000, 1_000).advance(Heading::new(-600, -800), 60, 100);
    assert_eq!(q, Vec2::new(1_000 - 3_600, 1_000 - 4_800));
}

#[test]
fn a_step_rounds_toward_nothing_in_both_directions() {
    assert_eq!(travel_along(100, 1, 333), 33);
    assert_eq!(travel_along(100, 1, -333), -33);
    assert_eq!(travel_along(1, 1, 999), 0);
    assert_eq!(travel_along(1, 1, -999), 0);
    assert_eq!(travel_along(0, 1_000, 1_000), 0);
}

#[test]
fn a_step_of_no_time_goes_nowhere() {
    let at = Vec2::new(123, -456);
    assert_eq!(at.advance(Heading::new(1000, 0), 700, 0), at);
}

#[test]
fn a_coordinate_stays_at_the_edge_of_what_can_be_held() {
    let p = Vec2::new(i32::MAX - 5, i32::MIN + 5).advance(Heading::new(1000, -1000), 700, 1_000);
    assert_eq!(p, Vec2::new(i32::MAX, i32::MIN));
    let q = Vec2::new(0, 0).advance(Heading::new(i32::MAX, i32::MIN), u32::MAX, u64::MAX);
    assert_eq!(q, Vec2::new(i32::MAX, i32::MIN));
    assert_eq!(saturate_coord(i128::MAX), i32::MAX);
    assert_eq!(saturate_coord(i128::MIN), i32::MIN);
    assert_eq!(saturate_coord(-17), -17);
}

#[test]
fn farther_than_compares_the_true_distance() {
    let origin = Vec2::new(0, 0);
    let at = Vec2::new(3_000, 4_000);
    assert!(at.farther_than(origin, 4_999));
    assert!(!at.farther_than(origin, 5_000));
    assert!(!origin.farther_than(origin, 0));
    assert!(Vec2::new(i32::MAX, i32::MAX).farther_than(Vec2::new(i32::MIN, i32::MIN), u32::MAX));
    assert!(!Vec2::new(-2_000_000, 0).farther_than(origin, 2_000_000));
    assert!(Vec2::new(-2_000_001, 0).farther_than(origin, 2_000_000));
}

#[test]
fn whole_root_is_the_whole_part_of_the_square_root() {
    assert_eq!(whole_root(0), 0);
    assert_eq!(whole_root(1), 1);
    assert_eq!(whole_root(2), 1);
    assert_eq!(whole_root(3), 1);
    assert_eq!(whole_root(4), 2);
    assert_eq!(whole_root(24), 4);
    assert_eq!(whole_root(25), 5);
    assert_eq!(whole_root(26), 5);
    assert_eq!(whole_root(1_000_000_000_000), 1_000_000);
    assert_eq!(whole_root(999_999_999_999), 999_999);
    assert_eq!(whole_root(1u128 << 64), 1u64 << 32);
    assert_eq!(whole_root((1u128 << 64) - 1), (1u64 << 32) - 1);
    assert_eq!(whole_root(1u128 << 65), 6_074_000_999);
    assert_eq!(whole_root(u128::MAX), u64::MAX);
    assert_eq!(whole_root((u64::MAX as u128) * (u64::MAX as u128)), u64::MAX);
    assert_eq!(whole_root((u64::MAX as u128) * (u64::MAX as u128) - 1), u64::MAX - 1);
}

#[test]
fn a_heading_toward_a_place_has_the_length_of_one() {
    let from = Vec2::new(0, 0);
    assert_eq!(Heading::toward(from, Vec2::new(3_000, 4_000)), Some(Heading::new(600, 800)));
    assert_eq!(Heading::toward(from, Vec2::new(-3_000, 4_000)), Some(Heading::new(-600, 800)));
    assert_eq!(Heading::toward(from, Vec2::new(-3_000, -4_000)), Some(Heading::new(-600, -800)));
    assert_eq!(Heading::toward(from, Vec2::new(7, 0)), Some(Heading::new(1000, 0)));
    assert_eq!(Heading::toward(from, Vec2::new(0, -7)), Some(Heading::new(0, -1000)));
    assert_eq!(
        Heading::toward(Vec2::new(10, 10), Vec2::new(10 + 5_000, 10 + 12_000)),
        Some(Heading::new(384, 923))
    );
}

#[test]
fn there_is_no_heading_toward_the_place_one_stands_on() {
    assert_eq!(Heading::toward(Vec2::new(5, 5), Vec2::new(5, 5)), None);
}

#[test]
fn a_heading_over_a_tiny_way_is_never_longer_than_one_per_axis() {
    assert_eq!(Heading::toward(Vec2::new(0, 0), Vec2::new(1, 1)), Some(Heading::new(1000, 1000)));
    assert_eq!(Heading::toward(Vec2::new(0, 0), Vec2::new(1, -1)), Some(Heading::new(1000, -1000)));
}

#[test]
fn a_heading_across_the_whole_plane_can_be_found() {
    let h = Heading::toward(Vec2::new(i32::MIN, i32::MIN), Vec2::new(i32::MAX, i32::MAX));
    assert_eq!(h, Some(Heading::new(707, 707)));
    let g = Heading::toward(Vec2::new(i32::MAX, 0), Vec2::new(i32::MIN, 0));
    assert_eq!(g, Some(Heading::new(-1000, 0)));
}

#[test]
fn ahead_is_along_the_x_axis() {
    assert_eq!(Heading::ahead(), Heading::new(1000, 0));
}
