//! The survivour: how it is made, walks, aims and shoots, how its bullets
//! fly, and how the view follows it.

use vstd::prelude::*;
use crate::collision::CollisionSize;
use crate::combat::{AttackDelay, CombatBundle, Health, MAX_SURVIVOUR_HEALTH};
use crate::geometry::{
    clamped, distance_squared, heading_toward, moved, saturate, saturate_coord, Heading, Vec2,
};
use crate::map::MapBounds;
use crate::timer::Timer;
use crate::zombies::MovementSpeed;

verus! {

/// The survivour's walking speed, in world units per second, before it is
/// multiplied by the walking gain.
pub const SURVIVOUR_SPEED: u32 = 10;

/// The gain by which a pressed direction is multiplied.
pub const WALK_GAIN: u32 = 15;

/// The pause between two shots, in milliseconds.
pub const SHOT_DELAY_MS: u64 = 600;

/// The side of the survivour's box, in thousandths of a unit.
pub const SURVIVOUR_SIZE: i32 = 32_000;

/// How far the survivour's centre keeps from the edge of the ground, in
/// thousandths of a unit.
pub const EDGE_MARGIN: i32 = 16_000;

/// The side of a bullet's box, in thousandths of a unit.
pub const BULLET_SIZE: i32 = 16_000;

/// A bullet's speed, in world units per second.
pub const BULLET_SPEED: u32 = 700;

/// How far from the survivour's centre a bullet appears, in world units.
pub const MUZZLE_OFFSET: i32 = 30;

/// How far a bullet flies before it is lost, in thousandths of a unit.
pub const BULLET_RANGE: u32 = 2_000_000;

/// The survivour, with everything that belongs to it.
#[derive(Clone, Copy, Debug, PartialEq, Eq, Structural)]
pub struct Survivour {
    pub position: Vec2,
    pub heading: Heading,
    pub combat_bundle: CombatBundle,
    pub movement_speed: MovementSpeed,
    pub collision_size: CollisionSize,
}

/// What the player asks for during one step: the directions held down and
/// whether the trigger is held.
#[derive(Clone, Copy, Debug, PartialEq, Eq, Structural)]
pub struct Intent {
    pub up: bool,
    pub down: bool,
    pub left: bool,
    pub right: bool,
    pub shoot: bool,
}

/// What a bullet keeps of its launch.
#[derive(Clone, Copy, Debug, PartialEq, Eq, Structural)]
pub struct Bullet {
    pub speed: u32,
    pub start_position: Vec2,
}

/// A bullet in flight, with everything that belongs to it.
#[derive(Clone, Copy, Debug, PartialEq, Eq, Structural)]
pub struct BulletBundle {
    pub position: Vec2,
    pub heading: Heading,
    pub bullet: Bullet,
    pub collision_size: CollisionSize,
}

/// The pull of two opposite keys along one axis: one step forward, one
/// back, or none where both or neither are held.
pub open spec fn axis(forward: bool, back: bool) -> int {
    (if forward { 1int } else { 0int }) - (if back { 1int } else { 0int })
}

/// The distance the survivour walks along an axis on which `pull` keys
/// pull. Each axis is taken by itself, so walking aslant is faster than
/// walking straight.
pub open spec fn walk(pull: int, speed: u32, dt_ms: u64) -> int {
    pull * WALK_GAIN * speed * dt_ms
}

/// Where a survivour at `pos` stands after walking as `intent` asks for
/// `dt_ms` milliseconds, held back from the edges of the ground.
pub open spec fn walked(pos: Vec2, intent: Intent, speed: u32, bounds: MapBounds, dt_ms: u64) -> Vec2 {
    Vec2 {
        x: clamped(
            pos.x + walk(axis(intent.right, intent.left), speed, dt_ms),
            -bounds.spec_half_width() + EDGE_MARGIN,
            bounds.spec_half_width() - EDGE_MARGIN,
        ) as i32,
        y: clamped(
            pos.y + walk(axis(intent.up, intent.down), speed, dt_ms),
            -bounds.spec_half_height() + EDGE_MARGIN,
            bounds.spec_half_height() - EDGE_MARGIN,
        ) as i32,
    }
}

/// The place where a bullet leaves a survivour at `pos` that faces along
/// `heading`.
pub open spec fn muzzle(pos: Vec2, heading: Heading) -> Vec2 {
    Vec2 {
        x: saturate(pos.x + MUZZLE_OFFSET * heading.x) as i32,
        y: saturate(pos.y + MUZZLE_OFFSET * heading.y) as i32,
    }
}

/// The bullet that a survivour at `pos`, facing along `heading`, fires.
pub open spec fn fired(pos: Vec2, heading: Heading) -> BulletBundle {
    BulletBundle {
        position: muzzle(pos, heading),
        heading,
        bullet: Bullet { speed: BULLET_SPEED, start_position: muzzle(pos, heading) },
        collision_size: CollisionSize(Vec2 { x: BULLET_SIZE, y: BULLET_SIZE }),
    }
}

impl Survivour {
    /// The survivour as play begins: at the origin, facing along the x axis,
    /// in full health, ready to shoot once the first pause has passed.
    pub open spec fn spec_new() -> Survivour {
        Survivour {
            position: Vec2 { x: 0, y: 0 },
            heading: Heading::spec_ahead(),
            combat_bundle: CombatBundle {
                health: Health(MAX_SURVIVOUR_HEALTH),
                attack_delay: AttackDelay { delay: Timer::fresh(SHOT_DELAY_MS) },
            },
            movement_speed: MovementSpeed { speed: SURVIVOUR_SPEED },
            collision_size: CollisionSize(Vec2 { x: SURVIVOUR_SIZE, y: SURVIVOUR_SIZE }),
        }
    }

    /// The survivour after one step of its gun: the pause has run on by
    /// `dt_ms` milliseconds, and starts anew if a shot was fired.
    pub open spec fn after_gun(self, shoot: bool, dt_ms: u64) -> Survivour {
        let run = self.combat_bundle.attack_delay.delay.after_tick(dt_ms);
        Survivour {
            combat_bundle: CombatBundle {
                attack_delay: AttackDelay {
                    delay: if run.spec_finished() && shoot {
                        run.after_reset()
                    } else {
                        run
                    },
                },
                ..self.combat_bundle
            },
            ..self
        }
    }

    /// Whether a survivour that holds the trigger or not fires within the
    /// next `dt_ms` milliseconds: it does when the trigger is held and the
    /// pause since the last shot is over by then.
    pub open spec fn fires(self, shoot: bool, dt_ms: u64) -> bool {
        shoot && self.combat_bundle.attack_delay.delay.after_tick(dt_ms).spec_finished()
    }
}

impl BulletBundle {
    /// Whether the bullet has flown beyond its range.
    pub open spec fn spec_out_of_range(self) -> bool {
        distance_squared(self.position, self.bullet.start_position) > BULLET_RANGE * BULLET_RANGE
    }

    /// The bullet one step of `dt_ms` milliseconds later.
    pub open spec fn flown(self, dt_ms: u64) -> BulletBundle {
        BulletBundle {
            position: moved(self.position, self.heading, self.bullet.speed, dt_ms),
            ..self
        }
    }

    /// Whether the bullet has flown beyond its range.
    pub fn out_of_range(&self) -> (out: bool)
        ensures
            out == self.spec_out_of_range(),
    {
        self.position.farther_than(self.bullet.start_position, BULLET_RANGE)
    }
}

/// The survivour as play begins.
pub fn spawn_survivour() -> (s: Survivour)
    ensures
        s == Survivour::spec_new(),
{
    Survivour {
        position: Vec2 { x: 0, y: 0 },
        heading: Heading { x: 1000, y: 0 },
        combat_bundle: CombatBundle {
            health: Health(MAX_SURVIVOUR_HEALTH),
            attack_delay: AttackDelay { delay: Timer::from_millis(SHOT_DELAY_MS) },
        },
        movement_speed: MovementSpeed { speed: SURVIVOUR_SPEED },
        collision_size: CollisionSize(Vec2 { x: SURVIVOUR_SIZE, y: SURVIVOUR_SIZE }),
    }
}

/// Walks one axis: the coordinate `at` after `dt_ms` milliseconds under
/// `pull`, held within `half - EDGE_MARGIN` of the origin.
fn walk_axis(at: i32, forward: bool, back: bool, speed: u32, dt_ms: u64, half: i32) -> (to: i32)
    requires
        EDGE_MARGIN <= half,
    ensures
        to == clamped(
            at + walk(axis(forward, back), speed, dt_ms),
            -half + EDGE_MARGIN,
            half - EDGE_MARGIN,
        ),
{
    let pull: i128 = (if forward { 1i128 } else { 0i128 }) - (if back { 1i128 } else { 0i128 });
    let rate: i128 = 15 * (speed as i128);
    assert(0 <= rate * (dt_ms as i128) <= 15 * 0xffff_ffff * 0xffff_ffff_ffff_ffff)
        by (nonlinear_arith)
        requires
            0 <= rate <= 15 * 0xffff_ffff,
            0 <= dt_ms as i128 <= 0xffff_ffff_ffff_ffff,
    ;
    let length: i128 = rate * (dt_ms as i128);
    let step: i128 = if pull == 1 {
        length
    } else if pull == -1 {
        -length
    } else {
        0
    };
    assert(step == walk(axis(forward, back), speed, dt_ms)) by (nonlinear_arith)
        requires
            pull == axis(forward, back),
            length == 15 * speed * dt_ms,
            WALK_GAIN == 15,
            step == if pull == 1 {
                length as int
            } else if pull == -1 {
                -length
            } else {
                0
            },
            -1 <= pull <= 1,
    ;
    let target: i128 = at as i128 + step;
    let lo: i32 = -half + EDGE_MARGIN;
    let hi: i32 = half - EDGE_MARGIN;
    if target < lo as i128 {
        lo
    } else if target > hi as i128 {
        hi
    } else {
        target as i32
    }
}

/// Moves the survivour as `intent` asks. Each pressed direction pulls along
/// its axis, opposite ones cancel, and the two axes add up without being
/// evened out. The survivour stays on the ground, `EDGE_MARGIN` from its
/// edges. Where the survivour or the bounds are missing nothing happens.
pub fn survivour_walks(
    survivour: Option<&mut Survivour>,
    intent: &Intent,
    map_bounds: Option<&MapBounds>,
    dt_ms: u64,
)
    requires
        map_bounds is Some ==> map_bounds->0.wf(),
    ensures
        survivour is Some ==> *final(survivour->0) == if map_bounds is Some {
            Survivour {
                position: walked(
                    old(survivour->0).position,
                    *intent,
                    old(survivour->0).movement_speed.speed,
                    *map_bounds->0,
                    dt_ms,
                ),
                ..*old(survivour->0)
            }
        } else {
            *old(survivour->0)
        },
{
    if let Some(s) = survivour {
        if let Some(bounds) = map_bounds {
            let speed: u32 = s.movement_speed.speed;
            let x: i32 = walk_axis(
                s.position.x,
                intent.right,
                intent.left,
                speed,
                dt_ms,
                bounds.half_width(),
            );
            let y: i32 = walk_axis(
                s.position.y,
                intent.up,
                intent.down,
                speed,
                dt_ms,
                bounds.half_height(),
            );
            s.position = Vec2 { x, y };
        }
    }
}

/// Whether the view follows a survivour at coordinate `at` along an axis
/// on which the ground reaches `half` to either side and the view is
/// `extent` wide: it does while the survivour is more than half a view away
/// from both edges.
pub open spec fn view_follows(at: int, half: int, extent: int) -> bool {
    &&& 2 * (half - at) - extent > 0
    &&& 2 * (-half - at) + extent < 0
}

/// Where the centre of the view stands after it has looked for a survivour
/// at `at`: on the survivour along each axis on which the view follows, and
/// where it stood along the other.
pub open spec fn view_after(camera: Vec2, at: Vec2, window: Vec2, bounds: MapBounds) -> Vec2 {
    Vec2 {
        x: if view_follows(at.x as int, bounds.spec_half_width(), window.x as int) {
            at.x
        } else {
            camera.x
        },
        y: if view_follows(at.y as int, bounds.spec_half_height(), window.y as int) {
            at.y
        } else {
            camera.y
        },
    }
}

fn follows(at: i32, half: i32, extent: i32) -> (f: bool)
    ensures
        f == view_follows(at as int, half as int, extent as int),
{
    let a: i64 = at as i64;
    let h: i64 = half as i64;
    let e: i64 = extent as i64;
    2 * (h - a) - e > 0 && 2 * (-h - a) + e < 0
}

/// Lets the view follow the survivour. `window` is the width and height of
/// the view. Near an edge of the ground the view stays where it is along
/// that axis, so that it never shows what lies beyond. Where the
/// survivour, the view or the bounds are missing nothing happens.
pub fn update_camera(
    survivour: Option<&Survivour>,
    camera: Option<&mut Vec2>,
    window: Vec2,
    map_bounds: Option<&MapBounds>,
)
    requires
        map_bounds is Some ==> map_bounds->0.wf(),
    ensures
        camera is Some ==> *final(camera->0) == if survivour is Some && map_bounds is Some {
            view_after(*old(camera->0), survivour->0.position, window, *map_bounds->0)
        } else {
            *old(camera->0)
        },
{
    if let Some(s) = survivour {
        if let Some(cam) = camera {
            if let Some(bounds) = map_bounds {
                let fx: bool = follows(s.position.x, bounds.half_width(), window.x);
                let fy: bool = follows(s.position.y, bounds.half_height(), window.y);
                if fx {
                    cam.x = s.position.x;
                }
                if fy {
                    cam.y = s.position.y;
                }
            }
        }
    }
}

/// The place where a bullet leaves the survivour.
fn muzzle_of(pos: Vec2, heading: Heading) -> (m: Vec2)
    ensures
        m == muzzle(pos, heading),
{
    let dx: i128 = 30 * (heading.x as i128);
    let dy: i128 = 30 * (heading.y as i128);
    Vec2 { x: saturate_coord(pos.x as i128 + dx), y: saturate_coord(pos.y as i128 + dy) }
}

/// One step of the survivour's gun. The pause since the last shot runs on by
/// `dt_ms` milliseconds. If it is over and the trigger is held, a bullet
/// leaves the muzzle along the survivour's heading and the pause starts
/// anew. Where the survivour is missing nothing happens.
pub fn shoot_bullet(
    survivour: Option<&mut Survivour>,
    intent: &Intent,
    dt_ms: u64,
) -> (bullet: Option<BulletBundle>)
    ensures
        survivour is None ==> bullet is None,
        survivour is Some ==> {
            let before = *old(survivour->0);
            &&& bullet == if before.fires(intent.shoot, dt_ms) {
                Some(fired(before.position, before.heading))
            } else {
                None
            }
            &&& *final(survivour->0) == before.after_gun(intent.shoot, dt_ms)
        },
{
    match survivour {
        None => None,
        Some(s) => {
            s.combat_bundle.attack_delay.delay.tick(dt_ms);
            if s.combat_bundle.attack_delay.delay.finished() && intent.shoot {
                let start: Vec2 = muzzle_of(s.position, s.heading);
                s.combat_bundle.attack_delay.delay.reset();
                Some(
                    BulletBundle {
                        position: start,
                        heading: s.heading,
                        bullet: Bullet { speed: BULLET_SPEED, start_position: start },
                        collision_size: CollisionSize(Vec2 { x: BULLET_SIZE, y: BULLET_SIZE }),
                    },
                )
            } else {
                None
            }
        },
    }
}

/// One step of every bullet. A bullet that has flown beyond its range is
/// lost: it stays where it is and is marked in the result. Every other
/// bullet flies on along its heading.
pub fn update_bullet(bullets: &mut Vec<BulletBundle>, dt_ms: u64) -> (lost: Vec<bool>)
    ensures
        final(bullets)@.len() == old(bullets)@.len(),
        lost@.len() == old(bullets)@.len(),
        forall|i: int|
            0 <= i < old(bullets)@.len() ==> #[trigger] lost@[i] == old(
                bullets,
            )@[i].spec_out_of_range(),
        forall|i: int|
            0 <= i < old(bullets)@.len() ==> #[trigger] final(bullets)@[i] == if old(
                bullets,
            )@[i].spec_out_of_range() {
                old(bullets)@[i]
            } else {
                old(bullets)@[i].flown(dt_ms)
            },
{
    let mut lost: Vec<bool> = Vec::new();
    let n: usize = bullets.len();
    let mut i: usize = 0;
    while i < n
        invariant
            0 <= i <= n,
            n == bullets@.len(),
            n == old(bullets)@.len(),
            lost@.len() == i,
            forall|k: int| 0 <= k < i ==> #[trigger] lost@[k] == old(bullets)@[k].spec_out_of_range(),
            forall|k: int|
                0 <= k < i ==> #[trigger] bullets@[k] == if old(bullets)@[k].spec_out_of_range() {
                    old(bullets)@[k]
                } else {
                    old(bullets)@[k].flown(dt_ms)
                },
            forall|k: int| i <= k < n ==> #[trigger] bullets@[k] == old(bullets)@[k],
        decreases n - i,
    {
        let b: BulletBundle = bullets[i];
        if b.out_of_range() {
            lost.push(true);
        } else {
            let position: Vec2 = b.position.advance(b.heading, b.bullet.speed, dt_ms);
            bullets.set(
                i,
                BulletBundle {
                    position,
                    heading: b.heading,
                    bullet: b.bullet,
                    collision_size: b.collision_size,
                },
            );
            lost.push(false);
        }
        i = i + 1;
    }
    lost
}

/// Turns the survivour straight toward the place aimed at, at once. Aiming
/// at the very place where it stands leaves it facing as before. Where the
/// survivour is missing nothing happens.
pub fn look_at_cursor(survivour: Option<&mut Survivour>, aim: &Vec2)
    ensures
        survivour is Some ==> *final(survivour->0) == (Survivour {
            heading: if old(survivour->0).position == *aim {
                old(survivour->0).heading
            } else {
                heading_toward(old(survivour->0).position, *aim)
            },
            ..*old(survivour->0)
        }),
{
    if let Some(s) = survivour {
        if let Some(h) = Heading::toward(s.position, *aim) {
            s.heading = h;
        }
    }
}

} // verus!
