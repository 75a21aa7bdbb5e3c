//! The character movement controller.
//!
//! Each frame the controller reads the pressed directional keys and writes
//! the character's horizontal velocity.  The vertical component belongs to
//! the physics simulation (gravity) and is never touched here.

use vstd::prelude::*;

verus! {

/// Horizontal movement speed, in pixels per second.
pub const CHARACTER_SPEED: i64 = 100;

/// Gravity multiplier of the character's rigid body.
pub const CHARACTER_GRAVITY_SCALE: i64 = 2;

/// Friction coefficient of the character's collider.
pub const CHARACTER_FRICTION: i64 = 2;

/// The per-frame mutable state of the controllable character: its velocity,
/// in pixels per second.  Position is integrated by the physics simulation
/// and never read back by the core.
#[derive(Clone, Copy, PartialEq, Eq, Structural, Debug)]
pub struct CharacterState {
    pub vx: i64,
    pub vy: i64,
}

/// The character as spawned on entering the gameplay mode: at rest.
pub open spec fn initial_character() -> CharacterState {
    CharacterState { vx: 0, vy: 0 }
}

/// The static body the gameplay mode spawns for the character: a dynamic
/// square collider with locked rotation.
#[derive(Clone, Copy, PartialEq, Eq, Structural, Debug)]
pub struct BodyDescriptor {
    /// Half-extent of the square collider, in pixels.
    pub collider_half_extent: u32,
    pub gravity_scale: i64,
    pub friction: i64,
    pub rotation_locked: bool,
    /// Whether the body is simulated (the character) or fixed (a tile).
    pub dynamic: bool,
}

pub fn character_descriptor() -> (d: BodyDescriptor)
    ensures
        d.collider_half_extent == crate::tiles::TILE_SIZE,
        d.gravity_scale == CHARACTER_GRAVITY_SCALE,
        d.friction == CHARACTER_FRICTION,
        d.rotation_locked,
        d.dynamic,
{
    BodyDescriptor {
        collider_half_extent: crate::tiles::TILE_SIZE,
        gravity_scale: CHARACTER_GRAVITY_SCALE,
        friction: CHARACTER_FRICTION,
        rotation_locked: true,
        dynamic: true,
    }
}

/// One controller step.  "Right" writes `+CHARACTER_SPEED`, "left" writes
/// `-CHARACTER_SPEED`; the checks run in that order and the last write
/// sticks, so with both keys pressed left wins.  The velocity is never a
/// blend, and with no key pressed it is left as it was.
pub open spec fn spec_steer(c: CharacterState, left: bool, right: bool) -> CharacterState {
    CharacterState {
        vx: if left {
            (-CHARACTER_SPEED) as i64
        } else if right {
            CHARACTER_SPEED
        } else {
            c.vx
        },
        vy: c.vy,
    }
}

pub fn steer(c: &mut CharacterState, left: bool, right: bool)
    ensures
        *final(c) == spec_steer(*old(c), left, right),
        final(c).vx == -CHARACTER_SPEED || final(c).vx == CHARACTER_SPEED || final(c).vx == old(
            c,
        ).vx,
        final(c).vy == old(c).vy,
{
    if right {
        c.vx = CHARACTER_SPEED;
    }
    if left {
        c.vx = -CHARACTER_SPEED;
    }
}

} // verus!
