//! The player model: the active character identity, the double-jump charge,
//! the grounded hysteresis, and the per-tick movement decision over resolved
//! control queries and raycast answers. The physics engine owns world
//! coordinates; this engine works in its own fixed-point units.

use vstd::prelude::*;

verus! {

/// Which character the player (or a ghost) currently plays as.
#[derive(Clone, Copy, Debug, PartialEq, Eq, Structural)]
pub enum Player {
    Mask,
    Ninja,
    Pink,
    Guy,
}

/// A linear velocity in fixed-point units per second.
#[derive(Clone, Copy, Debug, PartialEq, Eq, Structural)]
pub struct Velocity {
    pub x: i64,
    pub y: i64,
}

impl Velocity {
    pub fn zero() -> (r: Velocity)
        ensures
            r == (Velocity { x: 0i64, y: 0i64 }),
    {
        Velocity { x: 0, y: 0 }
    }
}

/// Whether a double jump is still available.
#[derive(Clone, Copy, Debug, PartialEq, Eq, Structural)]
pub struct Jump(pub bool);

/// Whether the player currently counts as standing on ground.
#[derive(Clone, Copy, Debug, PartialEq, Eq, Structural)]
pub struct Grounded(pub bool);

/// The grounded detector's memory: the last sampled height (in hundredths of
/// a unit, as the sampler rounds it) and how many ticks in a row the height
/// has held still, clamped to the hysteresis window.
#[derive(Clone, Copy, Debug, PartialEq, Eq, Structural)]
pub struct GroundedCheck {
    pub last_y: i64,
    pub streak: i64,
}

impl GroundedCheck {
    /// The streak always sits inside the hysteresis window.
    pub open spec fn wf(self) -> bool {
        0 <= self.streak <= 5
    }
}

impl Default for GroundedCheck {
    fn default() -> (r: Self)
        ensures
            r == (GroundedCheck { last_y: 0i64, streak: 0i64 }),
            r.wf(),
    {
        GroundedCheck { last_y: 0, streak: 0 }
    }
}

/// The top running speed, in fixed-point units per second.
pub const MAX_SPEED: i64 = 200;

/// The per-tick running acceleration.
pub const ACCELERATION: i64 = 50;

/// The vertical speed a jump sets.
pub const JUMP_SPEED: i64 = 250;

/// What one movement decision does to a velocity: a jump from the ground
/// overrides everything; a fall request caps upward motion; otherwise a held
/// direction accelerates unless a wall stands in the way; the horizontal
/// speed is then clamped.
pub open spec fn spec_move_player(
    v: Velocity,
    jump_just_pressed: bool,
    fall_just_pressed: bool,
    left_pressed: bool,
    right_pressed: bool,
    grounded: bool,
    wall_left: bool,
    wall_right: bool,
) -> Velocity {
    let stepped = if jump_just_pressed && grounded {
        Velocity { x: v.x, y: JUMP_SPEED as i64 }
    } else if fall_just_pressed {
        Velocity { x: v.x, y: if v.y <= 0 { v.y } else { 0i64 } }
    } else if left_pressed {
        if !wall_left {
            Velocity { x: (v.x - ACCELERATION) as i64, y: v.y }
        } else {
            v
        }
    } else if right_pressed {
        if !wall_right {
            Velocity { x: (v.x + ACCELERATION) as i64, y: v.y }
        } else {
            v
        }
    } else {
        v
    };
    Velocity {
        x: if stepped.x < -MAX_SPEED {
            -MAX_SPEED as i64
        } else if stepped.x > MAX_SPEED {
            MAX_SPEED as i64
        } else {
            stepped.x
        },
        y: stepped.y,
    }
}

/// Applies one movement decision. `wall_left` and `wall_right` carry the
/// physics engine's answer to the wall raycast on that side.
pub fn move_player(
    velocity: &mut Velocity,
    jump_just_pressed: bool,
    fall_just_pressed: bool,
    left_pressed: bool,
    right_pressed: bool,
    grounded: bool,
    wall_left: bool,
    wall_right: bool,
)
    requires
        i64::MIN + ACCELERATION < old(velocity).x < i64::MAX - ACCELERATION,
    ensures
        *final(velocity) == spec_move_player(
            *old(velocity),
            jump_just_pressed,
            fall_just_pressed,
            left_pressed,
            right_pressed,
            grounded,
            wall_left,
            wall_right,
        ),
{
    if jump_just_pressed && grounded {
        velocity.y = JUMP_SPEED;
    } else if fall_just_pressed {
        if velocity.y > 0 {
            velocity.y = 0;
        }
    } else if left_pressed {
        if !wall_left {
            velocity.x = velocity.x - ACCELERATION;
        }
    } else if right_pressed {
        if !wall_right {
            velocity.x = velocity.x + ACCELERATION;
        }
    }
    if velocity.x < -MAX_SPEED {
        velocity.x = -MAX_SPEED;
    } else if velocity.x > MAX_SPEED {
        velocity.x = MAX_SPEED;
    }
}

/// What one double-jump decision does: regaining ground recharges the jump;
/// then, if the player is moving vertically and asks to jump while charged,
/// the charge is spent on a second jump.
pub open spec fn spec_dubble_jump(
    jump: Jump,
    v: Velocity,
    regained_ground: bool,
    jump_just_pressed: bool,
) -> (Jump, Velocity) {
    let charged = if regained_ground {
        Jump(true)
    } else {
        jump
    };
    if v.y != 0 && jump_just_pressed && charged.0 {
        (Jump(false), Velocity { x: v.x, y: JUMP_SPEED as i64 })
    } else {
        (charged, v)
    }
}

/// Applies one double-jump decision. `regained_ground` says whether the
/// grounded flag flipped to true this tick.
pub fn dubble_jump(
    jump: &mut Jump,
    velocity: &mut Velocity,
    regained_ground: bool,
    jump_just_pressed: bool,
)
    ensures
        (*final(jump), *final(velocity)) == spec_dubble_jump(
            *old(jump),
            *old(velocity),
            regained_ground,
            jump_just_pressed,
        ),
{
    if regained_ground {
        jump.0 = true;
    }
    if velocity.y != 0 && jump_just_pressed && jump.0 {
        jump.0 = false;
        velocity.y = JUMP_SPEED;
    }
}

/// What one grounded-detector step does: a still height grows the streak, a
/// moving one shrinks it, the streak is clamped to the window, and the
/// grounded flag flips on at a full window and off when the streak falls
/// under two.
pub open spec fn spec_ground_detection(
    check: GroundedCheck,
    grounded: Grounded,
    y_sample: i64,
) -> (GroundedCheck, Grounded) {
    let moved = if y_sample == check.last_y {
        check.streak + 1
    } else {
        check.streak - 1
    };
    let clamped = if moved < 0 {
        0
    } else if moved > 5 {
        5
    } else {
        moved
    };
    let on_ground = if clamped == 5 && !grounded.0 {
        Grounded(true)
    } else if clamped < 2 && grounded.0 {
        Grounded(false)
    } else {
        grounded
    };
    (GroundedCheck { last_y: y_sample, streak: clamped as i64 }, on_ground)
}

/// Applies one grounded-detector step to a sampled height.
pub fn ground_detection(check: &mut GroundedCheck, grounded: &mut Grounded, y_sample: i64)
    requires
        old(check).wf(),
    ensures
        (*final(check), *final(grounded)) == spec_ground_detection(
            *old(check),
            *old(grounded),
            y_sample,
        ),
        final(check).wf(),
{
    if y_sample == check.last_y {
        check.streak = check.streak + 1;
    } else {
        check.streak = check.streak - 1;
    }
    if check.streak < 0 {
        check.streak = 0;
    } else if check.streak > 5 {
        check.streak = 5;
    }
    if check.streak == 5 && !grounded.0 {
        grounded.0 = true;
    } else if check.streak < 2 && grounded.0 {
        grounded.0 = false;
    }
    check.last_y = y_sample;
}

/// The character after one switch in cycle order.
pub open spec fn spec_next_character(p: Player) -> Player {
    match p {
        Player::Mask => Player::Ninja,
        Player::Ninja => Player::Pink,
        Player::Pink => Player::Guy,
        Player::Guy => Player::Mask,
    }
}

/// Switches the active character when either switch action fired; both
/// actions step the same cycle.
pub fn change_player(player: &mut Player, next_pressed: bool, prev_pressed: bool)
    ensures
        (next_pressed || prev_pressed) ==> *final(player) == spec_next_character(*old(player)),
        !(next_pressed || prev_pressed) ==> *final(player) == *old(player),
{
    if next_pressed || prev_pressed {
        let next = match *player {
            Player::Mask => Player::Ninja,
            Player::Ninja => Player::Pink,
            Player::Pink => Player::Guy,
            Player::Guy => Player::Mask,
        };
        *player = next;
    }
}

} // verus!
