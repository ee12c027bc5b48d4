//! Character controller: one actor's bounding box, velocity and contact
//! state, advanced one fixed tick at a time against a collision grid.
//!
//! Per tick the controller applies input-driven horizontal acceleration (or
//! ground friction when idle), an edge-triggered jump that is only legal from
//! the grounded state, unconditional gravity clamped at a terminal fall
//! speed, and then hands positional resolution to the grid. Contact flags are
//! recomputed from scratch from the resolver's answer, velocities into
//! blocked sides are zeroed, and `grounded` is derived exclusively from the
//! down-contact flag of this tick.
//!
//! Units: velocities and the configuration are subunits per second (see
//! [`crate::collision::SUBUNITS_PER_UNIT`]); the time slice is clock units
//! (see [`crate::time::UNITS_PER_SECOND`]); horizontal intent is thousandths
//! of full deflection, in `[-MOVE_X_ONE, MOVE_X_ONE]`.

use vstd::prelude::*;
use crate::collision::{
    Aabb,
    CollisionGrid,
    CollisionMoveResult,
    move_and_collide_spec,
    SUBUNITS_PER_UNIT,
    POS_LIMIT,
};
use crate::num::{floor_div, move_towards, move_towards_spec, max_i, lemma_mul_bounds};
use crate::time::UNITS_PER_SECOND;
use vstd::arithmetic::div_mod::{lemma_div_is_ordered, lemma_div_multiples_vanish};

verus! {

/// Full deflection of the horizontal intent axis, in thousandths.
pub const MOVE_X_ONE: i32 = 1000;

/// Bound on velocities and configuration magnitudes, in subunits per second.
pub const VEL_LIMIT: i64 = 0x100_0000_0000;

/// One tick's intent: horizontal deflection in thousandths and whether the
/// jump control was pressed this tick.
#[derive(Debug, Clone, Copy, PartialEq, Eq, Structural)]
pub struct ControllerInput {
    pub move_x: i32,
    pub jump_pressed: bool,
}

/// Movement tunables, in subunits per second (speeds) and subunits per
/// second squared (accelerations). Gravity and the terminal fall speed are
/// non-positive; everything else is non-negative.
#[derive(Debug, Clone, Copy, PartialEq, Eq, Structural)]
pub struct ControllerConfig {
    pub max_speed: i64,
    pub accel_ground: i64,
    pub accel_air: i64,
    pub friction_ground: i64,
    pub gravity: i64,
    pub max_fall_speed: i64,
    pub jump_speed: i64,
}

impl ControllerConfig {
    /// Sign conventions and magnitude bounds the stepping arithmetic needs.
    pub open spec fn ok(self) -> bool {
        &&& 0 <= self.max_speed <= VEL_LIMIT
        &&& 0 <= self.accel_ground <= VEL_LIMIT
        &&& 0 <= self.accel_air <= VEL_LIMIT
        &&& 0 <= self.friction_ground <= VEL_LIMIT
        &&& -VEL_LIMIT <= self.gravity <= 0
        &&& -VEL_LIMIT <= self.max_fall_speed <= 0
        &&& 0 <= self.jump_speed <= VEL_LIMIT
    }
}

impl Default for ControllerConfig {
    /// The engine's stock platformer feel: 180 u/s top speed, strong ground
    /// acceleration and friction, lighter air control, gravity with a 900 u/s
    /// terminal fall speed and a 620 u/s jump.
    fn default() -> (r: Self)
        ensures
            r.max_speed == 180 * SUBUNITS_PER_UNIT,
            r.accel_ground == 1600 * SUBUNITS_PER_UNIT,
            r.accel_air == 900 * SUBUNITS_PER_UNIT,
            r.friction_ground == 2000 * SUBUNITS_PER_UNIT,
            r.gravity == -1800 * SUBUNITS_PER_UNIT,
            r.max_fall_speed == -900 * SUBUNITS_PER_UNIT,
            r.jump_speed == 620 * SUBUNITS_PER_UNIT,
            r.ok(),
    {
        ControllerConfig {
            max_speed: 180 * SUBUNITS_PER_UNIT,
            accel_ground: 1600 * SUBUNITS_PER_UNIT,
            accel_air: 900 * SUBUNITS_PER_UNIT,
            friction_ground: 2000 * SUBUNITS_PER_UNIT,
            gravity: -1800 * SUBUNITS_PER_UNIT,
            max_fall_speed: -900 * SUBUNITS_PER_UNIT,
            jump_speed: 620 * SUBUNITS_PER_UNIT,
        }
    }
}

/// Which of the four cardinal sides were blocked by resolution this tick.
#[derive(Debug, Clone, Copy, PartialEq, Eq, Structural)]
pub struct ContactState {
    pub left: bool,
    pub right: bool,
    pub down: bool,
    pub up: bool,
}

impl Default for ContactState {
    /// No contacts.
    fn default() -> (r: Self)
        ensures
            r == (ContactState { left: false, right: false, down: false, up: false }),
    {
        ContactState { left: false, right: false, down: false, up: false }
    }
}

/// One actor's simulation state.
#[derive(Debug, Clone, Copy, PartialEq, Eq, Structural)]
pub struct CharacterController {
    pub aabb: Aabb,
    pub velocity_x: i64,
    pub velocity_y: i64,
    pub grounded: bool,
    pub contacts: ContactState,
    pub config: ControllerConfig,
}

/// Velocity scaled by a time slice: subunits per second times clock units,
/// divided (flooring) by clock units per second, giving subunits.
pub open spec fn scaled(v: int, dt: int) -> int {
    v * dt / (UNITS_PER_SECOND as int)
}

/// The acceleration rate that applies this tick: ground or air.
pub open spec fn accel_for(c: CharacterController) -> int {
    if c.grounded {
        c.config.accel_ground as int
    } else {
        c.config.accel_air as int
    }
}

/// Horizontal velocity after the input phase: accelerate toward the intent's
/// target speed, or apply ground friction toward zero when idle and
/// grounded; airborne with no input leaves the velocity unchanged.
pub open spec fn vx_after_input(c: CharacterController, move_x: int, dt: int) -> int {
    if move_x != 0 {
        move_towards_spec(
            c.velocity_x as int,
            move_x * c.config.max_speed / (MOVE_X_ONE as int),
            scaled(accel_for(c), dt),
        )
    } else if c.grounded {
        move_towards_spec(c.velocity_x as int, 0, scaled(c.config.friction_ground as int, dt))
    } else {
        c.velocity_x as int
    }
}

/// Whether the jump triggers this tick: edge-triggered and only legal from
/// the grounded state.
pub open spec fn jump_fires(c: CharacterController, jump_pressed: bool) -> bool {
    jump_pressed && c.grounded
}

/// Vertical velocity after the jump phase.
pub open spec fn vy_after_jump(c: CharacterController, jump_pressed: bool) -> int {
    if jump_fires(c, jump_pressed) {
        c.config.jump_speed as int
    } else {
        c.velocity_y as int
    }
}

/// Vertical velocity after gravity, clamped at the terminal fall speed.
/// Gravity applies unconditionally every tick; while grounded it is harmless
/// because the resolver re-clamps against the floor.
pub open spec fn vy_after_gravity(c: CharacterController, jump_pressed: bool, dt: int) -> int {
    max_i(
        vy_after_jump(c, jump_pressed) + scaled(c.config.gravity as int, dt),
        c.config.max_fall_speed as int,
    )
}

/// The whole tick as a function of the prior state, the input, the time
/// slice and the grid: velocity phases, grid resolution, then contact
/// application exactly as `CharacterController::step` performs them.
pub open spec fn step_spec(
    c: CharacterController,
    input: ControllerInput,
    dt: int,
    g: CollisionGrid,
) -> CharacterController {
    let vx = vx_after_input(c, input.move_x as int, dt);
    let vy = vy_after_gravity(c, input.jump_pressed, dt);
    let res = move_and_collide_spec(g, c.aabb, scaled(vx, dt), scaled(vy, dt));
    let vx2 = if (res.blocked_left && vx < 0) || (res.blocked_right && vx > 0) {
        0
    } else {
        vx
    };
    let vy_up = if res.blocked_up && vy > 0 {
        0
    } else {
        vy
    };
    let vy2 = if res.blocked_down && vy < 0 {
        0
    } else if res.collided_y {
        0
    } else {
        vy_up
    };
    let grounded2 = res.blocked_down && vy < 0;
    CharacterController {
        aabb: res.aabb,
        velocity_x: vx2 as i64,
        velocity_y: vy2 as i64,
        grounded: grounded2,
        contacts: ContactState {
            left: res.blocked_left,
            right: res.blocked_right,
            down: res.blocked_down,
            up: res.blocked_up,
        },
        config: c.config,
    }
}

impl CharacterController {
    /// State the stepping arithmetic keeps within range: a sane box, bounded
    /// velocities and a sign-correct configuration.
    pub open spec fn ok(self) -> bool {
        &&& self.aabb.ok()
        &&& -POS_LIMIT <= self.aabb.center_x <= POS_LIMIT
        &&& -POS_LIMIT <= self.aabb.center_y <= POS_LIMIT
        &&& -VEL_LIMIT <= self.velocity_x <= VEL_LIMIT
        &&& -VEL_LIMIT <= self.velocity_y <= VEL_LIMIT
        &&& self.config.ok()
    }

    /// A fresh actor at `aabb`: at rest, airborne, no contacts, stock
    /// configuration.
    pub fn new(aabb: Aabb) -> (r: CharacterController)
        ensures
            r.aabb == aabb,
            r.velocity_x == 0,
            r.velocity_y == 0,
            !r.grounded,
            r.contacts == (ContactState { left: false, right: false, down: false, up: false }),
            r.config.ok(),
            r.config.max_speed == 180 * SUBUNITS_PER_UNIT,
            r.config.accel_ground == 1600 * SUBUNITS_PER_UNIT,
            r.config.accel_air == 900 * SUBUNITS_PER_UNIT,
            r.config.friction_ground == 2000 * SUBUNITS_PER_UNIT,
            r.config.gravity == -1800 * SUBUNITS_PER_UNIT,
            r.config.max_fall_speed == -900 * SUBUNITS_PER_UNIT,
            r.config.jump_speed == 620 * SUBUNITS_PER_UNIT,
            (aabb.ok() && -POS_LIMIT <= aabb.center_x <= POS_LIMIT && -POS_LIMIT <= aabb.center_y
                <= POS_LIMIT ==> r.ok()),
    {
        CharacterController {
            aabb,
            velocity_x: 0,
            velocity_y: 0,
            grounded: false,
            contacts: ContactState::default(),
            config: ControllerConfig::default(),
        }
    }

    /// Advance one fixed tick: horizontal control, jump, gravity, grid
    /// resolution, contact application. The whole effect is pinned by
    /// [`step_spec`].
    pub fn step(&mut self, input: ControllerInput, dt: u64, collision_grid: &CollisionGrid)
        requires
            old(self).ok(),
            collision_grid.ok(),
            -MOVE_X_ONE <= input.move_x <= MOVE_X_ONE,
            0 < dt <= UNITS_PER_SECOND,
        ensures
            *final(self) == step_spec(*old(self), input, dt as int, *collision_grid),
    {
        let dti = dt as i64;
        let ups = UNITS_PER_SECOND as i64;

        let accel = if self.grounded {
            self.config.accel_ground
        } else {
            self.config.accel_air
        };

        if input.move_x != 0 {
            proof {
                lemma_mul_bounds(input.move_x as int, self.config.max_speed as int,
                    MOVE_X_ONE as int, VEL_LIMIT as int);
                assert(MOVE_X_ONE as int * VEL_LIMIT as int == VEL_LIMIT as int * MOVE_X_ONE as int)
                    by (nonlinear_arith);
                lemma_scale_in_range(input.move_x as int * self.config.max_speed as int,
                    MOVE_X_ONE as int, VEL_LIMIT as int);
                lemma_mul_bounds(accel as int, dti as int, VEL_LIMIT as int, ups as int);
                lemma_scale_in_range(accel as int * dti as int, ups as int, VEL_LIMIT as int);
            }
            let target = floor_div(input.move_x as i64 * self.config.max_speed, MOVE_X_ONE as i64);
            let max_delta = floor_div(accel * dti, ups);
            self.velocity_x = move_towards(self.velocity_x, target, max_delta);
        } else if self.grounded {
            proof {
                lemma_mul_bounds(self.config.friction_ground as int, dti as int, VEL_LIMIT as int,
                    ups as int);
                lemma_scale_in_range(self.config.friction_ground as int * dti as int, ups as int,
                    VEL_LIMIT as int);
            }
            let max_delta = floor_div(self.config.friction_ground * dti, ups);
            self.velocity_x = move_towards(self.velocity_x, 0, max_delta);
        }

        if input.jump_pressed && self.grounded {
            self.velocity_y = self.config.jump_speed;
            self.grounded = false;
        }

        proof {
            lemma_mul_bounds(self.config.gravity as int, dti as int, VEL_LIMIT as int, ups as int);
            lemma_scale_in_range(self.config.gravity as int * dti as int, ups as int,
                VEL_LIMIT as int);
        }
        let gravity_step = floor_div(self.config.gravity * dti, ups);
        let mut vy = self.velocity_y + gravity_step;
        if vy < self.config.max_fall_speed {
            vy = self.config.max_fall_speed;
        }
        self.velocity_y = vy;

        proof {
            lemma_mul_bounds(self.velocity_x as int, dti as int, VEL_LIMIT as int, ups as int);
            lemma_scale_in_range(self.velocity_x as int * dti as int, ups as int, VEL_LIMIT as int);
            lemma_mul_bounds(self.velocity_y as int, dti as int, 2 * VEL_LIMIT as int, ups as int);
            lemma_scale_in_range(self.velocity_y as int * dti as int, ups as int,
                2 * VEL_LIMIT as int);
        }
        let dx = floor_div(self.velocity_x * dti, ups);
        let dy = floor_div(self.velocity_y * dti, ups);
        let result = collision_grid.move_and_collide_detailed(self.aabb, dx, dy);
        self.apply_collision_result(result);
    }

    /// Copy the resolver's answer into the actor: adopt the resolved box,
    /// rebuild the contact flags from scratch, zero velocity into blocked
    /// sides, and derive `grounded` solely from this tick's down contact.
    fn apply_collision_result(&mut self, result: CollisionMoveResult)
        ensures
            final(self).aabb == result.aabb,
            final(self).contacts == (ContactState {
                left: result.blocked_left,
                right: result.blocked_right,
                down: result.blocked_down,
                up: result.blocked_up,
            }),
            final(self).velocity_x == if (result.blocked_left && old(self).velocity_x < 0)
                || (result.blocked_right && old(self).velocity_x > 0) {
                0
            } else {
                old(self).velocity_x
            },
            final(self).velocity_y == {
                let vy_up = if result.blocked_up && old(self).velocity_y > 0 {
                    0
                } else {
                    old(self).velocity_y
                };
                if result.blocked_down && old(self).velocity_y < 0 {
                    0
                } else if result.collided_y {
                    0
                } else {
                    vy_up
                }
            },
            final(self).grounded == (result.blocked_down && old(self).velocity_y < 0),
            final(self).config == old(self).config,
    {
        self.aabb = result.aabb;
        self.contacts = ContactState {
            left: result.blocked_left,
            right: result.blocked_right,
            down: result.blocked_down,
            up: result.blocked_up,
        };

        if (result.blocked_left && self.velocity_x < 0) || (result.blocked_right && self.velocity_x
            > 0) {
            self.velocity_x = 0;
        }

        if result.blocked_up && self.velocity_y > 0 {
            self.velocity_y = 0;
        }
        if result.blocked_down && self.velocity_y < 0 {
            self.velocity_y = 0;
            self.grounded = true;
        } else if result.collided_y {
            self.velocity_y = 0;
            self.grounded = false;
        } else {
            self.grounded = false;
        }
    }

    /// Whether a blocking collision occurred directly below this tick.
    pub fn is_grounded(&self) -> (r: bool)
        ensures
            r == self.grounded,
    {
        self.grounded
    }

    /// Whether the left side was blocked this tick.
    pub fn is_blocked_left(&self) -> (r: bool)
        ensures
            r == self.contacts.left,
    {
        self.contacts.left
    }

    /// Whether the right side was blocked this tick.
    pub fn is_blocked_right(&self) -> (r: bool)
        ensures
            r == self.contacts.right,
    {
        self.contacts.right
    }

    /// Whether the top side was blocked this tick.
    pub fn is_blocked_up(&self) -> (r: bool)
        ensures
            r == self.contacts.up,
    {
        self.contacts.up
    }

    /// Whether the bottom side was blocked this tick.
    pub fn is_blocked_down(&self) -> (r: bool)
        ensures
            r == self.contacts.down,
    {
        self.contacts.down
    }
}

/// A whole input sequence folded through `step_spec`, one tick per entry.
pub open spec fn run_spec(
    c: CharacterController,
    inputs: Seq<ControllerInput>,
    dt: int,
    g: CollisionGrid,
) -> CharacterController
    decreases inputs.len(),
{
    if inputs.len() == 0 {
        c
    } else {
        run_spec(step_spec(c, inputs[0], dt, g), inputs.subrange(1, inputs.len() as int), dt, g)
    }
}

/// Law: stepping is deterministic. The next state is a pure function of the
/// prior state, the tick's input, the time slice and the grid, so two
/// controllers that start equal and receive the same input sequence against
/// the same grid end in exactly equal states — position, velocity, contacts
/// and grounded flag alike.
pub proof fn lemma_run_deterministic(
    a: CharacterController,
    b: CharacterController,
    inputs: Seq<ControllerInput>,
    dt: int,
    g: CollisionGrid,
)
    requires
        a == b,
    ensures
        run_spec(a, inputs, dt, g) == run_spec(b, inputs, dt, g),
{
}

/// Law: jumping is only legal from the grounded state. For an airborne
/// controller a tick with the jump control pressed is indistinguishable from
/// the same tick without it: the press contributes nothing.
pub proof fn lemma_jump_requires_grounded(
    c: CharacterController,
    input: ControllerInput,
    dt: int,
    g: CollisionGrid,
)
    requires
        !c.grounded,
    ensures
        step_spec(c, input, dt, g) == step_spec(
            c,
            ControllerInput { move_x: input.move_x, jump_pressed: false },
            dt,
            g,
        ),
{
}

/// Law: an airborne controller that is not rising cannot gain upward
/// velocity from a jump press; gravity and contact zeroing keep the vertical
/// velocity at or below zero.
pub proof fn lemma_airborne_jump_no_lift(
    c: CharacterController,
    input: ControllerInput,
    dt: int,
    g: CollisionGrid,
)
    requires
        !c.grounded,
        c.velocity_y <= 0,
        c.config.ok(),
        0 < dt <= UNITS_PER_SECOND,
    ensures
        step_spec(c, input, dt, g).velocity_y <= 0,
{
    let gstep = scaled(c.config.gravity as int, dt);
    assert(c.config.gravity as int * dt <= 0) by (nonlinear_arith)
        requires
            c.config.gravity <= 0,
            dt > 0,
    ;
    crate::num::lemma_div_between(c.config.gravity as int * dt, UNITS_PER_SECOND as int);
    assert(gstep <= 0);
    assert(vy_after_gravity(c, input.jump_pressed, dt) <= 0);
}

/// Dividing a product bounded by `b * m` by `b` lands within `[-m, m]`.
pub proof fn lemma_scale_in_range(a: int, b: int, m: int)
    requires
        b >= 1,
        m >= 0,
        -(m * b) <= a <= m * b,
    ensures
        -m <= a / b <= m,
{
    lemma_div_is_ordered(a, m * b, b);
    lemma_div_is_ordered(-(m * b), a, b);
    lemma_div_multiples_vanish(m, b);
    lemma_div_multiples_vanish(-m, b);
    assert(b * m == m * b) by (nonlinear_arith);
    assert(b * (-m) == -(m * b)) by (nonlinear_arith);
}

} // verus!
