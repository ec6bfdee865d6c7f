//! Saturating integer kinematics: how a velocity moves a coordinate and how
//! drag wears a velocity down, without ever overflowing.
use vstd::prelude::*;

verus! {

/// Drag felt per unit of mass on every tick.
pub const MASS_DRAG: u32 = 1;

/// Largest mass magnitude; drag never exceeds the `i32` maximum.
pub const MASS_MAX: u32 = 2147483647;

/// The largest coordinate or velocity.
pub const I32MAX: i32 = 2147483647;

/// The smallest coordinate or velocity.
pub const I32MIN: i32 = -2147483648;

/// `v` clamped into the range of `i32`.
pub open spec fn saturate(v: int) -> int {
    if v > i32::MAX {
        i32::MAX as int
    } else if v < i32::MIN {
        i32::MIN as int
    } else {
        v
    }
}

/// A coordinate after one step of `vel`, saturating at the bounds of `i32`.
pub open spec fn moved(coord: i32, vel: i32) -> i32 {
    saturate(coord + vel) as i32
}

/// Drag magnitude of a mass: `mass * MASS_DRAG`, capped at the `i32` maximum.
pub open spec fn drag_of(mass: u32) -> int {
    if mass * MASS_DRAG > i32::MAX {
        i32::MAX as int
    } else {
        mass * MASS_DRAG
    }
}

/// A velocity after a drag of magnitude `drag` has opposed it: its magnitude
/// shrinks by `drag`, and stops at zero rather than change direction.
pub open spec fn dragged(vel: i32, drag: int) -> i32 {
    if vel > 0 {
        if vel - drag > 0 { (vel - drag) as i32 } else { 0 }
    } else if vel < 0 {
        if vel + drag < 0 { (vel + drag) as i32 } else { 0 }
    } else {
        0
    }
}

/// Magnitude of an integer.
pub open spec fn magnitude(v: int) -> nat {
    if v < 0 { (-v) as nat } else { v as nat }
}

/// Moves `coord` by `vel`, clamping to `I32MAX` or `I32MIN` instead of wrapping.
pub fn apply_velocity(coord: &mut i32, vel: i32)
    ensures
        *final(coord) == moved(*old(coord), vel),
{
    *coord = match coord.checked_add(vel) {
        Some(c) => c,
        None => if vel >= 0 { I32MAX } else { I32MIN },
    };
}

/// Lets the drag of `mass` oppose `vel` for one tick.
pub fn apply_drag(vel: &mut i32, mass: u32)
    ensures
        *final(vel) == dragged(*old(vel), drag_of(mass)),
        magnitude(*final(vel) as int) <= magnitude(*old(vel) as int),
{
    let drag: i32 = if mass > MASS_MAX {
        I32MAX
    } else {
        (mass as i32).checked_mul(MASS_DRAG as i32).unwrap_or(I32MAX)
    };
    assert(drag == drag_of(mass));
    if *vel > 0 {
        let rest = *vel - drag;
        *vel = if rest > 0 { rest } else { 0 };
    } else if *vel < 0 {
        let rest = *vel + drag;
        *vel = if rest < 0 { rest } else { 0 };
    }
}

} // verus!
