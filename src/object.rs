//! Rectangular bodies: their boxes, the overlap test between two of them, and
//! how one of them moves over a tick.
use vstd::prelude::*;
use crate::motion::{apply_drag, apply_velocity, drag_of, dragged, magnitude, moved};

verus! {

/// A closed interval `(low, high)` on one axis. Held in `i64` so that
/// `coordinate + extent` always fits.
pub type Line = (i64, i64);

/// The projections of an object's box on the two axes.
pub struct CollisionLines {
    pub x_line: Line,
    pub y_line: Line,
}

#[derive(Clone, Copy, PartialEq, Eq, Debug, Structural)]
pub struct Coords {
    pub x: i32,
    pub y: i32,
}

#[derive(Clone, Copy, PartialEq, Eq, Debug, Structural)]
pub struct Velocity {
    pub x: i32,
    pub y: i32,
}

/// Rigid bodies are only moved from outside; fluid ones carry a velocity.
#[derive(Clone, Copy, PartialEq, Eq, Debug, Structural)]
pub enum Movement {
    Fluid { velocity: Velocity },
    Rigid,
}

/// Massful bodies feel drag in proportion to their mass; massless ones do not.
#[derive(Clone, Copy, PartialEq, Eq, Debug, Structural)]
pub enum Mass {
    Massful(u32),
    Massless,
}

/// An axis-aligned box spanning `coords.x ..= coords.x + width` and
/// `coords.y ..= coords.y + height`.
#[derive(Clone, Copy, PartialEq, Eq, Debug, Structural)]
pub struct Object {
    pub width: i32,
    pub height: i32,
    pub coords: Coords,
    pub movement: Movement,
    pub mass: Mass,
    pub is_collidable: bool,
    pub is_rigid: bool,
}

/// Two closed intervals meet, touching ends included.
pub open spec fn intervals_meet(a: (int, int), b: (int, int)) -> bool {
    a.0 <= b.1 && a.1 >= b.0
}

/// Two objects whose boxes meet on both axes.
pub open spec fn boxes_meet(a: Object, b: Object) -> bool {
    intervals_meet(a.x_interval(), b.x_interval()) && intervals_meet(a.y_interval(), b.y_interval())
}

/// An object after `n` ticks of integration.
pub open spec fn after_ticks(o: Object, n: nat) -> Object
    decreases n,
{
    if n == 0 {
        o
    } else {
        after_ticks(o, (n - 1) as nat).stepped()
    }
}

impl Object {
    pub open spec fn x_interval(self) -> (int, int) {
        (self.coords.x as int, self.coords.x + self.width)
    }

    pub open spec fn y_interval(self) -> (int, int) {
        (self.coords.y as int, self.coords.y + self.height)
    }

    /// The velocity the object carries; a rigid body stands still.
    pub open spec fn velocity(self) -> Velocity {
        match self.movement {
            Movement::Fluid { velocity } => velocity,
            Movement::Rigid => Velocity { x: 0, y: 0 },
        }
    }

    /// The drag magnitude the object feels on each axis every tick.
    pub open spec fn drag(self) -> int {
        match self.mass {
            Mass::Massful(m) => drag_of(m),
            Mass::Massless => 0,
        }
    }

    /// The object after one tick of integration: a rigid or resting body stays
    /// as it is; otherwise its position advances by the velocity it had at the
    /// start of the tick, and then drag acts on each axis of that velocity.
    pub open spec fn stepped(self) -> Object {
        match self.movement {
            Movement::Rigid => self,
            Movement::Fluid { velocity } => {
                if velocity.x == 0 && velocity.y == 0 {
                    self
                } else {
                    Object {
                        coords: Coords {
                            x: moved(self.coords.x, velocity.x),
                            y: moved(self.coords.y, velocity.y),
                        },
                        movement: Movement::Fluid {
                            velocity: Velocity {
                                x: dragged(velocity.x, self.drag()),
                                y: dragged(velocity.y, self.drag()),
                            },
                        },
                        ..self
                    }
                }
            },
        }
    }

    /// A rigid, massless, collidable wall of the given size at `(x, y)`.
    pub fn new_wall(width: i32, height: i32, x: i32, y: i32) -> (r: Self)
        ensures
            r.width == width,
            r.height == height,
            r.coords == (Coords { x, y }),
            r.movement == Movement::Rigid,
            r.mass == Mass::Massless,
            r.is_collidable,
            r.is_rigid,
    {
        Object {
            height: height,
            width: width,
            coords: Coords { x: x, y: y },
            movement: Movement::Rigid,
            mass: Mass::Massless,
            is_collidable: true,
            is_rigid: true,
        }
    }

    /// Whether the boxes of the two objects meet on both axes.
    pub fn detect_collision(&self, other: &Self) -> (r: bool)
        ensures
            r == boxes_meet(*self, *other),
    {
        let self_bounds = self.bounds();
        let other_bounds = other.bounds();
        Self::line_collision(self_bounds.x_line, other_bounds.x_line)
            && Self::line_collision(self_bounds.y_line, other_bounds.y_line)
    }

    /// Whether two closed intervals meet, touching ends included.
    pub fn line_collision(line_1: Line, line_2: Line) -> (r: bool)
        ensures
            r == intervals_meet((line_1.0 as int, line_1.1 as int), (line_2.0 as int, line_2.1 as int)),
    {
        line_1.0 <= line_2.1 && line_1.1 >= line_2.0
    }

    /// The projections of the object's box on both axes.
    pub fn bounds(&self) -> (r: CollisionLines)
        ensures
            r.x_line.0 == self.x_interval().0,
            r.x_line.1 == self.x_interval().1,
            r.y_line.0 == self.y_interval().0,
            r.y_line.1 == self.y_interval().1,
    {
        CollisionLines {
            x_line: (self.coords.x as i64, self.coords.x as i64 + self.width as i64),
            y_line: (self.coords.y as i64, self.coords.y as i64 + self.height as i64),
        }
    }

    /// Reacts to touching `other`. No reaction is defined yet, so the object
    /// is left as it is.
    pub fn collide(&mut self, _other: &Self)
        ensures
            *final(self) == *old(self),
    {
    }

    /// Integrates the object over one tick.
    pub fn update_physics(&mut self)
        ensures
            *final(self) == old(self).stepped(),
    {
        let velocity = match self.movement {
            Movement::Rigid => return,
            Movement::Fluid { velocity } => velocity,
        };
        if velocity.x == 0 && velocity.y == 0 {
            return;
        }
        let mut x = self.coords.x;
        let mut y = self.coords.y;
        apply_velocity(&mut x, velocity.x);
        apply_velocity(&mut y, velocity.y);
        self.coords = Coords { x, y };

        let mass: u32 = match self.mass {
            Mass::Massful(mass) => mass,
            Mass::Massless => 0,
        };
        let mut x_vel = velocity.x;
        let mut y_vel = velocity.y;
        apply_drag(&mut x_vel, mass);
        apply_drag(&mut y_vel, mass);
        self.movement = Movement::Fluid { velocity: Velocity { x: x_vel, y: y_vel } };
    }
}

/// A fluid object at rest stays exactly where and as it is, however many
/// ticks pass.
pub proof fn lemma_rest_is_kept(o: Object, n: nat)
    requires
        o.movement == (Movement::Fluid { velocity: Velocity { x: 0, y: 0 } }),
    ensures
        after_ticks(o, n) == o,
    decreases n,
{
    if n > 0 {
        lemma_rest_is_kept(o, (n - 1) as nat);
    }
}

/// A fluid object at the largest `x` that moves towards larger `x` stays at
/// the largest `x` instead of wrapping around.
pub proof fn lemma_x_saturates_at_max(o: Object)
    requires
        o.movement is Fluid,
        o.velocity().x > 0,
        o.coords.x == i32::MAX,
    ensures
        o.stepped().coords.x == i32::MAX,
{
}

/// A fluid object at the smallest `x` that moves towards smaller `x` stays at
/// the smallest `x` instead of wrapping around.
pub proof fn lemma_x_saturates_at_min(o: Object)
    requires
        o.movement is Fluid,
        o.velocity().x < 0,
        o.coords.x == i32::MIN,
    ensures
        o.stepped().coords.x == i32::MIN,
{
}

/// On a massful object, one tick of drag strictly shrinks the speed on each
/// axis that moves, never turns it around, and leaves a still axis still.
pub proof fn lemma_drag_shrinks(o: Object)
    requires
        o.movement is Fluid,
        o.mass matches Mass::Massful(m) && m > 0,
    ensures
        o.stepped().movement is Fluid,
        o.stepped().mass == o.mass,
        o.velocity().x != 0 ==> magnitude(o.stepped().velocity().x as int) < magnitude(
            o.velocity().x as int,
        ),
        o.velocity().y != 0 ==> magnitude(o.stepped().velocity().y as int) < magnitude(
            o.velocity().y as int,
        ),
        o.velocity().x == 0 ==> o.stepped().velocity().x == 0,
        o.velocity().y == 0 ==> o.stepped().velocity().y == 0,
        o.velocity().x >= 0 ==> o.stepped().velocity().x >= 0,
        o.velocity().x <= 0 ==> o.stepped().velocity().x <= 0,
        o.velocity().y >= 0 ==> o.stepped().velocity().y >= 0,
        o.velocity().y <= 0 ==> o.stepped().velocity().y <= 0,
{
    assert(o.drag() >= 1);
}

/// The speed left on each axis after `k` ticks of drag on a massful object:
/// it has lost at least one unit per tick, down to zero.
proof fn lemma_speed_bound(o: Object, k: nat)
    requires
        o.movement is Fluid,
        o.mass matches Mass::Massful(m) && m > 0,
    ensures
        after_ticks(o, k).movement is Fluid,
        after_ticks(o, k).mass == o.mass,
        magnitude(after_ticks(o, k).velocity().x as int) + k <= magnitude(o.velocity().x as int)
            || after_ticks(o, k).velocity().x == 0,
        magnitude(after_ticks(o, k).velocity().y as int) + k <= magnitude(o.velocity().y as int)
            || after_ticks(o, k).velocity().y == 0,
    decreases k,
{
    if k > 0 {
        let prev = after_ticks(o, (k - 1) as nat);
        lemma_speed_bound(o, (k - 1) as nat);
        lemma_drag_shrinks(prev);
    }
}

/// Drag brings a massful fluid object to rest on both axes at the latest
/// after as many ticks as its larger speed, and it stays at rest after that.
pub proof fn lemma_drag_stops(o: Object, n: nat)
    requires
        o.movement is Fluid,
        o.mass matches Mass::Massful(m) && m > 0,
        n >= magnitude(o.velocity().x as int),
        n >= magnitude(o.velocity().y as int),
    ensures
        after_ticks(o, n).movement == (Movement::Fluid { velocity: Velocity { x: 0, y: 0 } }),
{
    lemma_speed_bound(o, n);
}

} // verus!
