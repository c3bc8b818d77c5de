use vstd::prelude::*;

use crate::config::Config;
use crate::geometry::{discs_meet, Point, Rgba, Velocity, OPAQUE};
use crate::random::{gen_range, random_color};

verus! {

/// A circular creature drifting through the arena.
#[derive(Debug, Clone, Copy, PartialEq, Eq, Structural)]
pub struct Creature {
    pub position: Point,
    /// Length units per time unit.
    pub velocity: Velocity,
    /// The radius of the creature's disc.
    pub radius: i64,
    /// The colour it is drawn in.
    pub color: Rgba,
}

/// One instruction to the renderer: a filled disc.
#[derive(Debug, Clone, Copy, PartialEq, Eq, Structural)]
pub struct Circle {
    pub x: i64,
    pub y: i64,
    pub radius: i64,
    pub color: Rgba,
}

/// Where a coordinate and its velocity component end up once the walls at
/// `0` and `limit` are applied to a disc of the given radius: past the far
/// wall it is put back tangent to it and the velocity reversed, then the same
/// for the near wall.
pub open spec fn reflect(pos: int, vel: int, radius: int, limit: int) -> (int, int) {
    let (p1, v1) = if pos + radius > limit {
        (limit - radius, -vel)
    } else {
        (pos, vel)
    };
    if p1 - radius < 0 {
        (radius, -v1)
    } else {
        (p1, v1)
    }
}

/// A coordinate plus a displacement is still a machine integer.
pub open spec fn fits_i64(v: int) -> bool {
    i64::MIN <= v <= i64::MAX
}

/// The disc that stands for a creature on screen.
pub open spec fn circle_of(c: Creature) -> Circle {
    Circle { x: c.position.x, y: c.position.y, radius: c.radius, color: c.color }
}

/// Two creatures touch or overlap.
pub open spec fn overlaps(a: Creature, b: Creature) -> bool {
    discs_meet(a.position, a.radius as int, b.position, b.radius as int)
}

impl Creature {
    /// The radius is non-negative and each velocity component can be negated.
    pub open spec fn wf(&self) -> bool {
        &&& self.radius >= 0
        &&& self.velocity.x > i64::MIN
        &&& self.velocity.y > i64::MIN
    }

    /// What holds of every creature spawned under `config`.
    pub open spec fn spawned_for(&self, config: Config) -> bool {
        &&& self.wf()
        &&& 0 <= self.position.x <= config.width
        &&& 0 <= self.position.y <= config.height
        &&& -config.max_speed <= self.velocity.x <= config.max_speed
        &&& -config.max_speed <= self.velocity.y <= config.max_speed
        &&& self.radius == config.radius
        &&& self.color.a == OPAQUE
    }

    /// The x coordinate after moving for `dt` time units.
    pub open spec fn moved_x(&self, dt: int) -> int {
        self.position.x + self.velocity.x * dt
    }

    /// The y coordinate after moving for `dt` time units.
    pub open spec fn moved_y(&self, dt: int) -> int {
        self.position.y + self.velocity.y * dt
    }

    /// Moving for `dt` time units keeps both coordinates in range.
    pub open spec fn can_move(&self, dt: int) -> bool {
        fits_i64(self.moved_x(dt)) && fits_i64(self.moved_y(dt))
    }

    /// `n` is this creature after the walls of a `width` by `height` arena
    /// have been applied to it.
    pub open spec fn bounced_to(&self, width: int, height: int, n: Creature) -> bool {
        &&& (n.position.x as int, n.velocity.x as int) == reflect(
            self.position.x as int,
            self.velocity.x as int,
            self.radius as int,
            width,
        )
        &&& (n.position.y as int, n.velocity.y as int) == reflect(
            self.position.y as int,
            self.velocity.y as int,
            self.radius as int,
            height,
        )
        &&& n.radius == self.radius
        &&& n.color == self.color
    }

    /// `n` is this creature after moving for `dt` and then meeting the walls:
    /// the colour is left to the caller.
    pub open spec fn ticked_to(&self, dt: int, width: int, height: int, n: Creature) -> bool {
        &&& (n.position.x as int, n.velocity.x as int) == reflect(
            self.moved_x(dt),
            self.velocity.x as int,
            self.radius as int,
            width,
        )
        &&& (n.position.y as int, n.velocity.y as int) == reflect(
            self.moved_y(dt),
            self.velocity.y as int,
            self.radius as int,
            height,
        )
        &&& n.radius == self.radius
    }

    /// A creature at a random place in the arena, with each velocity
    /// component drawn from `[-max_speed, max_speed]` and a random opaque
    /// colour. The x coordinate is drawn across the width and the y
    /// coordinate across the height.
    pub fn new(config: &Config) -> (c: Creature)
        requires
            config.wf(),
        ensures
            c.spawned_for(*config),
    {
        let x = gen_range(0, config.width);
        let y = gen_range(0, config.height);
        let vx = gen_range(-config.max_speed, config.max_speed);
        let vy = gen_range(-config.max_speed, config.max_speed);
        Creature::new_at_point(
            Point { x: x as i64, y: y as i64 },
            Velocity { x: vx as i64, y: vy as i64 },
            config.radius as i64,
            random_color(),
        )
    }

    /// A creature with the given state.
    pub fn new_at_point(position: Point, velocity: Velocity, radius: i64, color: Rgba) -> (c:
        Creature)
        ensures
            c.position == position,
            c.velocity == velocity,
            c.radius == radius,
            c.color == color,
    {
        Creature { position, velocity, radius, color }
    }

    /// The disc to draw for this creature.
    pub fn display(&self) -> (c: Circle)
        ensures
            c == circle_of(*self),
    {
        Circle { x: self.position.x, y: self.position.y, radius: self.radius, color: self.color }
    }

    /// Moves the creature for `dt` time units at its velocity.
    pub fn update(&mut self, dt: i64)
        requires
            dt >= 0,
            old(self).can_move(dt as int),
        ensures
            final(self).position.x == old(self).moved_x(dt as int),
            final(self).position.y == old(self).moved_y(dt as int),
            final(self).velocity == old(self).velocity,
            final(self).radius == old(self).radius,
            final(self).color == old(self).color,
    {
        let x = self.position.x as i128 + self.velocity.x as i128 * dt as i128;
        let y = self.position.y as i128 + self.velocity.y as i128 * dt as i128;
        self.position = Point { x: x as i64, y: y as i64 };
    }

    /// Replaces the display colour, and nothing else.
    pub fn set_color(&mut self, color: Rgba)
        ensures
            final(self).color == color,
            final(self).position == old(self).position,
            final(self).velocity == old(self).velocity,
            final(self).radius == old(self).radius,
    {
        self.color = color;
    }

    /// Whether this creature touches or overlaps `other`.
    pub fn touches(&self, other: &Creature) -> (r: bool)
        requires
            self.wf(),
            other.wf(),
        ensures
            r == overlaps(*self, *other),
    {
        self.position.within_reach(self.radius, &other.position, other.radius)
    }
}


/// On one axis, a wide enough arena holds the reflected disc between its
/// walls: the centre ends up at least a radius from each.
pub proof fn lemma_reflect_contains(pos: int, vel: int, radius: int, limit: int)
    requires
        radius >= 0,
        limit >= 2 * radius,
    ensures
        radius <= reflect(pos, vel, radius, limit).0 <= limit - radius,
{
}

/// Wall containment: once the walls of an arena at least a diameter wide and
/// high have been applied, a creature lies inside it, each coordinate at
/// least a radius from both walls of its axis.
pub proof fn lemma_bounce_contains(c: Creature, width: int, height: int, n: Creature)
    requires
        c.wf(),
        width >= 2 * c.radius,
        height >= 2 * c.radius,
        c.bounced_to(width, height, n),
    ensures
        n.radius <= n.position.x <= width - n.radius,
        n.radius <= n.position.y <= height - n.radius,
{
    lemma_reflect_contains(c.position.x as int, c.velocity.x as int, c.radius as int, width);
    lemma_reflect_contains(c.position.y as int, c.velocity.y as int, c.radius as int, height);
}

/// Wall containment holds after a whole tick too: whatever the move, the
/// creature ends up inside an arena at least a diameter wide and high.
pub proof fn lemma_tick_contains(c: Creature, dt: int, width: int, height: int, n: Creature)
    requires
        c.wf(),
        width >= 2 * c.radius,
        height >= 2 * c.radius,
        c.ticked_to(dt, width, height, n),
    ensures
        n.radius <= n.position.x <= width - n.radius,
        n.radius <= n.position.y <= height - n.radius,
{
    lemma_reflect_contains(c.moved_x(dt), c.velocity.x as int, c.radius as int, width);
    lemma_reflect_contains(c.moved_y(dt), c.velocity.y as int, c.radius as int, height);
}

/// Velocity reflection: a creature moving right that is past the right wall
/// has its x velocity reversed and is put back tangent to that wall, while
/// its y velocity is kept, provided it is clear of the top and bottom walls.
pub proof fn lemma_right_wall_reflects(c: Creature, width: int, height: int, n: Creature)
    requires
        c.wf(),
        width >= 2 * c.radius,
        c.velocity.x > 0,
        c.position.x + c.radius > width,
        c.radius <= c.position.y <= height - c.radius,
        c.bounced_to(width, height, n),
    ensures
        n.velocity.x == -c.velocity.x,
        n.position.x == width - c.radius,
        n.velocity.y == c.velocity.y,
        n.position.y == c.position.y,
{
}

/// Corner handling: a creature past a wall on each axis has both velocity
/// components reversed and both coordinates put back tangent to the walls it
/// crossed.
pub proof fn lemma_corner_reflects(c: Creature, width: int, height: int, n: Creature)
    requires
        c.wf(),
        width >= 2 * c.radius,
        height >= 2 * c.radius,
        c.position.x + c.radius > width || c.position.x - c.radius < 0,
        c.position.y + c.radius > height || c.position.y - c.radius < 0,
        c.bounced_to(width, height, n),
    ensures
        n.velocity.x == -c.velocity.x,
        n.velocity.y == -c.velocity.y,
        n.position.x == if c.position.x + c.radius > width {
            width - c.radius
        } else {
            c.radius as int
        },
        n.position.y == if c.position.y + c.radius > height {
            height - c.radius
        } else {
            c.radius as int
        },
{
}

} // verus!
