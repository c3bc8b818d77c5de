use vstd::prelude::*;

use crate::config::Config;
use crate::creature::{circle_of, overlaps, Circle, Creature};
use crate::geometry::{discs_meet, Rgba, OPAQUE};
use crate::random::random_color;

verus! {

/// The arena and the creatures in it.
#[derive(Debug)]
pub struct Scene {
    pub creatures: Vec<Creature>,
    /// Arena width, in length units.
    pub width: i64,
    /// Arena height, in length units.
    pub height: i64,
}

/// The creature at `i` overlaps one that comes after it: it is the first
/// member of a colliding pair, and so the one whose colour changes.
pub open spec fn marked(s: Seq<Creature>, i: int) -> bool {
    exists|j: int| i < j < s.len() && #[trigger] overlaps(s[i], s[j])
}

/// Every creature of `s` can move for `dt` without leaving the machine range.
pub open spec fn all_can_move(s: Seq<Creature>, dt: int) -> bool {
    forall|i: int| 0 <= i < s.len() ==> (#[trigger] s[i]).can_move(dt)
}

/// `t` is `s` after every creature has moved for `dt` and met the walls of a
/// `width` by `height` arena, and the first member of each colliding pair of
/// the moved population has taken its colour from `fresh`.
pub open spec fn tick_of(
    s: Seq<Creature>,
    dt: int,
    width: int,
    height: int,
    fresh: Seq<Rgba>,
    t: Seq<Creature>,
) -> bool {
    &&& t.len() == s.len()
    &&& forall|i: int| 0 <= i < s.len() ==> (#[trigger] s[i]).ticked_to(dt, width, height, t[i])
    &&& forall|i: int|
        0 <= i < s.len() ==> (#[trigger] t[i]).color == if marked(t, i) {
            fresh[i]
        } else {
            s[i].color
        }
}

/// Shapes and places agree: the two populations differ at most in colour.
pub open spec fn same_shapes(s: Seq<Creature>, t: Seq<Creature>) -> bool {
    &&& s.len() == t.len()
    &&& forall|k: int|
        0 <= k < s.len() ==> (#[trigger] s[k]).position == t[k].position && s[k].radius
            == t[k].radius
}

/// Colour plays no part in which creature is marked.
proof fn lemma_marked_by_shape(s: Seq<Creature>, t: Seq<Creature>, i: int)
    requires
        same_shapes(s, t),
        0 <= i < s.len(),
    ensures
        marked(s, i) == marked(t, i),
{
    if marked(s, i) {
        let j = choose|j: int| i < j < s.len() && #[trigger] overlaps(s[i], s[j]);
        assert(s[j].position == t[j].position);
        assert(overlaps(t[i], t[j]));
    }
    if marked(t, i) {
        let j = choose|j: int| i < j < t.len() && #[trigger] overlaps(t[i], t[j]);
        assert(s[j].position == t[j].position);
        assert(overlaps(s[i], s[j]));
    }
}

/// Two indices in increasing order, compared first by the first index.
pub open spec fn pair_lt(p: (usize, usize), q: (usize, usize)) -> bool {
    p.0 < q.0 || (p.0 == q.0 && p.1 < q.1)
}

/// `r` lists, in increasing order, exactly the pairs of indices `(i, j)`
/// with `i < j` whose creatures in `s` touch or overlap.
pub open spec fn lists_collisions(s: Seq<Creature>, r: Seq<(usize, usize)>) -> bool {
    &&& forall|k: int|
        0 <= k < r.len() ==> {
            &&& (#[trigger] r[k]).0 < r[k].1 < s.len()
            &&& overlaps(s[r[k].0 as int], s[r[k].1 as int])
        }
    &&& forall|i: int, j: int|
        0 <= i < j < s.len() && #[trigger] overlaps(s[i], s[j]) ==> exists|k: int|
            0 <= k < r.len() && #[trigger] r[k] == (i as usize, j as usize)
    &&& forall|a: int, b: int| 0 <= a < b < r.len() ==> pair_lt(#[trigger] r[a], #[trigger] r[b])
}

/// Builds `config.population` creatures, each spawned at random.
fn init_creatures(config: &Config) -> (r: Vec<Creature>)
    requires
        config.wf(),
    ensures
        r@.len() == config.population,
        forall|i: int| 0 <= i < r@.len() ==> (#[trigger] r@[i]).spawned_for(*config),
{
    let mut creatures: Vec<Creature> = Vec::new();
    let mut i: usize = 0;
    while i < config.population
        invariant
            config.wf(),
            i <= config.population,
            creatures@.len() == i,
            forall|k: int| 0 <= k < i ==> (#[trigger] creatures@[k]).spawned_for(*config),
        decreases config.population - i,
    {
        creatures.push(Creature::new(config));
        i = i + 1;
    }
    creatures
}

impl Scene {
    /// The arena has non-negative sides and every creature is well formed.
    pub open spec fn wf(&self) -> bool {
        &&& self.width >= 0
        &&& self.height >= 0
        &&& forall|i: int| 0 <= i < self.creatures@.len() ==> (#[trigger] self.creatures@[i]).wf()
    }

    /// A scene of `config.population` creatures, spawned at random in an
    /// arena of the configured size.
    pub fn new(config: &Config) -> (s: Scene)
        requires
            config.wf(),
        ensures
            s.wf(),
            s.width == config.width,
            s.height == config.height,
            s.creatures@.len() == config.population,
            forall|i: int| 0 <= i < s.creatures@.len() ==> (#[trigger] s.creatures@[i]).spawned_for(
                *config,
            ),
    {
        let creatures = init_creatures(config);
        Scene { creatures, width: config.width as i64, height: config.height as i64 }
    }

    /// The discs to draw, one per creature, in population order.
    pub fn display(&self) -> (r: Vec<Circle>)
        ensures
            r@.len() == self.creatures@.len(),
            forall|i: int| 0 <= i < r@.len() ==> r@[i] == circle_of(#[trigger] self.creatures@[i]),
    {
        let mut r: Vec<Circle> = Vec::new();
        let mut i: usize = 0;
        while i < self.creatures.len()
            invariant
                i <= self.creatures@.len(),
                r@.len() == i,
                forall|k: int| 0 <= k < i ==> r@[k] == circle_of(#[trigger] self.creatures@[k]),
            decreases self.creatures@.len() - i,
        {
            r.push(self.creatures[i].display());
            i = i + 1;
        }
        r
    }

    /// One tick of the simulation: every creature moves for `dt` time units
    /// and meets the walls, then the first member of each colliding pair of
    /// the moved population takes a new random opaque colour.
    pub fn update(&mut self, dt: i64)
        requires
            old(self).wf(),
            dt >= 0,
            all_can_move(old(self).creatures@, dt as int),
        ensures
            final(self).wf(),
            final(self).width == old(self).width,
            final(self).height == old(self).height,
            final(self).creatures@.len() == old(self).creatures@.len(),
            forall|i: int|
                0 <= i < old(self).creatures@.len() ==> (#[trigger] old(self).creatures@[i]).ticked_to(
                    dt as int,
                    old(self).width as int,
                    old(self).height as int,
                    final(self).creatures@[i],
                ),
            forall|i: int|
                0 <= i < old(self).creatures@.len() ==> if marked(final(self).creatures@, i) {
                    (#[trigger] final(self).creatures@[i]).color.a == OPAQUE
                } else {
                    final(self).creatures@[i].color == old(self).creatures@[i].color
                },
    {
        let n = self.creatures.len();
        let mut fresh: Vec<Rgba> = Vec::new();
        let mut i: usize = 0;
        while i < n
            invariant
                i <= n,
                fresh@.len() == i,
                forall|k: int| 0 <= k < i ==> (#[trigger] fresh@[k]).a == OPAQUE,
            decreases n - i,
        {
            fresh.push(random_color());
            i = i + 1;
        }
        self.settle(dt, &fresh);
    }

    /// Moves every creature for `dt` time units and applies the walls to it,
    /// then gives the first member of each colliding pair of the moved
    /// population the colour at its own index in `fresh`. Nothing else
    /// changes: the response to a collision is only this change of colour.
    pub fn settle(&mut self, dt: i64, fresh: &Vec<Rgba>)
        requires
            old(self).wf(),
            dt >= 0,
            all_can_move(old(self).creatures@, dt as int),
            fresh@.len() == old(self).creatures@.len(),
        ensures
            final(self).wf(),
            final(self).width == old(self).width,
            final(self).height == old(self).height,
            tick_of(
                old(self).creatures@,
                dt as int,
                old(self).width as int,
                old(self).height as int,
                fresh@,
                final(self).creatures@,
            ),
    {
        let ghost s0 = self.creatures@;
        let n = self.creatures.len();
        let mut i: usize = 0;
        while i < n
            invariant
                0 <= i <= n,
                n == s0.len(),
                self.creatures@.len() == n,
                self.width == old(self).width,
                self.height == old(self).height,
                self.width >= 0,
                self.height >= 0,
                all_can_move(s0, dt as int),
                dt >= 0,
                forall|k: int| 0 <= k < n ==> (#[trigger] s0[k]).wf(),
                forall|k: int|
                    0 <= k < i ==> (#[trigger] s0[k]).ticked_to(
                        dt as int,
                        self.width as int,
                        self.height as int,
                        self.creatures@[k],
                    ),
                forall|k: int| 0 <= k < i ==> (#[trigger] self.creatures@[k]).wf(),
                forall|k: int| 0 <= k < i ==> (#[trigger] self.creatures@[k]).color == s0[k].color,
                forall|k: int| i <= k < n ==> self.creatures@[k] == s0[k],
            decreases n - i,
        {
            let mut c = self.creatures[i];
            assert(s0[i as int].can_move(dt as int));
            c.update(dt);
            let ghost moved = c;
            Self::check_scene_collisions(&mut c, self.width, self.height);
            assert(moved.bounced_to(self.width as int, self.height as int, c));
            assert(s0[i as int].ticked_to(dt as int, self.width as int, self.height as int, c));
            self.creatures.set(i, c);
            i = i + 1;
        }
        let ghost mid = self.creatures@;
        assert forall|k: int| 0 <= k < n implies (#[trigger] mid[k]).wf() by {
            assert(s0[k].ticked_to(dt as int, self.width as int, self.height as int, mid[k]));
        }
        let marks = self.marks();
        let mut i: usize = 0;
        while i < n
            invariant
                0 <= i <= n,
                n == mid.len(),
                marks@.len() == n,
                fresh@.len() == n,
                self.creatures@.len() == n,
                self.width == old(self).width,
                self.height == old(self).height,
                forall|k: int| 0 <= k < n ==> marks@[k] == marked(mid, k),
                forall|k: int| 0 <= k < n ==> (#[trigger] mid[k]).wf(),
                forall|k: int|
                    0 <= k < i ==> {
                        &&& (#[trigger] self.creatures@[k]).position == mid[k].position
                        &&& self.creatures@[k].velocity == mid[k].velocity
                        &&& self.creatures@[k].radius == mid[k].radius
                        &&& self.creatures@[k].color == if marks@[k] {
                            fresh@[k]
                        } else {
                            mid[k].color
                        }
                    },
                forall|k: int| i <= k < n ==> self.creatures@[k] == mid[k],
            decreases n - i,
        {
            if marks[i] {
                let mut c = self.creatures[i];
                c.set_color(fresh[i]);
                self.creatures.set(i, c);
            }
            i = i + 1;
        }
        proof {
            let t = self.creatures@;
            assert forall|k: int| 0 <= k < n implies (#[trigger] t[k]).position == mid[k].position
                && t[k].radius == mid[k].radius by {}
            assert forall|k: int| 0 <= k < n implies marked(t, k) == marked(mid, k) by {
                lemma_marked_by_shape(mid, t, k);
            }
            assert forall|k: int| 0 <= k < n implies (#[trigger] t[k]).wf() by {
                assert(mid[k].wf());
            }
            assert forall|k: int|
                0 <= k < n implies (#[trigger] s0[k]).ticked_to(
                dt as int,
                self.width as int,
                self.height as int,
                t[k],
            ) by {
                assert(s0[k].ticked_to(dt as int, self.width as int, self.height as int, mid[k]));
            }
        }
    }

    /// For each creature, whether it is the first member of a colliding pair.
    pub fn marks(&self) -> (r: Vec<bool>)
        requires
            self.wf(),
        ensures
            r@.len() == self.creatures@.len(),
            forall|i: int| 0 <= i < r@.len() ==> r@[i] == marked(self.creatures@, i),
    {
        let ghost s = self.creatures@;
        let n = self.creatures.len();
        let mut r: Vec<bool> = Vec::new();
        let mut i: usize = 0;
        while i < n
            invariant
                0 <= i <= n,
                n == s.len(),
                s == self.creatures@,
                self.wf(),
                r@.len() == i,
                forall|k: int| 0 <= k < i ==> r@[k] == marked(s, k),
            decreases n - i,
        {
            let mut hit = false;
            let mut j: usize = i + 1;
            while j < n
                invariant
                    0 <= i < n,
                    i < j <= n,
                    n == s.len(),
                    s == self.creatures@,
                    self.wf(),
                    hit == exists|k: int| i < k < j && #[trigger] overlaps(s[i as int], s[k]),
                decreases n - j,
            {
                assert(s[i as int].wf() && s[j as int].wf());
                if self.creatures[i].touches(&self.creatures[j]) {
                    hit = true;
                }
                j = j + 1;
            }
            r.push(hit);
            i = i + 1;
        }
        r
    }

    /// The colliding pairs of the population, each once, as index pairs
    /// `(i, j)` with `i < j`, in increasing order.
    pub fn collisions(&self) -> (r: Vec<(usize, usize)>)
        requires
            self.wf(),
        ensures
            lists_collisions(self.creatures@, r@),
    {
        let ghost s = self.creatures@;
        let n = self.creatures.len();
        let mut r: Vec<(usize, usize)> = Vec::new();
        let mut i: usize = 0;
        while i < n
            invariant
                0 <= i <= n,
                n == s.len(),
                s == self.creatures@,
                self.wf(),
                forall|k: int|
                    0 <= k < r@.len() ==> {
                        &&& (#[trigger] r@[k]).0 < r@[k].1 < n
                        &&& r@[k].0 < i
                        &&& overlaps(s[r@[k].0 as int], s[r@[k].1 as int])
                    },
                forall|p: int, q: int|
                    0 <= p < q < n && p < i && #[trigger] overlaps(s[p], s[q]) ==> exists|k: int|
                        0 <= k < r@.len() && #[trigger] r@[k] == (p as usize, q as usize),
                forall|a: int, b: int|
                    0 <= a < b < r@.len() ==> pair_lt(#[trigger] r@[a], #[trigger] r@[b]),
            decreases n - i,
        {
            let mut j: usize = i + 1;
            while j < n
                invariant
                    0 <= i < n,
                    i < j <= n,
                    n == s.len(),
                    s == self.creatures@,
                    self.wf(),
                    forall|k: int|
                        0 <= k < r@.len() ==> {
                            &&& (#[trigger] r@[k]).0 < r@[k].1 < n
                            &&& pair_lt(r@[k], (i, j))
                            &&& overlaps(s[r@[k].0 as int], s[r@[k].1 as int])
                        },
                    forall|p: int, q: int|
                        0 <= p < q < n && (p < i || (p == i && q < j)) && #[trigger] overlaps(
                            s[p],
                            s[q],
                        ) ==> exists|k: int|
                            0 <= k < r@.len() && #[trigger] r@[k] == (p as usize, q as usize),
                    forall|a: int, b: int|
                        0 <= a < b < r@.len() ==> pair_lt(#[trigger] r@[a], #[trigger] r@[b]),
                decreases n - j,
            {
                assert(s[i as int].wf() && s[j as int].wf());
                if self.creatures[i].touches(&self.creatures[j]) {
                    let ghost r0 = r@;
                    r.push((i, j));
                    proof {
                        assert forall|k: int| 0 <= k < r0.len() implies r@[k] == r0[k] by {}
                        assert(r@[r0.len() as int] == (i, j));
                        assert forall|p: int, q: int|
                            0 <= p < q < n && (p < i || (p == i && q < j + 1)) && #[trigger] overlaps(
                                s[p],
                                s[q],
                            ) implies exists|k: int|
                            0 <= k < r@.len() && #[trigger] r@[k] == (p as usize, q as usize) by {
                            if p == i && q == j {
                                assert(r@[r0.len() as int] == (p as usize, q as usize));
                            } else {
                                let k = choose|k: int|
                                    0 <= k < r0.len() && #[trigger] r0[k] == (p as usize, q as usize);
                                assert(r@[k] == (p as usize, q as usize));
                            }
                        }
                    }
                }
                j = j + 1;
            }
            i = i + 1;
        }
        r
    }

    /// Applies the four walls to one creature: a creature past a wall has
    /// the velocity component normal to it reversed and is put back so that
    /// its disc is tangent to that wall.
    pub fn check_scene_collisions(creature: &mut Creature, width: i64, height: i64)
        requires
            old(creature).wf(),
            width >= 0,
            height >= 0,
        ensures
            old(creature).bounced_to(width as int, height as int, *final(creature)),
            final(creature).wf(),
    {
        if creature.position.x > width - creature.radius {
            creature.velocity.x = -creature.velocity.x;
            creature.position.x = width - creature.radius;
        }
        if creature.position.x < creature.radius {
            creature.velocity.x = -creature.velocity.x;
            creature.position.x = creature.radius;
        }
        if creature.position.y > height - creature.radius {
            creature.velocity.y = -creature.velocity.y;
            creature.position.y = height - creature.radius;
        }
        if creature.position.y < creature.radius {
            creature.velocity.y = -creature.velocity.y;
            creature.position.y = creature.radius;
        }
    }
}

/// The pair of creatures `i` and `j`, taken in either order, is among the
/// listed collisions.
pub open spec fn flagged(r: Seq<(usize, usize)>, i: int, j: int) -> bool {
    exists|k: int|
        0 <= k < r.len() && (#[trigger] r[k] == (i as usize, j as usize) || r[k] == (
            j as usize,
            i as usize,
        ))
}

/// Collision symmetry: two distinct creatures are flagged as colliding
/// exactly when the distance between their centres is at most the sum of
/// their radii, whichever of the two is named first.
pub proof fn lemma_collision_symmetric(s: Seq<Creature>, r: Seq<(usize, usize)>, i: int, j: int)
    requires
        s.len() <= usize::MAX,
        lists_collisions(s, r),
        0 <= i < s.len(),
        0 <= j < s.len(),
        i != j,
    ensures
        flagged(r, i, j) <==> discs_meet(
            s[i].position,
            s[i].radius as int,
            s[j].position,
            s[j].radius as int,
        ),
        flagged(r, j, i) <==> discs_meet(
            s[j].position,
            s[j].radius as int,
            s[i].position,
            s[i].radius as int,
        ),
{
    let (lo, hi) = if i < j {
        (i, j)
    } else {
        (j, i)
    };
    assert(overlaps(s[i], s[j]) == overlaps(s[j], s[i])) by (nonlinear_arith);
    if overlaps(s[lo], s[hi]) {
        let k = choose|k: int| 0 <= k < r.len() && #[trigger] r[k] == (lo as usize, hi as usize);
        assert(r[k] == (i as usize, j as usize) || r[k] == (j as usize, i as usize));
    }
    if flagged(r, i, j) {
        let k = choose|k: int|
            0 <= k < r.len() && (#[trigger] r[k] == (i as usize, j as usize) || r[k] == (
                j as usize,
                i as usize,
            ));
        assert(r[k].0 < r[k].1);
        assert(overlaps(s[r[k].0 as int], s[r[k].1 as int]));
    }
}

/// Non-collision idempotence: where, once moved, no creature reaches a wall
/// and no two creatures overlap, a tick moves each creature by exactly its
/// velocity times `dt` and changes nothing else, colour included.
pub proof fn lemma_quiet_tick(
    s: Seq<Creature>,
    dt: int,
    width: int,
    height: int,
    fresh: Seq<Rgba>,
    t: Seq<Creature>,
)
    requires
        forall|i: int| 0 <= i < s.len() ==> (#[trigger] s[i]).wf(),
        tick_of(s, dt, width, height, fresh, t),
        forall|i: int|
            0 <= i < s.len() ==> {
                &&& (#[trigger] s[i]).radius <= s[i].moved_x(dt) <= width - s[i].radius
                &&& s[i].radius <= s[i].moved_y(dt) <= height - s[i].radius
            },
        forall|i: int, j: int| 0 <= i < j < t.len() ==> !overlaps(#[trigger] t[i], #[trigger] t[j]),
    ensures
        forall|i: int|
            0 <= i < s.len() ==> {
                &&& (#[trigger] t[i]).position.x == s[i].moved_x(dt)
                &&& t[i].position.y == s[i].moved_y(dt)
                &&& t[i].velocity == s[i].velocity
                &&& t[i].radius == s[i].radius
                &&& t[i].color == s[i].color
            },
{
    assert forall|i: int| 0 <= i < s.len() implies {
        &&& (#[trigger] t[i]).position.x == s[i].moved_x(dt)
        &&& t[i].position.y == s[i].moved_y(dt)
        &&& t[i].velocity == s[i].velocity
        &&& t[i].radius == s[i].radius
        &&& t[i].color == s[i].color
    } by {
        assert(s[i].ticked_to(dt, width, height, t[i]));
        assert(!marked(t, i));
    }
}

} // verus!
