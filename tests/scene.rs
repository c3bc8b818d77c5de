use particle_life::config::Config;
use particle_life::creature::{Circle, Creature};
use particle_life::geometry::{Point, Rgba, Velocity};
use particle_life::scene::Scene;

const GREY: Rgba = Rgba { r: 10, g: 20, b: 30, a: 255 };
const GOLD: Rgba = Rgba { r: 200, g: 150, b: 0, a: 255 };
const TEAL: Rgba = Rgba { r: 0, g: 128, b: 128, a: 255 };

fn creature(x: i64, y: i64, vx: i64, vy: i64, radius: i64) -> Creature {
    Creature::new_at_point(Point { x, y }, Velocity { x: vx, y: vy }, radius, GREY)
}

fn arena(creatures: Vec<Creature>) -> Scene {
    Scene { creatures, width: 500, height: 500 }
}

#[test]
fn right_wall_bounce_scenario() {
    let mut scene = arena(vec![creature(495, 250, 50, 0, 10)]);
    scene.update(1);
    let c = scene.creatures[0];
    assert_eq!(c.velocity, Velocity { x: -50, y: 0 });
    assert_eq!(c.position, Point { x: 490, y: 250 });
    assert_eq!(c.color, GREY);
}

#[test]
fn overlapping_pair_scenario() {
    let a = creature(100, 100, 0, 0, 10);
    let b = creature(115, 100, 0, 0, 10);
    let scene = arena(vec![a, b]);
    assert_eq!(scene.collisions(), vec![(0, 1)]);
    assert_eq!(scene.marks(), vec![true, false]);

    let mut settled = arena(vec![a, b]);
    settled.settle(0, &vec![GOLD, TEAL]);
    assert_eq!(settled.creatures[0].color, GOLD);
    assert_eq!(settled.creatures[1].color, GREY);
    for (before, after) in [a, b].iter().zip(settled.creatures.iter()) {
        assert_eq!(before.position, after.position);
        assert_eq!(before.velocity, after.velocity);
    }

    let mut random = arena(vec![a, b]);
    random.update(0);
    assert_eq!(random.creatures[0].color.a, 255);
    assert_eq!(random.creatures[1].color, GREY);
    assert_eq!(random.creatures[0].position, a.position);
    assert_eq!(random.creatures[1].position, b.position);
}

#[test]
fn touching_at_exact_reach_collides() {
    let scene = arena(vec![creature(100, 100, 0, 0, 10), creature(100, 120, 0, 0, 10)]);
    assert_eq!(scene.collisions(), vec![(0, 1)]);
    let apart = arena(vec![creature(100, 100, 0, 0, 10), creature(100, 121, 0, 0, 10)]);
    assert!(apart.collisions().is_empty());
    assert_eq!(apart.marks(), vec![false, false]);
}

#[test]
fn diagonal_reach_uses_euclidean_distance() {
    // 12 and 16 apart on the axes: 20 apart on the diagonal.
    let near = arena(vec![creature(100, 100, 0, 0, 10), creature(112, 116, 0, 0, 10)]);
    assert_eq!(near.collisions(), vec![(0, 1)]);
    // 15 and 15 apart: about 21.2 on the diagonal.
    let far = arena(vec![creature(100, 100, 0, 0, 10), creature(115, 115, 0, 0, 10)]);
    assert!(far.collisions().is_empty());
}

#[test]
fn collisions_do_not_depend_on_order() {
    let a = creature(100, 100, 0, 0, 10);
    let b = creature(110, 100, 0, 0, 5);
    let c = creature(300, 300, 0, 0, 10);
    let forward = arena(vec![a, b, c]);
    let backward = arena(vec![c, b, a]);
    assert_eq!(forward.collisions(), vec![(0, 1)]);
    assert_eq!(backward.collisions(), vec![(1, 2)]);
    assert!(a.touches(&b));
    assert!(b.touches(&a));
    assert!(!a.touches(&c));
    assert!(!c.touches(&a));
    assert_eq!(forward.marks(), vec![true, false, false]);
    assert_eq!(backward.marks(), vec![false, true, false]);
}

#[test]
fn collisions_listed_in_increasing_order() {
    let scene = arena(vec![
        creature(100, 100, 0, 0, 10),
        creature(300, 300, 0, 0, 10),
        creature(105, 100, 0, 0, 10),
        creature(110, 100, 0, 0, 10),
    ]);
    assert_eq!(scene.collisions(), vec![(0, 2), (0, 3), (2, 3)]);
    assert_eq!(scene.marks(), vec![true, false, true, false]);
}

#[test]
fn identical_creatures_still_collide() {
    let a = creature(200, 200, 1, 1, 10);
    let mut scene = arena(vec![a, a]);
    assert_eq!(scene.collisions(), vec![(0, 1)]);
    scene.settle(0, &vec![GOLD, TEAL]);
    assert_eq!(scene.creatures[0].color, GOLD);
    assert_eq!(scene.creatures[1].color, GREY);
}

#[test]
fn quiet_tick_only_moves() {
    let a = creature(100, 100, 3, -2, 10);
    let b = creature(300, 300, -4, 5, 10);
    let mut scene = arena(vec![a, b]);
    scene.update(10);
    assert_eq!(scene.creatures[0].position, Point { x: 130, y: 80 });
    assert_eq!(scene.creatures[1].position, Point { x: 260, y: 350 });
    assert_eq!(scene.creatures[0].velocity, a.velocity);
    assert_eq!(scene.creatures[1].velocity, b.velocity);
    assert_eq!(scene.creatures[0].color, GREY);
    assert_eq!(scene.creatures[1].color, GREY);
}

#[test]
fn detection_reads_moved_positions() {
    // Apart before the move, overlapping after it.
    let mut scene = arena(vec![creature(100, 100, 1, 0, 10), creature(130, 100, -1, 0, 10)]);
    assert!(scene.collisions().is_empty());
    scene.settle(5, &vec![GOLD, TEAL]);
    assert_eq!(scene.creatures[0].position, Point { x: 105, y: 100 });
    assert_eq!(scene.creatures[1].position, Point { x: 125, y: 100 });
    assert_eq!(scene.creatures[0].color, GOLD);
    assert_eq!(scene.creatures[1].color, GREY);
}

#[test]
fn corner_bounce_in_one_tick() {
    let mut scene = arena(vec![creature(495, 5, 20, -20, 10)]);
    scene.update(1);
    let c = scene.creatures[0];
    assert_eq!(c.position, Point { x: 490, y: 10 });
    assert_eq!(c.velocity, Velocity { x: -20, y: 20 });
}

#[test]
fn every_wall_bounces() {
    let mut left = creature(3, 250, -7, 2, 10);
    Scene::check_scene_collisions(&mut left, 500, 400);
    assert_eq!(left.position, Point { x: 10, y: 250 });
    assert_eq!(left.velocity, Velocity { x: 7, y: 2 });

    let mut right = creature(495, 250, 7, 2, 10);
    Scene::check_scene_collisions(&mut right, 500, 400);
    assert_eq!(right.position, Point { x: 490, y: 250 });
    assert_eq!(right.velocity, Velocity { x: -7, y: 2 });

    let mut top = creature(250, 4, 2, -7, 10);
    Scene::check_scene_collisions(&mut top, 500, 400);
    assert_eq!(top.position, Point { x: 250, y: 10 });
    assert_eq!(top.velocity, Velocity { x: 2, y: 7 });

    let mut bottom = creature(250, 395, 2, 7, 10);
    Scene::check_scene_collisions(&mut bottom, 500, 400);
    assert_eq!(bottom.position, Point { x: 250, y: 390 });
    assert_eq!(bottom.velocity, Velocity { x: 2, y: -7 });
}

#[test]
fn tangent_to_wall_is_left_alone() {
    let mut c = creature(490, 10, 5, -5, 10);
    Scene::check_scene_collisions(&mut c, 500, 500);
    assert_eq!(c.position, Point { x: 490, y: 10 });
    assert_eq!(c.velocity, Velocity { x: 5, y: -5 });
}

#[test]
fn far_outside_is_brought_back_in() {
    let mut c = creature(-1000, 2000, 4, 4, 10);
    Scene::check_scene_collisions(&mut c, 500, 300);
    assert_eq!(c.position, Point { x: 10, y: 290 });
    assert_eq!(c.velocity, Velocity { x: -4, y: -4 });
    assert_eq!(c.radius, 10);
    assert_eq!(c.color, GREY);
}

#[test]
fn arena_narrower_than_a_disc() {
    // Both walls apply: the velocity is reversed twice.
    let mut c = creature(10, 10, 3, 3, 10);
    Scene::check_scene_collisions(&mut c, 15, 100);
    assert_eq!(c.position, Point { x: 10, y: 10 });
    assert_eq!(c.velocity, Velocity { x: 3, y: 3 });
}

#[test]
fn empty_scene_is_unchanged() {
    let mut scene = arena(Vec::new());
    scene.update(1000);
    assert!(scene.creatures.is_empty());
    assert!(scene.collisions().is_empty());
    assert!(scene.display().is_empty());
}

#[test]
fn display_lists_one_disc_per_creature() {
    let scene = arena(vec![creature(100, 120, 1, 1, 10), creature(300, 320, 0, 0, 7)]);
    assert_eq!(
        scene.display(),
        vec![
            Circle { x: 100, y: 120, radius: 10, color: GREY },
            Circle { x: 300, y: 320, radius: 7, color: GREY },
        ]
    );
}

#[test]
fn new_scene_spawns_inside_the_configured_ranges() {
    let config = Config { width: 800, height: 300, population: 60, radius: 10, max_speed: 100 };
    let scene = Scene::new(&config);
    assert_eq!(scene.width, 800);
    assert_eq!(scene.height, 300);
    assert_eq!(scene.creatures.len(), 60);
    for c in scene.creatures.iter() {
        assert!(0 <= c.position.x && c.position.x <= 800);
        assert!(0 <= c.position.y && c.position.y <= 300);
        assert!(-100 <= c.velocity.x && c.velocity.x <= 100);
        assert!(-100 <= c.velocity.y && c.velocity.y <= 100);
        assert_eq!(c.radius, 10);
        assert_eq!(c.color.a, 255);
    }
    let first = scene.creatures[0];
    assert!(scene.creatures.iter().any(|c| c.position != first.position));
    assert!(scene.creatures.iter().any(|c| c.color != first.color));
}

#[test]
fn new_scene_of_nothing() {
    let config = Config { width: 100, height: 100, population: 0, radius: 5, max_speed: 0 };
    assert!(Scene::new(&config).creatures.is_empty());
}
