use tilemove::component::{MovingObject, Position, TileMapper, WorldVec};
use tilemove::level::Level;
use tilemove::system::{Entity, GameBundle, MovingObjectSystem, PlayerSystem, MOVE_DURATION};

fn mapper() -> TileMapper {
    TileMapper { tile_width: 32, tile_height: 32, tile_depth: 1 }
}

fn anim(start_time: u64, duration: u64, end_x: i64) -> MovingObject {
    MovingObject {
        start_time,
        duration,
        start: WorldVec { x: 0, y: 0, z: 0 },
        end: WorldVec { x: end_x, y: -end_x, z: 0 },
        end_p: Position { x: 2, y: 5, z: 0 },
    }
}

#[test]
fn position_add_is_component_wise() {
    let p = Position { x: 1, y: 2, z: 3 }.add(Position { x: 10, y: 20, z: 30 });
    assert_eq!(p, Position { x: 11, y: 22, z: 33 });
}

#[test]
fn world_vec_operations_are_component_wise() {
    let a = WorldVec { x: 1, y: 2, z: 3 };
    let b = WorldVec { x: 10, y: -20, z: 30 };
    assert_eq!(a.add(&b), WorldVec { x: 11, y: -18, z: 33 });
    assert_eq!(a.sub(&b), WorldVec { x: -9, y: 22, z: -27 });
    assert_eq!(a.mul(-2), WorldVec { x: -2, y: -4, z: -6 });
    assert_eq!(a.dot(&b), 10 - 40 + 90);
    assert_eq!(b.magnitude2(), 100 + 400 + 900);
}

#[test]
fn mapper_scales_cells_to_world() {
    let m = mapper();
    let w = m.to_world(Position { x: 1, y: 5, z: 0 });
    assert_eq!(w, WorldVec { x: 32, y: 160, z: 0 });
}

#[test]
fn animation_records_resolved_endpoints() {
    let m = MovingObject::new(
        7,
        MOVE_DURATION,
        &mapper(),
        Position { x: 1, y: 5, z: 0 },
        Position { x: 2, y: 5, z: 0 },
    );
    assert_eq!(m.start_time, 7);
    assert_eq!(m.duration, MOVE_DURATION);
    assert_eq!(m.start, WorldVec { x: 32, y: 160, z: 0 });
    assert_eq!(m.end, WorldVec { x: 64, y: 160, z: 0 });
    assert_eq!(m.end_p, Position { x: 2, y: 5, z: 0 });
}

#[test]
fn is_done_at_exactly_start_plus_duration() {
    let m = anim(10, 100, 64);
    assert!(!m.is_done(0));
    assert!(!m.is_done(109));
    assert!(m.is_done(110));
    assert!(m.is_done(u64::MAX));
}

#[test]
fn interpolation_is_exact_at_both_ends() {
    let m = anim(10, 100, 64);
    assert_eq!(m.interpolate(10), m.start);
    assert_eq!(m.interpolate(0), m.start);
    assert_eq!(m.interpolate(110), m.end);
    assert_eq!(m.interpolate(200), m.end);
}

#[test]
fn interpolation_is_linear_and_monotonic_between_ends() {
    let m = anim(10, 100, 64);
    assert_eq!(m.interpolate(60), WorldVec { x: 32, y: -32, z: 0 });
    assert_eq!(m.interpolate(35), WorldVec { x: 16, y: -16, z: 0 });
    let mut prev_x = m.interpolate(10).x;
    let mut prev_y = m.interpolate(10).y;
    let mut now = 10;
    while now <= 110 {
        let v = m.interpolate(now);
        assert!(v.x >= prev_x);
        assert!(v.y <= prev_y);
        prev_x = v.x;
        prev_y = v.y;
        now += 7;
    }
}

#[test]
fn zero_duration_animation_is_done_immediately() {
    let m = anim(10, 0, 64);
    assert!(m.is_done(10));
    assert!(!m.is_done(9));
    assert_eq!(m.interpolate(10), m.end);
    assert_eq!(m.interpolate(11), m.end);
}

fn open_level() -> Level {
    // a 3 by 6 grid, everything walkable
    Level::from_text(1, String::from("open"), "...\n...\n...\n...\n...\n...").unwrap()
}

fn walled_level() -> Level {
    // as open_level, but the cell (2, 5) is a fence: the first text line is
    // the highest y index
    Level::from_text(1, String::from("wall"), "..-\n...\n...\n...\n...\n...").unwrap()
}

fn entity_at(x: u32, y: u32) -> Entity {
    Entity {
        pos: Position { x, y, z: 0 },
        mob: None,
        transform: WorldVec { x: 0, y: 0, z: 0 },
    }
}

#[test]
fn coordinator_admits_movement_into_free_cell() {
    let level = open_level();
    assert!(!level.is_blocking(2, 5));
    let mut e = entity_at(1, 5);
    PlayerSystem.coordinate(&level, &mapper(), &mut e, 1, 0, 1000);
    let mob = e.mob.expect("movement admitted");
    assert_eq!(mob.end_p, Position { x: 2, y: 5, z: 0 });
    assert_eq!(mob.start_time, 1000);
    assert_eq!(mob.duration, MOVE_DURATION);
    assert_eq!(mob.start, WorldVec { x: 32, y: 160, z: 0 });
    assert_eq!(mob.end, WorldVec { x: 64, y: 160, z: 0 });
    // the authoritative position is untouched until completion
    assert_eq!(e.pos, Position { x: 1, y: 5, z: 0 });
}

#[test]
fn coordinator_rejects_movement_into_blocked_cell() {
    let level = walled_level();
    assert!(level.is_blocking(2, 5));
    let mut e = entity_at(1, 5);
    PlayerSystem.coordinate(&level, &mapper(), &mut e, 1, 0, 1000);
    assert!(e.mob.is_none());
    assert_eq!(e.pos, Position { x: 1, y: 5, z: 0 });
}

#[test]
fn coordinator_ignores_zero_intent() {
    let level = open_level();
    let mut e = entity_at(1, 1);
    PlayerSystem.coordinate(&level, &mapper(), &mut e, 0, 0, 1000);
    assert!(e.mob.is_none());
}

#[test]
fn horizontal_intent_beats_vertical() {
    let level = open_level();
    let mut e = entity_at(1, 1);
    PlayerSystem.coordinate(&level, &mapper(), &mut e, 1, 1, 1000);
    assert_eq!(e.mob.unwrap().end_p, Position { x: 2, y: 1, z: 0 });
}

#[test]
fn vertical_intent_applies_when_horizontal_is_zero() {
    let level = open_level();
    let mut e = entity_at(1, 1);
    PlayerSystem.coordinate(&level, &mapper(), &mut e, 0, -1, 1000);
    assert_eq!(e.mob.unwrap().end_p, Position { x: 1, y: 0, z: 0 });
}

#[test]
fn stepping_off_the_coordinate_range_is_blocked() {
    let level = open_level();
    let mut e = entity_at(0, 0);
    PlayerSystem.coordinate(&level, &mapper(), &mut e, -1, 0, 1000);
    assert!(e.mob.is_none());
    PlayerSystem.coordinate(&level, &mapper(), &mut e, 0, -1, 1000);
    assert!(e.mob.is_none());
}

#[test]
fn coordinator_leaves_moving_entities_alone() {
    let level = open_level();
    let mut e = entity_at(1, 5);
    PlayerSystem.coordinate(&level, &mapper(), &mut e, 1, 0, 1000);
    let first = e.mob.unwrap();
    // repeated non-zero intent while the first movement is active
    PlayerSystem.coordinate(&level, &mapper(), &mut e, 0, 1, 1040);
    PlayerSystem.coordinate(&level, &mapper(), &mut e, 1, 0, 1080);
    assert_eq!(e.mob.unwrap(), first);
    assert_eq!(e.pos, Position { x: 1, y: 5, z: 0 });
}

#[test]
fn applier_renders_and_keeps_running_animation() {
    let mut e = entity_at(1, 5);
    e.mob = Some(MovingObject::new(
        1000,
        MOVE_DURATION,
        &mapper(),
        Position { x: 1, y: 5, z: 0 },
        Position { x: 2, y: 5, z: 0 },
    ));
    MovingObjectSystem.apply(&mut e, 1050);
    assert_eq!(e.transform, WorldVec { x: 48, y: 160, z: 0 });
    assert!(e.mob.is_some());
    assert_eq!(e.pos, Position { x: 1, y: 5, z: 0 });
}

#[test]
fn applier_commits_and_retires_done_animation() {
    let mut e = entity_at(1, 5);
    e.mob = Some(MovingObject::new(
        1000,
        MOVE_DURATION,
        &mapper(),
        Position { x: 1, y: 5, z: 0 },
        Position { x: 2, y: 5, z: 0 },
    ));
    MovingObjectSystem.apply(&mut e, 1000 + MOVE_DURATION);
    assert_eq!(e.pos, Position { x: 2, y: 5, z: 0 });
    assert!(e.mob.is_none());
    assert_eq!(e.transform, WorldVec { x: 64, y: 160, z: 0 });
}

#[test]
fn applier_leaves_settled_entities_alone() {
    let mut e = entity_at(1, 5);
    let before = e;
    MovingObjectSystem.apply(&mut e, 1234);
    assert_eq!(e, before);
}

#[test]
fn end_to_end_admitted_move() {
    let level = open_level();
    assert!(!level.is_blocking(2, 5));
    let mut entities = vec![entity_at(1, 5)];
    let bundle = GameBundle;
    // the tick that admits the movement also renders its starting point
    bundle.tick(&level, &mapper(), &mut entities, 1, 0, 1000);
    let mob = entities[0].mob.expect("movement admitted");
    assert_eq!(mob.end_p, Position { x: 2, y: 5, z: 0 });
    assert_eq!(entities[0].pos, Position { x: 1, y: 5, z: 0 });
    assert_eq!(entities[0].transform, WorldVec { x: 32, y: 160, z: 0 });
    // once the duration has elapsed, the grid position is committed and the
    // animation removed, in the same tick
    bundle.tick(&level, &mapper(), &mut entities, 0, 0, 1000 + MOVE_DURATION);
    assert_eq!(entities[0].pos, Position { x: 2, y: 5, z: 0 });
    assert!(entities[0].mob.is_none());
    assert_eq!(entities[0].transform, WorldVec { x: 64, y: 160, z: 0 });
}

#[test]
fn end_to_end_blocked_move() {
    let level = walled_level();
    assert!(level.is_blocking(2, 5));
    let mut entities = vec![entity_at(1, 5)];
    let bundle = GameBundle;
    bundle.tick(&level, &mapper(), &mut entities, 1, 0, 1000);
    assert!(entities[0].mob.is_none());
    assert_eq!(entities[0].pos, Position { x: 1, y: 5, z: 0 });
    bundle.tick(&level, &mapper(), &mut entities, 1, 0, 1000 + MOVE_DURATION);
    assert_eq!(entities[0].pos, Position { x: 1, y: 5, z: 0 });
}

#[test]
fn exclusivity_across_ticks() {
    let level = open_level();
    let mut entities = vec![entity_at(1, 5)];
    let bundle = GameBundle;
    bundle.tick(&level, &mapper(), &mut entities, 1, 0, 1000);
    let first = entities[0].mob.expect("movement admitted");
    // held keys across ticks do not queue or replace movements
    bundle.tick(&level, &mapper(), &mut entities, 1, 0, 1030);
    bundle.tick(&level, &mapper(), &mut entities, 0, 1, 1060);
    bundle.tick(&level, &mapper(), &mut entities, -1, 0, 1099);
    assert_eq!(entities[0].mob.unwrap(), first);
    assert_eq!(entities[0].pos, Position { x: 1, y: 5, z: 0 });
    // the tick that reaches the completion time finally commits, and the
    // next intent is taken up again only after that
    bundle.tick(&level, &mapper(), &mut entities, 1, 0, 1100);
    assert!(entities[0].mob.is_none());
    assert_eq!(entities[0].pos, Position { x: 2, y: 5, z: 0 });
}

#[test]
fn zero_duration_animation_is_retired_in_its_first_tick() {
    let mut e = entity_at(1, 5);
    e.mob = Some(MovingObject::new(
        1000,
        0,
        &mapper(),
        Position { x: 1, y: 5, z: 0 },
        Position { x: 2, y: 5, z: 0 },
    ));
    MovingObjectSystem.apply(&mut e, 1000);
    assert!(e.mob.is_none());
    assert_eq!(e.pos, Position { x: 2, y: 5, z: 0 });
    assert_eq!(e.transform, WorldVec { x: 64, y: 160, z: 0 });
}
