//! The per-tick movement systems: the coordinator that turns directional
//! intent into at most one admitted movement per entity, and the applier
//! that advances animations, commits completed moves, and retires the
//! animation in the tick that observes completion.

use vstd::prelude::*;

use crate::component::{MovingObject, Position, TileMapper, WorldVec};
use crate::level::Level;

verus! {

/// The fixed duration of one grid step, in clock units.
pub const MOVE_DURATION: u64 = 100;

/// The movement-relevant state of one entity: its authoritative grid
/// position, its in-flight animation if any, and its rendered world-space
/// position.
#[derive(Debug, Clone, Copy, PartialEq)]
pub struct Entity {
    pub pos: Position,
    pub mob: Option<MovingObject>,
    pub transform: WorldVec,
}

/// The horizontal-over-vertical intent rule: a non-zero horizontal intent
/// wins the tick, a vertical one applies only when the horizontal is zero.
pub open spec fn chosen_step(dx: int, dy: int) -> (int, int) {
    if dx != 0 {
        (dx, 0)
    } else if dy != 0 {
        (0, dy)
    } else {
        (0, 0)
    }
}

/// The candidate cell one step away, or `None` when the step leaves the
/// unsigned coordinate range.
pub open spec fn spec_step(p: Position, sx: int, sy: int) -> Option<Position> {
    if 0 <= p.x + sx <= u32::MAX && 0 <= p.y + sy <= u32::MAX {
        Some(Position { x: (p.x + sx) as u32, y: (p.y + sy) as u32, z: p.z })
    } else {
        None
    }
}

/// What coordination does to one entity in one tick: an entity already
/// carrying an animation is left alone; otherwise the intent picks a
/// candidate cell, and a movement to it is admitted exactly when the cell
/// exists and does not block.
pub open spec fn spec_coordinate(
    level: Level,
    mapper: TileMapper,
    e: Entity,
    dx: int,
    dy: int,
    now: u64,
) -> Entity {
    if e.mob is Some {
        e
    } else {
        let step = chosen_step(dx, dy);
        if step == (0int, 0int) {
            e
        } else {
            match spec_step(e.pos, step.0, step.1) {
                Option::None => e,
                Option::Some(c) => if level.spec_blocked(c.x as int, c.y as int) {
                    e
                } else {
                    Entity {
                        mob: Some(
                            MovingObject {
                                start_time: now,
                                duration: MOVE_DURATION,
                                start: mapper.spec_to_world(e.pos),
                                end: mapper.spec_to_world(c),
                                end_p: c,
                            },
                        ),
                        ..e
                    }
                },
            }
        }
    }
}

/// What application does to one entity in one tick: the interpolated
/// position is rendered; a completed animation commits its end cell as the
/// authoritative position and is retired in the same tick.
pub open spec fn spec_apply(e: Entity, now: u64) -> Entity {
    match e.mob {
        Option::None => e,
        Option::Some(m) => if m.spec_is_done(now) {
            Entity { pos: m.end_p, mob: None, transform: m.spec_interpolate(now) }
        } else {
            Entity { transform: m.spec_interpolate(now), ..e }
        },
    }
}

/// One full tick for one entity: coordination strictly before application,
/// both against the same clock reading.
pub open spec fn spec_tick(
    level: Level,
    mapper: TileMapper,
    e: Entity,
    dx: int,
    dy: int,
    now: u64,
) -> Entity {
    spec_apply(spec_coordinate(level, mapper, e, dx, dy, now), now)
}

/// The cell one step from `p`, or `None` when the step would leave the
/// coordinate range.
pub fn step_position(p: Position, sx: i32, sy: i32) -> (r: Option<Position>)
    requires
        -1 <= sx <= 1,
        -1 <= sy <= 1,
    ensures
        r == spec_step(p, sx as int, sy as int),
{
    let nx = if sx >= 0 {
        p.x.checked_add(sx as u32)
    } else {
        p.x.checked_sub(1)
    };
    let ny = if sy >= 0 {
        p.y.checked_add(sy as u32)
    } else {
        p.y.checked_sub(1)
    };
    match (nx, ny) {
        (Some(x), Some(y)) => Some(Position { x, y, z: p.z }),
        _ => None,
    }
}

/// Per-tick coordination of player movement: reads the resolved directional
/// intent, consults the grid for blocking, and attaches an animation to each
/// eligible entity.
#[derive(Debug, Default)]
pub struct PlayerSystem;

impl PlayerSystem {
    /// Coordinates one entity for this tick.
    pub fn coordinate(
        &self,
        level: &Level,
        mapper: &TileMapper,
        e: &mut Entity,
        dx: i32,
        dy: i32,
        now: u64,
    )
        requires
            level.wf(),
            mapper.wf(),
            -1 <= dx <= 1,
            -1 <= dy <= 1,
        ensures
            *final(e) == spec_coordinate(*level, *mapper, *old(e), dx as int, dy as int, now),
    {
        if e.mob.is_some() {
            return ;
        }
        let (sx, sy): (i32, i32) = if dx != 0 {
            (dx, 0)
        } else if dy != 0 {
            (0, dy)
        } else {
            return ;
        };
        match step_position(e.pos, sx, sy) {
            None => {},
            Some(c) => {
                if !level.is_blocking(c.x, c.y) {
                    e.mob = Some(MovingObject::new(now, MOVE_DURATION, mapper, e.pos, c));
                }
            },
        }
    }

    /// Coordinates every entity of the tick, in order.
    pub fn run(
        &self,
        level: &Level,
        mapper: &TileMapper,
        entities: &mut Vec<Entity>,
        dx: i32,
        dy: i32,
        now: u64,
    )
        requires
            level.wf(),
            mapper.wf(),
            -1 <= dx <= 1,
            -1 <= dy <= 1,
        ensures
            final(entities)@.len() == old(entities)@.len(),
            forall|i: int|
                0 <= i < old(entities)@.len() ==> final(entities)@[i] == spec_coordinate(
                    *level,
                    *mapper,
                    old(entities)@[i],
                    dx as int,
                    dy as int,
                    now,
                ),
    {
        let ghost orig = entities@;
        let n = entities.len();
        let mut i: usize = 0;
        while i < n
            invariant
                level.wf(),
                mapper.wf(),
                -1 <= dx <= 1,
                -1 <= dy <= 1,
                i <= n,
                entities@.len() == n,
                orig.len() == n,
                forall|k: int|
                    i <= k < n ==> entities@[k] == orig[k],
                forall|k: int|
                    0 <= k < i ==> entities@[k] == spec_coordinate(
                        *level,
                        *mapper,
                        orig[k],
                        dx as int,
                        dy as int,
                        now,
                    ),
            decreases n - i,
        {
            self.coordinate(level, mapper, &mut entities[i], dx, dy, now);
            i = i + 1;
        }
    }
}

/// Per-tick advancement of animations: writes the interpolated render
/// position and, in the tick that observes completion, commits the
/// authoritative grid position and removes the animation.
#[derive(Debug, Default)]
pub struct MovingObjectSystem;

impl MovingObjectSystem {
    /// Applies one entity's animation at the tick's clock reading.
    pub fn apply(&self, e: &mut Entity, now: u64)
        ensures
            *final(e) == spec_apply(*old(e), now),
    {
        if e.mob.is_some() {
            let m = e.mob.unwrap();
            e.transform = m.interpolate(now);
            if m.is_done(now) {
                e.pos = m.end_p;
                e.mob = None;
            }
        }
    }

    /// Applies every entity of the tick against the same clock reading.
    pub fn run(&self, entities: &mut Vec<Entity>, now: u64)
        ensures
            final(entities)@.len() == old(entities)@.len(),
            forall|i: int|
                0 <= i < old(entities)@.len() ==> final(entities)@[i] == spec_apply(
                    old(entities)@[i],
                    now,
                ),
    {
        let ghost orig = entities@;
        let n = entities.len();
        let mut i: usize = 0;
        while i < n
            invariant
                i <= n,
                entities@.len() == n,
                orig.len() == n,
                forall|k: int|
                    i <= k < n ==> entities@[k] == orig[k],
                forall|k: int|
                    0 <= k < i ==> entities@[k] == spec_apply(orig[k], now),
            decreases n - i,
        {
            self.apply(&mut entities[i], now);
            i = i + 1;
        }
    }
}

/// The fixed-order tick schedule: every entity is coordinated strictly
/// before any entity is applied, all against one clock reading of the tick.
#[derive(Debug, Default)]
pub struct GameBundle;

impl GameBundle {
    /// Runs one full tick over all entities.
    pub fn tick(
        &self,
        level: &Level,
        mapper: &TileMapper,
        entities: &mut Vec<Entity>,
        dx: i32,
        dy: i32,
        now: u64,
    )
        requires
            level.wf(),
            mapper.wf(),
            -1 <= dx <= 1,
            -1 <= dy <= 1,
        ensures
            final(entities)@.len() == old(entities)@.len(),
            forall|i: int|
                0 <= i < old(entities)@.len() ==> final(entities)@[i] == spec_tick(
                    *level,
                    *mapper,
                    old(entities)@[i],
                    dx as int,
                    dy as int,
                    now,
                ),
    {
        let coordinator = PlayerSystem;
        let applier = MovingObjectSystem;
        coordinator.run(level, mapper, entities, dx, dy, now);
        applier.run(entities, now);
    }
}

/// Exclusivity: while an entity's admitted movement is still active at the
/// tick's clock reading, the tick neither replaces the animation nor creates
/// a second one, and the authoritative position stands, whatever the
/// directional intent of the tick.
pub proof fn lemma_movement_exclusive(
    level: Level,
    mapper: TileMapper,
    e: Entity,
    dx: int,
    dy: int,
    now: u64,
)
    requires
        e.mob is Some,
        !e.mob.unwrap().spec_is_done(now),
    ensures
        spec_tick(level, mapper, e, dx, dy, now).mob == e.mob,
        spec_tick(level, mapper, e, dx, dy, now).pos == e.pos,
{
}

/// The entity left by a run of ticks, one intent pair and one clock reading
/// per tick.
pub open spec fn spec_run_ticks(
    level: Level,
    mapper: TileMapper,
    e: Entity,
    intents: Seq<(int, int)>,
    nows: Seq<u64>,
) -> Entity
    decreases intents.len(),
{
    if intents.len() == 0 || nows.len() == 0 {
        e
    } else {
        spec_run_ticks(
            level,
            mapper,
            spec_tick(level, mapper, e, intents[0].0, intents[0].1, nows[0]),
            intents.skip(1),
            nows.skip(1),
        )
    }
}

/// Exclusivity across ticks: as long as every tick's clock reading precedes
/// the completion of the animation the entity already carries, no run of
/// ticks — whatever its intents — admits a second movement or moves the
/// authoritative position.
pub proof fn lemma_exclusive_across_ticks(
    level: Level,
    mapper: TileMapper,
    e: Entity,
    intents: Seq<(int, int)>,
    nows: Seq<u64>,
)
    requires
        intents.len() == nows.len(),
        e.mob is Some,
        forall|i: int| 0 <= i < nows.len() ==> !e.mob.unwrap().spec_is_done(#[trigger] nows[i]),
    ensures
        spec_run_ticks(level, mapper, e, intents, nows).mob == e.mob,
        spec_run_ticks(level, mapper, e, intents, nows).pos == e.pos,
    decreases intents.len(),
{
    if intents.len() > 0 {
        lemma_movement_exclusive(level, mapper, e, intents[0].0, intents[0].1, nows[0]);
        let e1 = spec_tick(level, mapper, e, intents[0].0, intents[0].1, nows[0]);
        assert(e1.mob == e.mob && e1.pos == e.pos);
        assert(forall|i: int|
            0 <= i < nows.skip(1).len() ==> !e1.mob.unwrap().spec_is_done(
                #[trigger] nows.skip(1)[i],
            ));
        lemma_exclusive_across_ticks(level, mapper, e1, intents.skip(1), nows.skip(1));
    }
}

} // verus!
