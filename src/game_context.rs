use vstd::prelude::*;
use crate::components::{ComponentKind, Key};
use crate::entities::{spawn_all, spawn_all_tiles};
use crate::gameplay::{check_win, direction_of, is_won, next_intent, run_gameplay, step};
use crate::laws::{floors_under, lemma_floors_under_spawned};
use crate::map::{parse_map, parse_text, MapError, Placed};
use crate::rendering::{draw_calls, draw_order, DrawCall};
use crate::world::{GameState, World};

verus! {

/// The highest level number; higher requests load this level.
pub const MAX_LEVEL: u8 = 2;

/// One past the largest column of the cells.
pub open spec fn extent_x(ps: Seq<Placed>) -> int
    decreases ps.len(),
{
    if ps.len() == 0 {
        0
    } else {
        let e = extent_x(ps.drop_last());
        if ps.last().x + 1 > e {
            ps.last().x + 1
        } else {
            e
        }
    }
}

/// One past the largest row of the cells.
pub open spec fn extent_y(ps: Seq<Placed>) -> int
    decreases ps.len(),
{
    if ps.len() == 0 {
        0
    } else {
        let e = extent_y(ps.drop_last());
        if ps.last().y + 1 > e {
            ps.last().y + 1
        } else {
            e
        }
    }
}

/// The map error `r` holds is the bad token that `s` names.
pub open spec fn error_is(r: Result<(), MapError>, s: Result<Seq<Placed>, (Seq<char>, int, int)>) -> bool {
    match r {
        Ok(_) => s is Ok,
        Err(MapError::UnrecognizedToken { token, row, column }) => s == Err::<
            Seq<Placed>,
            (Seq<char>, int, int),
        >((token@, row as int, column as int)),
    }
}

/// The grid size that the cells occupy.
fn extents(ps: &Vec<Placed>) -> (r: (usize, usize))
    requires
        forall|i: int| 0 <= i < ps.len() ==> #[trigger] ps@[i].x < usize::MAX && ps@[i].y < usize::MAX,
    ensures
        r.0 == extent_x(ps@),
        r.1 == extent_y(ps@),
{
    let mut w: usize = 0;
    let mut h: usize = 0;
    let mut i: usize = 0;
    assert(ps@.take(0) =~= Seq::<Placed>::empty());
    while i < ps.len()
        invariant
            i <= ps.len(),
            w == extent_x(ps@.take(i as int)),
            h == extent_y(ps@.take(i as int)),
            forall|j: int| 0 <= j < ps.len() ==> #[trigger] ps@[j].x < usize::MAX && ps@[j].y < usize::MAX,
        decreases ps.len() - i,
    {
        let p = ps[i];
        assert(p.x < usize::MAX && p.y < usize::MAX);
        assert(ps@.take(i + 1).drop_last() =~= ps@.take(i as int));
        assert(ps@.take(i + 1).last() == p);
        if p.x >= w {
            w = p.x + 1;
        }
        if p.y >= h {
            h = p.y + 1;
        }
        i = i + 1;
    }
    assert(ps@.take(i as int) =~= ps@);
    (w, h)
}

/// The game: its world of entities and resources.
pub struct GameContext {
    pub world: World,
}

impl GameContext {
    pub fn from(world: World) -> (r: Self)
        ensures
            r.world == world,
    {
        GameContext { world }
    }

    /// The level that a request for `level` loads: `level`, at most `MAX_LEVEL`.
    pub fn level_index(level: u8) -> (r: u8)
        ensures
            r == if level < MAX_LEVEL {
                level
            } else {
                MAX_LEVEL
            },
    {
        if level < MAX_LEVEL {
            level
        } else {
            MAX_LEVEL
        }
    }

    /// Declares the storage of every component kind that is not declared yet.
    pub fn register_components(&mut self)
        requires
            old(self).world.wf(),
        ensures
            final(self).world.wf(),
            forall|k: ComponentKind| #[trigger] final(self).world.registered@.contains(k),
            final(self).world.entities@ == old(self).world.entities@,
            final(self).world.input_queue@ == old(self).world.input_queue@,
            final(self).world.game_state == old(self).world.game_state,
            final(self).world.width == old(self).world.width,
            final(self).world.height == old(self).world.height,
    {
        ensure_registered(&mut self.world, ComponentKind::Position);
        ensure_registered(&mut self.world, ComponentKind::Renderable);
        ensure_registered(&mut self.world, ComponentKind::Wall);
        ensure_registered(&mut self.world, ComponentKind::Player);
        ensure_registered(&mut self.world, ComponentKind::Box);
        ensure_registered(&mut self.world, ComponentKind::Spot);
        ensure_registered(&mut self.world, ComponentKind::Movable);
        ensure_registered(&mut self.world, ComponentKind::Blocking);
        ensure_registered(&mut self.world, ComponentKind::Directional);
    }

    /// Resets the resources: an empty input queue and a level not yet won.
    pub fn register_resources(&mut self)
        ensures
            final(self).world.input_queue@ == Seq::<Key>::empty(),
            final(self).world.game_state == (GameState { won: false }),
            final(self).world.entities@ == old(self).world.entities@,
            final(self).world.registered@ == old(self).world.registered@,
            final(self).world.width == old(self).world.width,
            final(self).world.height == old(self).world.height,
    {
        self.world.input_queue = Vec::new();
        self.world.game_state = GameState { won: false };
    }

    /// Adds the entities of a map text to the world and takes the map's size as the grid's.
    /// A token that names no tile is refused, and the world is then left as it was.
    pub fn generate_map(&mut self, map_string: String) -> (r: Result<(), MapError>)
        ensures
            error_is(r, parse_text(map_string@)),
            r is Err ==> final(self).world.entities@ == old(self).world.entities@
                && final(self).world.width == old(self).world.width
                && final(self).world.height == old(self).world.height,
            parse_text(map_string@) matches Ok(ps) ==> {
                &&& final(self).world.entities@ == old(self).world.entities@ + spawn_all(ps)
                &&& final(self).world.width == extent_x(ps)
                &&& final(self).world.height == extent_y(ps)
            },
            final(self).world.registered@ == old(self).world.registered@,
            final(self).world.input_queue@ == old(self).world.input_queue@,
            final(self).world.game_state == old(self).world.game_state,
    {
        match parse_map(map_string.as_str()) {
            Err(e) => Err(e),
            Ok(ps) => {
                spawn_all_tiles(&mut self.world, &ps);
                let (w, h) = extents(&ps);
                self.world.width = w;
                self.world.height = h;
                Ok(())
            },
        }
    }

    /// Replaces the level with the one a map text describes: the entities and queued keys
    /// of the previous level go, and the win is recomputed for the new one. On a refused
    /// map the world is left as it was.
    pub fn initialize_level(&mut self, map_string: String) -> (r: Result<(), MapError>)
        ensures
            error_is(r, parse_text(map_string@)),
            r is Err ==> final(self).world.entities@ == old(self).world.entities@
                && final(self).world.input_queue@ == old(self).world.input_queue@
                && final(self).world.game_state == old(self).world.game_state,
            parse_text(map_string@) matches Ok(ps) ==> {
                &&& final(self).world.entities@ == spawn_all(ps)
                &&& floors_under(final(self).world.entities@)
                &&& final(self).world.width == extent_x(ps)
                &&& final(self).world.height == extent_y(ps)
                &&& final(self).world.input_queue@ == Seq::<Key>::empty()
                &&& final(self).world.game_state.won == is_won(spawn_all(ps))
            },
            final(self).world.registered@ == old(self).world.registered@,
    {
        match parse_map(map_string.as_str()) {
            Err(e) => Err(e),
            Ok(ps) => {
                self.world.clear_entities();
                self.world.input_queue = Vec::new();
                spawn_all_tiles(&mut self.world, &ps);
                assert(self.world.entities@ =~= spawn_all(ps@));
                proof {
                    lemma_floors_under_spawned(ps@);
                }
                let (w, h) = extents(&ps);
                self.world.width = w;
                self.world.height = h;
                let won = check_win(&self.world.entities);
                self.world.game_state = GameState { won };
                Ok(())
            },
        }
    }

    /// One frame: takes the oldest queued key and, if it asks for a movement, plays it.
    pub fn update(&mut self)
        ensures
            old(self).world.input_queue.len() == 0 ==> final(self).world.input_queue@ == old(
                self,
            ).world.input_queue@ && final(self).world.entities@ == old(self).world.entities@
                && final(self).world.game_state == old(self).world.game_state,
            old(self).world.input_queue.len() > 0 ==> {
                &&& final(self).world.input_queue@ == old(self).world.input_queue@.drop_first()
                &&& match direction_of(old(self).world.input_queue@[0]) {
                    None => final(self).world.entities@ == old(self).world.entities@
                        && final(self).world.game_state == old(self).world.game_state,
                    Some(d) => final(self).world.entities@ == step(
                        old(self).world.entities@,
                        d,
                        old(self).world.width as int,
                        old(self).world.height as int,
                    ) && final(self).world.game_state.won == (old(self).world.game_state.won
                        || is_won(final(self).world.entities@)),
                }
            },
            final(self).world.registered@ == old(self).world.registered@,
            final(self).world.width == old(self).world.width,
            final(self).world.height == old(self).world.height,
    {
        match next_intent(&mut self.world) {
            Some(d) => run_gameplay(&mut self.world, d),
            None => {},
        }
    }

    /// The draw calls of the current frame.
    pub fn draw(&self) -> (r: Vec<DrawCall>)
        ensures
            r@ == draw_order(self.world.entities@),
    {
        draw_calls(&self.world.entities)
    }

    /// Queues a key press for a later frame.
    pub fn key_down_event(&mut self, key: Key)
        ensures
            final(self).world.input_queue@ == old(self).world.input_queue@.push(key),
            final(self).world.entities@ == old(self).world.entities@,
            final(self).world.registered@ == old(self).world.registered@,
            final(self).world.game_state == old(self).world.game_state,
            final(self).world.width == old(self).world.width,
            final(self).world.height == old(self).world.height,
    {
        self.world.input_queue.push(key);
    }
}

/// Declares `kind` unless it is declared already.
fn ensure_registered(world: &mut World, kind: ComponentKind)
    requires
        old(world).wf(),
    ensures
        final(world).wf(),
        final(world).registered@.contains(kind),
        forall|k: ComponentKind| #[trigger] old(world).registered@.contains(k) ==> final(world).registered@.contains(k),
        final(world).entities@ == old(world).entities@,
        final(world).input_queue@ == old(world).input_queue@,
        final(world).game_state == old(world).game_state,
        final(world).width == old(world).width,
        final(world).height == old(world).height,
{
    let ghost before = world.registered@;
    let _ = world.register(kind);
    assert(world.registered@.contains(kind)) by {
        if !before.contains(kind) {
            assert(world.registered@[before.len() as int] == kind);
        }
    }
    assert forall|k: ComponentKind| #[trigger] before.contains(k) implies world.registered@.contains(k) by {
        if !before.contains(kind) {
            let i = choose|i: int| 0 <= i < before.len() && before[i] == k;
            assert(world.registered@[i] == k);
        }
    }
}

} // verus!
