use vstd::prelude::*;
use crate::components::{Direction, Entity, Key, Position};
use crate::world::{GameState, World};

verus! {

pub open spec fn at_cell(e: Entity, x: int, y: int) -> bool {
    e.position is Some && e.position->Some_0.x == x && e.position->Some_0.y == y
}

pub open spec fn is_player(e: Entity) -> bool {
    e.player && e.position is Some
}

/// The index of the first player entity, if any.
pub open spec fn first_player(es: Seq<Entity>) -> Option<int> {
    if exists|i: int| 0 <= i < es.len() && is_player(#[trigger] es[i]) {
        Some(
            choose|i: int|
                0 <= i < es.len() && is_player(#[trigger] es[i]) && forall|j: int|
                    0 <= j < i ==> !is_player(#[trigger] es[j]),
        )
    } else {
        None
    }
}

pub open spec fn dx(d: Direction) -> int {
    match d {
        Direction::Left => -1,
        Direction::Right => 1,
        _ => 0,
    }
}

pub open spec fn dy(d: Direction) -> int {
    match d {
        Direction::Up => -1,
        Direction::Down => 1,
        _ => 0,
    }
}

/// The cell one step from (x, y) in direction `d`, if it lies on the `w` by `h` grid.
pub open spec fn neighbor(x: int, y: int, d: Direction, w: int, h: int) -> Option<(int, int)> {
    let nx = x + dx(d);
    let ny = y + dy(d);
    if 0 <= nx < w && 0 <= ny < h {
        Some((nx, ny))
    } else {
        None
    }
}

/// A blocking entity that cannot be pushed (a wall).
pub open spec fn is_fixed_at(e: Entity, x: int, y: int) -> bool {
    e.blocking && !e.movable && at_cell(e, x, y)
}

/// A blocking entity that can be pushed (a box).
pub open spec fn is_pushable_at(e: Entity, x: int, y: int) -> bool {
    e.blocking && e.movable && at_cell(e, x, y)
}

pub open spec fn fixed_at(es: Seq<Entity>, x: int, y: int) -> bool {
    exists|i: int| 0 <= i < es.len() && is_fixed_at(#[trigger] es[i], x, y)
}

pub open spec fn pushable_at(es: Seq<Entity>, x: int, y: int) -> bool {
    exists|i: int| 0 <= i < es.len() && is_pushable_at(#[trigger] es[i], x, y)
}

pub open spec fn blocked_at(es: Seq<Entity>, x: int, y: int) -> bool {
    exists|i: int| 0 <= i < es.len() && (#[trigger] es[i]).blocking && at_cell(es[i], x, y)
}

/// `e` moved to (x, y) on its own layer.
pub open spec fn moved_to(e: Entity, x: int, y: int) -> Entity {
    Entity {
        position: Some(Position { x: x as usize, y: y as usize, z: e.position->Some_0.z }),
        ..e
    }
}

pub open spec fn facing(e: Entity, d: Direction) -> Entity {
    Entity { directional: Some(d), ..e }
}

/// The entities after the player at index `p` tries to move in direction `d`.
///
/// The player always turns to face `d`. It steps into the next cell when that cell is on the
/// grid and holds nothing blocking; when the cell holds boxes and nothing fixed, and the
/// cell beyond is on the grid and holds nothing blocking, the boxes move there and the
/// player steps in. Otherwise nothing moves.
pub open spec fn after_move(es: Seq<Entity>, p: int, d: Direction, w: int, h: int) -> Seq<Entity> {
    let e = es[p];
    let pos = e.position->Some_0;
    let faced = es.update(p, facing(e, d));
    match neighbor(pos.x as int, pos.y as int, d, w, h) {
        None => faced,
        Some(t) => if fixed_at(es, t.0, t.1) {
            faced
        } else if pushable_at(es, t.0, t.1) {
            match neighbor(t.0, t.1, d, w, h) {
                None => faced,
                Some(b) => if blocked_at(es, b.0, b.1) {
                    faced
                } else {
                    Seq::new(
                        es.len(),
                        |i: int|
                            if i == p {
                                moved_to(facing(e, d), t.0, t.1)
                            } else if is_pushable_at(es[i], t.0, t.1) {
                                moved_to(es[i], b.0, b.1)
                            } else {
                                es[i]
                            },
                    )
                },
            }
        } else {
            es.update(p, moved_to(facing(e, d), t.0, t.1))
        },
    }
}

/// The entities after the first player tries to move in direction `d`.
pub open spec fn step(es: Seq<Entity>, d: Direction, w: int, h: int) -> Seq<Entity> {
    match first_player(es) {
        None => es,
        Some(p) => after_move(es, p, d, w, h),
    }
}

pub open spec fn is_spot(e: Entity) -> bool {
    e.spot_color is Some && e.position is Some
}

/// Box `b` stands on spot `s` and has its color.
pub open spec fn covers(b: Entity, s: Entity) -> bool {
    &&& b.box_color is Some
    &&& b.box_color == s.spot_color
    &&& b.position is Some
    &&& s.position is Some
    &&& b.position->Some_0.x == s.position->Some_0.x
    &&& b.position->Some_0.y == s.position->Some_0.y
}

/// Every spot is covered by a box of its color.
pub open spec fn is_won(es: Seq<Entity>) -> bool {
    forall|i: int|
        0 <= i < es.len() && is_spot(#[trigger] es[i]) ==> exists|j: int|
            0 <= j < es.len() && covers(#[trigger] es[j], es[i])
}

pub open spec fn direction_of(k: Key) -> Option<Direction> {
    match k {
        Key::Up => Some(Direction::Up),
        Key::Down => Some(Direction::Down),
        Key::Left => Some(Direction::Left),
        Key::Right => Some(Direction::Right),
        Key::Other => None,
    }
}

/// The movement a key asks for, if any.
pub fn key_direction(k: Key) -> (r: Option<Direction>)
    ensures
        r == direction_of(k),
{
    match k {
        Key::Up => Some(Direction::Up),
        Key::Down => Some(Direction::Down),
        Key::Left => Some(Direction::Left),
        Key::Right => Some(Direction::Right),
        Key::Other => None,
    }
}

/// The index of the first player entity.
pub fn find_player(es: &Vec<Entity>) -> (r: Option<usize>)
    ensures
        r matches Some(p) ==> p < es.len() && is_player(es@[p as int]) && first_player(es@) == Some(
            p as int,
        ),
        r is None ==> first_player(es@) is None,
{
    let mut i: usize = 0;
    while i < es.len()
        invariant
            i <= es.len(),
            forall|j: int| 0 <= j < i ==> !is_player(#[trigger] es@[j]),
        decreases es.len() - i,
    {
        let e = es[i];
        if e.player && e.position.is_some() {
            let ghost c = choose|c: int|
                0 <= c < es@.len() && is_player(#[trigger] es@[c]) && forall|j: int|
                    0 <= j < c ==> !is_player(#[trigger] es@[j]);
            assert(0 <= i < es@.len() && is_player(es@[i as int]));
            assert(first_player(es@) == Some(c));
            assert(c == i) by {
                if c < i {
                    assert(!is_player(es@[c]));
                } else if c > i {
                    assert(!is_player(es@[i as int]));
                }
            }
            return Some(i);
        }
        i = i + 1;
    }
    None
}

/// The grid cell one step from (x, y) in direction `d`, if it lies on the `w` by `h` grid.
pub fn neighbor_cell(x: usize, y: usize, d: Direction, w: usize, h: usize) -> (r: Option<(usize, usize)>)
    ensures
        r matches Some(c) ==> neighbor(x as int, y as int, d, w as int, h as int) == Some(
            (c.0 as int, c.1 as int),
        ),
        r is None ==> neighbor(x as int, y as int, d, w as int, h as int) is None,
{
    match d {
        Direction::Up => if y > 0 && x < w && y - 1 < h {
            Some((x, y - 1))
        } else {
            None
        },
        Direction::Down => if x < w && y < h && y + 1 < h {
            Some((x, y + 1))
        } else {
            None
        },
        Direction::Left => if x > 0 && x - 1 < w && y < h {
            Some((x - 1, y))
        } else {
            None
        },
        Direction::Right => if x < w && x + 1 < w && y < h {
            Some((x + 1, y))
        } else {
            None
        },
    }
}

/// What blocks cell (x, y): whether a fixed entity does, and whether a pushable one does.
pub fn blockers_at(es: &Vec<Entity>, x: usize, y: usize) -> (r: (bool, bool))
    ensures
        r.0 == fixed_at(es@, x as int, y as int),
        r.1 == pushable_at(es@, x as int, y as int),
{
    let mut fixed = false;
    let mut pushable = false;
    let mut i: usize = 0;
    while i < es.len()
        invariant
            i <= es.len(),
            fixed == exists|j: int| 0 <= j < i && is_fixed_at(#[trigger] es@[j], x as int, y as int),
            pushable == exists|j: int|
                0 <= j < i && is_pushable_at(#[trigger] es@[j], x as int, y as int),
        decreases es.len() - i,
    {
        let e = es[i];
        match e.position {
            Some(p) => {
                if e.blocking && p.x == x && p.y == y {
                    if e.movable {
                        pushable = true;
                    } else {
                        fixed = true;
                    }
                }
            },
            None => {},
        }
        assert(is_fixed_at(es@[i as int], x as int, y as int) == (e.blocking && !e.movable && at_cell(e, x as int, y as int)));
        i = i + 1;
    }
    (fixed, pushable)
}

proof fn lemma_blocked_split(es: Seq<Entity>, x: int, y: int)
    ensures
        blocked_at(es, x, y) == (fixed_at(es, x, y) || pushable_at(es, x, y)),
{
    if blocked_at(es, x, y) {
        let i = choose|i: int| 0 <= i < es.len() && (#[trigger] es[i]).blocking && at_cell(es[i], x, y);
        if es[i].movable {
            assert(is_pushable_at(es[i], x, y));
        } else {
            assert(is_fixed_at(es[i], x, y));
        }
    }
    if fixed_at(es, x, y) {
        let i = choose|i: int| 0 <= i < es.len() && is_fixed_at(#[trigger] es[i], x, y);
        assert(es[i].blocking && at_cell(es[i], x, y));
    }
    if pushable_at(es, x, y) {
        let i = choose|i: int| 0 <= i < es.len() && is_pushable_at(#[trigger] es[i], x, y);
        assert(es[i].blocking && at_cell(es[i], x, y));
    }
}


/// Moves the boxes at (tx, ty) to (bx, by) and the player at index `p` to (tx, ty).
fn push_boxes(es: &mut Vec<Entity>, p: usize, d: Direction, tx: usize, ty: usize, bx: usize, by: usize)
    requires
        p < old(es).len(),
        old(es)@[p as int].position is Some,
        !is_pushable_at(old(es)@[p as int], tx as int, ty as int),
    ensures
        final(es)@ == Seq::new(
            old(es)@.len(),
            |i: int|
                if i == p {
                    moved_to(facing(old(es)@[p as int], d), tx as int, ty as int)
                } else if is_pushable_at(old(es)@[i], tx as int, ty as int) {
                    moved_to(old(es)@[i], bx as int, by as int)
                } else {
                    old(es)@[i]
                },
        ),
{
    let ghost orig = es@;
    let mut i: usize = 0;
    while i < es.len()
        invariant
            i <= es.len(),
            es.len() == orig.len(),
            p < orig.len(),
            orig[p as int].position is Some,
            !is_pushable_at(orig[p as int], tx as int, ty as int),
            forall|k: int|
                0 <= k < i ==> #[trigger] es@[k] == (if is_pushable_at(orig[k], tx as int, ty as int) {
                    moved_to(orig[k], bx as int, by as int)
                } else {
                    orig[k]
                }),
            forall|k: int| i <= k < es.len() ==> #[trigger] es@[k] == orig[k],
        decreases es.len() - i,
    {
        let e = es[i];
        match e.position {
            Some(q) => {
                if e.blocking && e.movable && q.x == tx && q.y == ty {
                    es.set(i, Entity { position: Some(Position { x: bx, y: by, z: q.z }), ..e });
                }
            },
            None => {},
        }
        i = i + 1;
    }
    let e = es[p];
    match e.position {
        Some(q) => {
            es.set(
                p,
                Entity { position: Some(Position { x: tx, y: ty, z: q.z }), directional: Some(d), ..e },
            );
        },
        None => {},
    }
    assert(es@ =~= Seq::new(
        orig.len(),
        |i: int|
            if i == p {
                moved_to(facing(orig[p as int], d), tx as int, ty as int)
            } else if is_pushable_at(orig[i], tx as int, ty as int) {
                moved_to(orig[i], bx as int, by as int)
            } else {
                orig[i]
            },
    ));
}

/// Tries to move the first player one cell in direction `d`, pushing a box if one is in
/// the way; the player faces `d` afterwards whether or not anything moved.
#[verifier::rlimit(40)]
pub fn move_player(world: &mut World, d: Direction)
    ensures
        final(world).entities@ == step(old(world).entities@, d, old(world).width as int, old(world).height as int),
        final(world).registered@ == old(world).registered@,
        final(world).input_queue@ == old(world).input_queue@,
        final(world).game_state == old(world).game_state,
        final(world).width == old(world).width,
        final(world).height == old(world).height,
{
    let ghost es = world.entities@;
    let ghost w = world.width as int;
    let ghost h = world.height as int;
    let p = match find_player(&world.entities) {
        None => {
            return ;
        },
        Some(p) => p,
    };
    assert(step(es, d, w, h) == after_move(es, p as int, d, w, h));
    let e = world.entities[p];
    let pos = match e.position {
        Some(q) => q,
        None => {
            return ;
        },
    };
    let faced = Entity { directional: Some(d), ..e };
    assert(faced == facing(e, d));
    let target = neighbor_cell(pos.x, pos.y, d, world.width, world.height);
    let (tx, ty) = match target {
        None => {
            world.entities.set(p, faced);
            assert(world.entities@ == after_move(es, p as int, d, w, h));
            return ;
        },
        Some(t) => t,
    };
    let (fixed, pushable) = blockers_at(&world.entities, tx, ty);
    if fixed {
        world.entities.set(p, faced);
        assert(world.entities@ == after_move(es, p as int, d, w, h));
        return ;
    }
    if !pushable {
        world.entities.set(p, Entity { position: Some(Position { x: tx, y: ty, z: pos.z }), ..faced });
        assert(world.entities@ == after_move(es, p as int, d, w, h));
        return ;
    }
    let (bx, by) = match neighbor_cell(tx, ty, d, world.width, world.height) {
        None => {
            world.entities.set(p, faced);
            assert(world.entities@ == after_move(es, p as int, d, w, h));
            return ;
        },
        Some(b) => b,
    };
    let (bfixed, bpushable) = blockers_at(&world.entities, bx, by);
    proof {
        lemma_blocked_split(es, bx as int, by as int);
    }
    if bfixed || bpushable {
        world.entities.set(p, faced);
        assert(world.entities@ == after_move(es, p as int, d, w, h));
        return ;
    }
    push_boxes(&mut world.entities, p, d, tx, ty, bx, by);
    assert(world.entities@ == after_move(es, p as int, d, w, h));
}

/// Whether some box of spot `s`'s color stands on it.
fn has_cover(es: &Vec<Entity>, s: Entity) -> (r: bool)
    ensures
        r == exists|j: int| 0 <= j < es.len() && covers(#[trigger] es@[j], s),
{
    let mut i: usize = 0;
    while i < es.len()
        invariant
            i <= es.len(),
            forall|j: int| 0 <= j < i ==> !covers(#[trigger] es@[j], s),
        decreases es.len() - i,
    {
        let b = es[i];
        match (b.box_color, b.position, s.spot_color, s.position) {
            (Some(bc), Some(bp), Some(sc), Some(sp)) => {
                if bc == sc && bp.x == sp.x && bp.y == sp.y {
                    assert(covers(es@[i as int], s));
                    return true;
                }
            },
            _ => {},
        }
        i = i + 1;
    }
    false
}

/// Whether every spot is covered by a box of its color.
pub fn check_win(es: &Vec<Entity>) -> (r: bool)
    ensures
        r == is_won(es@),
{
    let mut i: usize = 0;
    while i < es.len()
        invariant
            i <= es.len(),
            forall|k: int|
                0 <= k < i && is_spot(#[trigger] es@[k]) ==> exists|j: int|
                    0 <= j < es.len() && covers(#[trigger] es@[j], es@[k]),
        decreases es.len() - i,
    {
        let s = es[i];
        if s.spot_color.is_some() && s.position.is_some() {
            if !has_cover(es, s) {
                assert(is_spot(es@[i as int]));
                return false;
            }
        }
        i = i + 1;
    }
    true
}

/// Plays one movement intent: moves the player, then records a win once every spot is
/// covered. A win, once recorded, stays.
pub fn run_gameplay(world: &mut World, d: Direction)
    ensures
        final(world).entities@ == step(old(world).entities@, d, old(world).width as int, old(world).height as int),
        final(world).game_state.won == (old(world).game_state.won || is_won(final(world).entities@)),
        final(world).registered@ == old(world).registered@,
        final(world).input_queue@ == old(world).input_queue@,
        final(world).width == old(world).width,
        final(world).height == old(world).height,
{
    move_player(world, d);
    if !world.game_state.won {
        let won = check_win(&world.entities);
        world.game_state = GameState { won };
    }
}

/// Takes the oldest queued key, if any, and returns the movement it asks for.
pub fn next_intent(world: &mut World) -> (r: Option<Direction>)
    ensures
        old(world).input_queue.len() == 0 ==> r is None && final(world).input_queue@ == old(world).input_queue@,
        old(world).input_queue.len() > 0 ==> r == direction_of(old(world).input_queue@[0])
            && final(world).input_queue@ == old(world).input_queue@.drop_first(),
        final(world).entities@ == old(world).entities@,
        final(world).registered@ == old(world).registered@,
        final(world).game_state == old(world).game_state,
        final(world).width == old(world).width,
        final(world).height == old(world).height,
{
    if world.input_queue.len() == 0 {
        return None;
    }
    let k = world.input_queue.remove(0);
    assert(world.input_queue@ =~= old(world).input_queue@.drop_first());
    key_direction(k)
}

} // verus!
