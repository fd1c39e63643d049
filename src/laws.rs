use vstd::prelude::*;
use crate::components::{Direction, Entity, Renderable};
use crate::entities::{spawn_all, tile_entities};
use crate::gameplay::{
    after_move, at_cell, blocked_at, facing, covers, dx, dy, first_player, fixed_at, is_player, is_pushable_at,
    is_spot, is_won,
    neighbor, pushable_at, step,
};
use crate::map::Placed;
use crate::world::blank;

verus! {

pub open spec fn is_floor(e: Entity) -> bool {
    e.renderable matches Some(Renderable::Floor(_, _))
}

pub open spec fn same_cell(a: Entity, b: Entity) -> bool {
    &&& a.position is Some
    &&& b.position is Some
    &&& a.position->Some_0.x == b.position->Some_0.x
    &&& a.position->Some_0.y == b.position->Some_0.y
}

/// Every placed entity that is not a floor has a floor entity in its cell.
pub open spec fn floors_under(es: Seq<Entity>) -> bool {
    forall|i: int|
        0 <= i < es.len() && (#[trigger] es[i]).position is Some && !is_floor(es[i]) ==> exists|
            j: int,
        |
            0 <= j < es.len() && is_floor(#[trigger] es[j]) && same_cell(es[j], es[i])
}

/// Whatever map cells are loaded, every non-floor entity they create has a floor beneath it.
pub proof fn lemma_floors_under_spawned(ps: Seq<Placed>)
    ensures
        floors_under(spawn_all(ps)),
    decreases ps.len(),
{
    if ps.len() > 0 {
        lemma_floors_under_spawned(ps.drop_last());
        let a = spawn_all(ps.drop_last());
        let t = tile_entities(ps.last());
        let es = spawn_all(ps);
        assert(es == a + t);
        assert forall|i: int|
            0 <= i < es.len() && (#[trigger] es[i]).position is Some && !is_floor(
                es[i],
            ) implies exists|j: int|
            0 <= j < es.len() && is_floor(#[trigger] es[j]) && same_cell(es[j], es[i]) by {
            if i < a.len() {
                assert(a[i] == es[i]);
                let j = choose|j: int| 0 <= j < a.len() && is_floor(#[trigger] a[j]) && same_cell(a[j], a[i]);
                assert(es[j] == a[j]);
            } else {
                let j = es.len() - 1;
                assert(es[j] == t[t.len() - 1]);
                assert(is_floor(es[j]) && same_cell(es[j], es[i]));
            }
        }
    }
}

/// Pushing a box against a wall or another box moves nothing: every entity keeps its
/// position.
pub proof fn lemma_blocked_push_moves_nothing(
    es: Seq<Entity>,
    d: Direction,
    w: usize,
    h: usize,
    p: int,
    tx: int,
    ty: int,
    bx: int,
    by: int,
)
    requires
        first_player(es) == Some(p),
        neighbor(
            es[p].position->Some_0.x as int,
            es[p].position->Some_0.y as int,
            d,
            w as int,
            h as int,
        ) == Some((tx, ty)),
        pushable_at(es, tx, ty),
        neighbor(tx, ty, d, w as int, h as int) == Some((bx, by)),
        blocked_at(es, bx, by),
    ensures
        step(es, d, w as int, h as int).len() == es.len(),
        forall|i: int| 0 <= i < es.len() ==> (#[trigger] step(es, d, w as int, h as int)[i]).position == es[i].position,
{
    lemma_first_player(es);
    let faced = es.update(p, facing(es[p], d));
    assert(after_move(es, p, d, w as int, h as int) == faced);
    assert(step(es, d, w as int, h as int) == faced);
}

/// A first player, when there is one, is a player entity of the sequence.
pub proof fn lemma_first_player(es: Seq<Entity>)
    ensures
        first_player(es) matches Some(p) ==> 0 <= p < es.len() && is_player(es[p]),
{
    if exists|i: int| 0 <= i < es.len() && is_player(#[trigger] es[i]) {
        let i = choose|i: int| 0 <= i < es.len() && is_player(#[trigger] es[i]);
        lemma_least_player(es, i);
    }
}

proof fn lemma_least_player(es: Seq<Entity>, i: int)
    requires
        0 <= i < es.len(),
        is_player(es[i]),
    ensures
        exists|m: int|
            0 <= m < es.len() && is_player(#[trigger] es[m]) && forall|j: int|
                0 <= j < m ==> !is_player(#[trigger] es[j]),
    decreases i,
{
    if exists|j: int| 0 <= j < i && is_player(#[trigger] es[j]) {
        let j = choose|j: int| 0 <= j < i && is_player(#[trigger] es[j]);
        lemma_least_player(es, j);
    } else {
        assert(forall|j: int| 0 <= j < i ==> !is_player(#[trigger] es[j]));
    }
}

/// Pushing a box into a free cell on the grid moves the box one step in the pushed
/// direction and the player into the cell the box left.
pub proof fn lemma_push_into_free_cell(
    es: Seq<Entity>,
    d: Direction,
    w: usize,
    h: usize,
    p: int,
    k: int,
    tx: int,
    ty: int,
    bx: int,
    by: int,
)
    requires
        first_player(es) == Some(p),
        neighbor(
            es[p].position->Some_0.x as int,
            es[p].position->Some_0.y as int,
            d,
            w as int,
            h as int,
        ) == Some((tx, ty)),
        0 <= k < es.len(),
        is_pushable_at(es[k], tx, ty),
        !fixed_at(es, tx, ty),
        neighbor(tx, ty, d, w as int, h as int) == Some((bx, by)),
        !blocked_at(es, bx, by),
    ensures
        at_cell(step(es, d, w as int, h as int)[k], tx + dx(d), ty + dy(d)),
        step(es, d, w as int, h as int)[k].position->Some_0.z == es[k].position->Some_0.z,
        at_cell(step(es, d, w as int, h as int)[p], tx, ty),
        step(es, d, w as int, h as int)[p].directional == Some(d),
{
    lemma_first_player(es);
    assert(pushable_at(es, tx, ty));
    assert(k != p) by {
        if k == p {
            assert(at_cell(es[p], tx, ty));
        }
    }
}

/// A box that covers no spot, added to a position that is not won, does not win it.
pub proof fn lemma_unmatched_box_keeps_loss(es: Seq<Entity>, b: Entity)
    requires
        !is_won(es),
        b.spot_color is None,
        forall|i: int| 0 <= i < es.len() && is_spot(#[trigger] es[i]) ==> !covers(b, es[i]),
    ensures
        !is_won(es.push(b)),
{
    let i = choose|i: int|
        0 <= i < es.len() && is_spot(#[trigger] es[i]) && !exists|j: int|
            0 <= j < es.len() && covers(#[trigger] es[j], es[i]);
    let n = es.push(b);
    assert(n[i] == es[i]);
    assert forall|j: int| 0 <= j < n.len() implies !covers(#[trigger] n[j], n[i]) by {
        if j < es.len() {
            assert(n[j] == es[j]);
        }
    }
}

/// Removing an entity that is not a spot from a position that is not won does not win it.
pub proof fn lemma_removal_keeps_loss(es: Seq<Entity>, k: int)
    requires
        !is_won(es),
        0 <= k < es.len(),
        !is_spot(es[k]),
    ensures
        !is_won(es.update(k, blank())),
{
    let i = choose|i: int|
        0 <= i < es.len() && is_spot(#[trigger] es[i]) && !exists|j: int|
            0 <= j < es.len() && covers(#[trigger] es[j], es[i]);
    let n = es.update(k, blank());
    assert(i != k);
    assert(n[i] == es[i]);
    assert forall|j: int| 0 <= j < n.len() implies !covers(#[trigger] n[j], n[i]) by {
        if j != k {
            assert(n[j] == es[j]);
        }
    }
}

} // verus!
