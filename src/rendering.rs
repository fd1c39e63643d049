use vstd::prelude::*;
use crate::components::{Entity, Renderable};

verus! {

/// Width and height of one grid cell on screen, in pixels.
pub const TILE_WIDTH: u32 = 32;

/// One sprite to draw at a grid cell.
#[derive(Clone, Copy, Debug, PartialEq, Eq, Structural)]
pub struct DrawCall {
    pub sprite: Renderable,
    pub x: usize,
    pub y: usize,
    pub z: u8,
}

pub open spec fn drawable(e: Entity) -> bool {
    e.renderable is Some && e.position is Some
}

pub open spec fn draw_of(e: Entity) -> DrawCall {
    DrawCall {
        sprite: e.renderable->Some_0,
        x: e.position->Some_0.x,
        y: e.position->Some_0.y,
        z: e.position->Some_0.z,
    }
}

/// The draw calls of the drawable entities on layer `z`, in insertion order.
pub open spec fn layer(es: Seq<Entity>, z: int) -> Seq<DrawCall>
    decreases es.len(),
{
    if es.len() == 0 {
        Seq::empty()
    } else {
        let p = layer(es.drop_last(), z);
        if drawable(es.last()) && es.last().position->Some_0.z == z {
            p.push(draw_of(es.last()))
        } else {
            p
        }
    }
}

/// The draw calls of all layers below `z`, lowest layer first.
pub open spec fn layers_below(es: Seq<Entity>, z: int) -> Seq<DrawCall>
    decreases z,
{
    if z <= 0 {
        Seq::empty()
    } else {
        layers_below(es, z - 1) + layer(es, z - 1)
    }
}

/// One draw call per drawable entity, ordered by layer and then by insertion.
pub open spec fn draw_order(es: Seq<Entity>) -> Seq<DrawCall> {
    layers_below(es, 256)
}

/// The draw calls for every entity with a position and a sprite, lowest layer first and,
/// within a layer, in the order the entities were created.
pub fn draw_calls(es: &Vec<Entity>) -> (r: Vec<DrawCall>)
    ensures
        r@ == draw_order(es@),
{
    let mut out: Vec<DrawCall> = Vec::new();
    let mut z: u16 = 0;
    while z < 256
        invariant
            z <= 256,
            out@ == layers_below(es@, z as int),
        decreases 256 - z,
    {
        let ghost before = out@;
        let mut i: usize = 0;
        assert(es@.take(0) =~= Seq::<Entity>::empty());
        assert(before + layer(es@.take(0), z as int) =~= before);
        while i < es.len()
            invariant
                i <= es.len(),
                z < 256,
                out@ == before + layer(es@.take(i as int), z as int),
            decreases es.len() - i,
        {
            let e = es[i];
            assert(es@.take(i + 1).drop_last() =~= es@.take(i as int));
            match (e.renderable, e.position) {
                (Some(sprite), Some(p)) => {
                    if p.z as u16 == z {
                        out.push(DrawCall { sprite, x: p.x, y: p.y, z: p.z });
                    }
                },
                _ => {},
            }
            assert(out@ =~= before + layer(es@.take(i + 1), z as int));
            i = i + 1;
        }
        assert(es@.take(i as int) =~= es@);
        z = z + 1;
    }
    out
}

} // verus!
