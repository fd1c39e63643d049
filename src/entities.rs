use vstd::prelude::*;
use crate::components::{
    BoxSpotColor, BoxType, Direction, Entity, FloorMaterial, FloorType, Position, Renderable, Tile,
    WallColor, WallShape,
};
use crate::map::Placed;
use crate::world::World;

verus! {

pub const FLOOR_Z: u8 = 5;

pub const SPOT_Z: u8 = 9;

pub const TOP_Z: u8 = 10;

pub open spec fn at_layer(p: Position, z: u8) -> Position {
    Position { x: p.x, y: p.y, z }
}

pub open spec fn floor_entity(p: Position, t: FloorType, m: FloorMaterial) -> Entity {
    Entity {
        position: Some(at_layer(p, FLOOR_Z)),
        renderable: Some(Renderable::Floor(t, m)),
        wall: false,
        player: false,
        box_color: None,
        spot_color: None,
        movable: false,
        blocking: false,
        directional: None,
    }
}

pub open spec fn wall_entity(p: Position, c: WallColor, s: WallShape) -> Entity {
    Entity {
        position: Some(at_layer(p, TOP_Z)),
        renderable: Some(Renderable::Wall(c, s)),
        wall: true,
        player: false,
        box_color: None,
        spot_color: None,
        movable: false,
        blocking: true,
        directional: None,
    }
}

pub open spec fn player_entity(p: Position, d: Direction) -> Entity {
    Entity {
        position: Some(at_layer(p, TOP_Z)),
        renderable: Some(Renderable::Player),
        wall: false,
        player: true,
        box_color: None,
        spot_color: None,
        movable: true,
        blocking: false,
        directional: Some(d),
    }
}

pub open spec fn box_entity(p: Position, t: BoxType, c: BoxSpotColor) -> Entity {
    Entity {
        position: Some(at_layer(p, TOP_Z)),
        renderable: Some(Renderable::Box(t, c)),
        wall: false,
        player: false,
        box_color: Some(c),
        spot_color: None,
        movable: true,
        blocking: true,
        directional: None,
    }
}

pub open spec fn spot_entity(p: Position, c: BoxSpotColor) -> Entity {
    Entity {
        position: Some(at_layer(p, SPOT_Z)),
        renderable: Some(Renderable::Spot(c)),
        wall: false,
        player: false,
        box_color: None,
        spot_color: Some(c),
        movable: false,
        blocking: false,
        directional: None,
    }
}

pub struct EntityBuilder;

impl EntityBuilder {
    pub fn create_floor(world: &mut World, position: Position, t: FloorType, m: FloorMaterial) -> (id: usize)
        ensures
            id == old(world).entities.len(),
            final(world).entities@ == old(world).entities@.push(floor_entity(position, t, m)),
            final(world).registered@ == old(world).registered@,
            final(world).input_queue@ == old(world).input_queue@,
            final(world).game_state == old(world).game_state,
            final(world).width == old(world).width,
            final(world).height == old(world).height,
    {
        world.create_entity(
            Entity {
                position: Some(Position { x: position.x, y: position.y, z: FLOOR_Z }),
                renderable: Some(Renderable::Floor(t, m)),
                wall: false,
                player: false,
                box_color: None,
                spot_color: None,
                movable: false,
                blocking: false,
                directional: None,
            },
        )
    }

    pub fn create_wall(world: &mut World, position: Position, c: WallColor, s: WallShape) -> (id: usize)
        ensures
            id == old(world).entities.len(),
            final(world).entities@ == old(world).entities@.push(wall_entity(position, c, s)),
            final(world).registered@ == old(world).registered@,
            final(world).input_queue@ == old(world).input_queue@,
            final(world).game_state == old(world).game_state,
            final(world).width == old(world).width,
            final(world).height == old(world).height,
    {
        world.create_entity(
            Entity {
                position: Some(Position { x: position.x, y: position.y, z: TOP_Z }),
                renderable: Some(Renderable::Wall(c, s)),
                wall: true,
                player: false,
                box_color: None,
                spot_color: None,
                movable: false,
                blocking: true,
                directional: None,
            },
        )
    }

    pub fn create_player(world: &mut World, position: Position, d: Direction) -> (id: usize)
        ensures
            id == old(world).entities.len(),
            final(world).entities@ == old(world).entities@.push(player_entity(position, d)),
            final(world).registered@ == old(world).registered@,
            final(world).input_queue@ == old(world).input_queue@,
            final(world).game_state == old(world).game_state,
            final(world).width == old(world).width,
            final(world).height == old(world).height,
    {
        world.create_entity(
            Entity {
                position: Some(Position { x: position.x, y: position.y, z: TOP_Z }),
                renderable: Some(Renderable::Player),
                wall: false,
                player: true,
                box_color: None,
                spot_color: None,
                movable: true,
                blocking: false,
                directional: Some(d),
            },
        )
    }

    pub fn create_box(world: &mut World, position: Position, t: BoxType, c: BoxSpotColor) -> (id: usize)
        ensures
            id == old(world).entities.len(),
            final(world).entities@ == old(world).entities@.push(box_entity(position, t, c)),
            final(world).registered@ == old(world).registered@,
            final(world).input_queue@ == old(world).input_queue@,
            final(world).game_state == old(world).game_state,
            final(world).width == old(world).width,
            final(world).height == old(world).height,
    {
        world.create_entity(
            Entity {
                position: Some(Position { x: position.x, y: position.y, z: TOP_Z }),
                renderable: Some(Renderable::Box(t, c)),
                wall: false,
                player: false,
                box_color: Some(c),
                spot_color: None,
                movable: true,
                blocking: true,
                directional: None,
            },
        )
    }

    pub fn create_spot(world: &mut World, position: Position, c: BoxSpotColor) -> (id: usize)
        ensures
            id == old(world).entities.len(),
            final(world).entities@ == old(world).entities@.push(spot_entity(position, c)),
            final(world).registered@ == old(world).registered@,
            final(world).input_queue@ == old(world).input_queue@,
            final(world).game_state == old(world).game_state,
            final(world).width == old(world).width,
            final(world).height == old(world).height,
    {
        world.create_entity(
            Entity {
                position: Some(Position { x: position.x, y: position.y, z: SPOT_Z }),
                renderable: Some(Renderable::Spot(c)),
                wall: false,
                player: false,
                box_color: None,
                spot_color: Some(c),
                movable: false,
                blocking: false,
                directional: None,
            },
        )
    }
}

/// The entities that a map cell becomes: its own entity (if any), then a floor beneath it.
pub open spec fn tile_entities(p: Placed) -> Seq<Entity> {
    let pos = Position { x: p.x, y: p.y, z: 0 };
    let floor = floor_entity(pos, FloorType::Gravel, FloorMaterial::Sand);
    match p.tile {
        Tile::Floor => seq![floor],
        Tile::Wall => seq![wall_entity(pos, WallColor::Gray, WallShape::Square), floor],
        Tile::Player => seq![player_entity(pos, Direction::Down), floor],
        Tile::Box => seq![box_entity(pos, BoxType::Bright, BoxSpotColor::Red), floor],
        Tile::Spot => seq![spot_entity(pos, BoxSpotColor::Red), floor],
        Tile::Empty => Seq::empty(),
    }
}

/// The entities that a sequence of map cells becomes, in order.
pub open spec fn spawn_all(ps: Seq<Placed>) -> Seq<Entity>
    decreases ps.len(),
{
    if ps.len() == 0 {
        Seq::empty()
    } else {
        spawn_all(ps.drop_last()) + tile_entities(ps.last())
    }
}

/// Creates the entities of one map cell.
pub fn spawn_tile(world: &mut World, p: Placed)
    ensures
        final(world).entities@ == old(world).entities@ + tile_entities(p),
        final(world).registered@ == old(world).registered@,
        final(world).input_queue@ == old(world).input_queue@,
        final(world).game_state == old(world).game_state,
        final(world).width == old(world).width,
        final(world).height == old(world).height,
{
    let pos = Position { x: p.x, y: p.y, z: 0 };
    let ghost before = world.entities@;
    match p.tile {
        Tile::Floor => {},
        Tile::Wall => {
            EntityBuilder::create_wall(world, pos, WallColor::Gray, WallShape::Square);
        },
        Tile::Player => {
            EntityBuilder::create_player(world, pos, Direction::Down);
        },
        Tile::Box => {
            EntityBuilder::create_box(world, pos, BoxType::Bright, BoxSpotColor::Red);
        },
        Tile::Spot => {
            EntityBuilder::create_spot(world, pos, BoxSpotColor::Red);
        },
        Tile::Empty => {
            assert(before + tile_entities(p) =~= before);
            return ;
        },
    }
    EntityBuilder::create_floor(world, pos, FloorType::Gravel, FloorMaterial::Sand);
    assert(world.entities@ =~= before + tile_entities(p));
}

/// Creates the entities of all the given map cells, in order.
pub fn spawn_all_tiles(world: &mut World, ps: &Vec<Placed>)
    ensures
        final(world).entities@ == old(world).entities@ + spawn_all(ps@),
        final(world).registered@ == old(world).registered@,
        final(world).input_queue@ == old(world).input_queue@,
        final(world).game_state == old(world).game_state,
        final(world).width == old(world).width,
        final(world).height == old(world).height,
{
    let ghost start = world.entities@;
    let mut i: usize = 0;
    assert(ps@.take(0) =~= Seq::<Placed>::empty());
    assert(start + spawn_all(ps@.take(0)) =~= start);
    while i < ps.len()
        invariant
            i <= ps.len(),
            world.entities@ == start + spawn_all(ps@.take(i as int)),
            world.registered@ == old(world).registered@,
            world.input_queue@ == old(world).input_queue@,
            world.game_state == old(world).game_state,
            world.width == old(world).width,
            world.height == old(world).height,
        decreases ps.len() - i,
    {
        spawn_tile(world, ps[i]);
        assert(ps@.take(i + 1).drop_last() =~= ps@.take(i as int));
        assert(world.entities@ =~= start + spawn_all(ps@.take(i + 1)));
        i = i + 1;
    }
    assert(ps@.take(i as int) =~= ps@);
}

} // verus!
