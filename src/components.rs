use vstd::prelude::*;

verus! {

/// A grid cell plus a draw layer: `x` is the column, `y` the row, `z` the stacking order.
#[derive(Clone, Copy, Debug, PartialEq, Eq, Structural)]
pub struct Position {
    pub x: usize,
    pub y: usize,
    pub z: u8,
}

#[derive(Clone, Copy, Debug, PartialEq, Eq, Structural)]
pub enum Direction {
    Up,
    Down,
    Left,
    Right,
}

#[derive(Clone, Copy, Debug, PartialEq, Eq, Structural)]
pub enum FloorType {
    Gravel,
    Tiles,
}

#[derive(Clone, Copy, Debug, PartialEq, Eq, Structural)]
pub enum FloorMaterial {
    Sand,
    Stone,
}

#[derive(Clone, Copy, Debug, PartialEq, Eq, Structural)]
pub enum WallColor {
    Gray,
    Brown,
}

#[derive(Clone, Copy, Debug, PartialEq, Eq, Structural)]
pub enum WallShape {
    Square,
    Round,
}

#[derive(Clone, Copy, Debug, PartialEq, Eq, Structural)]
pub enum BoxType {
    Bright,
    Dark,
}

/// The color shared by a box and the spot it belongs on.
#[derive(Clone, Copy, Debug, PartialEq, Eq, Structural)]
pub enum BoxSpotColor {
    Red,
    Blue,
    Green,
    Yellow,
}

/// Which sprite an entity is drawn with.
#[derive(Clone, Copy, Debug, PartialEq, Eq, Structural)]
pub enum Renderable {
    Floor(FloorType, FloorMaterial),
    Wall(WallColor, WallShape),
    Player,
    Box(BoxType, BoxSpotColor),
    Spot(BoxSpotColor),
}

/// The kinds of component an entity can carry.
#[derive(Clone, Copy, Debug, PartialEq, Eq, Structural)]
pub enum ComponentKind {
    Position,
    Renderable,
    Wall,
    Player,
    Box,
    Spot,
    Movable,
    Blocking,
    Directional,
}

/// A key press as the game sees it.
#[derive(Clone, Copy, Debug, PartialEq, Eq, Structural)]
pub enum Key {
    Up,
    Down,
    Left,
    Right,
    Other,
}

/// The semantic type of one map cell.
#[derive(Clone, Copy, Debug, PartialEq, Eq, Structural)]
pub enum Tile {
    Floor,
    Wall,
    Player,
    Box,
    Spot,
    Empty,
}

/// All components of one entity; `None` or `false` where the entity lacks that component.
#[derive(Clone, Copy, Debug, PartialEq, Eq)]
pub struct Entity {
    pub position: Option<Position>,
    pub renderable: Option<Renderable>,
    pub wall: bool,
    pub player: bool,
    pub box_color: Option<BoxSpotColor>,
    pub spot_color: Option<BoxSpotColor>,
    pub movable: bool,
    pub blocking: bool,
    pub directional: Option<Direction>,
}

} // verus!
