use sokoban::components::{BoxSpotColor, ComponentKind, Direction, Entity, Key, Position, Renderable, Tile};
use sokoban::game_context::{GameContext, MAX_LEVEL};
use sokoban::map::{parse_map, MapError, Placed};
use sokoban::world::{GameState, RegistryError, World};

fn load(map: &str) -> GameContext {
    let mut game = GameContext::from(World::new());
    game.register_components();
    game.register_resources();
    game.initialize_level(map.to_string()).expect("map should load");
    game
}

fn player(game: &GameContext) -> Entity {
    *game.world.entities.iter().find(|e| e.player).expect("a player")
}

fn boxes(game: &GameContext) -> Vec<(usize, usize)> {
    game.world
        .entities
        .iter()
        .filter(|e| e.box_color.is_some())
        .map(|e| {
            let p = e.position.unwrap();
            (p.x, p.y)
        })
        .collect()
}

fn press(game: &mut GameContext, key: Key) {
    game.key_down_event(key);
    game.update();
}

fn cell(p: &Entity) -> (usize, usize) {
    let q = p.position.unwrap();
    (q.x, q.y)
}

#[test]
fn parse_map_reads_rows_and_columns() {
    let cells = parse_map(". W\nP B S N").unwrap();
    let expected = vec![
        Placed { tile: Tile::Floor, x: 0, y: 0 },
        Placed { tile: Tile::Wall, x: 1, y: 0 },
        Placed { tile: Tile::Player, x: 0, y: 1 },
        Placed { tile: Tile::Box, x: 1, y: 1 },
        Placed { tile: Tile::Spot, x: 2, y: 1 },
        Placed { tile: Tile::Empty, x: 3, y: 1 },
    ];
    assert_eq!(cells, expected);
}

#[test]
fn parse_map_trims_text_and_rows() {
    let cells = parse_map("\n  . W  \r\n\tP .\n\n").unwrap();
    let expected = vec![
        Placed { tile: Tile::Floor, x: 0, y: 0 },
        Placed { tile: Tile::Wall, x: 1, y: 0 },
        Placed { tile: Tile::Player, x: 0, y: 1 },
        Placed { tile: Tile::Floor, x: 1, y: 1 },
    ];
    assert_eq!(cells, expected);
}

#[test]
fn unrecognized_token_names_token_and_place() {
    let r = parse_map(". . . .\n. . . .\n. . . X");
    assert_eq!(
        r,
        Err(MapError::UnrecognizedToken { token: "X".to_string(), row: 2, column: 3 })
    );
}

#[test]
fn first_unrecognized_token_is_reported() {
    let r = parse_map(". Q\nZ .");
    assert_eq!(
        r,
        Err(MapError::UnrecognizedToken { token: "Q".to_string(), row: 0, column: 1 })
    );
}

#[test]
fn long_token_and_double_space_are_refused() {
    assert_eq!(
        parse_map(". WW ."),
        Err(MapError::UnrecognizedToken { token: "WW".to_string(), row: 0, column: 1 })
    );
    assert_eq!(
        parse_map(".  ."),
        Err(MapError::UnrecognizedToken { token: "".to_string(), row: 0, column: 1 })
    );
}

#[test]
fn refused_map_leaves_world_unchanged() {
    let mut game = load(". P");
    let before = game.world.entities.clone();
    let r = game.initialize_level(". X".to_string());
    assert!(r.is_err());
    assert_eq!(game.world.entities, before);
}

#[test]
fn every_tile_has_a_floor_beneath() {
    let game = load("W W W W W\nW P B S W\nW . N . W\nW W W W W");
    let es = &game.world.entities;
    for e in es.iter() {
        let is_floor = matches!(e.renderable, Some(Renderable::Floor(_, _)));
        if e.position.is_some() && !is_floor {
            assert!(es.iter().any(|f| matches!(f.renderable, Some(Renderable::Floor(_, _)))
                && cell(f) == cell(e)));
        }
    }
    // the empty cell has no entity at all
    assert!(!es.iter().any(|e| e.position.is_some() && cell(e) == (2, 2)));
    // 14 walls, player, box and spot, each with a floor, and two bare floors
    assert_eq!(es.len(), 14 * 2 + 3 * 2 + 2);
    assert_eq!(game.world.width, 5);
    assert_eq!(game.world.height, 4);
}

#[test]
fn entities_come_in_map_order_with_floor_after() {
    let game = load("P B");
    let es = &game.world.entities;
    assert_eq!(es.len(), 4);
    assert!(es[0].player);
    assert_eq!(es[0].directional, Some(Direction::Down));
    assert_eq!(es[0].position, Some(Position { x: 0, y: 0, z: 10 }));
    assert_eq!(es[1].renderable, Some(Renderable::Floor(sokoban::components::FloorType::Gravel,
        sokoban::components::FloorMaterial::Sand)));
    assert_eq!(es[1].position, Some(Position { x: 0, y: 0, z: 5 }));
    assert_eq!(es[2].box_color, Some(BoxSpotColor::Red));
    assert!(es[2].blocking && es[2].movable);
}

#[test]
fn map_without_spots_is_won_at_load() {
    let game = load(". . .\n. P .\n. . .");
    assert_eq!(game.world.game_state, GameState { won: true });
}

#[test]
fn map_with_uncovered_spot_is_not_won_at_load() {
    let game = load("P B S");
    assert!(!game.world.game_state.won);
}

#[test]
fn pressing_up_turns_and_moves_player() {
    let mut game = load(". . .\n. P .\n. . .");
    assert_eq!(player(&game).directional, Some(Direction::Down));
    press(&mut game, Key::Up);
    let p = player(&game);
    assert_eq!(p.directional, Some(Direction::Up));
    assert_eq!(cell(&p), (1, 0));
}

#[test]
fn blocked_move_still_turns_player() {
    let mut game = load(". W .\n. P .\n. . .");
    press(&mut game, Key::Up);
    let p = player(&game);
    assert_eq!(p.directional, Some(Direction::Up));
    assert_eq!(cell(&p), (1, 1));
}

#[test]
fn move_off_the_grid_is_rejected() {
    let mut game = load("P .");
    press(&mut game, Key::Up);
    assert_eq!(cell(&player(&game)), (0, 0));
    press(&mut game, Key::Left);
    assert_eq!(cell(&player(&game)), (0, 0));
    assert_eq!(player(&game).directional, Some(Direction::Left));
    press(&mut game, Key::Right);
    assert_eq!(cell(&player(&game)), (1, 0));
    press(&mut game, Key::Right);
    assert_eq!(cell(&player(&game)), (1, 0));
}

#[test]
fn push_into_wall_moves_nothing() {
    let mut game = load("W B P");
    press(&mut game, Key::Left);
    assert_eq!(cell(&player(&game)), (2, 0));
    assert_eq!(boxes(&game), vec![(1, 0)]);
}

#[test]
fn push_into_box_moves_nothing() {
    let mut game = load(". B B P");
    press(&mut game, Key::Left);
    assert_eq!(cell(&player(&game)), (3, 0));
    assert_eq!(boxes(&game), vec![(1, 0), (2, 0)]);
}

#[test]
fn push_into_free_cell_moves_box_and_player() {
    let mut game = load(". B P");
    press(&mut game, Key::Left);
    assert_eq!(cell(&player(&game)), (1, 0));
    assert_eq!(boxes(&game), vec![(0, 0)]);
    let b = game.world.entities.iter().find(|e| e.box_color.is_some()).unwrap();
    assert_eq!(b.position.unwrap().z, 10);
}

#[test]
fn push_off_the_grid_moves_nothing() {
    let mut game = load("B P");
    press(&mut game, Key::Left);
    assert_eq!(cell(&player(&game)), (1, 0));
    assert_eq!(boxes(&game), vec![(0, 0)]);
}

#[test]
fn covering_the_spot_wins_and_win_stays() {
    let mut game = load("P B S .");
    assert!(!game.world.game_state.won);
    press(&mut game, Key::Right);
    assert_eq!(boxes(&game), vec![(2, 0)]);
    assert!(game.world.game_state.won);
    press(&mut game, Key::Right);
    assert_eq!(boxes(&game), vec![(3, 0)]);
    assert!(game.world.game_state.won);
}

#[test]
fn box_of_another_color_does_not_win() {
    let mut game = load("P B S");
    for e in game.world.entities.iter_mut() {
        if e.box_color.is_some() {
            e.box_color = Some(BoxSpotColor::Blue);
        }
    }
    press(&mut game, Key::Right);
    assert_eq!(boxes(&game), vec![(2, 0)]);
    assert!(!game.world.game_state.won);
}

#[test]
fn other_keys_are_dropped() {
    let mut game = load(". P .");
    let before = game.world.entities.clone();
    press(&mut game, Key::Other);
    assert_eq!(game.world.entities, before);
    assert!(game.world.input_queue.is_empty());
}

#[test]
fn one_key_per_frame_oldest_first() {
    let mut game = load(". . P . .");
    game.key_down_event(Key::Left);
    game.key_down_event(Key::Right);
    game.key_down_event(Key::Right);
    game.update();
    assert_eq!(cell(&player(&game)), (1, 0));
    assert_eq!(game.world.input_queue, vec![Key::Right, Key::Right]);
    game.update();
    game.update();
    assert_eq!(cell(&player(&game)), (3, 0));
    game.update();
    assert_eq!(cell(&player(&game)), (3, 0));
}

#[test]
fn registering_twice_is_refused() {
    let mut world = World::new();
    assert_eq!(world.register(ComponentKind::Wall), Ok(()));
    assert!(world.is_registered(ComponentKind::Wall));
    assert!(!world.is_registered(ComponentKind::Box));
    assert_eq!(
        world.register(ComponentKind::Wall),
        Err(RegistryError::AlreadyRegistered(ComponentKind::Wall))
    );
    assert_eq!(world.registered, vec![ComponentKind::Wall]);
}

#[test]
fn register_components_declares_every_kind_once() {
    let mut game = GameContext::from(World::new());
    game.register_components();
    game.register_components();
    assert_eq!(game.world.registered.len(), 9);
}

#[test]
fn removed_entity_keeps_no_component() {
    let mut game = load("P B");
    game.world.remove_entity(2);
    assert!(game.world.entity(2).unwrap().position.is_none());
    assert!(boxes(&game).is_empty());
    assert!(game.world.entity(9).is_none());
}

#[test]
fn draw_calls_go_by_layer_then_creation() {
    let game = load("S W");
    let calls = game.draw();
    let zs: Vec<u8> = calls.iter().map(|c| c.z).collect();
    assert_eq!(zs, vec![5, 5, 9, 10]);
    assert_eq!((calls[0].x, calls[1].x), (0, 1));
    assert_eq!(calls[2].sprite, Renderable::Spot(BoxSpotColor::Red));
    assert_eq!((calls[3].x, calls[3].y), (1, 0));
}

#[test]
fn level_index_is_clamped() {
    assert_eq!(GameContext::level_index(0), 0);
    assert_eq!(GameContext::level_index(MAX_LEVEL), MAX_LEVEL);
    assert_eq!(GameContext::level_index(200), MAX_LEVEL);
}

#[test]
fn generate_map_appends_and_sets_size() {
    let mut game = GameContext::from(World::new());
    game.generate_map(". .".to_string()).unwrap();
    game.generate_map(".\n.\n.".to_string()).unwrap();
    assert_eq!(game.world.entities.len(), 5);
    assert_eq!((game.world.width, game.world.height), (1, 3));
}
