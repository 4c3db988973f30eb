use gluttony::anim::TilesetIndexing;
use gluttony::credits::{CreditNodeKind, CreditSection, CreditsAsset, SectionEntry, SimpleEntry};
use gluttony::layers::TilesetError;
use gluttony::map_level::{Level as EditorLevel, SpawnTags};
use gluttony::map_scheme::{LayerFailure, LayerFault, MapParser, MapSchemeError, SceneKind, TileBuilder};
use gluttony::tilemap::{FiniteTileLayer, Layer, LayerKind, LayerTileData, MapData, TileData, TilesetData};

struct Recorder {
    calls: Vec<String>,
    fail_on_tile: Option<u32>,
}

impl TileBuilder for Recorder {
    fn process_tileset(&mut self, set_id: usize, tileset: &TilesetData, _indexing: &TilesetIndexing) -> Result<(), String> {
        self.calls.push(format!("tileset {} {}", set_id, tileset.name));
        Ok(())
    }

    fn build(&mut self, set_id: usize, _tileset: &TilesetData, id: u32) -> Result<(), String> {
        self.calls.push(format!("tile {} {}", set_id, id));
        if self.fail_on_tile == Some(id) {
            Err("no such tile".to_string())
        } else {
            Ok(())
        }
    }

    fn finish_layer(&mut self, set_id: usize, _tileset: &TilesetData) -> Result<(), String> {
        self.calls.push(format!("finish {}", set_id));
        Ok(())
    }
}

fn at(tileset_index: usize, id: u32) -> Option<LayerTileData> {
    Some(LayerTileData { tileset_index, id, flip_h: true, flip_v: false, flip_d: false })
}

fn tiles_layer(id: u32, name: &str, cells: Vec<Option<LayerTileData>>) -> Layer {
    Layer { id, name: name.to_string(), kind: LayerKind::FiniteTiles(FiniteTileLayer::new(1, 2, cells).unwrap()) }
}

fn sets() -> Vec<TilesetData> {
    vec![TilesetData {
        name: "ground".to_string(),
        tile_width: 16,
        tile_height: 16,
        image: None,
        tiles: vec![
            TileData { id: 1, tile_type: Some("player_start".to_string()), properties: vec![], animation: None, image: None },
            TileData { id: 2, tile_type: Some("player_end".to_string()), properties: vec![], animation: None, image: None },
            TileData { id: 3, tile_type: None, properties: vec![], animation: None, image: None },
        ],
    }]
}

fn scene_map() -> MapData {
    MapData {
        width: 1,
        height: 2,
        layers: vec![
            Layer {
                id: 1,
                name: "group".to_string(),
                kind: LayerKind::Group(vec![tiles_layer(2, "floor", vec![at(0, 1), at(0, 2)])]),
            },
            tiles_layer(3, "top", vec![None, at(0, 3)]),
        ],
        tilesets: sets(),
    }
}

#[test]
fn maps_become_scenes() {
    let recorder = Recorder { calls: vec![], fail_on_tile: None };
    let mut parser = MapParser::new(recorder, vec![(TilesetIndexing::Continious, 77)]);
    let nodes = parser.parse_map(&scene_map()).unwrap();
    assert_eq!(nodes.len(), 3);
    assert_eq!(nodes[0].name, "group");
    assert!(matches!(nodes[0].kind, SceneKind::Group));
    assert_eq!(nodes[1].parent, Some(0));
    match &nodes[1].kind {
        SceneKind::Tiles { tileset, texture, z, tiles } => {
            assert_eq!((*tileset, *texture, *z), (0, 77, 0));
            // The tile found at row 0 is placed at the top row, counted from the bottom.
            assert_eq!(tiles.iter().map(|t| (t.x, t.y, t.id)).collect::<Vec<_>>(), vec![(0, 1, 1), (0, 0, 2)]);
            assert!(tiles[0].flip.x);
        },
        other => panic!("unexpected {:?}", other),
    }
    assert_eq!(nodes[2].parent, None);
    assert!(matches!(&nodes[2].kind, SceneKind::Tiles { z: 1, .. }));
    let calls = parser.into_builder().calls;
    assert_eq!(calls, vec!["tileset 0 ground", "tile 0 1", "tile 0 2", "finish 0", "tile 0 3", "finish 0"]);
}

#[test]
fn scene_failures() {
    let mut parser = MapParser::new(Recorder { calls: vec![], fail_on_tile: Some(2) }, vec![(TilesetIndexing::Continious, 0)]);
    match parser.parse_map(&scene_map()) {
        Err(MapSchemeError::Layer { name, cause: LayerFailure::Tile { x: 0, y: 1, cause } }) => {
            assert_eq!(name, "group");
            assert_eq!(cause, "no such tile");
        },
        other => panic!("unexpected {:?}", other),
    }
    // The refused tile still finishes its layer, and nothing after it is visited.
    assert_eq!(parser.into_builder().calls, vec!["tileset 0 ground", "tile 0 1", "tile 0 2", "finish 0"]);
    let image = MapData {
        width: 1,
        height: 2,
        layers: vec![Layer { id: 9, name: "backdrop".to_string(), kind: LayerKind::Image }],
        tilesets: sets(),
    };
    let mut parser = MapParser::new(Recorder { calls: vec![], fail_on_tile: None }, vec![(TilesetIndexing::Continious, 0)]);
    assert!(matches!(
        parser.parse_map(&image),
        Err(MapSchemeError::Layer { cause: LayerFailure::Fault(LayerFault::ImageLayer), .. })
    ));
    let empty = MapData {
        width: 1,
        height: 2,
        layers: vec![tiles_layer(4, "empty", vec![None, None])],
        tilesets: sets(),
    };
    assert!(matches!(
        parser.parse_map(&empty),
        Err(MapSchemeError::Layer { cause: LayerFailure::Fault(LayerFault::Tileset(TilesetError::NoTileset)), .. })
    ));
}

#[test]
fn too_many_tile_layers() {
    let layers: Vec<Layer> = (0..101).map(|i| tiles_layer(i, "layer", vec![at(0, 3), None])).collect();
    let map = MapData { width: 1, height: 2, layers, tilesets: sets() };
    let mut parser = MapParser::new(Recorder { calls: vec![], fail_on_tile: None }, vec![(TilesetIndexing::Continious, 0)]);
    assert!(matches!(
        parser.parse_map(&map),
        Err(MapSchemeError::Layer { cause: LayerFailure::Fault(LayerFault::TooManyLayers), .. })
    ));
}

#[test]
fn editor_layers_with_tags() {
    let map = MapData {
        width: 1,
        height: 2,
        layers: vec![
            tiles_layer(5, "geometry", vec![at(0, 1), at(0, 2)]),
            tiles_layer(6, "decor", vec![None, at(0, 3)]),
        ],
        tilesets: sets(),
    };
    let level = EditorLevel::new(map, vec![(0, 12)]);
    assert_eq!(level.find_geometry_layer_id(), Some(5));
    let layers = level.spawn_map();
    assert_eq!(layers.len(), 2);
    assert_eq!((layers[0].tileset_index, layers[0].layer_index), (0, 0));
    let first = &layers[0].tiles;
    assert_eq!(first.len(), 2);
    assert_eq!((first[0].x, first[0].y, first[0].texture), (0, 1, 1));
    assert_eq!(first[0].tags, SpawnTags { start: true, end: false, solid: true });
    assert_eq!(first[1].tags, SpawnTags { start: false, end: true, solid: false });
    assert_eq!(layers[1].tiles[0].tags, SpawnTags { start: false, end: false, solid: true });
}

#[test]
fn credits_layout() {
    let credits = CreditsAsset {
        content: vec![
            CreditSection {
                title: "Code".to_string(),
                content: SectionEntry::RoleList(vec![
                    SimpleEntry { role: "Lead".to_string(), name: "Ann".to_string() },
                    SimpleEntry { role: "Art".to_string(), name: "Bo".to_string() },
                ]),
            },
            CreditSection {
                title: "Thanks".to_string(),
                content: SectionEntry::Subsections(vec![CreditSection {
                    title: "Friends".to_string(),
                    content: SectionEntry::Verbatim("Everyone".to_string()),
                }]),
            },
        ],
    };
    let nodes = credits.build();
    assert!(matches!(nodes[0].kind, CreditNodeKind::Root));
    assert!(matches!(nodes[1].kind, CreditNodeKind::Section { level: 0 }));
    assert_eq!(nodes[1].parent, Some(0));
    match &nodes[2].kind {
        CreditNodeKind::Title { level: 0, text } => assert_eq!(text, "· CODE ·"),
        other => panic!("unexpected {:?}", other),
    }
    assert!(matches!(nodes[3].kind, CreditNodeKind::RoleRow));
    assert_eq!(nodes[3].parent, Some(1));
    match &nodes[4].kind {
        CreditNodeKind::RoleColumn { roles } => assert_eq!(roles, &vec!["Lead".to_string(), "Art".to_string()]),
        other => panic!("unexpected {:?}", other),
    }
    match &nodes[5].kind {
        CreditNodeKind::Separator { width, height } => {
            assert_eq!(*width, 50);
            assert_eq!(*height, 50);
        },
        other => panic!("unexpected {:?}", other),
    }
    match &nodes[6].kind {
        CreditNodeKind::NameColumn { names } => assert_eq!(names, &vec!["Ann".to_string(), "Bo".to_string()]),
        other => panic!("unexpected {:?}", other),
    }
    assert_eq!((nodes[4].parent, nodes[5].parent, nodes[6].parent), (Some(3), Some(3), Some(3)));
    match &nodes[9].kind {
        CreditNodeKind::Section { level: 1 } => assert_eq!(nodes[9].parent, Some(7)),
        other => panic!("unexpected {:?}", other),
    }
    match &nodes[10].kind {
        CreditNodeKind::Title { level: 1, text } => assert_eq!(text, "Friends"),
        other => panic!("unexpected {:?}", other),
    }
    assert!(matches!(&nodes[11].kind, CreditNodeKind::Verbatim { text } if text == "Everyone"));
    assert_eq!(nodes.len(), 12);
}

#[test]
fn credits_stop_at_the_depth_limit() {
    let mut section = CreditSection { title: "deep".to_string(), content: SectionEntry::Verbatim("x".to_string()) };
    for _ in 0..5 {
        section = CreditSection { title: "outer".to_string(), content: SectionEntry::Subsections(vec![section]) };
    }
    let nodes = CreditsAsset { content: vec![section] }.build();
    // Levels 0 to 3 are shown: a section node and a title for each.
    assert_eq!(nodes.len(), 1 + 4 * 2);
}

#[test]
fn editor_layers_include_infinite_tile_layers() {
    let tile = LayerTileData { tileset_index: 0, id: 2, flip_h: false, flip_v: true, flip_d: false };
    let far = LayerTileData { tileset_index: 0, id: 3, flip_h: false, flip_v: false, flip_d: false };
    let map = MapData {
        width: 1,
        height: 2,
        layers: vec![Layer {
            id: 9,
            name: "endless".to_string(),
            kind: LayerKind::InfiniteTiles(gluttony::tilemap::InfiniteTileLayer {
                tiles: vec![((0, 1), tile), ((-4, 7), far)],
            }),
        }],
        tilesets: sets(),
    };
    let layers = EditorLevel::new(map, vec![(0, 12)]).spawn_map();
    assert_eq!(layers.len(), 1);
    let tiles = &layers[0].tiles;
    assert_eq!(tiles.len(), 1);
    assert_eq!((tiles[0].x, tiles[0].y, tiles[0].texture, tiles[0].flip_y), (0, 0, 2, true));
    assert_eq!(tiles[0].tags, SpawnTags { start: false, end: true, solid: false });
}
