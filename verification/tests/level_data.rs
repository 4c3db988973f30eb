use gluttony::anim::{CPUTileAnimation, CPUTileAnimations, Frame, TilesetIndexing};
use gluttony::layers::{ensure_unique_tileset, finite_tile_layer, group_layer, TilesetError};
use gluttony::level::{
    build_tiles, spawn_level, ActivatorTile, GeometryTile, Level, LevelError, LevelLayer, LevelTileType,
    TileAnimationType, TileTag,
};
use gluttony::properties::{
    activator_tile, geometry_tile, geometry_tile_properties, PropertyDeserError,
    TilePropertyDeserError,
};
use gluttony::tile::{ActivatableAnimating, ActivationCondition};
use gluttony::tilemap::{
    AnimFrame, f32_is_negative, to_i32_wrapping, FiniteTileLayer, Layer, LayerKind, LayerTileData, MapData,
    PropertyValue, TileData, TilesetData,
};

fn cell(tileset_index: usize, id: u32) -> Option<LayerTileData> {
    Some(LayerTileData { tileset_index, id, flip_h: false, flip_v: false, flip_d: false })
}

fn layer_of(width: u32, height: u32, cells: Vec<Option<LayerTileData>>) -> FiniteTileLayer {
    FiniteTileLayer::new(width, height, cells).unwrap()
}

fn typed_tile(id: u32, ty: &str, props: Vec<(String, PropertyValue)>) -> TileData {
    TileData { id, tile_type: Some(ty.to_string()), properties: props, animation: None, image: None }
}

fn tileset(name: &str, tiles: Vec<TileData>) -> TilesetData {
    TilesetData { name: name.to_string(), tile_width: 32, tile_height: 32, image: None, tiles }
}

fn named(id: u32, name: &str, kind: LayerKind) -> Layer {
    Layer { id, name: name.to_string(), kind }
}

#[test]
fn wrapping_and_float_sign() {
    assert_eq!(to_i32_wrapping(5), 5);
    assert_eq!(to_i32_wrapping(0xffff_ffff), -1);
    assert_eq!(to_i32_wrapping(0x8000_0000), i32::MIN);
    assert!(f32_is_negative((-1.0f32).to_bits()));
    assert!(!f32_is_negative(1.0f32.to_bits()));
    assert!(!f32_is_negative((-0.0f32).to_bits()));
    assert!(!f32_is_negative(f32::NAN.to_bits()));
    assert!(f32_is_negative(f32::NEG_INFINITY.to_bits()));
}

#[test]
fn finite_layer_cells() {
    assert!(FiniteTileLayer::new(2, 2, vec![None; 3]).is_none());
    let l = layer_of(2, 2, vec![cell(0, 1), None, None, cell(0, 4)]);
    assert_eq!(l.get_tile_data(0, 0), cell(0, 1));
    assert_eq!(l.get_tile_data(1, 0), None);
    assert_eq!(l.get_tile_data(1, 1), cell(0, 4));
    assert_eq!(l.get_tile_data(2, 0), None);
    assert_eq!(l.get_tile_data(-1, 0), None);
}

#[test]
fn unique_tileset_of_a_layer() {
    let one = layer_of(2, 1, vec![cell(2, 1), cell(2, 5)]);
    assert_eq!(ensure_unique_tileset(&one, 2, 1), Ok(2));
    let two = layer_of(2, 1, vec![cell(0, 1), cell(1, 1)]);
    assert_eq!(ensure_unique_tileset(&two, 2, 1), Err(TilesetError::MoreThanOne));
    let none = layer_of(2, 1, vec![None, None]);
    assert_eq!(ensure_unique_tileset(&none, 2, 1), Err(TilesetError::NoTileset));
}

#[test]
fn layer_lookup_by_name() {
    let inner = vec![
        named(2, "geometry", LayerKind::FiniteTiles(layer_of(1, 1, vec![cell(0, 0)]))),
        named(3, "geometry", LayerKind::Image),
    ];
    let layers = vec![named(1, "level", LayerKind::Group(inner)), named(4, "level", LayerKind::Objects)];
    let g = group_layer(&layers, "level").unwrap();
    assert_eq!(g.len(), 2);
    assert!(finite_tile_layer(g, "geometry").is_some());
    assert!(finite_tile_layer(g, "activators").is_none());
    assert!(group_layer(&layers, "nothing").is_none());
    assert!(group_layer(g, "geometry").is_none());
}

#[test]
fn activator_tiles_are_read() {
    let odd = typed_tile(0, "ActivatorTile", vec![(
        "active".to_string(),
        PropertyValue::StringValue("Odd".to_string()),
    )]);
    assert_eq!(activator_tile(&odd).unwrap(), ActivatorTile { active: ActivationCondition::Odd });
    let wrong = typed_tile(1, "Other", vec![]);
    assert!(matches!(activator_tile(&wrong), Err(TilePropertyDeserError::WrongType { .. })));
    let missing = typed_tile(2, "ActivatorTile", vec![]);
    match activator_tile(&missing) {
        Err(TilePropertyDeserError::Custom { custom }) => assert_eq!(custom, "missing field `active`"),
        other => panic!("unexpected {:?}", other),
    }
    let bad = typed_tile(3, "ActivatorTile", vec![(
        "active".to_string(),
        PropertyValue::StringValue("Sometimes".to_string()),
    )]);
    match activator_tile(&bad) {
        Err(TilePropertyDeserError::PropFail { name, source: PropertyDeserError::Custom { custom } }) => {
            assert_eq!(name, "active");
            assert_eq!(custom, "unknown variant `Sometimes`, expected `Odd` or `Even`");
        },
        other => panic!("unexpected {:?}", other),
    }
    let twice = typed_tile(4, "ActivatorTile", vec![
        ("active".to_string(), PropertyValue::StringValue("Even".to_string())),
        ("active".to_string(), PropertyValue::StringValue("Odd".to_string())),
    ]);
    match activator_tile(&twice) {
        Err(TilePropertyDeserError::Custom { custom }) => assert_eq!(custom, "duplicate field `active`"),
        other => panic!("unexpected {:?}", other),
    }
    let untyped = TileData { id: 5, tile_type: None, properties: vec![], animation: None, image: None };
    assert!(matches!(activator_tile(&untyped), Err(TilePropertyDeserError::NoType)));
}

#[test]
fn geometry_tiles_are_read() {
    assert_eq!(geometry_tile(&typed_tile(0, "Frame", vec![])).unwrap(), GeometryTile::Frame);
    let ty = |v: &str| ("ty".to_string(), PropertyValue::StringValue(v.to_string()));
    assert_eq!(
        geometry_tile(&typed_tile(1, "LogicTile", vec![ty("Fry")])).unwrap(),
        GeometryTile::LogicTile { ty: LevelTileType::Fry }
    );
    match geometry_tile(&typed_tile(1, "LogicTile", vec![])) {
        Err(TilePropertyDeserError::Custom { custom }) => assert_eq!(custom, "missing field `ty`"),
        other => panic!("unexpected {:?}", other),
    }
    match geometry_tile(&typed_tile(1, "LogicTile", vec![ty("Floor"), ty("Exit")])) {
        Err(TilePropertyDeserError::Custom { custom }) => assert_eq!(custom, "duplicate field `ty`"),
        other => panic!("unexpected {:?}", other),
    }
    match geometry_tile(&typed_tile(1, "LogicTile", vec![ty("Lava")])) {
        Err(TilePropertyDeserError::PropFail { name, source: PropertyDeserError::Custom { custom } }) => {
            assert_eq!(name, "ty");
            assert_eq!(
                custom,
                "unknown variant `Lava`, expected one of `Exit`, `Conveyor`, `Fry`, `PlayerStart`, `Floor`, `SpinningTile`"
            );
        },
        other => panic!("unexpected {:?}", other),
    }
    let anim = typed_tile(2, "LevelTileAnimation", vec![
        ("target".to_string(), PropertyValue::StringValue("Conveyor".to_string())),
        ("speed".to_string(), PropertyValue::IntValue(3)),
        ("anim_ty".to_string(), PropertyValue::StringValue("OnTransition".to_string())),
    ]);
    assert_eq!(
        geometry_tile(&anim).unwrap(),
        GeometryTile::LevelTileAnimation { anim_ty: TileAnimationType::OnTransition, target: LevelTileType::Conveyor }
    );
    let half = typed_tile(2, "LevelTileAnimation", vec![
        ("target".to_string(), PropertyValue::StringValue("Conveyor".to_string())),
    ]);
    match geometry_tile(&half) {
        Err(TilePropertyDeserError::Custom { custom }) => assert_eq!(custom, "missing field `anim_ty`"),
        other => panic!("unexpected {:?}", other),
    }
    match geometry_tile(&typed_tile(2, "Wall", vec![])) {
        Err(TilePropertyDeserError::Custom { custom }) => assert_eq!(
            custom,
            "unknown variant `Wall`, expected one of `LogicTile`, `Frame`, `LevelTileAnimation`"
        ),
        other => panic!("unexpected {:?}", other),
    }
    let tiles = vec![typed_tile(0, "Frame", vec![]), typed_tile(7, "Frame", vec![])];
    let table = geometry_tile_properties(&tiles).unwrap();
    assert_eq!(table, vec![(0, GeometryTile::Frame), (7, GeometryTile::Frame)]);
}

fn level_map(geometry_tiles: Vec<TileData>) -> MapData {
    let group = vec![
        named(2, "geometry", LayerKind::FiniteTiles(layer_of(1, 1, vec![cell(0, 0)]))),
        named(3, "activators", LayerKind::FiniteTiles(layer_of(1, 1, vec![cell(1, 0)]))),
    ];
    MapData {
        width: 1,
        height: 1,
        layers: vec![named(1, "level", LayerKind::Group(group))],
        tilesets: vec![
            tileset("geometry", geometry_tiles),
            tileset("activators", vec![typed_tile(0, "ActivatorTile", vec![(
                "active".to_string(),
                PropertyValue::StringValue("Even".to_string()),
            )])]),
        ],
    }
}

#[test]
fn level_errors() {
    let ix = vec![TilesetIndexing::Continious, TilesetIndexing::Continious];
    let atlases = vec![10, 11];
    let mut anims = CPUTileAnimations::new();

    let no_level = MapData { width: 1, height: 1, layers: vec![], tilesets: vec![] };
    assert!(matches!(Level::new(&no_level, &mut anims, &ix, &atlases), Err(LevelError::NoLevelLayer)));

    let no_geometry = MapData {
        width: 1,
        height: 1,
        layers: vec![named(1, "level", LayerKind::Group(vec![]))],
        tilesets: vec![],
    };
    assert!(matches!(
        Level::new(&no_geometry, &mut anims, &ix, &atlases),
        Err(LevelError::NoLayer { layer: LevelLayer::Geometry })
    ));

    let empty_geometry = MapData {
        width: 1,
        height: 1,
        layers: vec![named(1, "level", LayerKind::Group(vec![
            named(2, "geometry", LayerKind::FiniteTiles(layer_of(1, 1, vec![None]))),
            named(3, "activators", LayerKind::FiniteTiles(layer_of(1, 1, vec![None]))),
        ]))],
        tilesets: vec![],
    };
    assert!(matches!(
        Level::new(&empty_geometry, &mut anims, &ix, &atlases),
        Err(LevelError::TilesetCheck { layer: LevelLayer::Geometry, cause: TilesetError::NoTileset })
    ));

    // A logic tile without its type.
    let logic = level_map(vec![typed_tile(0, "LogicTile", vec![])]);
    assert!(matches!(
        Level::new(&logic, &mut anims, &ix, &atlases),
        Err(LevelError::Properties(TilePropertyDeserError::Custom { .. }))
    ));

    // A frame is no logic tile.
    let frame = level_map(vec![typed_tile(0, "Frame", vec![])]);
    assert!(matches!(
        Level::new(&frame, &mut anims, &ix, &atlases),
        Err(LevelError::IncorrectTile { x: 0, y: 0 })
    ));
    assert_eq!(anims.animations.len(), 0);
}

#[test]
fn level_tiles_from_tables() {
    let geometry = layer_of(2, 2, vec![cell(0, 3), None, cell(0, 4), cell(0, 3)]);
    let activators = layer_of(2, 2, vec![None, None, cell(1, 9), None]);
    let gtable = vec![
        (3, GeometryTile::LogicTile { ty: LevelTileType::Floor }),
        (4, GeometryTile::LogicTile { ty: LevelTileType::Fry }),
    ];
    let atable: std::collections::HashMap<u32, ActivatorTile> = [(9, ActivatorTile { active: ActivationCondition::Odd })].into_iter().collect();
    let meta = vec![((LevelTileType::Fry, TileAnimationType::OnOffAnimation), 7)];
    let ix = TilesetIndexing::Continious;
    let tiles = build_tiles(2, 2, &geometry, &activators, &gtable, &atable, &meta, &ix).unwrap();
    // Columns in order, rows from the bottom; the layer counts rows from the top.
    let positions: Vec<(u32, u32)> = tiles.iter().map(|(p, _)| *p).collect();
    assert_eq!(positions, vec![(0, 0), (0, 1), (1, 0)]);
    let (_, fry) = tiles[0];
    assert_eq!(fry.ty, LevelTileType::Fry);
    assert_eq!(fry.texture, 4);
    assert_eq!(fry.activation_cond, Some(ActivationCondition::Odd));
    assert_eq!(fry.activatable_animating, Some(ActivatableAnimating::Pause { anim: 7 }));
    let (_, floor) = tiles[1];
    assert_eq!(floor.ty, LevelTileType::Floor);
    assert_eq!(floor.activation_cond, None);
    assert_eq!(floor.activatable_animating, None);
    assert_eq!(LevelTileType::Fry.insert_into(), Some(TileTag::Frier));
    assert_eq!(LevelTileType::Floor.insert_into(), None);

    // An activator on a tile type without animations fails.
    let no_meta: Vec<((LevelTileType, TileAnimationType), usize)> = vec![];
    assert!(matches!(
        build_tiles(2, 2, &geometry, &activators, &gtable, &atable, &no_meta, &ix),
        Err(LevelError::NoAnimatingConfig { ty: LevelTileType::Fry })
    ));
    // An activator tile that the table does not know.
    assert!(matches!(
        build_tiles(2, 2, &geometry, &activators, &gtable, &std::collections::HashMap::new(), &meta, &ix),
        Err(LevelError::NotActivator { x: 0, y: 1 })
    ));
}

#[test]
fn level_from_tables_and_spawning() {
    let geometry = layer_of(1, 2, vec![cell(0, 3), cell(0, 4)]);
    let activators = layer_of(1, 2, vec![None, cell(1, 9)]);
    let anim_tile = TileData {
        id: 5,
        tile_type: None,
        properties: vec![],
        animation: Some(vec![AnimFrame { tile_id: 4, duration: 2 }]),
        image: None,
    };
    let tiles = vec![typed_tile(3, "x", vec![]), typed_tile(4, "x", vec![]), anim_tile];
    let gtable = vec![
        (3, GeometryTile::LogicTile { ty: LevelTileType::Exit }),
        (4, GeometryTile::LogicTile { ty: LevelTileType::Conveyor }),
        (5, GeometryTile::LevelTileAnimation { anim_ty: TileAnimationType::OnOffAnimation, target: LevelTileType::Conveyor }),
    ];
    let atable: std::collections::HashMap<u32, ActivatorTile> = [(9, ActivatorTile { active: ActivationCondition::Even })].into_iter().collect();
    let mut anims = CPUTileAnimations::new();
    anims.add_animation(CPUTileAnimation::new(vec![]));
    let level = Level::from_tables(1, 2, &geometry, &activators, &tiles, &gtable, &atable,
        &TilesetIndexing::Continious, 21, &mut anims).unwrap();
    assert_eq!((level.width(), level.height(), level.geometry_atlas()), (1, 2, 21));
    // The animation was registered after the one there before.
    assert_eq!(anims.animations.len(), 2);
    assert_eq!(anims.animations[1].0, vec![Frame { texture_id: 4, duration: 2_000_000 }]);
    let t = level.tiles();
    assert_eq!(t.len(), 2);
    // Row 0 from the bottom is the layer's last row.
    assert_eq!(t[0].0, (0, 0));
    assert_eq!(t[0].1.ty, LevelTileType::Conveyor);
    assert_eq!(t[0].1.activatable_animating, Some(ActivatableAnimating::Pause { anim: 1 }));
    assert_eq!(t[1].1.ty, LevelTileType::Exit);
    let spawned = spawn_level(&level);
    assert_eq!(spawned[0].tag, Some(TileTag::Conveyor));
    assert_eq!(spawned[0].activation.map(|(c, a)| (c, a.is_active)), Some((ActivationCondition::Even, true)));
    assert_eq!(spawned[1].tag, Some(TileTag::EndTile));
    assert!(spawned[1].activation.is_none());

    // An animation tile without an animation.
    let bare = vec![typed_tile(3, "x", vec![]), typed_tile(4, "x", vec![]), typed_tile(5, "x", vec![])];
    assert!(matches!(
        Level::from_tables(1, 2, &geometry, &activators, &bare, &gtable, &atable,
            &TilesetIndexing::Continious, 21, &mut CPUTileAnimations::new()),
        Err(LevelError::NoAnimation { id: 5 })
    ));
}

#[test]
fn level_info_names_its_map_and_geometry_layer() {
    let info = gluttony::level::LevelInfo::new(2, 5);
    assert_eq!(info.map(), 2);
    assert_eq!(info.geometry_layer(), 5);
}

#[test]
fn levels_are_read_from_maps() {
    let ix = vec![TilesetIndexing::Continious, TilesetIndexing::Continious];
    let atlases = vec![10, 11];
    let mut anims = CPUTileAnimations::new();
    let mut animated = typed_tile(1, "LevelTileAnimation", vec![
        ("anim_ty".to_string(), PropertyValue::StringValue("OnOffAnimation".to_string())),
        ("target".to_string(), PropertyValue::StringValue("Fry".to_string())),
    ]);
    animated.animation = Some(vec![AnimFrame { tile_id: 0, duration: 5 }]);
    let map = level_map(vec![
        typed_tile(0, "LogicTile", vec![("ty".to_string(), PropertyValue::StringValue("Fry".to_string()))]),
        animated,
    ]);
    let level = Level::new(&map, &mut anims, &ix, &atlases).unwrap();
    assert_eq!((level.width(), level.height(), level.geometry_atlas()), (1, 1, 10));
    assert_eq!(anims.animations.len(), 1);
    let t = level.tiles();
    assert_eq!(t.len(), 1);
    assert_eq!(t[0].0, (0, 0));
    assert_eq!(t[0].1.ty, LevelTileType::Fry);
    assert_eq!(t[0].1.activation_cond, Some(ActivationCondition::Even));
    assert_eq!(t[0].1.activatable_animating, Some(ActivatableAnimating::Pause { anim: 0 }));
}

#[test]
fn level_inputs_are_checked() {
    let map = level_map(vec![typed_tile(0, "LogicTile", vec![("ty".to_string(), PropertyValue::StringValue("Floor".to_string()))])]);
    let ix = vec![TilesetIndexing::Continious, TilesetIndexing::Continious];
    assert!(gluttony::level::level_inputs_hold(&map, &ix, &vec![10, 11], 0));
    // The geometry tileset needs an atlas.
    assert!(!gluttony::level::level_inputs_hold(&map, &ix, &vec![], 0));
    // An image-collection tileset without the tile's texture.
    let special = vec![TilesetIndexing::from_tile_ids(&vec![5]), TilesetIndexing::Continious];
    assert!(!gluttony::level::level_inputs_hold(&map, &special, &vec![10, 11], 0));
    let special = vec![TilesetIndexing::from_tile_ids(&vec![0]), TilesetIndexing::Continious];
    assert!(gluttony::level::level_inputs_hold(&map, &special, &vec![10, 11], 0));
}

#[test]
fn the_later_activator_tile_of_an_id_wins() {
    let active = |c: &str| vec![("active".to_string(), PropertyValue::StringValue(c.to_string()))];
    let tiles = vec![
        typed_tile(3, "ActivatorTile", active("Odd")),
        typed_tile(4, "ActivatorTile", active("Odd")),
        typed_tile(3, "ActivatorTile", active("Even")),
    ];
    let table = gluttony::properties::activator_tile_properties(&tiles).unwrap();
    assert_eq!(table.len(), 2);
    assert_eq!(table[&3], ActivatorTile { active: ActivationCondition::Even });
    assert_eq!(table[&4], ActivatorTile { active: ActivationCondition::Odd });
}
