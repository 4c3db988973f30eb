use gluttony::anim::{CPUTileAnimation, CPUTileAnimations, Frame, TilesetIndexing};
use gluttony::tile::ActivationCondition;
use gluttony::tile_attributes::{scan_properties, scan_tilesets, AnimationType, TileAttributes};
use gluttony::tile_decoder::{
    build_command, build_commands, dispatch_anim_type, get_tile_animation,
    scan_tilesets_for_animations, AnimPlayback, SwitchAnimating, TileKindTag, NORMAL_SPEED,
};
use gluttony::tiled_asset::{images_to_load, tiled_tilesets, tileset_indexing, TiledTileset, TilemapTexture};
use gluttony::tilemap::{AnimFrame, MapData, PropertyValue, TileData, TilesetData};

fn prop(name: &str, v: PropertyValue) -> (String, PropertyValue) {
    (name.to_string(), v)
}

fn plain_tile(id: u32, props: Vec<(String, PropertyValue)>) -> TileData {
    TileData { id, tile_type: None, properties: props, animation: None, image: None }
}

fn no_attrs() -> TileAttributes {
    TileAttributes {
        tile_ty: None,
        activation_cond: None,
        anim_speed: None,
        on_transition_graphics: None,
        off_transition_graphics: None,
        on_graphics: None,
        off_graphics: None,
        anim_type: None,
    }
}

#[test]
fn attributes_from_properties() {
    let tile = TileData {
        id: 3,
        tile_type: Some("conveyor".to_string()),
        properties: vec![
            prop("active", PropertyValue::StringValue("odd".to_string())),
            prop("on_tile", PropertyValue::IntValue(5)),
            prop("off_tile", PropertyValue::IntValue(-2)),
            prop("anim_type", PropertyValue::StringValue("stop".to_string())),
            prop("anim_speed", PropertyValue::FloatValue(2.0f32.to_bits())),
            prop("anim_speed", PropertyValue::FloatValue((-1.0f32).to_bits())),
            prop("on_transition", PropertyValue::StringValue("7".to_string())),
            prop("colour", PropertyValue::IntValue(1)),
            prop("on_tile", PropertyValue::IntValue(6)),
        ],
        animation: None,
        image: None,
    };
    let a = scan_properties(3, &tile);
    assert_eq!(a.tile_ty.as_deref(), Some("conveyor"));
    assert_eq!(a.activation_cond, Some(ActivationCondition::Odd));
    // The later valid value wins; negative ids and speeds are skipped.
    assert_eq!(a.on_graphics, Some(6));
    assert_eq!(a.off_graphics, None);
    assert_eq!(a.anim_type, Some(AnimationType::Stop));
    assert_eq!(a.anim_speed, Some(2.0f32.to_bits()));
    assert_eq!(a.on_transition_graphics, None);
}

#[test]
fn tile_animations_with_speeds() {
    let still = plain_tile(4, vec![]);
    let (speed, anim) = get_tile_animation(4, &still, &no_attrs());
    assert_eq!(speed, NORMAL_SPEED);
    assert_eq!(speed, 1.0f32.to_bits());
    assert_eq!(anim.0, vec![Frame { texture_id: 4, duration: 1_000_000_001 }]);
    let moving = TileData {
        id: 5,
        tile_type: None,
        properties: vec![],
        animation: Some(vec![AnimFrame { tile_id: 8, duration: 20 }]),
        image: None,
    };
    let attrs = TileAttributes { anim_speed: Some(3.0f32.to_bits()), ..no_attrs() };
    let (speed, anim) = get_tile_animation(5, &moving, &attrs);
    assert_eq!(speed, 3.0f32.to_bits());
    assert_eq!(anim.0, vec![Frame { texture_id: 8, duration: 20_000_000 }]);

    let map = MapData {
        width: 0,
        height: 0,
        layers: vec![],
        tilesets: vec![TilesetData {
            name: "t".to_string(),
            tile_width: 16,
            tile_height: 16,
            image: None,
            tiles: vec![still, moving],
        }],
    };
    let attributes = scan_tilesets(&map);
    assert_eq!(attributes.len(), 1);
    assert_eq!(attributes[0].len(), 2);
    let anims = scan_tilesets_for_animations(&map, &attributes);
    assert_eq!(anims[0].len(), 2);
    assert_eq!(anims[0][&5].0, NORMAL_SPEED);
}

fn anim_table() -> std::collections::HashMap<u32, (u32, CPUTileAnimation)> {
    (0..4u32)
        .map(|i| (i, (NORMAL_SPEED + i, CPUTileAnimation::new(vec![Frame { texture_id: i, duration: 1 }]))))
        .collect()
}

#[test]
fn animations_are_registered_once() {
    let anims = anim_table();
    let mut ids = std::collections::HashMap::new();
    let mut registry = CPUTileAnimations::new();
    let attr = TileAttributes {
        on_graphics: Some(0),
        off_graphics: Some(1),
        on_transition_graphics: Some(2),
        off_transition_graphics: Some(0),
        ..no_attrs()
    };
    let (animating, start) = dispatch_anim_type(AnimationType::Switch, &attr, &anims, &mut ids, &mut registry).unwrap();
    // Tile 0 is used twice but registered once.
    assert_eq!(registry.animations.len(), 3);
    assert_eq!(ids, [(0, 0), (1, 1), (2, 2)].into_iter().collect::<std::collections::HashMap<u32, usize>>());
    assert_eq!(start, AnimPlayback { animation: 0, speed: NORMAL_SPEED, looping: true });
    match animating {
        SwitchAnimating::Switch { off_anim, on_transition, off_transition, .. } => {
            assert_eq!(off_anim, AnimPlayback { animation: 1, speed: NORMAL_SPEED + 1, looping: true });
            assert_eq!(on_transition, AnimPlayback { animation: 2, speed: NORMAL_SPEED + 2, looping: false });
            assert_eq!(off_transition.animation, 0);
        },
        other => panic!("unexpected {:?}", other),
    }
    let stop = TileAttributes { on_graphics: Some(3), ..no_attrs() };
    let (animating, start) = dispatch_anim_type(AnimationType::Stop, &stop, &anims, &mut ids, &mut registry).unwrap();
    assert_eq!(animating, SwitchAnimating::Stop { on_speed: NORMAL_SPEED + 3 });
    assert_eq!(start.animation, 3);
    let mut playback = start;
    animating.update_cpu_anim(&mut playback, false);
    assert_eq!(playback.speed, 0);
    // Missing graphics give nothing.
    assert_eq!(dispatch_anim_type(AnimationType::Switch, &stop, &anims, &mut ids, &mut registry), None);
    assert_eq!(registry.animations.len(), 4);
}

#[test]
fn commands_of_tiles() {
    let anims = anim_table();
    let mut ids = std::collections::HashMap::new();
    let mut registry = CPUTileAnimations::new();
    let start = TileAttributes { tile_ty: Some("player_start".to_string()), ..no_attrs() };
    assert_eq!(build_command(&start, &anims, &mut ids, &mut registry).tag, Some(TileKindTag::StartTile));
    assert_eq!(build_command(&no_attrs(), &anims, &mut ids, &mut registry).tag, Some(TileKindTag::SolidTile));
    let odd = TileAttributes { tile_ty: Some("lava".to_string()), ..no_attrs() };
    assert_eq!(build_command(&odd, &anims, &mut ids, &mut registry).tag, None);
    let fry = TileAttributes {
        tile_ty: Some("fry".to_string()),
        activation_cond: Some(ActivationCondition::Even),
        anim_type: Some(AnimationType::Stop),
        on_graphics: Some(1),
        ..no_attrs()
    };
    let cmd = build_command(&fry, &anims, &mut ids, &mut registry);
    assert_eq!(cmd.tag, Some(TileKindTag::Frier));
    let (cond, animating, _) = cmd.activatable.unwrap();
    assert_eq!(cond, ActivationCondition::Even);
    assert_eq!(animating, SwitchAnimating::Stop { on_speed: NORMAL_SPEED + 1 });

    let all = build_commands(
        &vec![vec![(9, fry.clone()), (10, start.clone())]],
        &vec![anim_table()],
        &mut vec![std::collections::HashMap::new()],
        &mut CPUTileAnimations::new(),
    );
    assert_eq!(all[0][0].0, 9);
    assert_eq!(all[0][1].1.tag, Some(TileKindTag::StartTile));
}

#[test]
fn tileset_images_and_indexing() {
    let image_set = TilesetData {
        name: "atlas".to_string(),
        tile_width: 32,
        tile_height: 16,
        image: Some("tiles/atlas.png".to_string()),
        tiles: vec![],
    };
    let collection = TilesetData {
        name: "collection".to_string(),
        tile_width: 8,
        tile_height: 8,
        image: None,
        tiles: vec![
            TileData { id: 4, tile_type: None, properties: vec![], animation: None, image: Some("a.png".to_string()) },
            TileData { id: 6, tile_type: None, properties: vec![], animation: None, image: None },
            TileData { id: 2, tile_type: None, properties: vec![], animation: None, image: Some("b.png".to_string()) },
        ],
    };
    let map = MapData { width: 0, height: 0, layers: vec![], tilesets: vec![image_set, collection] };
    let sets = tiled_tilesets(&map);
    assert_eq!(sets[0].0, (32, 16));
    assert!(matches!(&sets[0].1, TiledTileset::Image(p) if p == "tiles/atlas.png"));
    match &sets[1].1 {
        TiledTileset::ImageCollection(c) => assert_eq!(c, &vec![(4, "a.png".to_string()), (2, "b.png".to_string())]),
        other => panic!("unexpected {:?}", other),
    }
    assert_eq!(images_to_load(&sets), vec!["tiles/atlas.png", "a.png", "b.png"]);
    let ix = tileset_indexing(&sets);
    assert!(matches!(&ix[0], (TilesetIndexing::Continious, TilemapTexture::Single(p)) if p == "tiles/atlas.png"));
    assert_eq!(ix[1].0.dispatch(4), 0);
    assert_eq!(ix[1].0.dispatch(2), 1);
    assert!(matches!(&ix[1].1, TilemapTexture::Vector(v) if v.len() == 2));
}

#[test]
fn atlases_cut_whole_tiles_or_stack_tile_images() {
    let tilesets = vec![
        ((16, 16), TiledTileset::Image("tiles.png".to_string())),
        (
            (8, 12),
            TiledTileset::ImageCollection(vec![(0, "a.png".to_string()), (3, "b.png".to_string())]),
        ),
    ];
    let plans = gluttony::tiled_asset::atlas_plan(&tilesets, &vec![(70, 33), (0, 0)]);
    assert_eq!(plans.len(), 2);
    match &plans[0] {
        gluttony::tiled_asset::AtlasPlan::Grid { image, tile_size, columns, rows } => {
            assert_eq!(image, "tiles.png");
            assert_eq!(*tile_size, (16, 16));
            assert_eq!(*columns, 4);
            assert_eq!(*rows, 2);
        }
        other => panic!("unexpected plan {:?}", other),
    }
    match &plans[1] {
        gluttony::tiled_asset::AtlasPlan::Stack { size, images } => {
            assert_eq!(*size, (8, 24));
            assert_eq!(images, &vec!["a.png".to_string(), "b.png".to_string()]);
        }
        other => panic!("unexpected plan {:?}", other),
    }
}

#[test]
fn two_graphic_animating() {
    let anims = anim_table();
    let mut ids = std::collections::HashMap::new();
    let mut registry = CPUTileAnimations::new();
    let attr = TileAttributes { on_graphics: Some(1), off_graphics: Some(2), ..no_attrs() };
    let (animating, start) = gluttony::tile_animation::dispatch_anim_type(
        AnimationType::Switch, &attr, &anims, &mut ids, &mut registry,
    ).unwrap();
    assert_eq!(registry.animations.len(), 2);
    assert_eq!(ids, [(1, 0), (2, 1)].into_iter().collect::<std::collections::HashMap<u32, usize>>());
    assert_eq!(start, AnimPlayback { animation: 0, speed: NORMAL_SPEED + 1, looping: true });
    assert_eq!(
        animating,
        gluttony::tile_animation::PairAnimating::Switch {
            on_anim: start,
            off_anim: AnimPlayback { animation: 1, speed: NORMAL_SPEED + 2, looping: true },
        }
    );
    // Without the "off" graphic a switching tile gets nothing.
    let only_on = TileAttributes { on_graphics: Some(1), ..no_attrs() };
    assert_eq!(
        gluttony::tile_animation::dispatch_anim_type(AnimationType::Switch, &only_on, &anims, &mut ids, &mut registry),
        None
    );
    let (stop, _) = gluttony::tile_animation::dispatch_anim_type(
        AnimationType::Stop, &only_on, &anims, &mut ids, &mut registry,
    ).unwrap();
    assert_eq!(stop, gluttony::tile_animation::PairAnimating::Stop { on_speed: NORMAL_SPEED + 1 });
    assert_eq!(registry.animations.len(), 2);
}
