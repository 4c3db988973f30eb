use gluttony::anim::TilesetIndexing;
use gluttony::map_level::Level as EditorLevel;
use gluttony::properties::{PropertyDes, PropertyDeserError, Visit};
use gluttony::tile::ActivationCondition;
use gluttony::tiled_asset::{from_tileset_and_atlas, TiledTileset, TilesetState};
use gluttony::tilemap::{Color, Layer, LayerKind, MapData, PropertyValue};

#[test]
fn reading_property_values() {
    let b = PropertyValue::BoolValue(true);
    assert!(matches!(PropertyDes { prop: &b }.deserialize_any(), Ok(Visit::Bool(true))));
    assert!(matches!(
        PropertyDes { prop: &b }.deserialize_i32(),
        Err(PropertyDeserError::WrongPropType { expected: "int", found: "bool" })
    ));
    let i = PropertyValue::IntValue(-1);
    assert!(matches!(PropertyDes { prop: &i }.deserialize_u32(), Ok(Visit::U32(u32::MAX))));
    let f = PropertyValue::FloatValue(1.5f32.to_bits());
    assert!(matches!(PropertyDes { prop: &f }.deserialize_f32(), Ok(Visit::F32(x)) if x == 1.5f32.to_bits()));
    let c = PropertyValue::StringValue("x".to_string());
    assert!(matches!(PropertyDes { prop: &c }.deserialize_char(), Ok(Visit::Char('x'))));
    let long = PropertyValue::FileValue("xy".to_string());
    assert!(matches!(PropertyDes { prop: &long }.deserialize_char(), Err(PropertyDeserError::ExpectedChar)));
    let o = PropertyValue::ObjectValue(3);
    assert!(matches!(PropertyDes { prop: &o }.deserialize_any(), Err(PropertyDeserError::ObjectValueFound)));
    assert_eq!(PropertyDes { prop: &o }.prop_type_str(), "object");
    let e = PropertyValue::StringValue("Even".to_string());
    assert_eq!(PropertyDes { prop: &e }.activation_condition().unwrap(), ActivationCondition::Even);
}

#[test]
fn reading_colors() {
    let col = PropertyValue::ColorValue(Color { alpha: 1, red: 2, green: 3, blue: 4 });
    let mut m = PropertyDes { prop: &col }.deserialize_struct().unwrap();
    let mut fields = Vec::new();
    while let Some(k) = m.next_key() {
        fields.push((k, m.next_value().unwrap()));
    }
    assert_eq!(fields, vec![("red", 2), ("green", 3), ("blue", 4), ("alpha", 1)]);
    assert!(matches!(m.next_value(), Err(PropertyDeserError::ColorFieldsExhausted)));
}

#[test]
fn atlas_indexing_and_states() {
    let collection = TiledTileset::ImageCollection(vec![(5, "a.png".to_string()), (9, "b.png".to_string())]);
    let atlas = vec![("b.png".to_string(), 0), ("a.png".to_string(), 1)];
    let ix = from_tileset_and_atlas(&collection, &atlas);
    assert_eq!(ix.dispatch(5), 1);
    assert_eq!(ix.dispatch(9), 0);
    assert!(matches!(
        from_tileset_and_atlas(&TiledTileset::Image("t.png".to_string()), &atlas),
        TilesetIndexing::Continious
    ));
    let ready = TilesetState::Ready { handle: 42, origin: vec![] };
    assert_eq!(ready.ready_image(), 42);
}

#[test]
fn geometry_layer_position() {
    let map = MapData {
        width: 0,
        height: 0,
        layers: vec![
            Layer { id: 8, name: "decor".to_string(), kind: LayerKind::Objects },
            Layer { id: 9, name: "geometry".to_string(), kind: LayerKind::Objects },
        ],
        tilesets: vec![],
    };
    let level = EditorLevel::new(map, vec![]);
    assert_eq!(level.find_geometry_layer(), Some(1));
    assert_eq!(level.find_geometry_layer_id(), Some(9));
}

#[test]
fn a_float_is_expected_where_a_float_is_asked() {
    let p = gluttony::tilemap::PropertyValue::IntValue(3);
    let d = gluttony::properties::PropertyDes { prop: &p };
    match d.parse_f32() {
        Err(PropertyDeserError::WrongPropType { expected, found }) => {
            assert_eq!(expected, "float");
            assert_eq!(found, "int");
        }
        other => panic!("unexpected {:?}", other),
    }
}
