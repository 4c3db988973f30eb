//! The attributes of special tiles, read from the custom properties that
//! the tiles of a tileset carry.

use vstd::prelude::*;
use crate::tile::ActivationCondition;
use crate::tilemap::{MapData, PropertyValue, TileData, f32_bits_negative, f32_is_negative};

verus! {

/// How a tile that can be switched on and off is animated.
#[derive(Debug, Clone, Copy, PartialEq, Eq, Structural)]
pub enum AnimationType {
    /// Switching between an "on" and an "off" animation, with transitions.
    Switch,
    /// Stopping the "on" animation while off.
    Stop,
}

/// The attributes that a tile's properties set.
#[derive(Debug, Clone, Copy)]
pub struct ScannedAttrs {
    pub activation_cond: Option<ActivationCondition>,
    /// The animation speed multiplier, as the bits of an `f32`.
    pub anim_speed: Option<u32>,
    pub on_transition_graphics: Option<u32>,
    pub off_transition_graphics: Option<u32>,
    pub on_graphics: Option<u32>,
    pub off_graphics: Option<u32>,
    pub anim_type: Option<AnimationType>,
}

/// No attribute set.
pub open spec fn no_attrs() -> ScannedAttrs {
    ScannedAttrs {
        activation_cond: None,
        anim_speed: None,
        on_transition_graphics: None,
        off_transition_graphics: None,
        on_graphics: None,
        off_graphics: None,
        anim_type: None,
    }
}

/// A tile id from an integer property; negative ids are refused.
pub open spec fn tile_id_value(p: PropertyValue) -> Option<u32> {
    match p {
        PropertyValue::IntValue(i) => if i < 0 {
            None
        } else {
            Some(i as u32)
        },
        _ => None,
    }
}

/// The attributes after reading one property: a recognized name with a
/// value of the right type and range sets its attribute, replacing what
/// was set before; anything else changes nothing.
pub open spec fn attr_step(a: ScannedAttrs, name: Seq<char>, p: PropertyValue) -> ScannedAttrs {
    if name == "on_transition"@ {
        match tile_id_value(p) {
            Some(i) => ScannedAttrs { on_transition_graphics: Some(i), ..a },
            None => a,
        }
    } else if name == "off_transition"@ {
        match tile_id_value(p) {
            Some(i) => ScannedAttrs { off_transition_graphics: Some(i), ..a },
            None => a,
        }
    } else if name == "anim_type"@ {
        match p {
            PropertyValue::StringValue(s) => if s@ == "switch"@ {
                ScannedAttrs { anim_type: Some(AnimationType::Switch), ..a }
            } else if s@ == "stop"@ {
                ScannedAttrs { anim_type: Some(AnimationType::Stop), ..a }
            } else {
                a
            },
            _ => a,
        }
    } else if name == "active"@ {
        match p {
            PropertyValue::StringValue(s) => if s@ == "odd"@ {
                ScannedAttrs { activation_cond: Some(ActivationCondition::Odd), ..a }
            } else if s@ == "even"@ {
                ScannedAttrs { activation_cond: Some(ActivationCondition::Even), ..a }
            } else {
                a
            },
            _ => a,
        }
    } else if name == "on_tile"@ {
        match tile_id_value(p) {
            Some(i) => ScannedAttrs { on_graphics: Some(i), ..a },
            None => a,
        }
    } else if name == "off_tile"@ {
        match tile_id_value(p) {
            Some(i) => ScannedAttrs { off_graphics: Some(i), ..a },
            None => a,
        }
    } else if name == "anim_speed"@ {
        match p {
            PropertyValue::FloatValue(f) => if f32_bits_negative(f) {
                a
            } else {
                ScannedAttrs { anim_speed: Some(f), ..a }
            },
            _ => a,
        }
    } else {
        a
    }
}

/// The attributes set by a list of properties, read in order.
pub open spec fn scan_attrs(props: Seq<(String, PropertyValue)>) -> ScannedAttrs
    decreases props.len(),
{
    if props.len() == 0 {
        no_attrs()
    } else {
        attr_step(scan_attrs(props.drop_last()), props.last().0@, props.last().1)
    }
}

/// A tile id from an integer property.
fn read_tile_id(p: &PropertyValue) -> (r: Option<u32>)
    ensures
        r == tile_id_value(*p),
{
    match p {
        PropertyValue::IntValue(i) => if *i < 0 {
            None
        } else {
            Some(*i as u32)
        },
        _ => None,
    }
}

/// Reads one property into the attributes.
pub fn scan_property(a: ScannedAttrs, name: &String, p: &PropertyValue) -> (r: ScannedAttrs)
    ensures
        r == attr_step(a, name@, *p),
{
    if *name == "on_transition".to_owned() {
        match read_tile_id(p) {
            Some(i) => ScannedAttrs { on_transition_graphics: Some(i), ..a },
            None => a,
        }
    } else if *name == "off_transition".to_owned() {
        match read_tile_id(p) {
            Some(i) => ScannedAttrs { off_transition_graphics: Some(i), ..a },
            None => a,
        }
    } else if *name == "anim_type".to_owned() {
        match p {
            PropertyValue::StringValue(s) => if *s == "switch".to_owned() {
                ScannedAttrs { anim_type: Some(AnimationType::Switch), ..a }
            } else if *s == "stop".to_owned() {
                ScannedAttrs { anim_type: Some(AnimationType::Stop), ..a }
            } else {
                a
            },
            _ => a,
        }
    } else if *name == "active".to_owned() {
        match p {
            PropertyValue::StringValue(s) => if *s == "odd".to_owned() {
                ScannedAttrs { activation_cond: Some(ActivationCondition::Odd), ..a }
            } else if *s == "even".to_owned() {
                ScannedAttrs { activation_cond: Some(ActivationCondition::Even), ..a }
            } else {
                a
            },
            _ => a,
        }
    } else if *name == "on_tile".to_owned() {
        match read_tile_id(p) {
            Some(i) => ScannedAttrs { on_graphics: Some(i), ..a },
            None => a,
        }
    } else if *name == "off_tile".to_owned() {
        match read_tile_id(p) {
            Some(i) => ScannedAttrs { off_graphics: Some(i), ..a },
            None => a,
        }
    } else if *name == "anim_speed".to_owned() {
        match p {
            PropertyValue::FloatValue(f) => if f32_is_negative(*f) {
                a
            } else {
                ScannedAttrs { anim_speed: Some(*f), ..a }
            },
            _ => a,
        }
    } else {
        a
    }
}

/// Each property sets the attribute it names and no other: a tile id in
/// `on_transition`, `off_transition`, `on_tile` or `off_tile` sets the
/// graphics of that name, `switch` or `stop` in `anim_type` sets that kind
/// of animation, and a speed that is not negative in `anim_speed` sets the
/// speed; a property of any other name changes nothing.
pub proof fn law_each_property_sets_its_own_attribute(
    a: ScannedAttrs,
    name: String,
    p: PropertyValue,
)
    ensures
        name@ == "on_transition"@ ==> (p matches PropertyValue::IntValue(i) ==> i >= 0 ==> attr_step(
            a,
            name@,
            p,
        ) == (ScannedAttrs { on_transition_graphics: Some(i as u32), ..a })),
        name@ == "off_transition"@ ==> (p matches PropertyValue::IntValue(i) ==> i >= 0 ==> attr_step(a, name@, p) == (ScannedAttrs {
            off_transition_graphics: Some(i as u32),
            ..a
        })),
        name@ == "on_tile"@ ==> (p matches PropertyValue::IntValue(i) ==> i >= 0 ==> attr_step(
            a,
            name@,
            p,
        ) == (ScannedAttrs { on_graphics: Some(i as u32), ..a })),
        name@ == "off_tile"@ ==> (p matches PropertyValue::IntValue(i) ==> i >= 0 ==> attr_step(
            a,
            name@,
            p,
        ) == (ScannedAttrs { off_graphics: Some(i as u32), ..a })),
        name@ == "anim_type"@ ==> (p matches PropertyValue::StringValue(t) ==> t@ == "switch"@ ==> attr_step(a, name@, p) == (ScannedAttrs {
            anim_type: Some(AnimationType::Switch),
            ..a
        })),
        name@ == "anim_type"@ ==> (p matches PropertyValue::StringValue(t) ==> t@ == "stop"@ ==> attr_step(a, name@, p) == (ScannedAttrs {
            anim_type: Some(AnimationType::Stop),
            ..a
        })),
        name@ == "anim_speed"@ ==> (p matches PropertyValue::FloatValue(f) ==> !f32_bits_negative(f) ==> attr_step(a, name@, p) == (ScannedAttrs { anim_speed: Some(f), ..a })),
        name@ != "on_transition"@ && name@ != "off_transition"@ && name@ != "on_tile"@ && name@
            != "off_tile"@ && name@ != "anim_type"@ && name@ != "anim_speed"@ && name@
            != "active"@ ==> attr_step(a, name@, p) == a,
{
    reveal_strlit("on_transition");
    reveal_strlit("off_transition");
    reveal_strlit("anim_type");
    reveal_strlit("active");
    reveal_strlit("on_tile");
    reveal_strlit("off_tile");
    reveal_strlit("anim_speed");
    reveal_strlit("switch");
    reveal_strlit("stop");
    assert("on_transition"@.len() != "off_transition"@.len());
    assert("on_tile"@.len() != "off_tile"@.len());
    assert("switch"@.len() != "stop"@.len());
    assert("on_tile"@ != "on_transition"@);
    assert("on_tile"@ != "off_transition"@);
    assert("on_tile"@ != "anim_type"@);
    assert("on_tile"@ != "active"@);
    assert("off_tile"@ != "on_transition"@);
    assert("off_tile"@ != "off_transition"@);
    assert("off_tile"@ != "anim_type"@);
    assert("off_tile"@ != "active"@);
    assert("anim_speed"@ != "on_transition"@);
    assert("anim_speed"@ != "off_transition"@);
    assert("anim_speed"@.len() != "anim_type"@.len());
    assert("anim_speed"@.len() != "active"@.len());
    assert("anim_speed"@ != "on_tile"@);
    assert("anim_speed"@ != "off_tile"@);
    assert("anim_type"@ != "on_transition"@);
    assert("anim_type"@ != "off_transition"@);
}

/// A tile's `active` property names its activation condition: the text
/// `even` makes it active on even numbers and `odd` on odd ones, replacing
/// what was read before and leaving the other attributes as they were;
/// any other text changes nothing. The last such property of a tile
/// decides.
pub proof fn law_active_property_names_the_condition(
    a: ScannedAttrs,
    props: Seq<(String, PropertyValue)>,
    name: String,
    value: String,
)
    requires
        name@ == "active"@,
    ensures
        value@ == "even"@ ==> attr_step(a, name@, PropertyValue::StringValue(value)) == (
        ScannedAttrs { activation_cond: Some(ActivationCondition::Even), ..a }),
        value@ == "odd"@ ==> attr_step(a, name@, PropertyValue::StringValue(value)) == (
        ScannedAttrs { activation_cond: Some(ActivationCondition::Odd), ..a }),
        value@ != "even"@ && value@ != "odd"@ ==> attr_step(
            a,
            name@,
            PropertyValue::StringValue(value),
        ) == a,
        value@ == "even"@ ==> scan_attrs(
            props.push((name, PropertyValue::StringValue(value))),
        ).activation_cond == Some(ActivationCondition::Even),
        value@ == "odd"@ ==> scan_attrs(
            props.push((name, PropertyValue::StringValue(value))),
        ).activation_cond == Some(ActivationCondition::Odd),
{
    reveal_strlit("on_transition");
    reveal_strlit("off_transition");
    reveal_strlit("anim_type");
    reveal_strlit("active");
    reveal_strlit("odd");
    reveal_strlit("even");
    assert("active"@.len() != "on_transition"@.len());
    assert("active"@.len() != "off_transition"@.len());
    assert("active"@.len() != "anim_type"@.len());
    assert("even"@.len() != "odd"@.len());
    let last = (name, PropertyValue::StringValue(value));
    assert(props.push(last).drop_last() == props);
    assert(props.push(last).last() == last);
}

/// The attributes of a tile that the game recognizes.
#[derive(Debug, Clone)]
pub struct TileAttributes {
    pub tile_ty: Option<String>,
    pub activation_cond: Option<ActivationCondition>,
    /// The animation speed multiplier, as the bits of an `f32`.
    pub anim_speed: Option<u32>,
    pub on_transition_graphics: Option<u32>,
    pub off_transition_graphics: Option<u32>,
    pub on_graphics: Option<u32>,
    pub off_graphics: Option<u32>,
    pub anim_type: Option<AnimationType>,
}

/// Whether two optional texts are equal.
pub open spec fn same_text(a: Option<String>, b: Option<String>) -> bool {
    match (a, b) {
        (Some(x), Some(y)) => x@ == y@,
        (None, None) => true,
        _ => false,
    }
}

/// Whether `attrs` are the attributes of `tile`: its type, and what its
/// properties set.
pub open spec fn attrs_of(tile: TileData, attrs: TileAttributes) -> bool {
    let s = scan_attrs(tile.properties@);
    &&& same_text(attrs.tile_ty, tile.tile_type)
    &&& attrs.activation_cond == s.activation_cond
    &&& attrs.anim_speed == s.anim_speed
    &&& attrs.on_transition_graphics == s.on_transition_graphics
    &&& attrs.off_transition_graphics == s.off_transition_graphics
    &&& attrs.on_graphics == s.on_graphics
    &&& attrs.off_graphics == s.off_graphics
    &&& attrs.anim_type == s.anim_type
}

/// Reads the attributes of the tile with id `id` from its type and its
/// properties, in order; unknown properties, values of the wrong type,
/// negative tile ids or speeds and unknown names are skipped, and a later
/// property overrides an earlier one.
pub fn scan_properties(id: u32, tile: &TileData) -> (r: TileAttributes)
    ensures
        attrs_of(*tile, r),
{
    let mut a = ScannedAttrs {
        activation_cond: None,
        anim_speed: None,
        on_transition_graphics: None,
        off_transition_graphics: None,
        on_graphics: None,
        off_graphics: None,
        anim_type: None,
    };
    let mut i: usize = 0;
    while i < tile.properties.len()
        invariant
            i <= tile.properties@.len(),
            a == scan_attrs(tile.properties@.take(i as int)),
        decreases tile.properties@.len() - i,
    {
        proof {
            assert(tile.properties@.take(i + 1).drop_last() == tile.properties@.take(i as int));
        }
        let (name, prop) = &tile.properties[i];
        a = scan_property(a, name, prop);
        i = i + 1;
    }
    proof {
        assert(tile.properties@.take(i as int) == tile.properties@);
    }
    let tile_ty = match &tile.tile_type {
        Some(t) => Some(t.clone()),
        None => None,
    };
    TileAttributes {
        tile_ty,
        activation_cond: a.activation_cond,
        anim_speed: a.anim_speed,
        on_transition_graphics: a.on_transition_graphics,
        off_transition_graphics: a.off_transition_graphics,
        on_graphics: a.on_graphics,
        off_graphics: a.off_graphics,
        anim_type: a.anim_type,
    }
}

/// The attributes of every tile of every tileset of the map: for each
/// tileset, each tile's id with its attributes, in order.
pub fn scan_tilesets(map: &MapData) -> (r: Vec<Vec<(u32, TileAttributes)>>)
    ensures
        r@.len() == map.tilesets@.len(),
        forall|t: int|
            0 <= t < r@.len() ==> (#[trigger] r@[t])@.len() == map.tilesets@[t].tiles@.len(),
        forall|t: int, k: int|
            0 <= t < r@.len() && 0 <= k < map.tilesets@[t].tiles@.len() ==> (#[trigger] r@[t]@[k]).0
                == map.tilesets@[t].tiles@[k].id && attrs_of(map.tilesets@[t].tiles@[k], r@[t]@[k].1),
{
    let mut all: Vec<Vec<(u32, TileAttributes)>> = Vec::new();
    let mut t: usize = 0;
    while t < map.tilesets.len()
        invariant
            t <= map.tilesets@.len(),
            all@.len() == t,
            forall|u: int| 0 <= u < t ==> (#[trigger] all@[u])@.len() == map.tilesets@[u].tiles@.len(),
            forall|u: int, k: int|
                0 <= u < t && 0 <= k < map.tilesets@[u].tiles@.len() ==> (#[trigger] all@[u]@[k]).0
                    == map.tilesets@[u].tiles@[k].id && attrs_of(
                    map.tilesets@[u].tiles@[k],
                    all@[u]@[k].1,
                ),
        decreases map.tilesets@.len() - t,
    {
        let tiles = &map.tilesets[t].tiles;
        let mut attrs: Vec<(u32, TileAttributes)> = Vec::new();
        let mut k: usize = 0;
        while k < tiles.len()
            invariant
                k <= tiles@.len(),
                attrs@.len() == k,
                forall|j: int|
                    0 <= j < k ==> (#[trigger] attrs@[j]).0 == tiles@[j].id && attrs_of(
                        tiles@[j],
                        attrs@[j].1,
                    ),
            decreases tiles@.len() - k,
        {
            let a = scan_properties(tiles[k].id, &tiles[k]);
            attrs.push((tiles[k].id, a));
            k = k + 1;
        }
        all.push(attrs);
        t = t + 1;
    }
    all
}

} // verus!
