//! The level resource: the logic tiles of a level, built from the map's
//! `level` group layer, its `geometry` and `activators` tile layers, and
//! the properties of their tilesets.

use vstd::prelude::*;
use std::collections::HashMap;
use crate::anim::{CPUTileAnimation, CPUTileAnimations, Frame, TilesetIndexing};
use crate::layers::{
    TilesetError, spec_group_layer, spec_finite_tile_layer, spec_unique_tileset, group_layer,
    finite_tile_layer, ensure_unique_tileset,
};
use crate::properties::{
    TilePropertyDeserError, TilePropertyErr, geometry_table_spec, activator_table_spec,
    geometry_tile_properties, activator_tile_properties,
};
use crate::tile::{ActivationCondition, ActivatableAnimating, Active};
use crate::tilemap::{AnimFrame, FiniteTileLayer, MapData, TileData, TileFlip, wrap_i32, to_i32_wrapping};

verus! {

broadcast use vstd::std_specs::hash::group_hash_axioms;

/// The role of a tile on the geometry layer.
#[derive(Debug, Clone, Copy, PartialEq, Eq, Structural)]
pub enum LevelTileType {
    Exit,
    Conveyor,
    Fry,
    PlayerStart,
    Floor,
    SpinningTile,
}

/// Which animation of an activatable tile type an animated tile holds.
#[derive(Debug, Clone, Copy, PartialEq, Eq, Structural)]
pub enum TileAnimationType {
    OnOffAnimation,
    OnAnimation,
    OffAnimation,
    OnTransition,
    OffTransition,
}

/// What a tile of the geometry tileset is.
#[derive(Debug, Clone, Copy, PartialEq, Eq, Structural)]
pub enum GeometryTile {
    /// A tile of the level's logic, of the given type.
    LogicTile { ty: LevelTileType },
    /// A decorative frame tile.
    Frame,
    /// An animation of tiles of type `target`.
    LevelTileAnimation { anim_ty: TileAnimationType, target: LevelTileType },
}

/// What a tile of the activators tileset is: the condition under which the
/// tile below it is active.
#[derive(Debug, Clone, Copy, PartialEq, Eq, Structural)]
pub struct ActivatorTile {
    pub active: ActivationCondition,
}

/// The component that a tile of the given type carries, besides the
/// common ones.
#[derive(Debug, Clone, Copy, PartialEq, Eq, Structural)]
pub enum TileTag {
    EndTile,
    Frier,
    Conveyor,
    StartTile,
    SpinningTile,
}

impl LevelTileType {
    /// The tag a tile of this type carries; floor tiles carry none.
    pub fn insert_into(&self) -> (r: Option<TileTag>)
        ensures
            r == match *self {
                LevelTileType::Exit => Some(TileTag::EndTile),
                LevelTileType::Fry => Some(TileTag::Frier),
                LevelTileType::Conveyor => Some(TileTag::Conveyor),
                LevelTileType::PlayerStart => Some(TileTag::StartTile),
                LevelTileType::SpinningTile => Some(TileTag::SpinningTile),
                LevelTileType::Floor => None,
            },
    {
        match self {
            LevelTileType::Exit => Some(TileTag::EndTile),
            LevelTileType::Fry => Some(TileTag::Frier),
            LevelTileType::Conveyor => Some(TileTag::Conveyor),
            LevelTileType::PlayerStart => Some(TileTag::StartTile),
            LevelTileType::SpinningTile => Some(TileTag::SpinningTile),
            _ => None,
        }
    }
}



/// Which layer of the `level` group layer a failure is about.
#[derive(Debug, Clone, Copy, PartialEq, Eq, Structural)]
pub enum LevelLayer {
    Geometry,
    Activators,
}

/// Why a level could not be built from its map.
#[derive(Debug)]
pub enum LevelError {
    /// The map has no group layer named `level`.
    NoLevelLayer,
    /// The `level` layer has no finite tile layer of that name.
    NoLayer { layer: LevelLayer },
    /// The layer does not draw from exactly one tileset.
    TilesetCheck { layer: LevelLayer, cause: TilesetError },
    /// The properties of a tile of the layer's tileset could not be read.
    Properties(TilePropertyDeserError),
    /// The tile of the geometry tileset is an animation tile, but has no
    /// animation.
    NoAnimation { id: u32 },
    /// The tile on the geometry layer at `(x, y)` is not a logic tile.
    IncorrectTile { x: u32, y: u32 },
    /// The tile on the activator layer at `(x, y)` is not an activator tile.
    NotActivator { x: u32, y: u32 },
    /// A switchable tile of this type has no complete set of animations.
    NoAnimatingConfig { ty: LevelTileType },
}

/// `LevelError` with the texts of a property failure as character
/// sequences.
pub enum LevelErr {
    NoLevelLayer,
    NoLayer { layer: LevelLayer },
    TilesetCheck { layer: LevelLayer, cause: TilesetError },
    Properties(TilePropertyErr),
    NoAnimation { id: u32 },
    IncorrectTile { x: u32, y: u32 },
    NotActivator { x: u32, y: u32 },
    NoAnimatingConfig { ty: LevelTileType },
}

impl View for LevelError {
    type V = LevelErr;

    open spec fn view(&self) -> LevelErr {
        match self {
            LevelError::NoLevelLayer => LevelErr::NoLevelLayer,
            LevelError::NoLayer { layer } => LevelErr::NoLayer { layer: *layer },
            LevelError::TilesetCheck { layer, cause } => LevelErr::TilesetCheck {
                layer: *layer,
                cause: *cause,
            },
            LevelError::Properties(e) => LevelErr::Properties(e@),
            LevelError::NoAnimation { id } => LevelErr::NoAnimation { id: *id },
            LevelError::IncorrectTile { x, y } => LevelErr::IncorrectTile { x: *x, y: *y },
            LevelError::NotActivator { x, y } => LevelErr::NotActivator { x: *x, y: *y },
            LevelError::NoAnimatingConfig { ty } => LevelErr::NoAnimatingConfig { ty: *ty },
        }
    }
}

// ----------------------------------------------------------------------
// Tables keyed by id
// ----------------------------------------------------------------------

/// The value of the last entry with the given key: what a map filled from
/// the entries in order holds for it.
pub open spec fn last_with_key<K, V>(entries: Seq<(K, V)>, key: K) -> Option<V>
    decreases entries.len(),
{
    if entries.len() == 0 {
        None
    } else if entries.last().0 == key {
        Some(entries.last().1)
    } else {
        last_with_key(entries.drop_last(), key)
    }
}

/// The value of the last entry of a table with the given id.
pub fn table_get<V: Copy>(table: &Vec<(u32, V)>, id: u32) -> (r: Option<V>)
    ensures
        r == last_with_key(table@, id),
{
    let mut i: usize = table.len();
    proof {
        assert(table@.take(i as int) == table@);
    }
    while i > 0
        invariant
            i <= table@.len(),
            last_with_key(table@, id) == last_with_key(table@.take(i as int), id),
        decreases i,
    {
        proof {
            assert(table@.take(i as int).drop_last() == table@.take(i - 1));
        }
        if table[i - 1].0 == id {
            return Some(table[i - 1].1);
        }
        i = i - 1;
    }
    None
}

/// The position of the last entry of a table with the given id.
pub fn table_position<V>(table: &Vec<(u32, V)>, id: u32) -> (r: Option<usize>)
    ensures
        r matches Some(i) ==> i < table@.len() && table@[i as int].0 == id && last_with_key(
            table@,
            id,
        ) == Some(table@[i as int].1),
        r is None ==> last_with_key(table@, id) is None,
{
    let mut i: usize = table.len();
    proof {
        assert(table@.take(i as int) == table@);
    }
    while i > 0
        invariant
            i <= table@.len(),
            last_with_key(table@, id) == last_with_key(table@.take(i as int), id),
        decreases i,
    {
        proof {
            assert(table@.take(i as int).drop_last() == table@.take(i - 1));
        }
        if table[i - 1].0 == id {
            return Some(i - 1);
        }
        i = i - 1;
    }
    None
}

/// Which animation an animation tile is, keyed by the tile type it
/// animates and the kind of animation.
pub type AnimKey = (LevelTileType, TileAnimationType);

/// The id of the last animation registered for a key.
pub fn meta_get(meta: &Vec<(AnimKey, usize)>, key: AnimKey) -> (r: Option<usize>)
    ensures
        r == last_with_key(meta@, key),
{
    let mut i: usize = meta.len();
    proof {
        assert(meta@.take(i as int) == meta@);
    }
    while i > 0
        invariant
            i <= meta@.len(),
            last_with_key(meta@, key) == last_with_key(meta@.take(i as int), key),
        decreases i,
    {
        proof {
            assert(meta@.take(i as int).drop_last() == meta@.take(i - 1));
        }
        let (k, v) = meta[i - 1];
        if k.0 == key.0 && k.1 == key.1 {
            return Some(v);
        }
        i = i - 1;
    }
    None
}


// ----------------------------------------------------------------------
// Animations of the geometry tileset
// ----------------------------------------------------------------------

/// The frames of an animation as it is registered: each frame shows the
/// texture of its tile, for its duration in milliseconds.
pub open spec fn anim_frames(ix: TilesetIndexing, anim: Seq<AnimFrame>) -> Seq<Frame> {
    Seq::new(
        anim.len(),
        |i: int|
            Frame {
                texture_id: ix.spec_dispatch(anim[i].tile_id),
                duration: (anim[i].duration * 1_000_000) as u128,
            },
    )
}

/// The frames of each registered animation.
pub open spec fn anim_views(anims: Seq<CPUTileAnimation>) -> Seq<Seq<Frame>> {
    anims.map_values(|a: CPUTileAnimation| a.0@)
}

/// Visiting the first `k` tiles of the geometry tileset with their table
/// entries: the animations registered for the animation tiles, in order,
/// and the id of the first animation tile found without an animation
/// (after which nothing more is registered).
pub open spec fn anim_scan(
    tiles: Seq<TileData>,
    table: Seq<(u32, GeometryTile)>,
    ix: TilesetIndexing,
    k: int,
) -> (Seq<Seq<Frame>>, Option<u32>)
    decreases k,
{
    if k <= 0 {
        (Seq::empty(), None)
    } else {
        let (added, failed) = anim_scan(tiles, table, ix, k - 1);
        if failed is Some || !(table[k - 1].1 is LevelTileAnimation) {
            (added, failed)
        } else {
            match tiles[k - 1].animation {
                Some(a) => (added.push(anim_frames(ix, a@)), None),
                None => (added, Some(tiles[k - 1].id)),
            }
        }
    }
}

/// Whether the frames of every animation tile's animation have textures.
pub open spec fn anims_indexed(
    tiles: Seq<TileData>,
    table: Seq<(u32, GeometryTile)>,
    ix: TilesetIndexing,
) -> bool {
    forall|k: int, f: int|
        0 <= k < tiles.len() && table[k].1 is LevelTileAnimation && tiles[k].animation is Some
            && 0 <= f < tiles[k].animation->0@.len() ==> ix.maps(
            #[trigger] tiles[k].animation->0@[f].tile_id,
        )
}

/// Registers the animation of each animation tile of the geometry tileset,
/// in order; fails with the first animation tile that has no animation,
/// keeping what was registered before it.
pub fn collect_animations(
    tiles: &Vec<TileData>,
    table: &Vec<(u32, GeometryTile)>,
    ix: &TilesetIndexing,
    animations: &mut CPUTileAnimations,
) -> (r: Result<(), LevelError>)
    requires
        table@.len() == tiles@.len(),
        anims_indexed(tiles@, table@, *ix),
        old(animations).animations@.len() + tiles@.len() < usize::MAX,
    ensures
        anim_views(final(animations).animations@) == anim_views(old(animations).animations@)
            + anim_scan(tiles@, table@, *ix, tiles@.len() as int).0,
        r is Ok <==> anim_scan(tiles@, table@, *ix, tiles@.len() as int).1 is None,
        r matches Err(e) ==> anim_scan(tiles@, table@, *ix, tiles@.len() as int).1 == Some(
            e->id,
        ) && e is NoAnimation,
{
    let ghost base = anim_views(old(animations).animations@);
    let mut i: usize = 0;
    while i < tiles.len()
        invariant
            i <= tiles@.len(),
            table@.len() == tiles@.len(),
            anims_indexed(tiles@, table@, *ix),
            anim_scan(tiles@, table@, *ix, i as int).1 is None,
            base == anim_views(old(animations).animations@),
            anim_views(animations.animations@) == base + anim_scan(tiles@, table@, *ix, i as int).0,
            anim_scan(tiles@, table@, *ix, i as int).0.len() <= i,
            animations.animations@.len() == base.len() + anim_scan(tiles@, table@, *ix, i as int).0.len(),
            base.len() + tiles@.len() < usize::MAX,
        decreases tiles@.len() - i,
    {
        if let GeometryTile::LevelTileAnimation { .. } = table[i].1 {
            match &tiles[i].animation {
                Some(anim) => {
                    let frames = ix.cpu_tile_anim(anim);
                    proof {
                        assert(frames.0@ == anim_frames(*ix, anim@));
                    }
                    let ghost prev = animations.animations@;
                    let ghost scanned = anim_scan(tiles@, table@, *ix, i as int).0;
                    animations.add_animation(frames);
                    proof {
                        assert(anim_scan(tiles@, table@, *ix, i + 1).0 == scanned.push(
                            anim_frames(*ix, anim@),
                        ));
                        assert(anim_views(prev.push(frames)) =~= anim_views(prev).push(frames.0@));
                        assert(base + scanned.push(frames.0@) =~= (base + scanned).push(
                            frames.0@,
                        ));
                    }
                },
                None => {
                    proof {
                        assert(anim_scan(tiles@, table@, *ix, i + 1) == (
                            anim_scan(tiles@, table@, *ix, i as int).0,
                            Some(tiles@[i as int].id),
                        ));
                        lemma_anim_scan_failure_persists(
                            tiles@,
                            table@,
                            *ix,
                            i + 1,
                            tiles@.len() as int,
                        );
                    }
                    return Err(LevelError::NoAnimation { id: tiles[i].id });
                },
            }
        }
        i = i + 1;
    }
    Ok(())
}

/// Once a tile without an animation was found, visiting more tiles changes
/// nothing.
pub proof fn lemma_anim_scan_failure_persists(
    tiles: Seq<TileData>,
    table: Seq<(u32, GeometryTile)>,
    ix: TilesetIndexing,
    k: int,
    n: int,
)
    requires
        0 <= k <= n,
        anim_scan(tiles, table, ix, k).1 is Some,
    ensures
        anim_scan(tiles, table, ix, n) == anim_scan(tiles, table, ix, k),
    decreases n - k,
{
    if k < n {
        lemma_anim_scan_failure_persists(tiles, table, ix, k, n - 1);
    }
}

/// The animation tiles among the first `k` entries of the geometry table,
/// each keyed by the tile type it animates and its kind, with the id its
/// animation is registered under: `base` and then on in order.
pub open spec fn anim_meta(table: Seq<(u32, GeometryTile)>, base: nat, k: int) -> Seq<
    (AnimKey, usize),
>
    decreases k,
{
    if k <= 0 {
        Seq::empty()
    } else {
        let m = anim_meta(table, base, k - 1);
        match table[k - 1].1 {
            GeometryTile::LevelTileAnimation { anim_ty, target } => m.push(
                ((target, anim_ty), (base + m.len()) as usize),
            ),
            _ => m,
        }
    }
}

/// The animation tiles of the geometry table, with the ids their
/// animations are registered under, counting from `base`.
pub fn animation_meta(table: &Vec<(u32, GeometryTile)>, base: usize) -> (r: Vec<(AnimKey, usize)>)
    requires
        base + table@.len() < usize::MAX,
    ensures
        r@ == anim_meta(table@, base as nat, table@.len() as int),
{
    let mut meta: Vec<(AnimKey, usize)> = Vec::new();
    let mut i: usize = 0;
    while i < table.len()
        invariant
            i <= table@.len(),
            base + table@.len() < usize::MAX,
            meta@ == anim_meta(table@, base as nat, i as int),
            meta@.len() <= i,
        decreases table@.len() - i,
    {
        if let GeometryTile::LevelTileAnimation { anim_ty, target } = table[i].1 {
            let id = base + meta.len();
            meta.push(((target, anim_ty), id));
        }
        i = i + 1;
    }
    meta
}

/// How a tile of type `ty` that can be switched on and off is animated:
/// paused while off where there is an on-off animation for its type, else
/// switching between the four animations of its type; `None` where one
/// of them is missing.
pub open spec fn spec_deduce_anim(meta: Seq<(AnimKey, usize)>, ty: LevelTileType) -> Option<
    ActivatableAnimating,
> {
    match last_with_key(meta, (ty, TileAnimationType::OnOffAnimation)) {
        Some(anim) => Some(ActivatableAnimating::Pause { anim }),
        None => match (
            last_with_key(meta, (ty, TileAnimationType::OnTransition)),
            last_with_key(meta, (ty, TileAnimationType::OffTransition)),
            last_with_key(meta, (ty, TileAnimationType::OnAnimation)),
            last_with_key(meta, (ty, TileAnimationType::OffAnimation)),
        ) {
            (Some(on_transition), Some(off_transition), Some(on_anim), Some(off_anim)) => Some(
                ActivatableAnimating::Switch { on_transition, off_transition, on_anim, off_anim },
            ),
            _ => None,
        },
    }
}

/// How a switchable tile of type `ty` is animated.
pub fn deduce_anim(meta: &Vec<(AnimKey, usize)>, ty: LevelTileType) -> (r: Option<
    ActivatableAnimating,
>)
    ensures
        r == spec_deduce_anim(meta@, ty),
{
    if let Some(anim) = meta_get(meta, (ty, TileAnimationType::OnOffAnimation)) {
        return Some(ActivatableAnimating::Pause { anim });
    }
    let on_transition = meta_get(meta, (ty, TileAnimationType::OnTransition))?;
    let off_transition = meta_get(meta, (ty, TileAnimationType::OffTransition))?;
    let on_anim = meta_get(meta, (ty, TileAnimationType::OnAnimation))?;
    let off_anim = meta_get(meta, (ty, TileAnimationType::OffAnimation))?;
    Some(ActivatableAnimating::Switch { on_transition, off_transition, on_anim, off_anim })
}

/// Whether some entry of a table has the key.
pub open spec fn has_entry<K, V>(entries: Seq<(K, V)>, key: K) -> bool {
    exists|i: int| 0 <= i < entries.len() && entries[i].0 == key
}

/// Whether the last entry of a table with the key holds the value.
pub open spec fn last_entry_holds<K, V>(entries: Seq<(K, V)>, key: K, value: V) -> bool {
    exists|i: int|
        0 <= i < entries.len() && entries[i] == (key, value) && forall|j: int|
            i < j < entries.len() ==> entries[j].0 != key
}

/// What `last_with_key` finds is the value of the last entry with the
/// key, and it finds nothing exactly where no entry has the key.
pub proof fn lemma_last_with_key_entries<K, V>(entries: Seq<(K, V)>, key: K)
    ensures
        last_with_key(entries, key) matches Some(v) ==> last_entry_holds(entries, key, v),
        last_with_key(entries, key) is None <==> !has_entry(entries, key),
    decreases entries.len(),
{
    if entries.len() > 0 {
        let rest = entries.drop_last();
        lemma_last_with_key_entries(rest, key);
        let n = entries.len() - 1;
        if entries.last().0 == key {
            assert(entries[n] == (key, entries.last().1));
            assert(last_entry_holds(entries, key, entries.last().1));
            assert(has_entry(entries, key));
        } else {
            if let Some(v) = last_with_key(rest, key) {
                let i = choose|i: int|
                    0 <= i < rest.len() && rest[i] == (key, v) && forall|j: int|
                        i < j < rest.len() ==> rest[j].0 != key;
                assert(entries[i] == rest[i]);
                assert forall|j: int| i < j < entries.len() implies entries[j].0 != key by {
                    if j < n {
                        assert(entries[j] == rest[j]);
                    }
                }
                assert(last_entry_holds(entries, key, v));
            }
            if has_entry(entries, key) {
                let i = choose|i: int| 0 <= i < entries.len() && entries[i].0 == key;
                assert(i < n);
                assert(rest[i] == entries[i]);
                assert(has_entry(rest, key));
            }
            if has_entry(rest, key) {
                let i = choose|i: int| 0 <= i < rest.len() && rest[i].0 == key;
                assert(rest[i] == entries[i]);
                assert(has_entry(entries, key));
            }
        }
    }
}

/// Each animation of a switchable tile is the one registered for its own
/// kind: a paused tile pauses the last on-off animation of its type, and a
/// switching tile (whose type has no on-off animation) plays, for each of
/// its transitions and looping animations, the last animation registered
/// for its type under that same kind. A tile gets no animation exactly
/// where its type has no on-off animation and lacks one of the other four.
pub proof fn law_deduced_animations_match_their_kind(
    meta: Seq<(AnimKey, usize)>,
    ty: LevelTileType,
)
    ensures
        spec_deduce_anim(meta, ty) matches Some(ActivatableAnimating::Pause { anim })
            ==> last_entry_holds(meta, (ty, TileAnimationType::OnOffAnimation), anim),
        spec_deduce_anim(meta, ty) matches Some(
            ActivatableAnimating::Switch { on_transition, off_transition, on_anim, off_anim },
        ) ==> {
            &&& !has_entry(meta, (ty, TileAnimationType::OnOffAnimation))
            &&& last_entry_holds(meta, (ty, TileAnimationType::OnTransition), on_transition)
            &&& last_entry_holds(meta, (ty, TileAnimationType::OffTransition), off_transition)
            &&& last_entry_holds(meta, (ty, TileAnimationType::OnAnimation), on_anim)
            &&& last_entry_holds(meta, (ty, TileAnimationType::OffAnimation), off_anim)
        },
        spec_deduce_anim(meta, ty) is None <==> {
            &&& !has_entry(meta, (ty, TileAnimationType::OnOffAnimation))
            &&& {
                ||| !has_entry(meta, (ty, TileAnimationType::OnTransition))
                ||| !has_entry(meta, (ty, TileAnimationType::OffTransition))
                ||| !has_entry(meta, (ty, TileAnimationType::OnAnimation))
                ||| !has_entry(meta, (ty, TileAnimationType::OffAnimation))
            }
        },
{
    lemma_last_with_key_entries(meta, (ty, TileAnimationType::OnOffAnimation));
    lemma_last_with_key_entries(meta, (ty, TileAnimationType::OnTransition));
    lemma_last_with_key_entries(meta, (ty, TileAnimationType::OffTransition));
    lemma_last_with_key_entries(meta, (ty, TileAnimationType::OnAnimation));
    lemma_last_with_key_entries(meta, (ty, TileAnimationType::OffAnimation));
}


// ----------------------------------------------------------------------
// The tiles of the level
// ----------------------------------------------------------------------

/// A tile of the level's logic.
#[derive(Debug, Clone, Copy)]
pub struct LevelTile {
    /// The texture of the tile, in the geometry tileset's atlas.
    pub texture: u32,
    pub flip: TileFlip,
    pub ty: LevelTileType,
    /// When the tile is active, for a tile that can be switched on and off.
    pub activation_cond: Option<ActivationCondition>,
    /// How the tile is animated, for a tile that can be switched on and off.
    pub activatable_animating: Option<ActivatableAnimating>,
}

/// Whether the geometry table says that the tile with this id is a logic
/// tile.
pub open spec fn is_logic_tile(gtable: Seq<(u32, GeometryTile)>, id: u32) -> bool {
    last_with_key(gtable, id) matches Some(GeometryTile::LogicTile { .. })
}

/// Whether every logic tile placed on the geometry layer has a texture.
pub open spec fn logic_tiles_indexed(
    geometry: FiniteTileLayer,
    gtable: Seq<(u32, GeometryTile)>,
    ix: TilesetIndexing,
) -> bool {
    forall|cx: int, cy: int|
        (#[trigger] geometry.cell_at(cx, cy)) is Some && is_logic_tile(
            gtable,
            geometry.cell_at(cx, cy)->0.id,
        ) ==> ix.maps(geometry.cell_at(cx, cy)->0.id)
}

/// The level tile for row `y` (counted from the bottom) of column `x` of
/// an `h` rows high map: `None` where the geometry layer has no tile
/// there. The layers count their rows from the top, and errors name the
/// position on the layers.
pub open spec fn spec_tile_at(
    h: u32,
    geometry: FiniteTileLayer,
    activators: FiniteTileLayer,
    gtable: Seq<(u32, GeometryTile)>,
    atable: Map<u32, ActivatorTile>,
    meta: Seq<(AnimKey, usize)>,
    ix: TilesetIndexing,
    x: u32,
    y: u32,
) -> Result<Option<LevelTile>, LevelErr> {
    let ly = (h - 1 - y) as u32;
    match geometry.cell_at(wrap_i32(x), wrap_i32(ly)) {
        None => Ok(None),
        Some(logic) => match last_with_key(gtable, logic.id) {
            Some(GeometryTile::LogicTile { ty }) => {
                let cond: Result<Option<ActivationCondition>, LevelErr> = match activators.cell_at(
                    wrap_i32(x),
                    wrap_i32(ly),
                ) {
                    None => Ok(None),
                    Some(act) => if atable.contains_key(act.id) {
                        Ok(Some(atable[act.id].active))
                    } else {
                        Err(LevelErr::NotActivator { x, y: ly })
                    },
                };
                match cond {
                    Err(e) => Err(e),
                    Ok(activation_cond) => {
                        let animating: Result<Option<ActivatableAnimating>, LevelErr> =
                            if activation_cond is Some {
                            match spec_deduce_anim(meta, ty) {
                                Some(a) => Ok(Some(a)),
                                None => Err(LevelErr::NoAnimatingConfig { ty }),
                            }
                        } else {
                            Ok(None)
                        };
                        match animating {
                            Err(e) => Err(e),
                            Ok(activatable_animating) => Ok(
                                Some(
                                    LevelTile {
                                        texture: ix.spec_dispatch(logic.id),
                                        flip: TileFlip {
                                            x: logic.flip_h,
                                            y: logic.flip_v,
                                            d: logic.flip_d,
                                        },
                                        ty,
                                        activation_cond,
                                        activatable_animating,
                                    },
                                ),
                            ),
                        }
                    },
                }
            },
            _ => Err(LevelErr::IncorrectTile { x, y: ly }),
        },
    }
}

/// The level tile for row `y` (counted from the bottom) of column `x`.
pub fn tile_at(
    h: u32,
    geometry: &FiniteTileLayer,
    activators: &FiniteTileLayer,
    gtable: &Vec<(u32, GeometryTile)>,
    atable: &HashMap<u32, ActivatorTile>,
    meta: &Vec<(AnimKey, usize)>,
    ix: &TilesetIndexing,
    x: u32,
    y: u32,
) -> (r: Result<Option<LevelTile>, LevelError>)
    requires
        y < h,
        logic_tiles_indexed(*geometry, gtable@, *ix),
    ensures
        r matches Ok(t) ==> spec_tile_at(h, *geometry, *activators, gtable@, atable@, meta@, *ix, x, y)
            == Ok::<Option<LevelTile>, LevelErr>(t),
        r matches Err(e) ==> spec_tile_at(h, *geometry, *activators, gtable@, atable@, meta@, *ix, x, y)
            == Err::<Option<LevelTile>, LevelErr>(e@),
{
    let ly = h - 1 - y;
    let cx = to_i32_wrapping(x);
    let cy = to_i32_wrapping(ly);
    let logic = match geometry.get_tile_data(cx, cy) {
        Some(t) => t,
        None => return Ok(None),
    };
    let ty = match table_get(gtable, logic.id) {
        Some(GeometryTile::LogicTile { ty }) => ty,
        _ => return Err(LevelError::IncorrectTile { x, y: ly }),
    };
    let activation_cond = match activators.get_tile_data(cx, cy) {
        None => None,
        Some(act) => match atable.get(&act.id) {
            Some(a) => Some(a.active),
            None => return Err(LevelError::NotActivator { x, y: ly }),
        },
    };
    let activatable_animating = if activation_cond.is_some() {
        match deduce_anim(meta, ty) {
            Some(a) => Some(a),
            None => return Err(LevelError::NoAnimatingConfig { ty }),
        }
    } else {
        None
    };
    proof {
        assert(geometry.cell_at(cx as int, cy as int) is Some);
    }
    Ok(
        Some(
            LevelTile {
                texture: ix.dispatch(logic.id),
                flip: logic.bevy_flip_flags(),
                ty,
                activation_cond,
                activatable_animating,
            },
        ),
    )
}

/// The level tiles of the columns before `x` and of the first `y` rows
/// (counted from the bottom) of column `x`, each with its column and row,
/// in that order; or the first failure.
pub open spec fn tiles_scan(
    h: u32,
    geometry: FiniteTileLayer,
    activators: FiniteTileLayer,
    gtable: Seq<(u32, GeometryTile)>,
    atable: Map<u32, ActivatorTile>,
    meta: Seq<(AnimKey, usize)>,
    ix: TilesetIndexing,
    x: int,
    y: int,
) -> Result<Seq<((u32, u32), LevelTile)>, LevelErr>
    decreases x, y,
{
    if y <= 0 {
        if x <= 0 {
            Ok(Seq::empty())
        } else {
            tiles_scan(h, geometry, activators, gtable, atable, meta, ix, x - 1, h as int)
        }
    } else {
        match tiles_scan(h, geometry, activators, gtable, atable, meta, ix, x, y - 1) {
            Err(e) => Err(e),
            Ok(done) => match spec_tile_at(
                h,
                geometry,
                activators,
                gtable,
                atable,
                meta,
                ix,
                x as u32,
                (y - 1) as u32,
            ) {
                Err(e) => Err(e),
                Ok(None) => Ok(done),
                Ok(Some(t)) => Ok(done.push(((x as u32, (y - 1) as u32), t))),
            },
        }
    }
}

/// Once building the tiles failed, going on to later positions fails the
/// same way.
pub proof fn lemma_tiles_scan_error_persists(
    h: u32,
    geometry: FiniteTileLayer,
    activators: FiniteTileLayer,
    gtable: Seq<(u32, GeometryTile)>,
    atable: Map<u32, ActivatorTile>,
    meta: Seq<(AnimKey, usize)>,
    ix: TilesetIndexing,
    x: int,
    y: int,
    x2: int,
    y2: int,
)
    requires
        0 <= x,
        0 <= y <= h,
        0 <= y2 <= h,
        x < x2 || (x == x2 && y <= y2),
        tiles_scan(h, geometry, activators, gtable, atable, meta, ix, x, y) is Err,
    ensures
        tiles_scan(h, geometry, activators, gtable, atable, meta, ix, x2, y2) == tiles_scan(
            h,
            geometry,
            activators,
            gtable,
            atable,
            meta,
            ix,
            x,
            y,
        ),
    decreases x2, y2,
{
    if x2 == x && y2 == y {
    } else if y2 > 0 {
        lemma_tiles_scan_error_persists(
            h,
            geometry,
            activators,
            gtable,
            atable,
            meta,
            ix,
            x,
            y,
            x2,
            y2 - 1,
        );
    } else {
        lemma_tiles_scan_error_persists(
            h,
            geometry,
            activators,
            gtable,
            atable,
            meta,
            ix,
            x,
            y,
            x2 - 1,
            h as int,
        );
    }
}

/// Whether position `a` comes before `b` as the columns are visited, each
/// from its first row.
pub open spec fn pos_before(a: (u32, u32), b: (int, int)) -> bool {
    a.0 < b.0 || (a.0 == b.0 && a.1 < b.1)
}

/// The tiles built so far lie in the part of the map visited so far, in
/// the order they were visited: their positions only increase.
pub proof fn lemma_tiles_scan_ordered(
    h: u32,
    geometry: FiniteTileLayer,
    activators: FiniteTileLayer,
    gtable: Seq<(u32, GeometryTile)>,
    atable: Map<u32, ActivatorTile>,
    meta: Seq<(AnimKey, usize)>,
    ix: TilesetIndexing,
    x: int,
    y: int,
)
    requires
        0 <= x <= u32::MAX,
        0 <= y <= h,
    ensures
        tiles_scan(h, geometry, activators, gtable, atable, meta, ix, x, y) matches Ok(s) ==> (
        forall|i: int| 0 <= i < s.len() ==> pos_before(#[trigger] s[i].0, (x, y)) && s[i].0.1 < h)
            && (forall|i: int, j: int|
            0 <= i < j < s.len() ==> pos_before(#[trigger] s[i].0, (#[trigger] s[j].0.0 as int, s[j].0.1 as int))),
    decreases x, y,
{
    if y <= 0 {
        if x > 0 {
            lemma_tiles_scan_ordered(h, geometry, activators, gtable, atable, meta, ix, x - 1, h as int);
        }
    } else {
        lemma_tiles_scan_ordered(h, geometry, activators, gtable, atable, meta, ix, x, y - 1);
    }
}

/// The tiles of a level have distinct positions, each within the map: the
/// tiles are keyed by their positions.
pub proof fn law_level_tiles_distinct_and_in_bounds(
    map: MapData,
    ixs: Seq<TilesetIndexing>,
    atlases: Seq<usize>,
    base: nat,
)
    ensures
        spec_level(map, ixs, atlases, base) matches Ok((tiles, _)) ==> (forall|i: int, j: int|
            0 <= i < j < tiles.len() ==> #[trigger] tiles[i].0 != #[trigger] tiles[j].0) && (forall|
            i: int,
        | 0 <= i < tiles.len() ==> (#[trigger] tiles[i]).0.0 < map.width && tiles[i].0.1
            < map.height),
{
    match level_layers(map) {
        Ok((geometry, activators, gi, ai)) => match level_tables(map, gi, ai) {
            Ok((gtable, atable)) => {
                lemma_tiles_scan_ordered(
                    map.height,
                    geometry,
                    activators,
                    gtable,
                    atable,
                    anim_meta(gtable, base, gtable.len() as int),
                    ixs[gi as int],
                    map.width as int,
                    0,
                );
            },
            Err(_) => {},
        },
        Err(_) => {},
    }
}

/// The level tiles of a `w` by `h` map, column by column and in each
/// column from the bottom row up, each with its position; fails with the
/// first tile that cannot be built.
pub fn build_tiles(
    w: u32,
    h: u32,
    geometry: &FiniteTileLayer,
    activators: &FiniteTileLayer,
    gtable: &Vec<(u32, GeometryTile)>,
    atable: &HashMap<u32, ActivatorTile>,
    meta: &Vec<(AnimKey, usize)>,
    ix: &TilesetIndexing,
) -> (r: Result<Vec<((u32, u32), LevelTile)>, LevelError>)
    requires
        logic_tiles_indexed(*geometry, gtable@, *ix),
    ensures
        r matches Ok(t) ==> tiles_scan(
            h,
            *geometry,
            *activators,
            gtable@,
            atable@,
            meta@,
            *ix,
            w as int,
            0,
        ) == Ok::<Seq<((u32, u32), LevelTile)>, LevelErr>(t@),
        r matches Err(e) ==> tiles_scan(
            h,
            *geometry,
            *activators,
            gtable@,
            atable@,
            meta@,
            *ix,
            w as int,
            0,
        ) == Err::<Seq<((u32, u32), LevelTile)>, LevelErr>(e@),
{
    let mut tiles: Vec<((u32, u32), LevelTile)> = Vec::new();
    let mut x: u32 = 0;
    while x < w
        invariant
            x <= w,
            logic_tiles_indexed(*geometry, gtable@, *ix),
            tiles_scan(h, *geometry, *activators, gtable@, atable@, meta@, *ix, x as int, 0)
                == Ok::<Seq<((u32, u32), LevelTile)>, LevelErr>(tiles@),
        decreases w - x,
    {
        let mut y: u32 = 0;
        while y < h
            invariant
                x < w,
                y <= h,
                logic_tiles_indexed(*geometry, gtable@, *ix),
                tiles_scan(
                    h,
                    *geometry,
                    *activators,
                    gtable@,
                    atable@,
                    meta@,
                    *ix,
                    x as int,
                    y as int,
                ) == Ok::<Seq<((u32, u32), LevelTile)>, LevelErr>(tiles@),
            decreases h - y,
        {
            match tile_at(h, geometry, activators, gtable, atable, meta, ix, x, y) {
                Err(e) => {
                    proof {
                        lemma_tiles_scan_error_persists(
                            h,
                            *geometry,
                            *activators,
                            gtable@,
                            atable@,
                            meta@,
                            *ix,
                            x as int,
                            y + 1,
                            w as int,
                            0,
                        );
                    }
                    return Err(e);
                },
                Ok(None) => {},
                Ok(Some(t)) => {
                    tiles.push(((x, y), t));
                },
            }
            y = y + 1;
        }
        x = x + 1;
    }
    Ok(tiles)
}


// ----------------------------------------------------------------------
// The level
// ----------------------------------------------------------------------

/// Reading a tileset's tiles gives one entry per tile.
pub proof fn lemma_geometry_table_len(tiles: Seq<TileData>)
    ensures
        geometry_table_spec(tiles) matches Ok(t) ==> t.len() == tiles.len(),
    decreases tiles.len(),
{
    if tiles.len() > 0 {
        lemma_geometry_table_len(tiles.drop_last());
    }
}

/// The geometry and activator layers of the map's `level` group layer,
/// with the tileset each draws from.
pub open spec fn level_layers(map: MapData) -> Result<
    (FiniteTileLayer, FiniteTileLayer, usize, usize),
    LevelErr,
> {
    match spec_group_layer(map.layers@, "level"@) {
        None => Err(LevelErr::NoLevelLayer),
        Some(group) => match spec_finite_tile_layer(group@, "geometry"@) {
            None => Err(LevelErr::NoLayer { layer: LevelLayer::Geometry }),
            Some(geometry) => match spec_finite_tile_layer(group@, "activators"@) {
                None => Err(LevelErr::NoLayer { layer: LevelLayer::Activators }),
                Some(activators) => match spec_unique_tileset(geometry, map.width, map.height) {
                    Err(cause) => Err(LevelErr::TilesetCheck { layer: LevelLayer::Geometry, cause }),
                    Ok(gi) => match spec_unique_tileset(activators, map.width, map.height) {
                        Err(cause) => Err(
                            LevelErr::TilesetCheck { layer: LevelLayer::Activators, cause },
                        ),
                        Ok(ai) => Ok((geometry, activators, gi, ai)),
                    },
                },
            },
        },
    }
}

/// The tile properties of the geometry tileset `gi` and the activator
/// tileset `ai`.
pub open spec fn level_tables(map: MapData, gi: usize, ai: usize) -> Result<
    (Seq<(u32, GeometryTile)>, Map<u32, ActivatorTile>),
    LevelErr,
> {
    match geometry_table_spec(map.tilesets@[gi as int].tiles@) {
        Err(e) => Err(LevelErr::Properties(e)),
        Ok(gtable) => match activator_table_spec(map.tilesets@[ai as int].tiles@) {
            Err(e) => Err(LevelErr::Properties(e)),
            Ok(atable) => Ok((gtable, atable)),
        },
    }
}

/// The level built from a map: its tiles with their positions and the
/// atlas of the geometry tileset; `base` is the number of animations
/// registered before.
pub open spec fn spec_level(
    map: MapData,
    ixs: Seq<TilesetIndexing>,
    atlases: Seq<usize>,
    base: nat,
) -> Result<(Seq<((u32, u32), LevelTile)>, usize), LevelErr> {
    match level_layers(map) {
        Err(e) => Err(e),
        Ok((geometry, activators, gi, ai)) => match level_tables(map, gi, ai) {
            Err(e) => Err(e),
            Ok((gtable, atable)) => spec_from_tables(
                map.width,
                map.height,
                geometry,
                activators,
                map.tilesets@[gi as int].tiles@,
                gtable,
                atable,
                ixs[gi as int],
                atlases[gi as int],
                base,
            ),
        },
    }
}

/// The level built from its layers and the tile tables of its tilesets:
/// its tiles with their positions and the atlas; `base` is the number of
/// animations registered before.
pub open spec fn spec_from_tables(
    w: u32,
    h: u32,
    geometry: FiniteTileLayer,
    activators: FiniteTileLayer,
    tiles: Seq<TileData>,
    gtable: Seq<(u32, GeometryTile)>,
    atable: Map<u32, ActivatorTile>,
    ix: TilesetIndexing,
    atlas: usize,
    base: nat,
) -> Result<(Seq<((u32, u32), LevelTile)>, usize), LevelErr> {
    match anim_scan(tiles, gtable, ix, tiles.len() as int).1 {
        Some(id) => Err(LevelErr::NoAnimation { id }),
        None => match tiles_scan(
            h,
            geometry,
            activators,
            gtable,
            atable,
            anim_meta(gtable, base, gtable.len() as int),
            ix,
            w as int,
            0,
        ) {
            Err(e) => Err(e),
            Ok(t) => Ok((t, atlas)),
        },
    }
}

/// The animations that building the level registers.
pub open spec fn level_added_anims(map: MapData, ixs: Seq<TilesetIndexing>) -> Seq<Seq<Frame>> {
    match level_layers(map) {
        Err(_) => Seq::empty(),
        Ok((_, _, gi, ai)) => match level_tables(map, gi, ai) {
            Err(_) => Seq::empty(),
            Ok((gtable, _)) => {
                let tiles = map.tilesets@[gi as int].tiles@;
                anim_scan(tiles, gtable, ixs[gi as int], tiles.len() as int).0
            },
        },
    }
}

/// What building a level asks of its inputs, where the level layers are
/// found: their tilesets exist and have an indexing and an atlas, every
/// animation and logic tile of the geometry tileset has its textures, and
/// the registry has room for the tileset's animations.
pub open spec fn level_inputs_ok(
    map: MapData,
    ixs: Seq<TilesetIndexing>,
    atlases: Seq<usize>,
    base: nat,
) -> bool {
    level_layers(map) matches Ok((geometry, _, gi, ai)) ==> {
        &&& gi < map.tilesets@.len()
        &&& ai < map.tilesets@.len()
        &&& gi < ixs.len()
        &&& gi < atlases.len()
        &&& base + map.tilesets@[gi as int].tiles@.len() < usize::MAX
        &&& (level_tables(map, gi, ai) matches Ok((gtable, _)) ==> anims_indexed(
            map.tilesets@[gi as int].tiles@,
            gtable,
            ixs[gi as int],
        ) && logic_tiles_indexed(geometry, gtable, ixs[gi as int]))
    }
}

/// Whether a tile and every frame of its animation have textures under
/// `ix`.
pub open spec fn tile_indexed(t: TileData, ix: TilesetIndexing) -> bool {
    &&& ix.maps(t.id)
    &&& t.animation matches Some(a) ==> forall|f: int| 0 <= f < a@.len() ==> ix.maps(#[trigger] a@[f].tile_id)
}

/// Whether every tile of a tileset that carries data, and every frame of
/// its animation, has a texture under `ix`.
pub open spec fn tiles_indexed(tiles: Seq<TileData>, ix: TilesetIndexing) -> bool {
    forall|k: int| 0 <= k < tiles.len() ==> tile_indexed(#[trigger] tiles[k], ix)
}

/// Whether a tile and every frame of its animation have textures.
fn tile_indexed_check(t: &TileData, ix: &TilesetIndexing) -> (r: bool)
    ensures
        r == tile_indexed(*t, *ix),
{
    if !ix.has_texture(t.id) {
        return false;
    }
    match &t.animation {
        Some(a) => {
            let mut f: usize = 0;
            while f < a.len()
                invariant
                    f <= a@.len(),
                    t.animation == Some(*a),
                    forall|g: int| 0 <= g < f ==> ix.maps(#[trigger] a@[g].tile_id),
                decreases a@.len() - f,
            {
                if !ix.has_texture(a[f].tile_id) {
                    proof {
                        let v = t.animation->0;
                        assert(v@[f as int] == a@[f as int]);
                        assert(!ix.maps(v@[f as int].tile_id));
                        assert(!(forall|g: int| 0 <= g < v@.len() ==> ix.maps(#[trigger] v@[g].tile_id)));
                    }
                    return false;
                }
                f = f + 1;
            }
            true
        },
        None => true,
    }
}

/// Whether every tile of the list that carries data, and every frame of
/// its animation, has a texture under `ix`.
fn tiles_indexed_check(tiles: &Vec<TileData>, ix: &TilesetIndexing) -> (r: bool)
    ensures
        r == tiles_indexed(tiles@, *ix),
{
    let mut k: usize = 0;
    while k < tiles.len()
        invariant
            k <= tiles@.len(),
            forall|q: int| 0 <= q < k ==> tile_indexed(#[trigger] tiles@[q], *ix),
        decreases tiles@.len() - k,
    {
        if !tile_indexed_check(&tiles[k], ix) {
            return false;
        }
        k = k + 1;
    }
    true
}

/// The keys of the geometry table are the ids of the tiles, in order.
proof fn lemma_geometry_table_keys(tiles: Seq<TileData>)
    ensures
        geometry_table_spec(tiles) matches Ok(t) ==> t.len() == tiles.len() && forall|k: int|
            0 <= k < t.len() ==> (#[trigger] t[k]).0 == tiles[k].id,
    decreases tiles.len(),
{
    if tiles.len() > 0 {
        lemma_geometry_table_keys(tiles.drop_last());
    }
}

/// A table holds an entry with each key it finds.
proof fn lemma_found_key<V>(table: Seq<(u32, V)>, key: u32) -> (k: int)
    requires
        last_with_key(table, key) is Some,
    ensures
        0 <= k < table.len(),
        table[k].0 == key,
    decreases table.len(),
{
    if table.last().0 == key {
        table.len() - 1
    } else {
        let k = lemma_found_key(table.drop_last(), key);
        k
    }
}

/// Where every tile of the geometry tileset and its animation frames have
/// textures, so do its animations and the logic tiles on the geometry
/// layer.
proof fn lemma_tiles_indexed(
    tiles: Seq<TileData>,
    gtable: Seq<(u32, GeometryTile)>,
    geometry: FiniteTileLayer,
    ix: TilesetIndexing,
)
    requires
        tiles_indexed(tiles, ix),
        geometry_table_spec(tiles) == Ok::<Seq<(u32, GeometryTile)>, TilePropertyErr>(gtable),
    ensures
        anims_indexed(tiles, gtable, ix),
        logic_tiles_indexed(geometry, gtable, ix),
{
    lemma_geometry_table_keys(tiles);
    assert forall|k: int, f: int|
        0 <= k < tiles.len() && gtable[k].1 is LevelTileAnimation && tiles[k].animation is Some && 0
            <= f < tiles[k].animation->0@.len() implies ix.maps(
        #[trigger] tiles[k].animation->0@[f].tile_id,
    ) by {
        assert(tile_indexed(tiles[k], ix));
    }
    assert forall|cx: int, cy: int|
        (#[trigger] geometry.cell_at(cx, cy)) is Some && is_logic_tile(
            gtable,
            geometry.cell_at(cx, cy)->0.id,
        ) implies ix.maps(geometry.cell_at(cx, cy)->0.id) by {
        let id = geometry.cell_at(cx, cy)->0.id;
        let k = lemma_found_key(gtable, id);
        assert(gtable[k].0 == tiles[k].id);
        assert(tile_indexed(tiles[k], ix));
    }
}

/// Checks, before a level is built from a map, what building it asks of
/// the indexings and atlases of the tilesets and of the animations
/// registered (`base` of them): where the map has its `level` layers, the
/// geometry tileset has an indexing and an atlas, there is room for its
/// animations, and every one of its tiles that carries data, and every
/// frame of their animations, has a texture. (The last asks a little more
/// than building needs: only the logic tiles and the animation frames are
/// looked up.)
pub fn level_inputs_hold(
    map: &MapData,
    tileset_indexing: &Vec<TilesetIndexing>,
    atlas_textures: &Vec<usize>,
    base: usize,
) -> (r: bool)
    ensures
        r ==> level_inputs_ok(*map, tileset_indexing@, atlas_textures@, base as nat),
{
    let level_layer = match group_layer(&map.layers, "level") {
        Some(l) => l,
        None => return true,
    };
    let geometry_layer = match finite_tile_layer(level_layer, "geometry") {
        Some(l) => l,
        None => return true,
    };
    let activator_layer = match finite_tile_layer(level_layer, "activators") {
        Some(l) => l,
        None => return true,
    };
    let gi = match ensure_unique_tileset(geometry_layer, map.width, map.height) {
        Ok(i) => i,
        Err(_) => return true,
    };
    let ai = match ensure_unique_tileset(activator_layer, map.width, map.height) {
        Ok(i) => i,
        Err(_) => return true,
    };
    if !(gi < map.tilesets.len() && ai < map.tilesets.len() && gi < tileset_indexing.len() && gi
        < atlas_textures.len()) {
        return false;
    }
    let tiles = &map.tilesets[gi].tiles;
    if tiles.len() >= usize::MAX - base {
        return false;
    }
    let ok = tiles_indexed_check(tiles, &tileset_indexing[gi]);
    proof {
        if ok {
            match level_tables(*map, gi, ai) {
                Ok((gtable, _)) => {
                    lemma_tiles_indexed(tiles@, gtable, *geometry_layer, tileset_indexing@[gi as int]);
                },
                Err(_) => {},
            }
        }
    }
    ok
}

/// The logic of a level: the tiles of the geometry layer of the map's
/// `level` group layer, with what the activator layer and the tilesets'
/// properties say of them.
#[derive(Debug)]
pub struct Level {
    width: u32,
    height: u32,
    /// The tiles with their positions (column, and row from the bottom).
    tiles: Vec<((u32, u32), LevelTile)>,
    /// The texture atlas of the geometry tileset.
    geometry_atlas: usize,
}

impl Level {
    pub closed spec fn spec_width(self) -> u32 {
        self.width
    }

    pub closed spec fn spec_height(self) -> u32 {
        self.height
    }

    /// The tiles with their positions (column, and row from the bottom).
    pub closed spec fn spec_tiles(self) -> Seq<((u32, u32), LevelTile)> {
        self.tiles@
    }

    /// The texture atlas of the geometry tileset.
    pub closed spec fn spec_geometry_atlas(self) -> usize {
        self.geometry_atlas
    }

    /// Builds the level of a map: finds the `geometry` and `activators`
    /// layers of the `level` group layer and the one tileset each draws
    /// from, reads the tilesets' tile properties, registers the animations
    /// of the geometry tileset's animation tiles, and builds a tile for
    /// each tile on the geometry layer. `tileset_indexing` and
    /// `atlas_textures` hold, for each tileset of the map, its texture
    /// indexing and its atlas.
    pub fn new(
        map: &MapData,
        cpu_tile_animations: &mut CPUTileAnimations,
        tileset_indexing: &Vec<TilesetIndexing>,
        atlas_textures: &Vec<usize>,
    ) -> (r: Result<Level, LevelError>)
        requires
            level_inputs_ok(
                *map,
                tileset_indexing@,
                atlas_textures@,
                old(cpu_tile_animations).animations@.len(),
            ),
        ensures
            r matches Ok(l) ==> spec_level(
                *map,
                tileset_indexing@,
                atlas_textures@,
                old(cpu_tile_animations).animations@.len(),
            ) == Ok::<(Seq<((u32, u32), LevelTile)>, usize), LevelErr>(
                (l.spec_tiles(), l.spec_geometry_atlas()),
            ) && l.spec_width() == map.width && l.spec_height() == map.height,
            r matches Err(e) ==> spec_level(
                *map,
                tileset_indexing@,
                atlas_textures@,
                old(cpu_tile_animations).animations@.len(),
            ) == Err::<(Seq<((u32, u32), LevelTile)>, usize), LevelErr>(e@),
            anim_views(final(cpu_tile_animations).animations@) == anim_views(
                old(cpu_tile_animations).animations@,
            ) + level_added_anims(*map, tileset_indexing@),
    {
        let ghost before = anim_views(cpu_tile_animations.animations@);
        proof {
            // Until the tables are read, no animation is registered.
            assert(before + Seq::<Seq<Frame>>::empty() =~= before);
        }
        let level_layer = match group_layer(&map.layers, "level") {
            Some(l) => l,
            None => {
                return Err(LevelError::NoLevelLayer);
            },
        };
        let geometry_layer = match finite_tile_layer(level_layer, "geometry") {
            Some(l) => l,
            None => {
                return Err(LevelError::NoLayer { layer: LevelLayer::Geometry });
            },
        };
        let activator_layer = match finite_tile_layer(level_layer, "activators") {
            Some(l) => l,
            None => {
                return Err(LevelError::NoLayer { layer: LevelLayer::Activators });
            },
        };
        let geometry_tileset_id = match ensure_unique_tileset(
            geometry_layer,
            map.width,
            map.height,
        ) {
            Ok(i) => i,
            Err(cause) => {
                return Err(LevelError::TilesetCheck { layer: LevelLayer::Geometry, cause });
            },
        };
        let activator_tileset_id = match ensure_unique_tileset(
            activator_layer,
            map.width,
            map.height,
        ) {
            Ok(i) => i,
            Err(cause) => {
                return Err(LevelError::TilesetCheck { layer: LevelLayer::Activators, cause });
            },
        };
        let geometry_tiles = &map.tilesets[geometry_tileset_id].tiles;
        let geometry_table = match geometry_tile_properties(geometry_tiles) {
            Ok(t) => t,
            Err(e) => {
                return Err(LevelError::Properties(e));
            },
        };
        let activator_table = match activator_tile_properties(
            &map.tilesets[activator_tileset_id].tiles,
        ) {
            Ok(t) => t,
            Err(e) => {
                return Err(LevelError::Properties(e));
            },
        };
        proof {
            lemma_geometry_table_len(geometry_tiles@);
        }
        Level::from_tables(
            map.width,
            map.height,
            geometry_layer,
            activator_layer,
            geometry_tiles,
            &geometry_table,
            &activator_table,
            &tileset_indexing[geometry_tileset_id],
            atlas_textures[geometry_tileset_id],
            cpu_tile_animations,
        )
    }

    /// Builds a level of a `width` by `height` map from its geometry and
    /// activator layers, the tiles of the geometry tileset and the tile
    /// tables of both tilesets: registers the animations of the animation
    /// tiles (with the tileset's indexing), then builds a tile for each
    /// tile on the geometry layer.
    pub fn from_tables(
        width: u32,
        height: u32,
        geometry: &FiniteTileLayer,
        activators: &FiniteTileLayer,
        geometry_tiles: &Vec<TileData>,
        geometry_table: &Vec<(u32, GeometryTile)>,
        activator_table: &HashMap<u32, ActivatorTile>,
        ix: &TilesetIndexing,
        atlas: usize,
        cpu_tile_animations: &mut CPUTileAnimations,
    ) -> (r: Result<Level, LevelError>)
        requires
            geometry_table@.len() == geometry_tiles@.len(),
            anims_indexed(geometry_tiles@, geometry_table@, *ix),
            logic_tiles_indexed(*geometry, geometry_table@, *ix),
            old(cpu_tile_animations).animations@.len() + geometry_tiles@.len() < usize::MAX,
        ensures
            r matches Ok(l) ==> spec_from_tables(
                width,
                height,
                *geometry,
                *activators,
                geometry_tiles@,
                geometry_table@,
                activator_table@,
                *ix,
                atlas,
                old(cpu_tile_animations).animations@.len(),
            ) == Ok::<(Seq<((u32, u32), LevelTile)>, usize), LevelErr>(
                (l.spec_tiles(), l.spec_geometry_atlas()),
            ) && l.spec_width() == width && l.spec_height() == height,
            r matches Err(e) ==> spec_from_tables(
                width,
                height,
                *geometry,
                *activators,
                geometry_tiles@,
                geometry_table@,
                activator_table@,
                *ix,
                atlas,
                old(cpu_tile_animations).animations@.len(),
            ) == Err::<(Seq<((u32, u32), LevelTile)>, usize), LevelErr>(e@),
            anim_views(final(cpu_tile_animations).animations@) == anim_views(
                old(cpu_tile_animations).animations@,
            ) + anim_scan(
                geometry_tiles@,
                geometry_table@,
                *ix,
                geometry_tiles@.len() as int,
            ).0,
    {
        let base = cpu_tile_animations.animations.len();
        if let Err(e) = collect_animations(geometry_tiles, geometry_table, ix, cpu_tile_animations) {
            return Err(e);
        }
        let meta = animation_meta(geometry_table, base);
        let tiles = match build_tiles(
            width,
            height,
            geometry,
            activators,
            geometry_table,
            activator_table,
            &meta,
            ix,
        ) {
            Ok(t) => t,
            Err(e) => return Err(e),
        };
        Ok(Level { width, height, tiles, geometry_atlas: atlas })
    }

    pub fn width(&self) -> (r: u32)
        ensures
            r == self.spec_width(),
    {
        self.width
    }

    pub fn height(&self) -> (r: u32)
        ensures
            r == self.spec_height(),
    {
        self.height
    }

    /// The tiles with their positions (column, and row from the bottom).
    pub fn tiles(&self) -> (r: &Vec<((u32, u32), LevelTile)>)
        ensures
            r@ == self.spec_tiles(),
    {
        &self.tiles
    }

    /// The texture atlas of the geometry tileset.
    pub fn geometry_atlas(&self) -> (r: usize)
        ensures
            r == self.spec_geometry_atlas(),
    {
        self.geometry_atlas
    }
}


/// A tile of the level as it is spawned: its position, texture and
/// flipping, the tag of its type, and for a tile that switches, its
/// condition with its state (spawned active).
#[derive(Debug, Clone, Copy)]
pub struct LevelTileSpawn {
    pub pos: (u32, u32),
    pub texture: u32,
    pub flip: TileFlip,
    pub tag: Option<TileTag>,
    pub activation: Option<(ActivationCondition, Active)>,
}

/// The tag a tile of type `ty` carries.
pub open spec fn spec_tag_of(ty: LevelTileType) -> Option<TileTag> {
    match ty {
        LevelTileType::Exit => Some(TileTag::EndTile),
        LevelTileType::Fry => Some(TileTag::Frier),
        LevelTileType::Conveyor => Some(TileTag::Conveyor),
        LevelTileType::PlayerStart => Some(TileTag::StartTile),
        LevelTileType::SpinningTile => Some(TileTag::SpinningTile),
        LevelTileType::Floor => None,
    }
}

/// How a level tile at `pos` is spawned.
pub open spec fn spec_tile_spawn(pos: (u32, u32), t: LevelTile) -> LevelTileSpawn {
    LevelTileSpawn {
        pos,
        texture: t.texture,
        flip: t.flip,
        tag: spec_tag_of(t.ty),
        activation: match t.activation_cond {
            Some(c) => Some((c, Active { is_active: true })),
            None => None,
        },
    }
}

/// The tiles of a level as they are spawned, in the level's order (column
/// by column, each from the bottom row): each with its texture, flipping,
/// the tag of its type, and where it switches, its condition, active.
pub fn spawn_level(level: &Level) -> (r: Vec<LevelTileSpawn>)
    ensures
        r@.len() == level.spec_tiles().len(),
        forall|i: int|
            0 <= i < r@.len() ==> #[trigger] r@[i] == spec_tile_spawn(
                level.spec_tiles()[i].0,
                level.spec_tiles()[i].1,
            ),
{
    let tiles = level.tiles();
    let mut out: Vec<LevelTileSpawn> = Vec::new();
    let mut i: usize = 0;
    while i < tiles.len()
        invariant
            i <= tiles@.len(),
            tiles@ == level.spec_tiles(),
            out@.len() == i,
            forall|k: int|
                0 <= k < i ==> #[trigger] out@[k] == spec_tile_spawn(tiles@[k].0, tiles@[k].1),
        decreases tiles@.len() - i,
    {
        let (pos, t) = tiles[i];
        let activation = match t.activation_cond {
            Some(c) => Some((c, Active { is_active: true })),
            None => None,
        };
        out.push(
            LevelTileSpawn {
                pos,
                texture: t.texture,
                flip: t.flip,
                tag: t.ty.insert_into(),
                activation,
            },
        );
        i = i + 1;
    }
    out
}

/// Which map a level is played on, and which of its layers is the geometry
/// layer.
#[derive(Debug, Clone, Copy)]
pub struct LevelInfo {
    map: u16,
    geometry_layer: u16,
}

impl LevelInfo {
    /// The map the level is played on.
    pub closed spec fn spec_map(self) -> u16 {
        self.map
    }

    /// The geometry layer of the map.
    pub closed spec fn spec_geometry_layer(self) -> u16 {
        self.geometry_layer
    }

    pub fn new(map: u16, geometry_layer: u16) -> (r: Self)
        ensures
            r.spec_map() == map,
            r.spec_geometry_layer() == geometry_layer,
    {
        LevelInfo { map, geometry_layer }
    }

    /// The map the level is played on.
    pub fn map(&self) -> (r: u16)
        ensures
            r == self.spec_map(),
    {
        self.map
    }

    /// The geometry layer of the map.
    pub fn geometry_layer(&self) -> (r: u16)
        ensures
            r == self.spec_geometry_layer(),
    {
        self.geometry_layer
    }
}

} // verus!
