//! Decoding special tiles from their attributes: each tile's animation
//! with its speed, the animations registered once for all tiles that
//! share them, and what a tile of each kind is spawned with.

use vstd::prelude::*;
use std::collections::HashMap;
use crate::anim::{CPUTileAnimation, CPUTileAnimations, Frame};
use crate::level::{last_with_key, table_position};
use crate::level::anim_views;
use crate::tile::ActivationCondition;
use crate::tile_attributes::{AnimationType, TileAttributes};
use crate::tilemap::{AnimFrame, MapData, TileData};

verus! {

broadcast use vstd::std_specs::hash::group_hash_axioms;

/// The bits of the `f32` 1.0, the speed of an animation played as it is.
pub const NORMAL_SPEED: u32 = 0x3f80_0000;

/// The duration of the one frame of a tile without an animation: one
/// second and one nanosecond, in nanoseconds.
pub const STILL_FRAME_NANOS: u128 = 1_000_000_001;

/// The frames of an animation from the editor, each showing its tile for
/// its duration in milliseconds.
pub open spec fn plain_frames(anim: Seq<AnimFrame>) -> Seq<Frame> {
    Seq::new(
        anim.len(),
        |i: int| Frame { texture_id: anim[i].tile_id, duration: (anim[i].duration * 1_000_000) as u128 },
    )
}

/// The animation of the tile with id `id`: its own, or the tile shown
/// still where it has none.
pub open spec fn tile_frames(id: u32, tile: TileData) -> Seq<Frame> {
    match tile.animation {
        Some(a) => plain_frames(a@),
        None => seq![Frame { texture_id: id, duration: STILL_FRAME_NANOS }],
    }
}

/// The speed to play a tile's animation at: its `anim_speed` attribute, or
/// the normal speed.
pub open spec fn tile_speed(attr: TileAttributes) -> u32 {
    match attr.anim_speed {
        Some(s) => s,
        None => NORMAL_SPEED,
    }
}

/// The animation of a tile, with the speed it suggests (as the bits of an
/// `f32`).
pub fn get_tile_animation(id: u32, tile: &TileData, attr: &TileAttributes) -> (r: (
    u32,
    CPUTileAnimation,
))
    ensures
        r.0 == tile_speed(*attr),
        r.1.0@ == tile_frames(id, *tile),
{
    let mut frames: Vec<Frame> = Vec::new();
    match &tile.animation {
        None => {
            frames.push(Frame { texture_id: id, duration: STILL_FRAME_NANOS });
            proof {
                assert(frames@ =~= tile_frames(id, *tile));
            }
        },
        Some(anim) => {
            let mut i: usize = 0;
            while i < anim.len()
                invariant
                    i <= anim@.len(),
                    frames@ == plain_frames(anim@).take(i as int),
                decreases anim@.len() - i,
            {
                let f = anim[i];
                frames.push(Frame { texture_id: f.tile_id, duration: f.duration as u128 * 1_000_000 });
                proof {
                    assert(frames@ =~= plain_frames(anim@).take(i + 1));
                }
                i = i + 1;
            }
            proof {
                assert(plain_frames(anim@).take(i as int) =~= plain_frames(anim@));
            }
        },
    }
    let speed = match attr.anim_speed {
        Some(s) => s,
        None => NORMAL_SPEED,
    };
    (speed, CPUTileAnimation::new(frames))
}

/// Whether the attribute table has an entry for every tile of a tileset.
pub open spec fn attrs_cover(tiles: Seq<TileData>, attrs: Seq<(u32, TileAttributes)>) -> bool {
    forall|k: int| 0 <= k < tiles.len() ==> #[trigger] last_with_key(attrs, tiles[k].id) is Some
}

/// Whether an entry of an animation table is the animation of a tile,
/// at the speed that the tile's attributes (the last entry for its id)
/// suggest.
pub open spec fn anim_entry_ok(e: (u32, CPUTileAnimation), tile: TileData, attrs: Seq<(u32, TileAttributes)>) -> bool {
    &&& e.0 == tile_speed(last_with_key(attrs, tile.id)->0)
    &&& e.1.0@ == tile_frames(tile.id, tile)
}

/// Whether `m` is the animation table of a tileset with the given tiles:
/// it has an entry for the id of each tile, and nothing else; the entry
/// of an id is that of the last tile with the id.
pub open spec fn anim_table_ok(
    m: Map<u32, (u32, CPUTileAnimation)>,
    tiles: Seq<TileData>,
    attrs: Seq<(u32, TileAttributes)>,
) -> bool {
    &&& forall|x: u32|
        #[trigger] m.contains_key(x) <==> exists|k: int| 0 <= k < tiles.len() && tiles[k].id == x
    &&& forall|k: int|
        0 <= k < tiles.len() && (forall|q: int| k < q < tiles.len() ==> tiles[q].id != tiles[k].id)
            ==> anim_entry_ok(m[#[trigger] tiles[k].id], tiles[k], attrs)
}

/// The animation table of each tileset: for each tile's id, the tile's
/// animation at the speed that its attributes suggest (where two tiles
/// share an id, the later one's).
pub fn scan_tilesets_for_animations(
    map: &MapData,
    attributes: &Vec<Vec<(u32, TileAttributes)>>,
) -> (r: Vec<HashMap<u32, (u32, CPUTileAnimation)>>)
    requires
        attributes@.len() >= map.tilesets@.len(),
        forall|t: int|
            0 <= t < map.tilesets@.len() ==> attrs_cover(
                map.tilesets@[t].tiles@,
                (#[trigger] attributes@[t])@,
            ),
    ensures
        r@.len() == map.tilesets@.len(),
        forall|t: int|
            0 <= t < r@.len() ==> anim_table_ok(
                (#[trigger] r@[t])@,
                map.tilesets@[t].tiles@,
                attributes@[t]@,
            ),
{
    let mut all: Vec<HashMap<u32, (u32, CPUTileAnimation)>> = Vec::new();
    let mut t: usize = 0;
    while t < map.tilesets.len()
        invariant
            t <= map.tilesets@.len(),
            attributes@.len() >= map.tilesets@.len(),
            forall|u: int|
                0 <= u < map.tilesets@.len() ==> attrs_cover(
                    map.tilesets@[u].tiles@,
                    (#[trigger] attributes@[u])@,
                ),
            all@.len() == t,
            forall|u: int|
                0 <= u < t ==> anim_table_ok(
                    (#[trigger] all@[u])@,
                    map.tilesets@[u].tiles@,
                    attributes@[u]@,
                ),
        decreases map.tilesets@.len() - t,
    {
        let tiles = &map.tilesets[t].tiles;
        let attrs = &attributes[t];
        let mut row: HashMap<u32, (u32, CPUTileAnimation)> = HashMap::new();
        let mut k: usize = 0;
        while k < tiles.len()
            invariant
                k <= tiles@.len(),
                attrs_cover(tiles@, attrs@),
                forall|x: u32|
                    #[trigger] row@.contains_key(x) <==> exists|j: int| 0 <= j < k && tiles@[j].id == x,
                forall|j: int|
                    0 <= j < k && (forall|q: int| j < q < k ==> tiles@[q].id != tiles@[j].id)
                        ==> anim_entry_ok(row@[#[trigger] tiles@[j].id], tiles@[j], attrs@),
            decreases tiles@.len() - k,
        {
            let id = tiles[k].id;
            proof {
                assert(last_with_key(attrs@, tiles@[k as int].id) is Some);
            }
            let pos = table_position(attrs, id).unwrap();
            let anim = get_tile_animation(id, &tiles[k], &attrs[pos].1);
            let ghost before = row@;
            row.insert(id, anim);
            proof {
                assert forall|x: u32| #[trigger] row@.contains_key(x) <==> exists|j: int|
                    0 <= j < k + 1 && tiles@[j].id == x by {
                    if x == id {
                        assert(tiles@[k as int].id == x);
                    } else if before.contains_key(x) {
                        let j = choose|j: int| 0 <= j < k && tiles@[j].id == x;
                        assert(0 <= j < k + 1 && tiles@[j].id == x);
                    }
                }
                assert forall|j: int|
                    0 <= j < k + 1 && (forall|q: int| j < q < k + 1 ==> tiles@[q].id != tiles@[j].id)
                        implies anim_entry_ok(row@[#[trigger] tiles@[j].id], tiles@[j], attrs@) by {
                    if j < k {
                        assert(tiles@[k as int].id != tiles@[j].id);
                    }
                }
            }
            k = k + 1;
        }
        all.push(row);
        t = t + 1;
    }
    all
}

/// Playback of a registered animation: which, at what speed (the bits of
/// an `f32`), whether it loops.
#[derive(Debug, Clone, Copy, PartialEq, Eq, Structural)]
pub struct AnimPlayback {
    pub animation: usize,
    pub speed: u32,
    pub looping: bool,
}

/// How a tile that is switched on and off is animated.
#[derive(Debug, Clone, Copy, PartialEq, Eq, Structural)]
pub enum SwitchAnimating {
    /// Looping "on" and "off" animations, with a transition played once
    /// when the state is about to switch.
    Switch {
        on_anim: AnimPlayback,
        off_anim: AnimPlayback,
        on_transition: AnimPlayback,
        off_transition: AnimPlayback,
    },
    /// The "on" animation at the given speed, stopped while off.
    Stop { on_speed: u32 },
}

impl SwitchAnimating {
    /// The playback of a tile once its state is `active`.
    pub open spec fn spec_updated(self, anim: AnimPlayback, active: bool) -> AnimPlayback {
        match self {
            SwitchAnimating::Switch { on_anim, off_anim, .. } => if active {
                on_anim
            } else {
                off_anim
            },
            SwitchAnimating::Stop { on_speed } => AnimPlayback {
                speed: if active {
                    on_speed
                } else {
                    0
                },
                ..anim
            },
        }
    }

    /// Brings a tile's playback in line with its state: the "on" or "off"
    /// animation, or the "on" speed or a standstill.
    pub fn update_cpu_anim(&self, anim: &mut AnimPlayback, active: bool)
        ensures
            *final(anim) == self.spec_updated(*old(anim), active),
    {
        match self {
            SwitchAnimating::Switch { on_anim, off_anim, .. } => if active {
                *anim = *on_anim;
            } else {
                *anim = *off_anim;
            },
            SwitchAnimating::Stop { on_speed } => if active {
                anim.speed = *on_speed;
            } else {
                anim.speed = 0;
            },
        }
    }
}

/// A switched tile plays the animation of its state: a tile animated by
/// switching plays its "on" animation while active and its "off" one
/// while inactive; one that stops keeps its animation and runs it at the
/// "on" speed while active and stands still while inactive.
pub proof fn law_switch_plays_state_animation(s: SwitchAnimating, anim: AnimPlayback, active: bool)
    ensures
        active ==> (s matches SwitchAnimating::Switch { on_anim, .. } ==> s.spec_updated(
            anim,
            active,
        ) == on_anim),
        !active ==> (s matches SwitchAnimating::Switch { off_anim, .. } ==> s.spec_updated(
            anim,
            active,
        ) == off_anim),
        s matches SwitchAnimating::Stop { on_speed } ==> s.spec_updated(anim, active).animation
            == anim.animation && s.spec_updated(anim, active).looping == anim.looping && (active
            ==> s.spec_updated(anim, active).speed == on_speed) && (!active ==> s.spec_updated(
            anim,
            active,
        ).speed == 0),
{
}

/// The frames of the last animation of a table for a tile.
pub open spec fn frames_for(anims: Map<u32, (u32, CPUTileAnimation)>, tile: u32) -> Seq<Frame> {
    if anims.contains_key(tile) {
        anims[tile].1.0@
    } else {
        Seq::empty()
    }
}

/// The speed of the last animation of a table for a tile.
pub open spec fn speed_for(anims: Map<u32, (u32, CPUTileAnimation)>, tile: u32) -> u32 {
    if anims.contains_key(tile) {
        anims[tile].0
    } else {
        0
    }
}

/// The registered animation of a tile: the one registered for it before,
/// or its animation newly registered (and remembered). Gives the ids
/// remembered, the frames of the registered animations and the id.
pub open spec fn memo_step(
    ids: Map<u32, usize>,
    reg: Seq<Seq<Frame>>,
    anims: Map<u32, (u32, CPUTileAnimation)>,
    tile: u32,
) -> (Map<u32, usize>, Seq<Seq<Frame>>, usize) {
    if ids.contains_key(tile) {
        (ids, reg, ids[tile])
    } else {
        (
            ids.insert(tile, reg.len() as usize),
            reg.push(frames_for(anims, tile)),
            reg.len() as usize,
        )
    }
}

/// The id of the registered animation of a tile, registering it where it
/// was not.
pub(crate) fn memo_anim(
    tile: u32,
    anims: &HashMap<u32, (u32, CPUTileAnimation)>,
    anim_ids: &mut HashMap<u32, usize>,
    animations: &mut CPUTileAnimations,
) -> (r: usize)
    requires
        anims@.contains_key(tile),
        old(animations).animations@.len() < usize::MAX,
    ensures
        final(animations).animations@.len() <= old(animations).animations@.len() + 1,
        (final(anim_ids)@, anim_views(final(animations).animations@), r) == memo_step(
            old(anim_ids)@,
            anim_views(old(animations).animations@),
            anims@,
            tile,
        ),
{
    let found: Option<usize> = match anim_ids.get(&tile) {
        Some(i) => Some(*i),
        None => None,
    };
    match found {
        Some(i) => i,
        None => {
            let copy = anims.get(&tile).unwrap().1.duplicate();
            let ghost prev = animations.animations@;
            let id = animations.add_animation(copy);
            anim_ids.insert(tile, id);
            proof {
                assert(anim_views(prev.push(copy)) =~= anim_views(prev).push(copy.0@));
            }
            id
        },
    }
}

/// What `dispatch_anim_type` gives: the animating of the tile with the
/// playback it starts with, the ids remembered and the frames of the
/// registered animations after it.
pub open spec fn spec_dispatch_anim_type(
    ty: AnimationType,
    attr: TileAttributes,
    anims: Map<u32, (u32, CPUTileAnimation)>,
    ids: Map<u32, usize>,
    reg: Seq<Seq<Frame>>,
) -> (Option<(SwitchAnimating, AnimPlayback)>, Map<u32, usize>, Seq<Seq<Frame>>) {
    match ty {
        AnimationType::Switch => match (
            attr.on_graphics,
            attr.off_graphics,
            attr.on_transition_graphics,
            attr.off_transition_graphics,
        ) {
            (Some(on), Some(off), Some(ont), Some(offt)) => {
                let (i1, r1, on_id) = memo_step(ids, reg, anims, on);
                let (i2, r2, off_id) = memo_step(i1, r1, anims, off);
                let (i3, r3, ont_id) = memo_step(i2, r2, anims, ont);
                let (i4, r4, offt_id) = memo_step(i3, r3, anims, offt);
                let on_anim = AnimPlayback {
                    animation: on_id,
                    speed: speed_for(anims, on),
                    looping: true,
                };
                let off_anim = AnimPlayback {
                    animation: off_id,
                    speed: speed_for(anims, off),
                    looping: true,
                };
                let on_transition = AnimPlayback {
                    animation: ont_id,
                    speed: speed_for(anims, ont),
                    looping: false,
                };
                let off_transition = AnimPlayback {
                    animation: offt_id,
                    speed: speed_for(anims, offt),
                    looping: false,
                };
                (
                    Some(
                        (
                            SwitchAnimating::Switch {
                                on_anim,
                                off_anim,
                                on_transition,
                                off_transition,
                            },
                            on_anim,
                        ),
                    ),
                    i4,
                    r4,
                )
            },
            _ => (None, ids, reg),
        },
        AnimationType::Stop => match attr.on_graphics {
            Some(on) => {
                let (i1, r1, on_id) = memo_step(ids, reg, anims, on);
                let on_anim = AnimPlayback {
                    animation: on_id,
                    speed: speed_for(anims, on),
                    looping: true,
                };
                (Some((SwitchAnimating::Stop { on_speed: speed_for(anims, on) }, on_anim)), i1, r1)
            },
            None => (None, ids, reg),
        },
    }
}

/// What animating a tile with the given attributes asks of the animation
/// table: the tiles its attributes name, where they name all it needs,
/// have an animation.
pub open spec fn dispatch_defined(
    ty: AnimationType,
    attr: TileAttributes,
    anims: Map<u32, (u32, CPUTileAnimation)>,
) -> bool {
    match ty {
        AnimationType::Switch => match (
            attr.on_graphics,
            attr.off_graphics,
            attr.on_transition_graphics,
            attr.off_transition_graphics,
        ) {
            (Some(on), Some(off), Some(ont), Some(offt)) => anims.contains_key(on)
                && anims.contains_key(off) && anims.contains_key(ont)
                && anims.contains_key(offt),
            _ => true,
        },
        AnimationType::Stop => match attr.on_graphics {
            Some(on) => anims.contains_key(on),
            None => true,
        },
    }
}

/// How a tile that is switched on and off is animated, from the tiles its
/// attributes name: for `Switch`, the four animations (on and off looping,
/// the transitions played once), for `Stop` the "on" animation; `None`
/// where an attribute it needs is missing. The animations are registered
/// once per tile and remembered in `anim_ids`.
pub fn dispatch_anim_type(
    ty: AnimationType,
    attr: &TileAttributes,
    anims: &HashMap<u32, (u32, CPUTileAnimation)>,
    anim_ids: &mut HashMap<u32, usize>,
    animations: &mut CPUTileAnimations,
) -> (r: Option<(SwitchAnimating, AnimPlayback)>)
    requires
        dispatch_defined(ty, *attr, anims@),
        old(animations).animations@.len() + 4 < usize::MAX,
    ensures
        (r, final(anim_ids)@, anim_views(final(animations).animations@)) == spec_dispatch_anim_type(
            ty,
            *attr,
            anims@,
            old(anim_ids)@,
            anim_views(old(animations).animations@),
        ),
{
    match ty {
        AnimationType::Switch => match (
            attr.on_graphics,
            attr.off_graphics,
            attr.on_transition_graphics,
            attr.off_transition_graphics,
        ) {
            (Some(tile_on), Some(tile_off), Some(on_transition), Some(off_transition)) => {
                let on_speed = anims.get(&tile_on).unwrap().0;
                let off_speed = anims.get(&tile_off).unwrap().0;
                let on_transition_speed = anims.get(&on_transition).unwrap().0;
                let off_transition_speed =
                    anims.get(&off_transition).unwrap().0;
                let on_anim_id = memo_anim(tile_on, anims, anim_ids, animations);
                let off_anim_id = memo_anim(tile_off, anims, anim_ids, animations);
                let on_transition_id = memo_anim(on_transition, anims, anim_ids, animations);
                let off_transition_id = memo_anim(off_transition, anims, anim_ids, animations);
                let on_anim = AnimPlayback { animation: on_anim_id, speed: on_speed, looping: true };
                let off_anim = AnimPlayback {
                    animation: off_anim_id,
                    speed: off_speed,
                    looping: true,
                };
                let on_transition = AnimPlayback {
                    animation: on_transition_id,
                    speed: on_transition_speed,
                    looping: false,
                };
                let off_transition = AnimPlayback {
                    animation: off_transition_id,
                    speed: off_transition_speed,
                    looping: false,
                };
                Some(
                    (
                        SwitchAnimating::Switch { on_anim, off_anim, on_transition, off_transition },
                        on_anim,
                    ),
                )
            },
            _ => None,
        },
        AnimationType::Stop => match attr.on_graphics {
            Some(tile_on) => {
                let on_speed = anims.get(&tile_on).unwrap().0;
                let on_anim_id = memo_anim(tile_on, anims, anim_ids, animations);
                let on_anim = AnimPlayback { animation: on_anim_id, speed: on_speed, looping: true };
                Some((SwitchAnimating::Stop { on_speed }, on_anim))
            },
            None => None,
        },
    }
}


/// The component a tile is tagged with, by its type.
#[derive(Debug, Clone, Copy, PartialEq, Eq, Structural)]
pub enum TileKindTag {
    StartTile,
    EndTile,
    Conveyor,
    Frier,
    SolidTile,
}

/// What a tile is spawned with: its tag, and where it is switched on and
/// off, its condition with its animating and starting playback.
#[derive(Debug, Clone, Copy, PartialEq, Eq)]
pub struct TileCommand {
    pub tag: Option<TileKindTag>,
    pub activatable: Option<(ActivationCondition, SwitchAnimating, AnimPlayback)>,
}

/// The tag of a tile of the given type: untyped tiles are solid, tiles of
/// an unknown type get none.
pub open spec fn spec_kind_tag(tile_ty: Option<Seq<char>>) -> Option<TileKindTag> {
    match tile_ty {
        None => Some(TileKindTag::SolidTile),
        Some(t) => if t == "player_start"@ {
            Some(TileKindTag::StartTile)
        } else if t == "player_end"@ {
            Some(TileKindTag::EndTile)
        } else if t == "conveyor"@ {
            Some(TileKindTag::Conveyor)
        } else if t == "fry"@ {
            Some(TileKindTag::Frier)
        } else {
            None
        },
    }
}

/// The type of a tile's attributes, as text.
pub open spec fn attr_type_text(attr: TileAttributes) -> Option<Seq<char>> {
    match attr.tile_ty {
        Some(t) => Some(t@),
        None => None,
    }
}

/// What `build_command` gives: the command, the ids remembered and the
/// frames of the registered animations after it.
pub open spec fn spec_build_command(
    attr: TileAttributes,
    anims: Map<u32, (u32, CPUTileAnimation)>,
    ids: Map<u32, usize>,
    reg: Seq<Seq<Frame>>,
) -> (TileCommand, Map<u32, usize>, Seq<Seq<Frame>>) {
    let tag = spec_kind_tag(attr_type_text(attr));
    match (attr.activation_cond, attr.anim_type) {
        (Some(cond), Some(ty)) => {
            let (d, ids2, reg2) = spec_dispatch_anim_type(ty, attr, anims, ids, reg);
            let activatable = match d {
                Some((a, p)) => Some((cond, a, p)),
                None => None,
            };
            (TileCommand { tag, activatable }, ids2, reg2)
        },
        _ => (TileCommand { tag, activatable: None }, ids, reg),
    }
}

/// What building a tile's command asks of the animation table.
pub open spec fn command_defined(attr: TileAttributes, anims: Map<u32, (u32, CPUTileAnimation)>) -> bool {
    match (attr.activation_cond, attr.anim_type) {
        (Some(_), Some(ty)) => dispatch_defined(ty, attr, anims),
        _ => true,
    }
}

/// What a tile with the given attributes is spawned with: the tag of its
/// type, and where it has both a condition and an animation type, the
/// condition with how it is animated (left out where the attributes it
/// needs are missing).
pub fn build_command(
    attr: &TileAttributes,
    anims: &HashMap<u32, (u32, CPUTileAnimation)>,
    anim_ids: &mut HashMap<u32, usize>,
    animations: &mut CPUTileAnimations,
) -> (r: TileCommand)
    requires
        command_defined(*attr, anims@),
        old(animations).animations@.len() + 4 < usize::MAX,
    ensures
        (r, final(anim_ids)@, anim_views(final(animations).animations@)) == spec_build_command(
            *attr,
            anims@,
            old(anim_ids)@,
            anim_views(old(animations).animations@),
        ),
        final(animations).animations@.len() <= old(animations).animations@.len() + 4,
{
    let tag = match &attr.tile_ty {
        None => Some(TileKindTag::SolidTile),
        Some(t) => if *t == "player_start".to_owned() {
            Some(TileKindTag::StartTile)
        } else if *t == "player_end".to_owned() {
            Some(TileKindTag::EndTile)
        } else if *t == "conveyor".to_owned() {
            Some(TileKindTag::Conveyor)
        } else if *t == "fry".to_owned() {
            Some(TileKindTag::Frier)
        } else {
            None
        },
    };
    let activatable = match (attr.activation_cond, attr.anim_type) {
        (Some(cond), Some(anim_type)) => match dispatch_anim_type(
            anim_type,
            attr,
            anims,
            anim_ids,
            animations,
        ) {
            Some((act_anim_ty, cpu_animated)) => Some((cond, act_anim_ty, cpu_animated)),
            None => None,
        },
        _ => None,
    };
    TileCommand { tag, activatable }
}


/// Building the commands of the first `k` entries of a tileset's
/// attribute table: the commands with their ids, the ids remembered and
/// the frames of the registered animations.
pub open spec fn row_scan(
    attrs: Seq<(u32, TileAttributes)>,
    anims: Map<u32, (u32, CPUTileAnimation)>,
    ids: Map<u32, usize>,
    reg: Seq<Seq<Frame>>,
    k: int,
) -> (Seq<(u32, TileCommand)>, Map<u32, usize>, Seq<Seq<Frame>>)
    decreases k,
{
    if k <= 0 {
        (Seq::empty(), ids, reg)
    } else {
        let (row, i1, r1) = row_scan(attrs, anims, ids, reg, k - 1);
        let (c, i2, r2) = spec_build_command(attrs[k - 1].1, anims, i1, r1);
        (row.push((attrs[k - 1].0, c)), i2, r2)
    }
}

/// The ids remembered for each tileset, as sequences.
pub open spec fn ids_views(ids: Seq<HashMap<u32, usize>>) -> Seq<Map<u32, usize>> {
    ids.map_values(|v: HashMap<u32, usize>| v@)
}

/// Building the commands of the first `t` tilesets: the commands of each,
/// the ids remembered for each and the frames of the registered
/// animations.
pub open spec fn all_scan(
    attrs: Seq<Vec<(u32, TileAttributes)>>,
    anims: Seq<HashMap<u32, (u32, CPUTileAnimation)>>,
    ids: Seq<Map<u32, usize>>,
    reg: Seq<Seq<Frame>>,
    t: int,
) -> (Seq<Seq<(u32, TileCommand)>>, Seq<Map<u32, usize>>, Seq<Seq<Frame>>)
    decreases t,
{
    if t <= 0 {
        (Seq::empty(), ids, reg)
    } else {
        let (out, i1, r1) = all_scan(attrs, anims, ids, reg, t - 1);
        let (row, idr, r2) = row_scan(
            attrs[t - 1]@,
            anims[t - 1]@,
            i1[t - 1],
            r1,
            attrs[t - 1]@.len() as int,
        );
        (out.push(row), i1.update(t - 1, idr), r2)
    }
}

/// The number of entries in the first `t` attribute tables.
pub open spec fn total_entries(attrs: Seq<Vec<(u32, TileAttributes)>>, t: int) -> nat
    decreases t,
{
    if t <= 0 {
        0
    } else {
        total_entries(attrs, t - 1) + attrs[t - 1]@.len()
    }
}

/// The commands of every tile of every tileset, in order, each with the
/// tile's id; the animations are registered once per tile of each tileset
/// and remembered in that tileset's `anim_ids`.
pub fn build_commands(
    attrs: &Vec<Vec<(u32, TileAttributes)>>,
    anims: &Vec<HashMap<u32, (u32, CPUTileAnimation)>>,
    anim_ids: &mut Vec<HashMap<u32, usize>>,
    animations: &mut CPUTileAnimations,
) -> (r: Vec<Vec<(u32, TileCommand)>>)
    requires
        anims@.len() >= attrs@.len(),
        old(anim_ids)@.len() >= attrs@.len(),
        forall|t: int, k: int|
            0 <= t < attrs@.len() && 0 <= k < attrs@[t]@.len() ==> command_defined(
                (#[trigger] attrs@[t]@[k]).1,
                anims@[t]@,
            ),
        old(animations).animations@.len() + 4 * total_entries(attrs@, attrs@.len() as int)
            < usize::MAX,
    ensures
        ({
            let (out, ids, reg) = all_scan(
                attrs@,
                anims@,
                ids_views(old(anim_ids)@),
                anim_views(old(animations).animations@),
                attrs@.len() as int,
            );
            &&& out.len() == r@.len()
            &&& forall|t: int| 0 <= t < r@.len() ==> (#[trigger] r@[t])@ == out[t]
            &&& ids_views(final(anim_ids)@) == ids
            &&& anim_views(final(animations).animations@) == reg
        }),
{
    let ghost ids0 = ids_views(anim_ids@);
    let ghost reg0 = anim_views(animations.animations@);
    let ghost base = animations.animations@.len();
    let mut all: Vec<Vec<(u32, TileCommand)>> = Vec::new();
    let mut t: usize = 0;
    while t < attrs.len()
        invariant
            t <= attrs@.len(),
            all@.len() == t,
            anims@.len() >= attrs@.len(),
            anim_ids@.len() == old(anim_ids)@.len(),
            old(anim_ids)@.len() >= attrs@.len(),
            forall|u: int, k: int|
                0 <= u < attrs@.len() && 0 <= k < attrs@[u]@.len() ==> command_defined(
                    (#[trigger] attrs@[u]@[k]).1,
                    anims@[u]@,
                ),
            base + 4 * total_entries(attrs@, attrs@.len() as int) < usize::MAX,
            animations.animations@.len() <= base + 4 * total_entries(attrs@, t as int),
            total_entries(attrs@, t as int) <= total_entries(attrs@, attrs@.len() as int),
            ({
                let (out, ids, reg) = all_scan(attrs@, anims@, ids0, reg0, t as int);
                &&& out.len() == all@.len()
                &&& forall|u: int| 0 <= u < all@.len() ==> (#[trigger] all@[u])@ == out[u]
                &&& ids_views(anim_ids@) == ids
                &&& anim_views(animations.animations@) == reg
            }),
        decreases attrs@.len() - t,
    {
        proof {
            lemma_total_entries_monotone(attrs@, t + 1, attrs@.len() as int);
        }
        let table = &attrs[t];
        let mut row: Vec<(u32, TileCommand)> = Vec::new();
        let ghost ids_t = anim_ids@[t as int]@;
        let ghost reg_t = anim_views(animations.animations@);
        let ghost len_t = animations.animations@.len();
        let ghost ids_before = anim_ids@;
        let mut k: usize = 0;
        while k < table.len()
            invariant
                k <= table@.len(),
                t < attrs@.len(),
                table == attrs@[t as int],
                anims@.len() >= attrs@.len(),
                anim_ids@.len() == old(anim_ids)@.len(),
                old(anim_ids)@.len() >= attrs@.len(),
                forall|u: int, j: int|
                    0 <= u < attrs@.len() && 0 <= j < attrs@[u]@.len() ==> command_defined(
                        (#[trigger] attrs@[u]@[j]).1,
                        anims@[u]@,
                    ),
                base + 4 * total_entries(attrs@, attrs@.len() as int) < usize::MAX,
                total_entries(attrs@, t + 1) <= total_entries(attrs@, attrs@.len() as int),
                total_entries(attrs@, t + 1) == total_entries(attrs@, t as int) + table@.len(),
                len_t <= base + 4 * total_entries(attrs@, t as int),
                animations.animations@.len() <= len_t + 4 * k,
                forall|u: int|
                    0 <= u < anim_ids@.len() && u != t ==> #[trigger] anim_ids@[u] == ids_before[u],
                ids_before.len() == anim_ids@.len(),
                ({
                    let (r, i, g) = row_scan(table@, anims@[t as int]@, ids_t, reg_t, k as int);
                    &&& r == row@
                    &&& i == anim_ids@[t as int]@
                    &&& g == anim_views(animations.animations@)
                }),
            decreases table@.len() - k,
        {
            let cmd = build_command(&table[k].1, &anims[t], &mut anim_ids[t], animations);
            row.push((table[k].0, cmd));
            k = k + 1;
        }
        proof {
            let (out, i1, r1) = all_scan(attrs@, anims@, ids0, reg0, t as int);
            assert(i1 == ids_views(ids_before));
            assert(ids_views(anim_ids@) =~= i1.update(t as int, anim_ids@[t as int]@));
        }
        let ghost row_v = row@;
        all.push(row);
        proof {
            let (out, i1, r1) = all_scan(attrs@, anims@, ids0, reg0, t as int);
            assert(all@[t as int]@ == row_v);
            assert forall|u: int| 0 <= u < all@.len() implies (#[trigger] all@[u])@ == out.push(
                row_v,
            )[u] by {}
        }
        t = t + 1;
    }
    all
}

/// Counting the entries of more tables counts no fewer.
pub proof fn lemma_total_entries_monotone(attrs: Seq<Vec<(u32, TileAttributes)>>, t: int, u: int)
    requires
        0 <= t <= u,
    ensures
        total_entries(attrs, t) <= total_entries(attrs, u),
    decreases u - t,
{
    if t < u {
        lemma_total_entries_monotone(attrs, t, u - 1);
    }
}

} // verus!
