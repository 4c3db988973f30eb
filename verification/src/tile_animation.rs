//! Animating tiles that are switched on and off with two graphics: an
//! "on" and an "off" animation (no transitions), or an animation that
//! stops while the tile is off.

use vstd::prelude::*;
use std::collections::HashMap;
use crate::anim::{CPUTileAnimation, CPUTileAnimations, Frame};
use crate::level::anim_views;
use crate::tile_attributes::{AnimationType, TileAttributes};
use crate::tile_decoder::{AnimPlayback, memo_anim, memo_step, speed_for};

verus! {

/// How a tile that is switched on and off is animated with two graphics.
#[derive(Debug, Clone, Copy, PartialEq, Eq, Structural)]
pub enum PairAnimating {
    /// Looping "on" and "off" animations.
    Switch { on_anim: AnimPlayback, off_anim: AnimPlayback },
    /// The "on" animation at the given speed, stopped while off.
    Stop { on_speed: u32 },
}

/// What `dispatch_anim_type` gives: the animating of the tile with the
/// playback it starts with, the ids remembered and the frames of the
/// registered animations after it.
pub open spec fn spec_dispatch_pair(
    ty: AnimationType,
    attr: TileAttributes,
    anims: Map<u32, (u32, CPUTileAnimation)>,
    ids: Map<u32, usize>,
    reg: Seq<Seq<Frame>>,
) -> (Option<(PairAnimating, AnimPlayback)>, Map<u32, usize>, Seq<Seq<Frame>>) {
    match ty {
        AnimationType::Switch => match (attr.on_graphics, attr.off_graphics) {
            (Some(on), Some(off)) => {
                let (i1, r1, on_id) = memo_step(ids, reg, anims, on);
                let (i2, r2, off_id) = memo_step(i1, r1, anims, off);
                let on_anim = AnimPlayback {
                    animation: on_id,
                    speed: speed_for(anims, on),
                    looping: true,
                };
                let off_anim = AnimPlayback {
                    animation: off_id,
                    speed: speed_for(anims, off),
                    looping: true,
                };
                (Some((PairAnimating::Switch { on_anim, off_anim }, on_anim)), i2, r2)
            },
            _ => (None, ids, reg),
        },
        AnimationType::Stop => match attr.on_graphics {
            Some(on) => {
                let (i1, r1, on_id) = memo_step(ids, reg, anims, on);
                let on_anim = AnimPlayback {
                    animation: on_id,
                    speed: speed_for(anims, on),
                    looping: true,
                };
                (Some((PairAnimating::Stop { on_speed: speed_for(anims, on) }, on_anim)), i1, r1)
            },
            None => (None, ids, reg),
        },
    }
}

/// What animating a tile with the given attributes asks of the animation
/// table: the tiles its attributes name, where they name all it needs,
/// have an animation.
pub open spec fn pair_defined(
    ty: AnimationType,
    attr: TileAttributes,
    anims: Map<u32, (u32, CPUTileAnimation)>,
) -> bool {
    match ty {
        AnimationType::Switch => match (attr.on_graphics, attr.off_graphics) {
            (Some(on), Some(off)) => anims.contains_key(on) && anims.contains_key(off),
            _ => true,
        },
        AnimationType::Stop => match attr.on_graphics {
            Some(on) => anims.contains_key(on),
            None => true,
        },
    }
}

/// How a tile that is switched on and off is animated, from the tiles its
/// attributes name: for `Switch`, the "on" and "off" animations, both
/// looping; for `Stop` the "on" animation; `None` where an attribute it
/// needs is missing (the transition graphics play no part). The
/// animations are registered once per tile and remembered in `anim_ids`.
pub fn dispatch_anim_type(
    ty: AnimationType,
    attr: &TileAttributes,
    anims: &HashMap<u32, (u32, CPUTileAnimation)>,
    anim_ids: &mut HashMap<u32, usize>,
    animations: &mut CPUTileAnimations,
) -> (r: Option<(PairAnimating, AnimPlayback)>)
    requires
        pair_defined(ty, *attr, anims@),
        old(animations).animations@.len() + 2 < usize::MAX,
    ensures
        (r, final(anim_ids)@, anim_views(final(animations).animations@)) == spec_dispatch_pair(
            ty,
            *attr,
            anims@,
            old(anim_ids)@,
            anim_views(old(animations).animations@),
        ),
{
    match ty {
        AnimationType::Switch => match (attr.on_graphics, attr.off_graphics) {
            (Some(tile_on), Some(tile_off)) => {
                let on_speed = anims.get(&tile_on).unwrap().0;
                let off_speed = anims.get(&tile_off).unwrap().0;
                let on_anim_id = memo_anim(tile_on, anims, anim_ids, animations);
                let off_anim_id = memo_anim(tile_off, anims, anim_ids, animations);
                let on_anim = AnimPlayback { animation: on_anim_id, speed: on_speed, looping: true };
                let off_anim = AnimPlayback {
                    animation: off_anim_id,
                    speed: off_speed,
                    looping: true,
                };
                Some((PairAnimating::Switch { on_anim, off_anim }, on_anim))
            },
            _ => None,
        },
        AnimationType::Stop => match attr.on_graphics {
            Some(tile_on) => {
                let on_speed = anims.get(&tile_on).unwrap().0;
                let on_anim_id = memo_anim(tile_on, anims, anim_ids, animations);
                let on_anim = AnimPlayback { animation: on_anim_id, speed: on_speed, looping: true };
                Some((PairAnimating::Stop { on_speed }, on_anim))
            },
            None => None,
        },
    }
}

} // verus!
