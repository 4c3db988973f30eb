//! Tile animations played on the CPU: a list of frames, a registry of
//! animations, the per-tile playback state, and the mapping from the
//! editor's tile ids to texture ids.

use vstd::prelude::*;
use std::collections::HashMap;
use crate::tilemap::AnimFrame;

verus! {

broadcast use vstd::std_specs::hash::group_hash_axioms;

/// The largest time span a `Duration` holds, in nanoseconds.
pub const DURATION_MAX_NANOS: u128 = 18_446_744_073_709_551_615_999_999_999;

/// An animation frame.
#[derive(Debug, Clone, Copy, PartialEq, Eq, Structural)]
pub struct Frame {
    /// The texture to show (an index into the tilemap's texture).
    pub texture_id: u32,
    /// How long the frame is shown, in nanoseconds.
    pub duration: u128,
}

/// An animation: its frames, in order.
#[derive(Debug, Clone)]
pub struct CPUTileAnimation(pub Vec<Frame>);

impl CPUTileAnimation {
    /// An animation from its frames.
    pub fn new(frames: Vec<Frame>) -> (r: Self)
        ensures
            r.0@ == frames@,
    {
        CPUTileAnimation(frames)
    }

    /// A copy of the animation.
    pub fn duplicate(&self) -> (r: Self)
        ensures
            r.0@ == self.0@,
    {
        let mut frames: Vec<Frame> = Vec::new();
        let mut i: usize = 0;
        while i < self.0.len()
            invariant
                i <= self.0@.len(),
                frames@ == self.0@.take(i as int),
            decreases self.0@.len() - i,
        {
            frames.push(self.0[i]);
            proof {
                assert(self.0@.take(i + 1) == self.0@.take(i as int).push(self.0@[i as int]));
            }
            i = i + 1;
        }
        proof {
            assert(self.0@.take(i as int) == self.0@);
        }
        CPUTileAnimation(frames)
    }
}

/// The registry of all animations; an animation is known by its position.
#[derive(Debug)]
pub struct CPUTileAnimations {
    pub animations: Vec<CPUTileAnimation>,
}

impl CPUTileAnimations {
    pub fn new() -> (r: Self)
        ensures
            r.animations@.len() == 0,
    {
        CPUTileAnimations { animations: Vec::new() }
    }

    /// Registers an animation, returning the id it is known by.
    pub fn add_animation(&mut self, anim: CPUTileAnimation) -> (id: usize)
        requires
            old(self).animations@.len() < usize::MAX,
        ensures
            id == old(self).animations@.len(),
            final(self).animations@ == old(self).animations@.push(anim),
    {
        let id = self.animations.len();
        self.animations.push(anim);
        id
    }

    /// Forgets all registered animations.
    pub fn clear(&mut self)
        ensures
            final(self).animations@.len() == 0,
    {
        self.animations.clear();
    }
}

/// The mapping from the editor's tile ids to the ids of the textures in
/// the tilemap's atlas.
#[derive(Debug)]
pub enum TilesetIndexing {
    /// Tile ids are texture ids.
    Continious,
    /// Each tile has its own image; the map gives its texture id.
    Special(HashMap<u32, u32>),
}

impl TilesetIndexing {
    /// Whether the tile id has a texture.
    pub open spec fn maps(&self, x: u32) -> bool {
        match self {
            TilesetIndexing::Continious => true,
            TilesetIndexing::Special(m) => m@.contains_key(x),
        }
    }

    /// The texture id of a tile id.
    pub open spec fn spec_dispatch(&self, x: u32) -> u32 {
        match self {
            TilesetIndexing::Continious => x,
            TilesetIndexing::Special(m) => m@[x],
        }
    }

    /// The indexing of an image-collection tileset whose tiles carry the
    /// given ids, in order: the tile at position `i` gets texture `i` (a
    /// later duplicate id overrides an earlier one).
    pub fn from_tile_ids(ids: &Vec<u32>) -> (r: Self)
        ensures
            r matches TilesetIndexing::Special(m) && forall|x: u32| (#[trigger] m@.contains_key(x))
                <==> ids@.contains(x),
            r matches TilesetIndexing::Special(m) && forall|i: int|
                0 <= i < ids@.len() && (forall|j: int| i < j < ids@.len() ==> ids@[j] != ids@[i])
                    ==> m@[#[trigger] ids@[i]] == i as u32,
    {
        let mut m: HashMap<u32, u32> = HashMap::new();
        let mut i: usize = 0;
        while i < ids.len()
            invariant
                i <= ids@.len(),
                forall|x: u32| (#[trigger] m@.contains_key(x)) <==> ids@.take(i as int).contains(x),
                forall|k: int|
                    0 <= k < i && (forall|j: int| k < j < i ==> ids@[j] != ids@[k]) ==> m@[#[trigger] ids@[k]]
                        == k as u32,
            decreases ids@.len() - i,
        {
            m.insert(ids[i], #[verifier::truncate] (i as u32));
            proof {
                assert(ids@.take(i + 1) == ids@.take(i as int).push(ids@[i as int]));
                assert forall|x: u32| (#[trigger] m@.contains_key(x)) <==> ids@.take(i + 1).contains(x) by {
                    if ids@.take(i as int).contains(x) {
                        let k = choose|k: int| 0 <= k < i && ids@.take(i as int)[k] == x;
                        assert(ids@.take(i + 1)[k] == x);
                    }
                    if x == ids@[i as int] {
                        assert(ids@.take(i + 1)[i as int] == x);
                    }
                }
            }
            i = i + 1;
        }
        proof {
            assert(ids@.take(ids@.len() as int) == ids@);
        }
        TilesetIndexing::Special(m)
    }

    /// Whether the tile id has a texture.
    pub fn has_texture(&self, x: u32) -> (r: bool)
        ensures
            r == self.maps(x),
    {
        match self {
            TilesetIndexing::Continious => true,
            TilesetIndexing::Special(map) => map.contains_key(&x),
        }
    }

    /// Maps a tile id from the editor to the tile's texture id.
    pub fn dispatch(&self, x: u32) -> (r: u32)
        requires
            self.maps(x),
        ensures
            r == self.spec_dispatch(x),
    {
        match self {
            TilesetIndexing::Continious => x,
            TilesetIndexing::Special(map) => *map.get(&x).unwrap(),
        }
    }

    /// Maps an animation from the editor to an animation of textures: each
    /// frame shows the texture of its tile, for its duration in
    /// milliseconds.
    pub fn cpu_tile_anim(&self, anim: &Vec<AnimFrame>) -> (r: CPUTileAnimation)
        requires
            forall|i: int| 0 <= i < anim@.len() ==> self.maps(#[trigger] anim@[i].tile_id),
        ensures
            r.0@.len() == anim@.len(),
            forall|i: int|
                0 <= i < anim@.len() ==> (#[trigger] r.0@[i]) == (Frame {
                    texture_id: self.spec_dispatch(anim@[i].tile_id),
                    duration: (anim@[i].duration * 1_000_000) as u128,
                }),
    {
        let mut frames: Vec<Frame> = Vec::new();
        let mut i: usize = 0;
        while i < anim.len()
            invariant
                i <= anim@.len(),
                forall|k: int| 0 <= k < anim@.len() ==> self.maps(#[trigger] anim@[k].tile_id),
                frames@.len() == i,
                forall|k: int|
                    0 <= k < i ==> (#[trigger] frames@[k]) == (Frame {
                        texture_id: self.spec_dispatch(anim@[k].tile_id),
                        duration: (anim@[k].duration * 1_000_000) as u128,
                    }),
            decreases anim@.len() - i,
        {
            let frame = anim[i];
            frames.push(
                Frame {
                    texture_id: self.dispatch(frame.tile_id),
                    duration: frame.duration as u128 * 1_000_000,
                },
            );
            i = i + 1;
        }
        CPUTileAnimation::new(frames)
    }
}

/// The first frame at or after `f` that lasts a positive time.
pub open spec fn first_positive_from(frames: Seq<Frame>, f: int) -> Option<int>
    decreases frames.len() - f,
{
    if f < 0 || f >= frames.len() {
        None
    } else if frames[f].duration > 0 {
        Some(f)
    } else {
        first_positive_from(frames, f + 1)
    }
}

/// How many zero-length frames, going forward and wrapping around, come
/// before a frame that lasts a positive time.
pub open spec fn zero_run(frames: Seq<Frame>, f: int) -> int {
    match first_positive_from(frames, f) {
        Some(q) => q - f,
        None => match first_positive_from(frames, 0) {
            Some(q) => frames.len() - f + q,
            None => 0,
        },
    }
}

/// The frame after `f`, wrapping around to the first.
pub open spec fn next_frame(len: int, f: int) -> int {
    if f + 1 < len {
        f + 1
    } else {
        0
    }
}

/// Playback can be settled from frame `f` with `passed` nanoseconds spent
/// in it: the frame exists and a looping animation that has time to spend
/// has some frame that lasts a positive time.
pub open spec fn can_settle(frames: Seq<Frame>, looping: bool, f: int, passed: int) -> bool {
    &&& 0 <= f < frames.len()
    &&& 0 <= passed
    &&& looping && passed > 0 ==> first_positive_from(frames, 0) is Some
}

/// Where playback stands after spending `passed` nanoseconds from the start
/// of frame `f`: the frame shown, the time spent in it, and whether a
/// non-looping animation ran out. Each frame whose duration is exceeded is
/// left for the next one; past the last frame a looping animation starts
/// over and a non-looping one stops at its last frame with no time spent.
pub open spec fn settle(frames: Seq<Frame>, looping: bool, f: int, passed: int) -> (int, int, bool)
    decreases passed, (if looping { zero_run(frames, f) } else { frames.len() - f }),
    when can_settle(frames, looping, f, passed)
{
    if passed > frames[f].duration {
        if f == frames.len() - 1 && !looping {
            (f, 0, true)
        } else {
            proof {
                if frames[f].duration == 0 && looping {
                    lemma_zero_run_step(frames, f);
                }
            }
            settle(frames, looping, next_frame(frames.len() as int, f), passed - frames[f].duration)
        }
    } else {
        (f, passed, false)
    }
}

/// Playback settles on a frame of the animation, with no more time spent
/// in it than there was to spend.
pub proof fn law_settle_stays_in_range(frames: Seq<Frame>, looping: bool, f: int, passed: int)
    requires
        can_settle(frames, looping, f, passed),
    ensures
        0 <= settle(frames, looping, f, passed).0 < frames.len(),
        0 <= settle(frames, looping, f, passed).1 <= passed,
    decreases passed, (if looping {
        zero_run(frames, f)
    } else {
        frames.len() - f
    }),
{
    if passed > frames[f].duration {
        if !(f == frames.len() - 1 && !looping) {
            if frames[f].duration == 0 && looping {
                lemma_zero_run_step(frames, f);
            }
            law_settle_stays_in_range(
                frames,
                looping,
                next_frame(frames.len() as int, f),
                passed - frames[f].duration,
            );
        }
    }
}

/// Playback that ran out rests on the animation's last frame with no time
/// spent in it, and only non-looping playback runs out.
pub proof fn law_done_playback_rests_on_last_frame(
    frames: Seq<Frame>,
    looping: bool,
    f: int,
    passed: int,
)
    requires
        can_settle(frames, looping, f, passed),
    ensures
        settle(frames, looping, f, passed).2 ==> !looping && settle(frames, looping, f, passed).0
            == frames.len() - 1 && settle(frames, looping, f, passed).1 == 0,
    decreases passed, (if looping {
        zero_run(frames, f)
    } else {
        frames.len() - f
    }),
{
    if passed > frames[f].duration {
        if !(f == frames.len() - 1 && !looping) {
            if frames[f].duration == 0 && looping {
                lemma_zero_run_step(frames, f);
            }
            law_done_playback_rests_on_last_frame(
                frames,
                looping,
                next_frame(frames.len() as int, f),
                passed - frames[f].duration,
            );
        }
    }
}

/// Stepping over a zero-length frame shortens the run of zero-length frames
/// ahead by one.
pub proof fn lemma_zero_run_step(frames: Seq<Frame>, f: int)
    requires
        0 <= f < frames.len(),
        frames[f].duration == 0,
        first_positive_from(frames, 0) is Some,
    ensures
        zero_run(frames, next_frame(frames.len() as int, f)) == zero_run(frames, f) - 1,
        zero_run(frames, next_frame(frames.len() as int, f)) >= 0,
{
    lemma_first_positive_bounds(frames, f);
    lemma_first_positive_bounds(frames, f + 1);
    lemma_first_positive_bounds(frames, 0);
    assert(first_positive_from(frames, f) == first_positive_from(frames, f + 1));
    if f + 1 == frames.len() {
        assert(first_positive_from(frames, f + 1) is None);
    }
}

/// What `first_positive_from` finds is a frame at or after `f` that lasts
/// a positive time.
pub proof fn lemma_first_positive_bounds(frames: Seq<Frame>, f: int)
    ensures
        first_positive_from(frames, f) matches Some(q) ==> f <= q < frames.len()
            && frames[q].duration > 0,
    decreases frames.len() - f,
{
    if 0 <= f < frames.len() && frames[f].duration == 0 {
        lemma_first_positive_bounds(frames, f + 1);
    }
}

/// A frame lasting a positive time at or after `f` is found by
/// `first_positive_from`.
pub proof fn lemma_first_positive_exists(frames: Seq<Frame>, f: int, i: int)
    requires
        0 <= f <= i < frames.len(),
        frames[i].duration > 0,
    ensures
        first_positive_from(frames, f) is Some,
    decreases i - f,
{
    if f < i && frames[f].duration == 0 {
        lemma_first_positive_exists(frames, f + 1, i);
    }
}

/// The playback state of an animated tile.
#[derive(Debug, Clone, Copy)]
pub struct CPUAnimated {
    pub paused: bool,
    pub looping: bool,
    is_done: bool,
    animation: usize,
    current_frame: usize,
    passed_time: u128,
}

impl CPUAnimated {
    pub closed spec fn spec_paused(self) -> bool {
        self.paused
    }

    pub closed spec fn spec_looping(self) -> bool {
        self.looping
    }

    /// Whether the last update ran a non-looping animation out.
    pub closed spec fn spec_is_done(self) -> bool {
        self.is_done
    }

    /// The id of the animation played.
    pub closed spec fn spec_animation(self) -> usize {
        self.animation
    }

    /// The frame shown.
    pub closed spec fn spec_frame(self) -> usize {
        self.current_frame
    }

    /// The time spent in the frame shown, in nanoseconds.
    pub closed spec fn spec_passed(self) -> u128 {
        self.passed_time
    }

    /// Playback of `animation` from its first frame.
    pub fn new(animation: usize, looping: bool, paused: bool) -> (r: Self)
        ensures
            r.spec_paused() == paused,
            r.spec_looping() == looping,
            !r.spec_is_done(),
            r.spec_animation() == animation,
            r.spec_frame() == 0,
            r.spec_passed() == 0,
    {
        CPUAnimated {
            paused,
            looping,
            is_done: false,
            animation,
            passed_time: 0,
            current_frame: 0,
        }
    }

    /// Advances playback by `dt` nanoseconds. Returns whether the frame
    /// shown stayed the same. A paused animation does not change.
    pub fn update(&mut self, dt: u128, animation: &CPUTileAnimation) -> (r: bool)
        requires
            !old(self).spec_paused() ==> old(self).spec_frame() < animation.0@.len(),
            !old(self).spec_paused() ==> old(self).spec_passed() + dt <= DURATION_MAX_NANOS,
            !old(self).spec_paused() && old(self).spec_looping() && old(self).spec_passed() + dt > 0 ==> exists|
                i: int,
            |
                0 <= i < animation.0@.len() && #[trigger] animation.0@[i].duration > 0,
        ensures
            old(self).spec_paused() ==> *final(self) == *old(self) && !r,
            !old(self).spec_paused() ==> ({
                let (f, p, done) = settle(
                    animation.0@,
                    old(self).spec_looping(),
                    old(self).spec_frame() as int,
                    old(self).spec_passed() + dt,
                );
                &&& final(self).spec_frame() == f
                &&& final(self).spec_passed() == p
                &&& final(self).spec_is_done() == done
                &&& r == (f == old(self).spec_frame())
            }),
            final(self).spec_paused() == old(self).spec_paused(),
            final(self).spec_looping() == old(self).spec_looping(),
            final(self).spec_animation() == old(self).spec_animation(),
            !old(self).spec_paused() ==> final(self).spec_frame() < animation.0@.len(),
    {
        if self.paused {
            return false;
        }
        let ghost frames = animation.0@;
        let ghost target = settle(
            frames,
            self.looping,
            self.current_frame as int,
            self.passed_time + dt,
        );
        proof {
            if self.looping && self.passed_time + dt > 0 {
                let i = choose|i: int| 0 <= i < frames.len() && #[trigger] frames[i].duration > 0;
                lemma_first_positive_exists(frames, 0, i);
            }
        }
        self.is_done = false;
        self.passed_time = self.passed_time + dt;
        let len = animation.0.len();
        let old_frame = self.current_frame;
        let ghost animation_id = self.animation;
        let ghost looping = self.looping;
        while self.passed_time > animation.0[self.current_frame].duration
            invariant_except_break
                len == frames.len(),
                can_settle(frames, self.looping, self.current_frame as int, self.passed_time as int),
                settle(frames, self.looping, self.current_frame as int, self.passed_time as int)
                    == target,
                !self.is_done,
            invariant
                frames == animation.0@,
                self.current_frame < len,
                !self.paused,
                self.animation == animation_id,
                self.looping == looping,
            ensures
                self.current_frame as int == target.0,
                self.passed_time as int == target.1,
                self.is_done == target.2,
            decreases self.passed_time, (if self.looping {
                zero_run(frames, self.current_frame as int)
            } else {
                frames.len() - self.current_frame
            }),
        {
            if self.current_frame == len - 1 && !self.looping {
                self.passed_time = 0;
                self.is_done = true;
                break;
            }
            proof {
                if frames[self.current_frame as int].duration == 0 && self.looping {
                    lemma_zero_run_step(frames, self.current_frame as int);
                }
            }
            self.passed_time = self.passed_time - animation.0[self.current_frame].duration;
            self.current_frame = if self.current_frame + 1 < len {
                self.current_frame + 1
            } else {
                0
            };
        }
        old_frame == self.current_frame
    }

    /// Changes the animation played, starting it over.
    pub fn set_animation(&mut self, animation: usize, paused: bool, looping: bool)
        ensures
            final(self).spec_paused() == paused,
            final(self).spec_looping() == looping,
            !final(self).spec_is_done(),
            final(self).spec_animation() == animation,
            final(self).spec_frame() == 0,
            final(self).spec_passed() == 0,
    {
        *self = Self::new(animation, looping, paused);
    }

    /// Pauses or unpauses playback.
    pub fn set_paused(&mut self, paused: bool)
        ensures
            final(self).spec_paused() == paused,
            final(self).spec_looping() == old(self).spec_looping(),
            final(self).spec_is_done() == old(self).spec_is_done(),
            final(self).spec_animation() == old(self).spec_animation(),
            final(self).spec_frame() == old(self).spec_frame(),
            final(self).spec_passed() == old(self).spec_passed(),
    {
        self.paused = paused;
    }

    /// The id of the animation played.
    pub fn animation(&self) -> (r: usize)
        ensures
            r == self.spec_animation(),
    {
        self.animation
    }

    /// Whether the last update ran a non-looping animation out.
    pub fn is_done(&self) -> (r: bool)
        ensures
            r == self.spec_is_done(),
    {
        self.is_done
    }
}


/// The animation id that no registered animation has.
pub const NO_ANIMATION: usize = usize::MAX;

impl Default for CPUAnimated {
    /// Playback of no animation at all (no registered animation has the
    /// id `NO_ANIMATION`), neither looping nor paused.
    fn default() -> (r: Self)
        ensures
            !r.spec_paused(),
            !r.spec_looping(),
            !r.spec_is_done(),
            r.spec_animation() == NO_ANIMATION,
            r.spec_frame() == 0,
            r.spec_passed() == 0,
    {
        CPUAnimated::new(NO_ANIMATION, false, false)
    }
}

/// What updating a tile's playback by `dt` asks: where its animation is
/// registered, what `CPUAnimated::update` asks of it.
pub open spec fn frame_update_ok(state: CPUAnimated, dt: u128, animations: Seq<CPUTileAnimation>) -> bool {
    state.spec_animation() < animations.len() ==> {
        let frames = animations[state.spec_animation() as int].0@;
        &&& !state.spec_paused() ==> state.spec_frame() < frames.len()
        &&& !state.spec_paused() ==> state.spec_passed() + dt <= DURATION_MAX_NANOS
        &&& !state.spec_paused() && state.spec_looping() && state.spec_passed() + dt > 0 ==> exists|
            i: int,
        | 0 <= i < frames.len() && #[trigger] frames[i].duration > 0
    }
}

/// Advances a tile's playback by `dt` nanoseconds, where its animation is
/// registered (playback of an unknown animation does not change). Returns
/// the texture of the new frame where playback moved to another frame, so
/// that the tile shows it; `None` where the tile keeps its texture.
pub fn update_animation_frame(state: &mut CPUAnimated, dt: u128, animations: &CPUTileAnimations) -> (r:
    Option<u32>)
    requires
        frame_update_ok(*old(state), dt, animations.animations@),
    ensures
        old(state).spec_animation() >= animations.animations@.len() ==> *final(state) == *old(state)
            && r is None,
        old(state).spec_animation() < animations.animations@.len() ==> {
            let frames = animations.animations@[old(state).spec_animation() as int].0@;
            let moved = !old(state).spec_paused() && settle(
                frames,
                old(state).spec_looping(),
                old(state).spec_frame() as int,
                old(state).spec_passed() + dt,
            ).0 != old(state).spec_frame();
            let (f, p, done) = settle(
                frames,
                old(state).spec_looping(),
                old(state).spec_frame() as int,
                old(state).spec_passed() + dt,
            );
            &&& final(state).spec_animation() == old(state).spec_animation()
            &&& final(state).spec_paused() == old(state).spec_paused()
            &&& final(state).spec_looping() == old(state).spec_looping()
            &&& old(state).spec_paused() ==> *final(state) == *old(state)
            &&& !old(state).spec_paused() ==> final(state).spec_frame() == f && final(state).spec_passed()
                == p && final(state).spec_is_done() == done
            &&& r == if moved {
                Some(frames[final(state).spec_frame() as int].texture_id)
            } else {
                None
            }
        },
{
    let id = state.animation();
    if id >= animations.animations.len() {
        return None;
    }
    let animation = &animations.animations[id];
    let paused = state.paused;
    let stayed = state.update(dt, animation);
    if paused || stayed {
        None
    } else {
        Some(animation.0[state.current_frame].texture_id)
    }
}

} // verus!
