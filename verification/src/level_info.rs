//! How many levels each world of the game has, as read from the
//! `.level-info` file.

use vstd::prelude::*;

verus! {

/// The number of levels of each world, in order.
#[derive(Debug, Clone)]
pub struct LevelInfo {
    level_counts: Vec<u8>,
}

impl LevelInfo {
    /// The number of levels of each world.
    pub closed spec fn counts(self) -> Seq<u8> {
        self.level_counts@
    }

    /// The number of worlds as a `u8`: the number of entries, modulo 256.
    pub open spec fn spec_world_count(self) -> u8 {
        (self.counts().len() % 256) as u8
    }

    /// The info from the number of levels of each world.
    pub fn new(level_counts: Vec<u8>) -> (r: Self)
        ensures
            r.counts() == level_counts@,
    {
        LevelInfo { level_counts }
    }

    /// The number of levels of each world.
    pub fn level_counts(&self) -> (r: &Vec<u8>)
        ensures
            r@ == self.counts(),
    {
        &self.level_counts
    }

    /// The number of worlds, truncated to a `u8`.
    pub fn world_count(&self) -> (r: u8)
        ensures
            r == self.spec_world_count(),
    {
        (self.level_counts.len() % 256) as u8
    }

    /// The number of levels of a world.
    pub fn level_count_in_world(&self, world: u8) -> (r: u8)
        requires
            world < self.counts().len(),
        ensures
            r == self.counts()[world as int],
    {
        self.level_counts[world as usize]
    }
}

/// Loads level info files, the files with the `level-info` extension.
#[derive(Debug, Clone, Copy, Default)]
pub struct LevelInfoLoader;

impl LevelInfoLoader {
    /// The file extensions this loader reads.
    pub fn extensions(&self) -> (r: Vec<&'static str>)
        ensures
            r@.len() == 1,
            r@[0]@ == "level-info"@,
    {
        let mut v: Vec<&'static str> = Vec::new();
        v.push("level-info");
        v
    }
}

} // verus!
