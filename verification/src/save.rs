//! The player's progress: the achievements earned and the first level not
//! yet beaten.

use vstd::prelude::*;
use crate::level_info::LevelInfo;

verus! {

/// Whether no two texts of a list are equal.
pub open spec fn distinct_texts(s: Seq<String>) -> bool {
    forall|i: int, j: int| 0 <= i < j < s.len() ==> s[i]@ != s[j]@
}

/// Whether a text is among those of a list.
pub open spec fn has_text(s: Seq<String>, t: Seq<char>) -> bool {
    exists|i: int| 0 <= i < s.len() && s[i]@ == t
}

/// The level that follows level `level` of world `world`: the next level
/// of the same world, or the first level of the next world after the
/// world's last level; `None` past the last world.
pub open spec fn spec_next_level(world: u8, level: u8, info: LevelInfo) -> Option<(u8, u8)> {
    if world >= info.spec_world_count() {
        None
    } else {
        let (w, l) = if info.counts()[world as int] - 1 <= level {
            (world + 1, 0int)
        } else {
            (world as int, level + 1)
        };
        if w == info.spec_world_count() {
            None
        } else {
            Some((w as u8, l as u8))
        }
    }
}

/// What moving on from a level asks of the level info: the world of the
/// level, where it exists, has at least one level.
pub open spec fn next_level_defined(world: u8, info: LevelInfo) -> bool {
    world < info.spec_world_count() ==> info.counts()[world as int] >= 1
}

/// The saved progress of the player.
#[derive(Debug)]
pub struct Save {
    achievements: Vec<String>,
    /// The world the player has yet to beat.
    world: u8,
    /// The level the player has yet to beat.
    level: u8,
}

impl Save {
    /// No achievement is recorded twice.
    #[verifier::type_invariant]
    closed spec fn wf(self) -> bool {
        distinct_texts(self.achievements@)
    }

    /// The names of the achievements earned.
    pub closed spec fn achievements(self) -> Set<Seq<char>> {
        Set::new(|t: Seq<char>| has_text(self.achievements@, t))
    }

    /// The world the player has yet to beat.
    pub closed spec fn spec_world(self) -> u8 {
        self.world
    }

    /// The level the player has yet to beat.
    pub closed spec fn spec_level(self) -> u8 {
        self.level
    }

    /// A new game: no achievements, at the first level of the first world.
    pub fn new() -> (r: Self)
        ensures
            r.achievements() == Set::<Seq<char>>::empty(),
            r.spec_world() == 0,
            r.spec_level() == 0,
    {
        let r = Save { achievements: Vec::new(), world: 0, level: 0 };
        proof {
            assert(r.achievements() =~= Set::<Seq<char>>::empty());
        }
        r
    }

    /// A saved game with the given achievements (each counted once) and
    /// the given level to beat.
    pub fn from_parts(achievements: Vec<String>, world: u8, level: u8) -> (r: Self)
        ensures
            r.achievements() == Set::new(|t: Seq<char>| has_text(achievements@, t)),
            r.spec_world() == world,
            r.spec_level() == level,
    {
        let mut r = Save::new();
        let mut i: usize = 0;
        while i < achievements.len()
            invariant
                i <= achievements@.len(),
                r.achievements() == Set::new(
                    |t: Seq<char>| has_text(achievements@.take(i as int), t),
                ),
                r.spec_world() == 0,
                r.spec_level() == 0,
            decreases achievements@.len() - i,
        {
            r.give_achievement(achievements[i].as_str());
            proof {
                let prefix = achievements@.take(i + 1);
                assert(prefix.drop_last() == achievements@.take(i as int));
                assert(r.achievements() =~= Set::new(|t: Seq<char>| has_text(prefix, t))) by {
                    assert forall|t: Seq<char>| has_text(prefix, t) implies #[trigger] r.achievements().contains(t) by {
                        let k = choose|k: int| 0 <= k < prefix.len() && prefix[k]@ == t;
                        if k < i {
                            assert(achievements@.take(i as int)[k] == prefix[k]);
                        }
                    }
                    assert forall|t: Seq<char>| #[trigger] r.achievements().contains(t) implies has_text(prefix, t) by {
                        if t != achievements@[i as int]@ {
                            let k = choose|k: int|
                                0 <= k < i && achievements@.take(i as int)[k]@ == t;
                            assert(prefix[k]@ == t);
                        } else {
                            assert(prefix[i as int]@ == t);
                        }
                    }
                }
            }
            i = i + 1;
        }
        proof {
            assert(achievements@.take(i as int) == achievements@);
            use_type_invariant(&r);
        }
        Save { achievements: r.achievements, world, level }
    }

    /// The names of the achievements earned, each once.
    pub fn achievement_names(&self) -> (r: &Vec<String>)
        ensures
            forall|t: Seq<char>| has_text(r@, t) <==> self.achievements().contains(t),
            distinct_texts(r@),
    {
        proof {
            use_type_invariant(self);
        }
        &self.achievements
    }

    /// The world and level the player has yet to beat.
    pub fn world_level(&self) -> (r: (u8, u8))
        ensures
            r == (self.spec_world(), self.spec_level()),
    {
        (self.world, self.level)
    }

    /// Where the achievement of that name is in the list.
    fn position_of(&self, name: &String) -> (r: Option<usize>)
        ensures
            r is Some <==> has_text(self.achievements@, name@),
            r matches Some(i) ==> i < self.achievements@.len() && self.achievements@[i as int]@
                == name@,
    {
        let mut i: usize = 0;
        while i < self.achievements.len()
            invariant
                i <= self.achievements@.len(),
                forall|j: int| 0 <= j < i ==> self.achievements@[j]@ != name@,
            decreases self.achievements@.len() - i,
        {
            if self.achievements[i] == *name {
                return Some(i);
            }
            i = i + 1;
        }
        None
    }

    /// Records that the achievement was earned.
    pub fn give_achievement(&mut self, name: &str)
        ensures
            final(self).achievements() == old(self).achievements().insert(name@),
            final(self).spec_world() == old(self).spec_world(),
            final(self).spec_level() == old(self).spec_level(),
    {
        proof {
            use_type_invariant(&*self);
        }
        let owned = name.to_owned();
        if self.position_of(&owned).is_none() {
            let ghost before = self.achievements@;
            let mut list: Vec<String> = Vec::new();
            std::mem::swap(&mut list, &mut self.achievements);
            list.push(owned);
            self.achievements = list;
            proof {
                assert(self.achievements@ == before.push(owned));
                assert forall|t: Seq<char>| #[trigger] has_text(self.achievements@, t) == (has_text(
                    before,
                    t,
                ) || t == name@) by {
                    if has_text(before, t) {
                        let k = choose|k: int| 0 <= k < before.len() && before[k]@ == t;
                        assert(self.achievements@[k]@ == t);
                    }
                    if t == name@ {
                        assert(self.achievements@[before.len() as int]@ == t);
                    }
                    if has_text(self.achievements@, t) {
                        let k = choose|k: int|
                            0 <= k < self.achievements@.len() && self.achievements@[k]@ == t;
                        if k < before.len() {
                            assert(before[k]@ == t);
                        }
                    }
                }
                assert(self.achievements() =~= old(self).achievements().insert(name@));
            }
        } else {
            proof {
                assert(self.achievements() =~= old(self).achievements().insert(name@));
            }
        }
    }

    /// Whether the achievement was earned.
    pub fn has_achievement(&self, name: &str) -> (r: bool)
        ensures
            r == self.achievements().contains(name@),
    {
        let owned = name.to_owned();
        self.position_of(&owned).is_some()
    }

    /// The level after the one the player has yet to beat; `None` past the
    /// last world, or where that level is the last one of the game.
    pub fn next_level(&self, info: &LevelInfo) -> (r: Option<(u8, u8)>)
        requires
            next_level_defined(self.spec_world(), *info),
        ensures
            r == spec_next_level(self.spec_world(), self.spec_level(), *info),
    {
        let (mut world, mut level) = (self.world, self.level);
        let count = info.world_count();
        if world >= count {
            return None;
        }
        // The last level of the world is beaten: go on to the next world.
        if info.level_count_in_world(world) - 1 <= level {
            level = 0;
            world = world + 1;
        } else {
            level = level + 1;
        }
        if world == count {
            None
        } else {
            Some((world, level))
        }
    }

    /// Records that the level the player had yet to beat is beaten: moves
    /// on to the next level, where there is one.
    pub fn register_level_complete(&mut self, info: &LevelInfo)
        requires
            next_level_defined(old(self).spec_world(), *info),
        ensures
            final(self).achievements() == old(self).achievements(),
            match spec_next_level(old(self).spec_world(), old(self).spec_level(), *info) {
                Some((w, l)) => final(self).spec_world() == w && final(self).spec_level() == l,
                None => final(self).spec_world() == old(self).spec_world()
                    && final(self).spec_level() == old(self).spec_level(),
            },
    {
        proof {
            use_type_invariant(&*self);
        }
        if let Some((world, level)) = self.next_level(info) {
            self.world = world;
            self.level = level;
        }
    }
}

/// Moving on goes forward: the next level comes after the current one, in
/// a world that exists.
pub proof fn law_next_level_moves_forward(world: u8, level: u8, info: LevelInfo)
    requires
        next_level_defined(world, info),
    ensures
        spec_next_level(world, level, info) matches Some((w, l)) ==> (w > world || (w == world
            && l > level)) && w < info.spec_world_count(),
{
}

/// Every level of every world is visited in order: after a level that is
/// not the last of its world comes the next level of the same world, and
/// only after the last level of a world comes the first level of the next
/// world.
pub proof fn law_next_level_visits_every_level(world: u8, level: u8, info: LevelInfo)
    requires
        world < info.spec_world_count(),
        info.counts()[world as int] >= 1,
    ensures
        level as int + 1 < info.counts()[world as int] ==> spec_next_level(world, level, info)
            == Some((world, (level + 1) as u8)),
        level as int + 1 >= info.counts()[world as int] && world as int + 1
            < info.spec_world_count() ==> spec_next_level(world, level, info) == Some(
            ((world + 1) as u8, 0u8),
        ),
        spec_next_level(world, level, info) matches Some((w, l)) ==> (w == world && l as int
            == level + 1 && l < info.counts()[world as int]) || (w as int == world + 1 && l == 0
            && level as int + 1 >= info.counts()[world as int]),
{
}

/// The last level of the last world has no next level.
pub proof fn law_last_level_has_no_next(world: u8, level: u8, info: LevelInfo)
    requires
        world as int + 1 == info.spec_world_count(),
        info.counts()[world as int] >= 1,
        level as int + 1 >= info.counts()[world as int],
    ensures
        spec_next_level(world, level, info) is None,
{
}

/// Writing a save down and reading it back gives the same save: the names
/// it hands out, read back with its progress, are its achievements.
pub proof fn law_save_parts_round_trip(s: Save, names: Seq<String>)
    requires
        forall|t: Seq<char>| has_text(names, t) <==> s.achievements().contains(t),
    ensures
        Set::new(|t: Seq<char>| has_text(names, t)) == s.achievements(),
{
    assert(Set::new(|t: Seq<char>| has_text(names, t)) =~= s.achievements());
}

} // verus!
