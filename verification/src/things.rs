//! Actors placed in a level: the player start, monsters, items.

use crate::map_items::{Vertex, THING_SIZE};
use crate::utils::{i16_at, i16_field, u16_at, u16_field};
use vstd::prelude::*;

verus! {

/// What kind of actor a type code stands for.
#[derive(Debug, Clone, Copy, PartialEq, Eq, Structural)]
pub enum ThingType {
    Player(u8),
    Monster(u8),
    Weapon(u8),
    Ammo(u8, u8),
    ArtifactItem,
    Collectible,
    Key,
    Obstacle,
    Decoration,
    Other(u16),
    Unknown,
}

/// Flag bit: the actor appears only in multiplayer games.
pub const THING_MULTIPLAYER_ONLY: u16 = 0x10;

/// Flag bit: the actor waits in ambush.
pub const THING_AMBUSH: u16 = 0x08;

/// An actor as the level places it.
#[derive(Debug, Clone, Copy, Default)]
pub struct Thing {
    pub pos: Vertex,
    /// Facing in whole degrees, counterclockwise from east.
    pub angle: i32,
    pub type_code: u16,
    pub flags: u16,
}

/// The actor that a 10-byte record encodes:
/// `i16 x, i16 y, i16 angle, u16 type, u16 flags`.
pub open spec fn thing_of(rec: Seq<u8>) -> Thing {
    Thing {
        pos: Vertex { x: i16_at(rec, 0) as i32, y: i16_at(rec, 2) as i32 },
        angle: i16_at(rec, 4) as i32,
        type_code: u16_at(rec, 6) as u16,
        flags: u16_at(rec, 8) as u16,
    }
}

/// The flag bits that admit an actor at a skill level: none is needed at
/// level 0, and no flag admits a level above 5.
pub open spec fn skill_mask(level: u8) -> u16 {
    if level == 1 || level == 2 {
        0x01
    } else if level == 3 {
        0x02
    } else if level == 4 || level == 5 {
        0x04
    } else {
        0
    }
}

impl Thing {
    /// Present in single-player games at the given skill level.
    pub open spec fn on_skill_level(&self, level: u8) -> bool {
        (self.flags & THING_MULTIPLAYER_ONLY) == 0 && (level == 0 || (self.flags & skill_mask(
            level,
        )) != 0)
    }

    pub open spec fn waiting_in_ambush(&self) -> bool {
        (self.flags & THING_AMBUSH) != 0
    }
}

impl Thing {
    /// Decodes an actor from the first ten bytes of `lump_data`.
    pub fn from(lump_data: &[u8]) -> (r: Thing)
        requires
            lump_data@.len() >= THING_SIZE,
        ensures
            r == thing_of(lump_data@),
    {
        let angle_deg: i32 = i16_field(lump_data, 4) as i32;
        let type_code: u16 = u16_field(lump_data, 6);
        Thing {
            pos: Vertex { x: i16_field(lump_data, 0) as i32, y: i16_field(lump_data, 2) as i32 },
            angle: angle_deg,
            type_code,
            flags: u16_field(lump_data, 8),
        }
    }

    pub fn type_code(&self) -> (r: u16)
        ensures
            r == self.type_code,
    {
        self.type_code
    }

    /// Whether the actor is present in a single-player game at the skill level.
    pub fn is_on_skill_level(&self, level: u8) -> (r: bool)
        ensures
            r == self.on_skill_level(level),
    {
        if (self.flags & THING_MULTIPLAYER_ONLY) != 0 {
            return false;
        }
        let mask: u16 = if level == 0 {
            return true;
        } else if level == 1 || level == 2 {
            0x01
        } else if level == 3 {
            0x02
        } else if level == 4 || level == 5 {
            0x04
        } else {
            0
        };
        assert((self.flags & 0u16) == 0) by (bit_vector);
        (self.flags & mask) != 0
    }

    pub fn is_waiting_in_ambush(&self) -> (r: bool)
        ensures
            r == self.waiting_in_ambush(),
    {
        0 != (self.flags & THING_AMBUSH)
    }
}

} // verus!
