//! Status-effect flags of the legacy packet set.
use vstd::prelude::*;

verus! {

/// Status effect buff type flags.
#[derive(Clone, Copy, Debug, PartialEq, Eq, Structural)]
pub struct StatusEffectBuffTypeFlags(pub u32);

pub const BUFF_DMG: u32 = 0x0001;
pub const BUFF_HEAL: u32 = 0x0002;
pub const BUFF_SHIELD: u32 = 0x0004;

impl StatusEffectBuffTypeFlags {
    pub fn bits(&self) -> (r: u32)
        ensures
            r == self.0,
    {
        self.0
    }

    pub fn has_dmg(&self) -> (r: bool)
        ensures
            r == (self.0 & BUFF_DMG != 0),
    {
        self.0 & BUFF_DMG != 0
    }

    pub fn has_heal(&self) -> (r: bool)
        ensures
            r == (self.0 & BUFF_HEAL != 0),
    {
        self.0 & BUFF_HEAL != 0
    }

    pub fn has_shield(&self) -> (r: bool)
        ensures
            r == (self.0 & BUFF_SHIELD != 0),
    {
        self.0 & BUFF_SHIELD != 0
    }
}

} // verus!
