//! The characters of a profile snapshot, with their equipment and statistics.

use vstd::prelude::*;

mod ch_type;
mod eq_type;
mod equipment;
mod skills;

pub use ch_type::{ElementData, PathData};
pub use eq_type::{
    AttributeData, AttributeLike, MainAffixData, PropertyData, StatEntry, SubAffixData,
};
pub use equipment::{LightConeData, RelicData, RelicSetData};
pub use skills::{SkillData, SkillTreeData};

verus! {

/// The highest level at a promotion tier: twenty, and ten more for each tier.
pub open spec fn level_cap(promotion: u8) -> int {
    20 + 10 * promotion
}

/// A character a player shows on the profile.
#[derive(Debug, Clone)]
pub struct CharacterData {
    pub id: String,
    pub name: String,
    pub rarity: u8,
    pub level: u8,
    pub promotion: u8,
    pub rank: u8,
    pub rank_icons: Vec<String>,
    pub icon: String,
    pub preview: String,
    pub portrait: String,
    pub path: PathData,
    pub element: ElementData,
    pub skills: Vec<SkillData>,
    pub skill_trees: Vec<SkillTreeData>,
    pub light_cone: Option<LightConeData>,
    pub relics: Vec<RelicData>,
    pub relic_sets: Vec<RelicSetData>,
    /// The base statistics.
    pub attributes: Vec<AttributeData>,
    /// What traces and the light cone add to the base statistics.
    pub additions: Vec<AttributeData>,
    /// The derived statistics.
    pub properties: Vec<PropertyData>,
}

impl CharacterData {
    /// The highest level that the character's promotion tier allows.
    pub fn max_level(&self) -> (level: u8)
        requires
            level_cap(self.promotion) <= u8::MAX,
        ensures
            level == level_cap(self.promotion),
    {
        20 + 10 * self.promotion
    }
}

} // verus!
