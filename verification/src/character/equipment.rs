use crate::character::{level_cap, AttributeData, MainAffixData, PathData, PropertyData, SubAffixData};
use vstd::prelude::*;

verus! {

/// The light cone a character carries.
#[derive(Debug, Clone)]
pub struct LightConeData {
    pub id: String,
    pub name: String,
    pub rarity: u8,
    pub rank: u8,
    pub level: u8,
    pub promotion: u8,
    pub icon: String,
    pub preview: String,
    pub portrait: String,
    pub path: PathData,
    pub attributes: Vec<AttributeData>,
    pub properties: Vec<PropertyData>,
}

impl LightConeData {
    /// The highest level that the light cone's promotion tier allows.
    pub fn max_level(&self) -> (level: u8)
        requires
            level_cap(self.promotion) <= u8::MAX,
        ensures
            level == level_cap(self.promotion),
    {
        20 + 10 * self.promotion
    }
}

/// A relic a character wears.
#[derive(Debug, Clone)]
pub struct RelicData {
    pub id: String,
    pub name: String,
    pub set_id: String,
    pub set_name: String,
    pub rarity: u8,
    pub level: u8,
    pub main_affix: MainAffixData,
    pub sub_affixes: Vec<SubAffixData>,
    pub icon: String,
}

/// A set of relics whose bonus a character has.
#[derive(Debug, Clone)]
pub struct RelicSetData {
    pub id: String,
    pub name: String,
    pub icon: String,
    pub num: u8,
    pub desc: String,
    pub properties: Vec<PropertyData>,
}

} // verus!
