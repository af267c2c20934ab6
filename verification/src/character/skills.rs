use crate::character::ElementData;
use vstd::prelude::*;

verus! {

/// A skill of a character.
#[derive(Debug, Clone)]
pub struct SkillData {
    pub id: String,
    pub name: String,
    pub level: u8,
    pub max_level: u8,
    pub element: Option<ElementData>,
    /// The kind of the skill, as the snapshot's `type` entry names it.
    pub type_tag: String,
    pub type_text: String,
    pub effect: String,
    pub effect_text: String,
    pub simple_desc: String,
    pub desc: String,
    pub icon: String,
}

/// A node of a character's skill tree.
#[derive(Debug, Clone)]
pub struct SkillTreeData {
    pub id: String,
    pub level: u8,
    pub max_level: u8,
    pub icon: String,
    pub anchor: String,
    pub parent: Option<String>,
}

} // verus!
