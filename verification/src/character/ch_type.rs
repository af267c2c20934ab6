use vstd::prelude::*;

verus! {

/// The path a character or a light cone follows.
#[derive(Debug, Clone)]
pub struct PathData {
    pub id: String,
    pub name: String,
    pub icon: String,
}

/// The element of a character or of a skill.
#[derive(Debug, Clone)]
pub struct ElementData {
    pub id: String,
    pub name: String,
    pub color: String,
    pub icon: String,
}

} // verus!
