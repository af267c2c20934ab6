use vstd::prelude::*;

verus! {

/// The picture a player shows on the profile.
#[derive(Debug, Clone)]
pub struct AvatarData {
    pub id: String,
    pub name: String,
    pub icon: String,
}

} // verus!
