//! A player's profile snapshot as plain records, and the rules by which the
//! statistics of a character are merged for display.

use vstd::prelude::*;
use vstd::string::*;

pub mod binary64;
pub mod character;
pub mod client;
pub mod player;
pub mod text;
pub mod util;

use character::CharacterData;
use player::{PlayerData, SpaceInfoData};
use text::{decimal_nat, push_decimal_nat, same_text};

verus! {

/// Display language of a profile snapshot.
pub enum Language {
    Cht,
    Cn,
    De,
    En,
    Es,
    Fr,
    Id,
    Jp,
    Kr,
    Pt,
    Ru,
    Th,
    Vi,
}

impl Language {
    /// The language's code as a sequence of characters.
    pub open spec fn code(&self) -> Seq<char> {
        match self {
            Language::Cht => "cht"@,
            Language::Cn => "cn"@,
            Language::De => "de"@,
            Language::En => "en"@,
            Language::Es => "es"@,
            Language::Fr => "fr"@,
            Language::Id => "id"@,
            Language::Jp => "jp"@,
            Language::Kr => "kr"@,
            Language::Pt => "pt"@,
            Language::Ru => "ru"@,
            Language::Th => "th"@,
            Language::Vi => "vi"@,
        }
    }

    /// The code that names this language in a request.
    pub fn as_str(&self) -> (code: &'static str)
        ensures
            code@ == self.code(),
    {
        match self {
            Self::Cht => "cht",
            Self::Cn => "cn",
            Self::De => "de",
            Self::En => "en",
            Self::Es => "es",
            Self::Fr => "fr",
            Self::Id => "id",
            Self::Jp => "jp",
            Self::Kr => "kr",
            Self::Pt => "pt",
            Self::Ru => "ru",
            Self::Th => "th",
            Self::Vi => "vi",
        }
    }
}

/// A profile snapshot: the player and the characters they show.
#[derive(Debug, Clone)]
pub struct Mihomo {
    pub player: PlayerData,
    pub characters: Vec<CharacterData>,
}

impl Mihomo {
    /// The address that serves the snapshot of a user in a language.
    pub open spec fn url_of(uid: u32, language: Language) -> Seq<char> {
        "https://api.mihomo.me/sr_info_parsed/"@ + decimal_nat(uid as nat) + "?lang="@
            + language.code()
    }

    /// The address that serves the snapshot of a user in a language.
    pub fn user_url(uid: u32, language: &Language) -> (url: String)
        ensures
            url@ == Self::url_of(uid, *language),
    {
        let mut url = "https://api.mihomo.me/sr_info_parsed/".to_owned();
        push_decimal_nat(&mut url, uid as u64);
        url.append("?lang=");
        url.append(language.as_str());
        proof {
            assert(url@ =~= Self::url_of(uid, *language));
        }
        url
    }

    pub fn get_nickname(&self) -> (nickname: &str)
        ensures
            nickname@ == self.player.nickname@,
    {
        self.player.nickname.as_str()
    }

    /// The player's level and the level of their world.
    pub fn get_lv_and_wlv(&self) -> (levels: (u8, u8))
        ensures
            levels == (self.player.level, self.player.world_level),
    {
        (self.player.level, self.player.world_level)
    }

    pub fn get_friend_cnt(&self) -> (count: u8)
        ensures
            count == self.player.friend_count,
    {
        self.player.friend_count
    }

    /// Where the player's picture is.
    pub fn get_pfp_url(&self) -> (icon: &str)
        ensures
            icon@ == self.player.avatar.icon@,
    {
        self.player.avatar.icon.as_str()
    }

    pub fn get_signature(&self) -> (signature: &str)
        ensures
            signature@ == self.player.signature@,
    {
        self.player.signature.as_str()
    }

    pub fn is_display(&self) -> (shown: bool)
        ensures
            shown == self.player.is_display,
    {
        self.player.is_display
    }

    pub fn get_space_info(&self) -> (info: &SpaceInfoData)
        ensures
            *info == self.player.space_info,
    {
        &self.player.space_info
    }

    /// The ids of the characters, in their order.
    pub fn get_character_ids(&self) -> (ids: Vec<&str>)
        ensures
            ids.deep_view() == self.characters@.map_values(|c: CharacterData| c.id@),
    {
        let mut ids: Vec<&str> = Vec::new();
        let mut i: usize = 0;
        while i < self.characters.len()
            invariant
                i <= self.characters@.len(),
                ids@.len() == i,
                forall|j: int| 0 <= j < i ==> (#[trigger] ids@[j])@ == self.characters@[j].id@,
            decreases self.characters@.len() - i,
        {
            ids.push(self.characters[i].id.as_str());
            i += 1;
        }
        proof {
            assert(ids.deep_view() =~= self.characters@.map_values(|c: CharacterData| c.id@));
        }
        ids
    }

    /// The names of the characters, in their order.
    pub fn get_character_names(&self) -> (names: Vec<&str>)
        ensures
            names.deep_view() == self.characters@.map_values(|c: CharacterData| c.name@),
    {
        let mut names: Vec<&str> = Vec::new();
        let mut i: usize = 0;
        while i < self.characters.len()
            invariant
                i <= self.characters@.len(),
                names@.len() == i,
                forall|j: int| 0 <= j < i ==> (#[trigger] names@[j])@ == self.characters@[j].name@,
            decreases self.characters@.len() - i,
        {
            names.push(self.characters[i].name.as_str());
            i += 1;
        }
        proof {
            assert(names.deep_view() =~= self.characters@.map_values(|c: CharacterData| c.name@));
        }
        names
    }

    /// The first character with the id.
    pub fn get_character_by_id(&self, id: &str) -> (found: Option<&CharacterData>)
        ensures
            match found {
                Some(character) => exists|i: int|
                    {
                        &&& 0 <= i < self.characters@.len()
                        &&& *character == #[trigger] self.characters@[i]
                        &&& character.id@ == id@
                        &&& forall|j: int| 0 <= j < i ==> (#[trigger] self.characters@[j]).id@ != id@
                    },
                None => forall|i: int|
                    0 <= i < self.characters@.len() ==> (#[trigger] self.characters@[i]).id@ != id@,
            },
    {
        let mut i: usize = 0;
        while i < self.characters.len()
            invariant
                i <= self.characters@.len(),
                forall|j: int| 0 <= j < i ==> (#[trigger] self.characters@[j]).id@ != id@,
            decreases self.characters@.len() - i,
        {
            if same_text(self.characters[i].id.as_str(), id) {
                return Some(&self.characters[i]);
            }
            i += 1;
        }
        None
    }
}

} // verus!
