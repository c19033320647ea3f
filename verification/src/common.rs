//! What several formats share: the platform and the language of a file, and
//! version strings.

use vstd::prelude::*;

verus! {

/// The platform that a set of pack files was made for.
#[derive(PartialEq, Eq, Structural, Clone, Copy, Debug)]
pub enum Platform {
    Win32,
    PS3,
    PS4,
}

/// The platform that a platform byte stands for.
pub open spec fn spec_platform(code: u8) -> Option<Platform> {
    if code == 0 {
        Some(Platform::Win32)
    } else if code == 1 {
        Some(Platform::PS3)
    } else if code == 2 {
        Some(Platform::PS4)
    } else {
        None
    }
}

/// The platform byte of a platform.
pub open spec fn spec_platform_code(platform: Platform) -> u8 {
    match platform {
        Platform::Win32 => 0,
        Platform::PS3 => 1,
        Platform::PS4 => 2,
    }
}

/// The tag of a platform in file names.
pub open spec fn spec_platform_string(platform: Platform) -> Seq<char> {
    match platform {
        Platform::Win32 => "win32"@,
        Platform::PS3 => "ps3"@,
        Platform::PS4 => "ps4"@,
    }
}

impl Platform {
    /// The platform that a platform byte stands for, if it stands for one.
    pub fn from_code(code: u8) -> (platform: Option<Platform>)
        ensures
            platform == spec_platform(code),
    {
        match code {
            0 => Some(Platform::Win32),
            1 => Some(Platform::PS3),
            2 => Some(Platform::PS4),
            _ => None,
        }
    }

    /// The platform byte of this platform.
    pub fn code(self) -> (code: u8)
        ensures
            code == spec_platform_code(self),
            spec_platform(code) == Some(self),
    {
        match self {
            Platform::Win32 => 0,
            Platform::PS3 => 1,
            Platform::PS4 => 2,
        }
    }
}

/// The tag of a platform in file names.
pub fn get_platform_string(platform: Platform) -> (tag: &'static str)
    ensures
        tag@ == spec_platform_string(platform),
{
    match platform {
        Platform::Win32 => "win32",
        Platform::PS3 => "ps3",
        Platform::PS4 => "ps4",
    }
}

/// The language of a sheet. `Neutral` is for sheets that are the same in
/// every language.
#[derive(PartialEq, Eq, Structural, Clone, Copy, Debug)]
pub enum Language {
    Neutral,
    Japanese,
    English,
    German,
    French,
    ChineseSimplified,
    ChineseTraditional,
    Korean,
}

/// The language that a language code stands for.
pub open spec fn spec_language(code: u8) -> Option<Language> {
    if code == 0 {
        Some(Language::Neutral)
    } else if code == 1 {
        Some(Language::Japanese)
    } else if code == 2 {
        Some(Language::English)
    } else if code == 3 {
        Some(Language::German)
    } else if code == 4 {
        Some(Language::French)
    } else if code == 5 {
        Some(Language::ChineseSimplified)
    } else if code == 6 {
        Some(Language::ChineseTraditional)
    } else if code == 7 {
        Some(Language::Korean)
    } else {
        None
    }
}

/// The tag of a language in file names; the neutral language has an empty one.
pub open spec fn spec_language_code(language: Language) -> Seq<char> {
    match language {
        Language::Neutral => ""@,
        Language::Japanese => "ja"@,
        Language::English => "en"@,
        Language::German => "de"@,
        Language::French => "fr"@,
        Language::ChineseSimplified => "chs"@,
        Language::ChineseTraditional => "cht"@,
        Language::Korean => "ko"@,
    }
}

impl Language {
    /// The language that a language code stands for, if it stands for one.
    pub fn from_code(code: u8) -> (language: Option<Language>)
        ensures
            language == spec_language(code),
    {
        match code {
            0 => Some(Language::Neutral),
            1 => Some(Language::Japanese),
            2 => Some(Language::English),
            3 => Some(Language::German),
            4 => Some(Language::French),
            5 => Some(Language::ChineseSimplified),
            6 => Some(Language::ChineseTraditional),
            7 => Some(Language::Korean),
            _ => None,
        }
    }
}

/// The tag of a language in file names.
pub fn get_language_code(language: Language) -> (tag: &'static str)
    ensures
        tag@ == spec_language_code(language),
{
    match language {
        Language::Neutral => "",
        Language::Japanese => "ja",
        Language::English => "en",
        Language::German => "de",
        Language::French => "fr",
        Language::ChineseSimplified => "chs",
        Language::ChineseTraditional => "cht",
        Language::Korean => "ko",
    }
}

/// A byte that is a decimal digit.
pub open spec fn spec_is_digit(byte: u8) -> bool {
    0x30 <= byte <= 0x39
}

/// A version string: a date and two numbers, as in `2012.01.01.0000.0000`.
/// It has twenty characters, with dots after the fourth, the seventh, the
/// tenth and the fifteenth, and digits elsewhere.
pub open spec fn spec_is_version(text: Seq<u8>) -> bool {
    &&& text.len() == 20
    &&& forall|i: int|
        0 <= i < 20 ==> if i == 4 || i == 7 || i == 10 || i == 15 {
            #[trigger] text[i] == 0x2E
        } else {
            spec_is_digit(text[i])
        }
}

/// Whether the bytes are a version string.
pub fn is_version(text: &[u8]) -> (valid: bool)
    ensures
        valid == spec_is_version(text@),
{
    if text.len() != 20 {
        return false;
    }
    let mut i: usize = 0;
    while i < 20
        invariant
            i <= 20,
            text@.len() == 20,
            forall|j: int|
                0 <= j < i ==> if j == 4 || j == 7 || j == 10 || j == 15 {
                    #[trigger] text@[j] == 0x2E
                } else {
                    spec_is_digit(text@[j])
                },
        decreases 20 - i,
    {
        let byte: u8 = text[i];
        if i == 4 || i == 7 || i == 10 || i == 15 {
            if byte != 0x2E {
                return false;
            }
        } else if byte < 0x30 || byte > 0x39 {
            return false;
        }
        i = i + 1;
    }
    true
}

} // verus!
