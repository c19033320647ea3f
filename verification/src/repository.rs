//! Repositories: the base game and its expansions, the categories of their
//! assets, and the names of their pack files.

use vstd::prelude::*;
use crate::binary::bytes_equal;
use crate::common::{get_platform_string, spec_platform_string, Platform};
use crate::text::{
    push_decimal, push_hex_byte, push_padded, push_text, spec_decimal, spec_hex_byte, spec_padded,
    spec_text_bytes, text_bytes,
};

verus! {

/// The category of an asset, which says in which pack files it lies.
#[derive(PartialEq, Eq, Structural, Clone, Copy, Debug)]
pub enum Category {
    Common,
    BackgroundCommon,
    Background,
    Cutscene,
    Character,
    Shader,
    UI,
    Sound,
    VFX,
    UIScript,
    EXD,
    GameScript,
    Music,
    SqPackTest,
    Debug,
}

/// The code of a category in the names of pack files.
pub open spec fn spec_category_code(category: Category) -> u8 {
    match category {
        Category::Common => 0x00,
        Category::BackgroundCommon => 0x01,
        Category::Background => 0x02,
        Category::Cutscene => 0x03,
        Category::Character => 0x04,
        Category::Shader => 0x05,
        Category::UI => 0x06,
        Category::Sound => 0x07,
        Category::VFX => 0x08,
        Category::UIScript => 0x09,
        Category::EXD => 0x0A,
        Category::GameScript => 0x0B,
        Category::Music => 0x0C,
        Category::SqPackTest => 0x12,
        Category::Debug => 0x13,
    }
}

/// The name of a category at the start of asset paths.
pub open spec fn spec_category_name(category: Category) -> Seq<char> {
    match category {
        Category::Common => "common"@,
        Category::BackgroundCommon => "bgcommon"@,
        Category::Background => "bg"@,
        Category::Cutscene => "cut"@,
        Category::Character => "chara"@,
        Category::Shader => "shader"@,
        Category::UI => "ui"@,
        Category::Sound => "sound"@,
        Category::VFX => "vfx"@,
        Category::UIScript => "ui_script"@,
        Category::EXD => "exd"@,
        Category::GameScript => "game_script"@,
        Category::Music => "music"@,
        Category::SqPackTest => "sqpack_test"@,
        Category::Debug => "debug"@,
    }
}

/// Whether the bytes are the name of the category.
pub open spec fn spec_names_category(name: Seq<u8>, category: Category) -> bool {
    name == spec_text_bytes(spec_category_name(category))
}

/// The category that a name stands for: the first one, in the order of their
/// codes, whose name it is.
pub open spec fn spec_string_to_category(name: Seq<u8>) -> Option<Category> {
    if spec_names_category(name, Category::Common) {
        Some(Category::Common)
    } else if spec_names_category(name, Category::BackgroundCommon) {
        Some(Category::BackgroundCommon)
    } else if spec_names_category(name, Category::Background) {
        Some(Category::Background)
    } else if spec_names_category(name, Category::Cutscene) {
        Some(Category::Cutscene)
    } else if spec_names_category(name, Category::Character) {
        Some(Category::Character)
    } else if spec_names_category(name, Category::Shader) {
        Some(Category::Shader)
    } else if spec_names_category(name, Category::UI) {
        Some(Category::UI)
    } else if spec_names_category(name, Category::Sound) {
        Some(Category::Sound)
    } else if spec_names_category(name, Category::VFX) {
        Some(Category::VFX)
    } else if spec_names_category(name, Category::UIScript) {
        Some(Category::UIScript)
    } else if spec_names_category(name, Category::EXD) {
        Some(Category::EXD)
    } else if spec_names_category(name, Category::GameScript) {
        Some(Category::GameScript)
    } else if spec_names_category(name, Category::Music) {
        Some(Category::Music)
    } else if spec_names_category(name, Category::SqPackTest) {
        Some(Category::SqPackTest)
    } else if spec_names_category(name, Category::Debug) {
        Some(Category::Debug)
    } else {
        None
    }
}

impl Category {
    /// The code of the category in the names of pack files.
    pub fn code(self) -> (code: u8)
        ensures
            code == spec_category_code(self),
    {
        match self {
            Category::Common => 0x00,
            Category::BackgroundCommon => 0x01,
            Category::Background => 0x02,
            Category::Cutscene => 0x03,
            Category::Character => 0x04,
            Category::Shader => 0x05,
            Category::UI => 0x06,
            Category::Sound => 0x07,
            Category::VFX => 0x08,
            Category::UIScript => 0x09,
            Category::EXD => 0x0A,
            Category::GameScript => 0x0B,
            Category::Music => 0x0C,
            Category::SqPackTest => 0x12,
            Category::Debug => 0x13,
        }
    }

    /// The name of the category at the start of asset paths.
    pub fn name(self) -> (name: &'static str)
        ensures
            name@ == spec_category_name(self),
    {
        match self {
            Category::Common => "common",
            Category::BackgroundCommon => "bgcommon",
            Category::Background => "bg",
            Category::Cutscene => "cut",
            Category::Character => "chara",
            Category::Shader => "shader",
            Category::UI => "ui",
            Category::Sound => "sound",
            Category::VFX => "vfx",
            Category::UIScript => "ui_script",
            Category::EXD => "exd",
            Category::GameScript => "game_script",
            Category::Music => "music",
            Category::SqPackTest => "sqpack_test",
            Category::Debug => "debug",
        }
    }
}

fn names_category(name: &[u8], category: Category) -> (names: bool)
    ensures
        names == spec_names_category(name@, category),
{
    bytes_equal(name, text_bytes(category.name()))
}

/// The category that a name stands for, from the bytes of the name.
pub fn string_to_category_bytes(name: &[u8]) -> (category: Option<Category>)
    ensures
        category == spec_string_to_category(name@),
{
    if names_category(name, Category::Common) {
        Some(Category::Common)
    } else if names_category(name, Category::BackgroundCommon) {
        Some(Category::BackgroundCommon)
    } else if names_category(name, Category::Background) {
        Some(Category::Background)
    } else if names_category(name, Category::Cutscene) {
        Some(Category::Cutscene)
    } else if names_category(name, Category::Character) {
        Some(Category::Character)
    } else if names_category(name, Category::Shader) {
        Some(Category::Shader)
    } else if names_category(name, Category::UI) {
        Some(Category::UI)
    } else if names_category(name, Category::Sound) {
        Some(Category::Sound)
    } else if names_category(name, Category::VFX) {
        Some(Category::VFX)
    } else if names_category(name, Category::UIScript) {
        Some(Category::UIScript)
    } else if names_category(name, Category::EXD) {
        Some(Category::EXD)
    } else if names_category(name, Category::GameScript) {
        Some(Category::GameScript)
    } else if names_category(name, Category::Music) {
        Some(Category::Music)
    } else if names_category(name, Category::SqPackTest) {
        Some(Category::SqPackTest)
    } else if names_category(name, Category::Debug) {
        Some(Category::Debug)
    } else {
        None
    }
}

/// The category that a name stands for.
pub fn string_to_category(name: &str) -> (category: Option<Category>)
    ensures
        category == spec_string_to_category(spec_text_bytes(name@)),
{
    string_to_category_bytes(text_bytes(name))
}

/// The kind of a repository.
#[derive(PartialEq, Eq, Structural, Clone, Copy, Debug)]
pub enum RepositoryType {
    /// The base game.
    Base,
    /// An expansion, with its number, which is at least one.
    Expansion { number: u32 },
}

/// The number of a kind of repository in the names of pack files: zero for
/// the base game.
pub open spec fn spec_expansion(repo_type: RepositoryType) -> u32 {
    match repo_type {
        RepositoryType::Base => 0,
        RepositoryType::Expansion { number } => number,
    }
}

/// A repository: the base game or one expansion.
#[derive(Debug, PartialEq, Eq)]
pub struct Repository {
    /// The name of the repository, such as `ffxiv` or `ex1`.
    pub name: String,
    /// The platform of its pack files.
    pub platform: Platform,
    /// Its kind.
    pub repo_type: RepositoryType,
    /// Its version, if it has a readable version file.
    pub version: Option<String>,
}

/// What a repository holds.
pub struct RepositoryView {
    pub name: Seq<char>,
    pub platform: Platform,
    pub repo_type: RepositoryType,
    pub version: Option<Seq<char>>,
}

/// The text of a string, if there is a string.
pub open spec fn spec_option_text(text: Option<String>) -> Option<Seq<char>> {
    match text {
        Some(text) => Some(text@),
        None => None,
    }
}

impl View for Repository {
    type V = RepositoryView;

    open spec fn view(&self) -> RepositoryView {
        RepositoryView {
            name: self.name@,
            platform: self.platform,
            repo_type: self.repo_type,
            version: spec_option_text(self.version),
        }
    }
}

/// The number that decimal digits stand for, read from the left; other bytes
/// count as if they were digits.
pub open spec fn spec_decimal_value(digits: Seq<u8>) -> int
    decreases digits.len(),
{
    if digits.len() == 0 {
        0
    } else {
        10 * spec_decimal_value(digits.drop_last()) + (digits.last() - 0x30)
    }
}

/// Every byte is a decimal digit.
pub open spec fn spec_all_digits(digits: Seq<u8>) -> bool {
    forall|i: int| 0 <= i < digits.len() ==> 0x30 <= #[trigger] digits[i] <= 0x39
}

/// The number of the expansion that a directory name stands for: the name is
/// `ex` and then the decimal digits of a number from one up to what 32 bits
/// hold, without a zero in front.
pub open spec fn spec_expansion_number(name: Seq<u8>) -> Option<u32> {
    let digits = name.subrange(2, name.len() as int);
    if name.len() >= 3 && name[0] == 0x65 && name[1] == 0x78 && spec_all_digits(digits) && digits[0]
        != 0x30 && spec_decimal_value(digits) <= u32::MAX {
        Some(spec_decimal_value(digits) as u32)
    } else {
        None
    }
}

/// The name of the index file of a category: the code of the category in two
/// hexadecimal digits, the number of the expansion in two decimal digits, two
/// zeros, and the platform.
pub open spec fn spec_index_filename(
    repo_type: RepositoryType,
    platform: Platform,
    category: Category,
) -> Seq<char> {
    spec_hex_byte(spec_category_code(category)) + spec_padded(
        spec_expansion(repo_type) as nat,
        2,
    ) + spec_padded(0, 2) + "."@ + spec_platform_string(platform) + ".index"@
}

/// The name of data file `data_file_id` of a category: as the index file, but
/// ending in `dat` and the number of the data file.
pub open spec fn spec_dat_filename(
    repo_type: RepositoryType,
    platform: Platform,
    category: Category,
    data_file_id: u32,
) -> Seq<char> {
    spec_hex_byte(spec_category_code(category)) + spec_padded(
        spec_expansion(repo_type) as nat,
        2,
    ) + spec_padded(0, 2) + "."@ + spec_platform_string(platform) + ".dat"@ + spec_decimal(
        data_file_id as nat,
    )
}

/// The value of a longer run of digits is not smaller.
proof fn lemma_decimal_value_grows(digits: Seq<u8>, shorter: int)
    requires
        0 <= shorter <= digits.len(),
        spec_all_digits(digits),
    ensures
        0 <= spec_decimal_value(digits.subrange(0, shorter)) <= spec_decimal_value(digits),
    decreases digits.len() - shorter,
{
    if shorter == digits.len() {
        assert(digits.subrange(0, shorter) =~= digits);
        lemma_decimal_value_positive(digits);
    } else {
        let next = digits.subrange(0, shorter + 1);
        assert(next.drop_last() =~= digits.subrange(0, shorter));
        assert(next.last() == digits[shorter]);
        lemma_decimal_value_grows(digits, shorter + 1);
        lemma_decimal_value_positive(digits.subrange(0, shorter));
    }
}

proof fn lemma_decimal_value_positive(digits: Seq<u8>)
    requires
        spec_all_digits(digits),
    ensures
        0 <= spec_decimal_value(digits),
    decreases digits.len(),
{
    if digits.len() > 0 {
        assert(spec_all_digits(digits.drop_last())) by {
            assert forall|i: int| 0 <= i < digits.drop_last().len() implies 0x30
                <= #[trigger] digits.drop_last()[i] <= 0x39 by {
                assert(digits.drop_last()[i] == digits[i]);
            }
        }
        lemma_decimal_value_positive(digits.drop_last());
        assert(0x30 <= digits[digits.len() - 1] <= 0x39);
    }
}

/// The number of the expansion that a directory name stands for.
pub fn expansion_number(name: &[u8]) -> (number: Option<u32>)
    ensures
        number == spec_expansion_number(name@),
{
    let len: usize = name.len();
    if len < 3 || name[0] != 0x65 || name[1] != 0x78 {
        return None;
    }
    let ghost digits = name@.subrange(2, len as int);
    if name[2] == 0x30 {
        assert(digits[0] == name@[2]);
        return None;
    }
    let mut value: u64 = 0;
    let mut i: usize = 2;
    assert(digits.subrange(0, 0) =~= Seq::<u8>::empty());
    while i < len
        invariant
            2 <= i <= len,
            len == name@.len(),
            digits == name@.subrange(2, len as int),
            spec_all_digits(digits.subrange(0, i - 2)),
            value == spec_decimal_value(digits.subrange(0, i - 2)),
            value <= u32::MAX,
        decreases len - i,
    {
        let byte: u8 = name[i];
        assert(digits[i - 2] == byte);
        if byte < 0x30 || byte > 0x39 {
            assert(!spec_all_digits(digits));
            return None;
        }
        let ghost next = digits.subrange(0, i - 1);
        assert(next.drop_last() =~= digits.subrange(0, i - 2));
        assert(next.last() == byte);
        assert(spec_all_digits(next)) by {
            assert forall|j: int| 0 <= j < next.len() implies 0x30 <= #[trigger] next[j]
                <= 0x39 by {
                if j < i - 2 {
                    assert(digits.subrange(0, i - 2)[j] == next[j]);
                }
            }
        }
        value = 10 * value + (byte - 0x30) as u64;
        if value > 0xFFFF_FFFF {
            proof {
                if spec_all_digits(digits) {
                    lemma_decimal_value_grows(digits, i - 1);
                }
            }
            return None;
        }
        i = i + 1;
    }
    assert(digits.subrange(0, len - 2) =~= digits);
    Some(value as u32)
}

impl Repository {
    /// The number of the repository in the names of pack files: zero for the
    /// base game.
    pub fn expansion(&self) -> (number: u32)
        ensures
            number == spec_expansion(self.repo_type),
    {
        match self.repo_type {
            RepositoryType::Base => 0,
            RepositoryType::Expansion { number } => number,
        }
    }

    fn push_stem(&self, name: &mut String, category: Category)
        ensures
            final(name)@ == old(name)@ + (spec_hex_byte(spec_category_code(category)) + spec_padded(
                spec_expansion(self.repo_type) as nat,
                2,
            ) + spec_padded(0, 2) + "."@ + spec_platform_string(self.platform)),
    {
        push_hex_byte(name, category.code());
        push_padded(name, self.expansion() as u64, 2);
        push_padded(name, 0, 2);
        push_text(name, ".");
        push_text(name, get_platform_string(self.platform));
        assert(name@ =~= old(name)@ + (spec_hex_byte(spec_category_code(category)) + spec_padded(
            spec_expansion(self.repo_type) as nat,
            2,
        ) + spec_padded(0, 2) + "."@ + spec_platform_string(self.platform)));
    }

    /// The name of the index file of a category.
    pub fn index_filename(&self, category: Category) -> (name: String)
        ensures
            name@ == spec_index_filename(self.repo_type, self.platform, category),
    {
        let mut name = String::new();
        self.push_stem(&mut name, category);
        push_text(&mut name, ".index");
        assert(name@ =~= spec_index_filename(self.repo_type, self.platform, category));
        name
    }

    /// The name of data file `data_file_id` of a category.
    pub fn dat_filename(&self, category: Category, data_file_id: u32) -> (name: String)
        ensures
            name@ == spec_dat_filename(self.repo_type, self.platform, category, data_file_id),
    {
        let mut name = String::new();
        self.push_stem(&mut name, category);
        push_text(&mut name, ".dat");
        push_decimal(&mut name, data_file_id as u64);
        assert(name@ =~= spec_dat_filename(
            self.repo_type,
            self.platform,
            category,
            data_file_id,
        ));
        name
    }
}

} // verus!
