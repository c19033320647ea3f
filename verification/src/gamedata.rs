//! The game data of one game directory: its repositories, the index files
//! that were read so far, and the way from the path of an asset to its bytes.
//!
//! Nothing here reads or writes a file. Where the bytes of a file are needed,
//! a function says which file it is and takes the bytes as an argument.

use vstd::prelude::*;
use vstd::slice::slice_subrange;
use crate::binary::{bytes_equal, find, spec_find};
use crate::common::{is_version, spec_is_version, Language, Platform};
use crate::dat::{read_from_offset, spec_read_from_offset};
use crate::exd::{spec_exd, spec_exd_filename, EXD};
use crate::exh::{spec_exh, EXH};
use crate::exl::{spec_exl, EXLView, EXL};
use crate::index::{spec_find_entry, spec_index, spec_offset, IndexFile, IndexHashTableEntry};
use crate::patch::{apply_patch, spec_apply_patch, spec_operation_views, PatchError, PatchOperation, PatchOperationView};
use crate::repository::{
    expansion_number, spec_dat_filename, spec_expansion, spec_expansion_number,
    spec_index_filename, spec_option_text, spec_string_to_category, string_to_category_bytes,
    Category, Repository, RepositoryType, RepositoryView,
};
use crate::sqpack::{calculate_hash_bytes, spec_hash, SLASH};
use crate::text::{push_char, push_text, spec_text_bytes, text_bytes};

verus! {

/// An index file that was read, with the name of the file.
#[derive(Debug)]
pub struct CachedIndex {
    pub filename: String,
    pub index: IndexFile,
}

/// Framework for operating on game data.
#[derive(Debug)]
pub struct GameData {
    /// The game directory to operate on.
    pub game_directory: String,
    /// Repositories in the game directory.
    pub repositories: Vec<Repository>,
    /// The index files that were read so far, each under its name once.
    pub index_files: Vec<CachedIndex>,
}

/// What can be done about a repository without a version.
#[derive(PartialEq, Eq, Structural, Clone, Copy, Debug)]
pub enum RepairAction {
    /// The version is lost: the repository has to be emptied.
    VersionFileMissing,
    /// The backup of the version file holds a version that can be put back.
    VersionFileCanRestore,
}

/// A repair that cannot be done.
#[derive(Debug)]
pub enum RepairError<'a> {
    FailedRepair(&'a Repository),
}

/// A directory that was found beside the base repository, with the version
/// from its version file, if that could be read.
#[derive(Debug)]
pub struct DirectoryEntry {
    pub name: String,
    pub version: Option<String>,
}

/// One step of a repair.
#[derive(PartialEq, Eq, Clone, Debug)]
pub enum RepairStep {
    /// Remove the directory with all that it holds.
    RemoveDirectory { path: String },
    /// Make the directory, and those above it.
    CreateDirectory { path: String },
    /// Write the text into the file, in place of what it held.
    WriteFile { path: String, contents: String },
}

/// What a step of a repair holds.
pub enum RepairStepView {
    RemoveDirectory { path: Seq<char> },
    CreateDirectory { path: Seq<char> },
    WriteFile { path: Seq<char>, contents: Seq<char> },
}

impl View for RepairStep {
    type V = RepairStepView;

    open spec fn view(&self) -> RepairStepView {
        match self {
            RepairStep::RemoveDirectory { path } => RepairStepView::RemoveDirectory {
                path: path@,
            },
            RepairStep::CreateDirectory { path } => RepairStepView::CreateDirectory {
                path: path@,
            },
            RepairStep::WriteFile { path, contents } => RepairStepView::WriteFile {
                path: path@,
                contents: contents@,
            },
        }
    }
}

/// The views of the steps.
pub open spec fn spec_step_views(steps: Seq<RepairStep>) -> Seq<RepairStepView> {
    Seq::new(steps.len(), |i: int| steps[i]@)
}

/// The views of the repositories.
pub open spec fn spec_repository_views(repositories: Seq<Repository>) -> Seq<RepositoryView> {
    Seq::new(repositories.len(), |i: int| repositories[i]@)
}

/// The version that is written where the version of a repository is lost:
/// the earliest one.
pub open spec fn spec_first_version() -> Seq<char> {
    "2012.01.01.0000.0000"@
}

/// The base repository, with the given version.
pub open spec fn spec_base_repository(version: Option<Seq<char>>) -> RepositoryView {
    RepositoryView {
        name: "ffxiv"@,
        platform: Platform::Win32,
        repo_type: RepositoryType::Base,
        version,
    }
}

/// The repositories after one more expansion has been taken into them, kept
/// in the order of their numbers: it comes after those with a smaller number,
/// and is left out where one with its number is there already.
pub open spec fn spec_insert_repository(list: Seq<RepositoryView>, repository: RepositoryView) -> Seq<
    RepositoryView,
>
    decreases list.len(),
{
    if list.len() == 0 {
        seq![repository]
    } else if spec_expansion(list.last().repo_type) < spec_expansion(repository.repo_type) {
        list.push(repository)
    } else if spec_expansion(list.last().repo_type) == spec_expansion(repository.repo_type) {
        list
    } else {
        spec_insert_repository(list.drop_last(), repository).push(list.last())
    }
}

/// The repositories after the first `count` directories have been looked at:
/// every directory whose name is that of an expansion is taken into them,
/// with its name and version.
pub open spec fn spec_collect_repositories(
    list: Seq<RepositoryView>,
    names: Seq<Seq<char>>,
    versions: Seq<Option<Seq<char>>>,
    count: int,
) -> Seq<RepositoryView>
    decreases count,
{
    if count <= 0 {
        list
    } else {
        let before = spec_collect_repositories(list, names, versions, count - 1);
        match spec_expansion_number(spec_text_bytes(names[count - 1])) {
            None => before,
            Some(number) => spec_insert_repository(
                before,
                RepositoryView {
                    name: names[count - 1],
                    platform: Platform::Win32,
                    repo_type: RepositoryType::Expansion { number },
                    version: versions[count - 1],
                },
            ),
        }
    }
}

/// The names of the directories.
pub open spec fn spec_directory_names(directories: Seq<DirectoryEntry>) -> Seq<Seq<char>> {
    Seq::new(directories.len(), |i: int| directories[i].name@)
}

/// The versions of the directories.
pub open spec fn spec_directory_versions(directories: Seq<DirectoryEntry>) -> Seq<Option<Seq<char>>> {
    Seq::new(directories.len(), |i: int| spec_option_text(directories[i].version))
}

/// The repositories stand in the order of their numbers, and no two have the
/// same number.
pub open spec fn spec_repositories_sorted(list: Seq<RepositoryView>) -> bool {
    forall|i: int, k: int|
        0 <= i < k < list.len() ==> spec_expansion((#[trigger] list[i]).repo_type)
            < spec_expansion((#[trigger] list[k]).repo_type)
}

/// Taking an expansion into repositories in the order of their numbers keeps
/// them in that order, keeps those that were there, and keeps the first one
/// in its place if its number is smaller.
pub proof fn lemma_insert_repository(list: Seq<RepositoryView>, repository: RepositoryView)
    requires
        spec_repositories_sorted(list),
    ensures
        spec_repositories_sorted(spec_insert_repository(list, repository)),
        forall|i: int|
            0 <= i < spec_insert_repository(list, repository).len() ==> (
            #[trigger] spec_insert_repository(list, repository)[i]) == repository || exists|k: int|
                0 <= k < list.len() && list[k] == spec_insert_repository(list, repository)[i],
        list.len() <= spec_insert_repository(list, repository).len() <= list.len() + 1,
        list.len() > 0 && spec_expansion(list[0].repo_type) < spec_expansion(
            repository.repo_type,
        ) ==> spec_insert_repository(list, repository)[0] == list[0],
    decreases list.len(),
{
    let result = spec_insert_repository(list, repository);
    if list.len() == 0 {
    } else if spec_expansion(list.last().repo_type) < spec_expansion(repository.repo_type) {
        assert forall|i: int, k: int| 0 <= i < k < result.len() implies spec_expansion(
            (#[trigger] result[i]).repo_type,
        ) < spec_expansion((#[trigger] result[k]).repo_type) by {
            if k == list.len() {
                if i < list.len() - 1 {
                    assert(spec_expansion(list[i].repo_type) < spec_expansion(
                        list[list.len() - 1].repo_type,
                    ));
                }
            }
        }
        assert forall|i: int| 0 <= i < result.len() implies (#[trigger] result[i]) == repository
            || exists|k: int| 0 <= k < list.len() && list[k] == result[i] by {
            if i < list.len() {
                assert(list[i] == result[i]);
            }
        }
    } else if spec_expansion(list.last().repo_type) == spec_expansion(repository.repo_type) {
        assert forall|i: int| 0 <= i < result.len() implies (#[trigger] result[i]) == repository
            || exists|k: int| 0 <= k < list.len() && list[k] == result[i] by {
            assert(list[i] == result[i]);
        }
    } else {
        let front = list.drop_last();
        assert(spec_repositories_sorted(front)) by {
            assert forall|i: int, k: int| 0 <= i < k < front.len() implies spec_expansion(
                (#[trigger] front[i]).repo_type,
            ) < spec_expansion((#[trigger] front[k]).repo_type) by {
                assert(front[i] == list[i]);
                assert(front[k] == list[k]);
            }
        }
        lemma_insert_repository(front, repository);
        let inner = spec_insert_repository(front, repository);
        assert forall|i: int, k: int| 0 <= i < k < result.len() implies spec_expansion(
            (#[trigger] result[i]).repo_type,
        ) < spec_expansion((#[trigger] result[k]).repo_type) by {
            if k == inner.len() {
                assert(result[i] == inner[i]);
                if inner[i] == repository {
                } else {
                    let source = choose|source: int|
                        0 <= source < front.len() && front[source] == inner[i];
                    assert(front[source] == list[source]);
                    assert(spec_expansion(list[source].repo_type) < spec_expansion(
                        list[list.len() - 1].repo_type,
                    ));
                }
            } else {
                assert(result[i] == inner[i]);
                assert(result[k] == inner[k]);
            }
        }
        assert forall|i: int| 0 <= i < result.len() implies (#[trigger] result[i]) == repository
            || exists|k: int| 0 <= k < list.len() && list[k] == result[i] by {
            if i < inner.len() {
                assert(result[i] == inner[i]);
                if inner[i] != repository {
                    let source = choose|source: int|
                        0 <= source < front.len() && front[source] == inner[i];
                    assert(list[source] == result[i]);
                }
            } else {
                assert(list[list.len() - 1] == result[i]);
            }
        }
        if front.len() > 0 && spec_expansion(list[0].repo_type) < spec_expansion(
            repository.repo_type,
        ) {
            assert(front[0] == list[0]);
            assert(result[0] == inner[0]);
        }
    }
}

/// The repositories that are collected from the directories stand in the
/// order of their numbers, with the base repository first: no two of them
/// have the same number, and so no two the same name.
pub proof fn lemma_collected_repositories_sorted(
    version: Option<Seq<char>>,
    names: Seq<Seq<char>>,
    versions: Seq<Option<Seq<char>>>,
    count: int,
)
    requires
        0 <= count <= names.len(),
        names.len() == versions.len(),
    ensures
        spec_repositories_sorted(
            spec_collect_repositories(seq![spec_base_repository(version)], names, versions, count),
        ),
        spec_collect_repositories(seq![spec_base_repository(version)], names, versions, count).len()
            >= 1,
        spec_collect_repositories(seq![spec_base_repository(version)], names, versions, count)[0]
            == spec_base_repository(version),
    decreases count,
{
    if count > 0 {
        lemma_collected_repositories_sorted(version, names, versions, count - 1);
        let before = spec_collect_repositories(
            seq![spec_base_repository(version)],
            names,
            versions,
            count - 1,
        );
        match spec_expansion_number(spec_text_bytes(names[count - 1])) {
            None => {},
            Some(number) => {
                let repository = RepositoryView {
                    name: names[count - 1],
                    platform: Platform::Win32,
                    repo_type: RepositoryType::Expansion { number },
                    version: versions[count - 1],
                };
                lemma_expansion_number_positive(spec_text_bytes(names[count - 1]));
                lemma_insert_repository(before, repository);
            },
        }
    }
}

/// The number of an expansion is at least one.
pub proof fn lemma_expansion_number_positive(name: Seq<u8>)
    requires
        spec_expansion_number(name).is_some(),
    ensures
        spec_expansion_number(name).unwrap() >= 1,
{
    let digits = name.subrange(2, name.len() as int);
    lemma_leading_digit(digits);
}

proof fn lemma_leading_digit(digits: Seq<u8>)
    requires
        digits.len() >= 1,
        crate::repository::spec_all_digits(digits),
        digits[0] != 0x30,
    ensures
        crate::repository::spec_decimal_value(digits) >= 1,
    decreases digits.len(),
{
    if digits.len() == 1 {
        assert(digits.drop_last().len() == 0);
        assert(crate::repository::spec_decimal_value(digits.drop_last()) == 0);
        assert(digits.last() == digits[0]);
        assert(0x30 <= digits[0] <= 0x39);
    } else {
        let front = digits.drop_last();
        assert forall|i: int| 0 <= i < front.len() implies 0x30 <= #[trigger] front[i]
            <= 0x39 by {
            assert(front[i] == digits[i]);
        }
        assert(front[0] == digits[0]);
        lemma_leading_digit(front);
        assert(0x30 <= digits[digits.len() - 1] <= 0x39);
        assert(digits.last() == digits[digits.len() - 1]);
    }
}

/// The path below a directory: the directory, a slash, and the name.
pub open spec fn spec_join(directory: Seq<char>, name: Seq<char>) -> Seq<char> {
    directory + "/"@ + name
}

/// The directory of a repository in the game directory.
pub open spec fn spec_repository_path(game_directory: Seq<char>, name: Seq<char>) -> Seq<char> {
    spec_join(spec_join(game_directory, "sqpack"@), name)
}

/// The path of the version file of a repository.
pub open spec fn spec_version_path(game_directory: Seq<char>, name: Seq<char>) -> Seq<char> {
    spec_join(spec_repository_path(game_directory, name), name + ".ver"@)
}

/// The path of the backup of the version file of a repository.
pub open spec fn spec_backup_path(game_directory: Seq<char>, name: Seq<char>) -> Seq<char> {
    spec_join(spec_repository_path(game_directory, name), name + ".bck"@)
}

/// The first token of a path: what stands before its first slash.
pub open spec fn spec_first_token(path: Seq<u8>) -> Seq<u8> {
    path.subrange(0, spec_find(path, SLASH, 0, path.len() as int))
}

/// The second token of a path: what stands between its first slash and the
/// next one, or the end.
pub open spec fn spec_second_token(path: Seq<u8>) -> Seq<u8> {
    let first = spec_find(path, SLASH, 0, path.len() as int);
    path.subrange(first + 1, spec_find(path, SLASH, first + 1, path.len() as int))
}

/// The place of the first of the first `upto` repositories with the given
/// name, if there is one.
pub open spec fn spec_find_repository(repositories: Seq<Repository>, name: Seq<u8>, upto: int) -> Option<
    int,
>
    decreases upto,
{
    if upto <= 0 {
        None
    } else {
        match spec_find_repository(repositories, name, upto - 1) {
            Some(place) => Some(place),
            None => if spec_text_bytes(repositories[upto - 1].name@) == name {
                Some(upto - 1)
            } else {
                None
            },
        }
    }
}

/// The repository and the category of a path. A path needs a slash. Where
/// its first token is the name of a repository, that is the repository and
/// the second token names the category. Otherwise the repository is the first
/// one and the first token names the category. There are none where the path
/// has no slash, the token names no category, or there is no repository.
pub open spec fn spec_parse_repository_category(repositories: Seq<Repository>, path: Seq<u8>) -> Option<
    (int, Category),
> {
    if spec_find(path, SLASH, 0, path.len() as int) >= path.len() {
        None
    } else {
        match spec_find_repository(
            repositories,
            spec_first_token(path),
            repositories.len() as int,
        ) {
            Some(place) => match spec_string_to_category(spec_second_token(path)) {
                Some(category) => Some((place, category)),
                None => None,
            },
            None => match spec_string_to_category(spec_first_token(path)) {
                Some(category) => if repositories.len() > 0 {
                    Some((0int, category))
                } else {
                    None
                },
                None => None,
            },
        }
    }
}

/// The place of the first of the first `upto` index files that were read
/// under the given name, if there is one.
pub open spec fn spec_find_index(files: Seq<CachedIndex>, filename: Seq<char>, upto: int) -> Option<
    int,
>
    decreases upto,
{
    if upto <= 0 {
        None
    } else {
        match spec_find_index(files, filename, upto - 1) {
            Some(place) => Some(place),
            None => if files[upto - 1].filename@ == filename {
                Some(upto - 1)
            } else {
                None
            },
        }
    }
}

/// A character in lower case: the capital letters `A` to `Z` become `a` to `z`.
pub open spec fn spec_lower_char(c: char) -> char {
    if 'A' <= c <= 'Z' {
        ((c as u8) + 0x20) as char
    } else {
        c
    }
}

/// A text in lower case.
pub open spec fn spec_lower_text(text: Seq<char>) -> Seq<char> {
    Seq::new(text.len(), |i: int| spec_lower_char(text[i]))
}

/// Whether the list of the sheets names the sheet.
pub open spec fn spec_lists_sheet(list: EXLView, name: Seq<char>) -> bool {
    exists|i: int| 0 <= i < list.entries.len() && (#[trigger] list.entries[i]).0 == name
}

/// The path of the header of a sheet.
pub open spec fn spec_sheet_header_path(name: Seq<char>) -> Seq<char> {
    "exd/"@ + spec_lower_text(name) + ".exh"@
}

/// The names of the sheets of a list.
pub open spec fn spec_sheet_names(list: EXLView) -> Seq<Seq<char>> {
    Seq::new(list.entries.len(), |i: int| list.entries[i].0)
}

/// The views of the strings.
pub open spec fn spec_texts(strings: Seq<String>) -> Seq<Seq<char>> {
    Seq::new(strings.len(), |i: int| strings[i]@)
}

/// What can be done about the repository at `place`, which has no version:
/// its version can be put back where the backup of its version file could be
/// read and holds a version.
pub open spec fn spec_repair_action(backups: Seq<Option<String>>, place: int) -> RepairAction {
    if place < backups.len() && backups[place].is_some() && spec_is_version(
        spec_text_bytes(backups[place].unwrap()@),
    ) {
        RepairAction::VersionFileCanRestore
    } else {
        RepairAction::VersionFileMissing
    }
}

/// The places of those of the first `upto` repositories that have no
/// version, each with what can be done about it.
pub open spec fn spec_needs_repair(
    repositories: Seq<Repository>,
    backups: Seq<Option<String>>,
    upto: int,
) -> Seq<(int, RepairAction)>
    decreases upto,
{
    if upto <= 0 {
        Seq::empty()
    } else if repositories[upto - 1].version.is_none() {
        spec_needs_repair(repositories, backups, upto - 1).push(
            (upto - 1, spec_repair_action(backups, upto - 1)),
        )
    } else {
        spec_needs_repair(repositories, backups, upto - 1)
    }
}

/// The list names the repositories at the wanted places, each with the wanted
/// action.
pub open spec fn spec_repair_list_is(
    list: Seq<(&Repository, RepairAction)>,
    repositories: Seq<Repository>,
    wanted: Seq<(int, RepairAction)>,
) -> bool {
    &&& list.len() == wanted.len()
    &&& forall|i: int|
        0 <= i < list.len() ==> {
            &&& 0 <= (#[trigger] wanted[i]).0 < repositories.len()
            &&& list[i].0 == &repositories[wanted[i].0]
            &&& list[i].1 == wanted[i].1
        }
}

/// The steps that repair a repository. Where its version is lost, its
/// directory is removed and made anew, and the earliest version is written
/// into its version file. Where its version can be put back, the version from
/// the backup is written into its version file; there are no steps where the
/// backup could not be read or holds no version.
pub open spec fn spec_repair_steps(
    game_directory: Seq<char>,
    name: Seq<char>,
    action: RepairAction,
    backup: Option<Seq<char>>,
) -> Option<Seq<RepairStepView>> {
    match action {
        RepairAction::VersionFileMissing => Some(
            seq![
                RepairStepView::RemoveDirectory {
                    path: spec_repository_path(game_directory, name),
                },
                RepairStepView::CreateDirectory {
                    path: spec_repository_path(game_directory, name),
                },
                RepairStepView::WriteFile {
                    path: spec_version_path(game_directory, name),
                    contents: spec_first_version(),
                },
            ],
        ),
        RepairAction::VersionFileCanRestore => match backup {
            Some(version) => if spec_is_version(spec_text_bytes(version)) {
                Some(
                    seq![
                        RepairStepView::WriteFile {
                            path: spec_version_path(game_directory, name),
                            contents: version,
                        },
                    ],
                )
            } else {
                None
            },
            None => None,
        },
    }
}

fn join(directory: &str, name: &str) -> (path: String)
    ensures
        path@ == spec_join(directory@, name@),
{
    let mut path = String::new();
    push_text(&mut path, directory);
    push_text(&mut path, "/");
    push_text(&mut path, name);
    assert(path@ =~= spec_join(directory@, name@));
    path
}

fn clone_option(text: &Option<String>) -> (copy: Option<String>)
    ensures
        spec_option_text(copy) == spec_option_text(*text),
{
    match text {
        Some(text) => Some(text.clone()),
        None => None,
    }
}

proof fn lemma_insert_behind(list: Seq<RepositoryView>, repository: RepositoryView, place: int)
    requires
        0 <= place <= list.len(),
        forall|i: int|
            place <= i < list.len() ==> spec_expansion((#[trigger] list[i]).repo_type)
                > spec_expansion(repository.repo_type),
    ensures
        spec_insert_repository(list, repository) == spec_insert_repository(
            list.subrange(0, place),
            repository,
        ) + list.subrange(place, list.len() as int),
    decreases list.len() - place,
{
    if place == list.len() {
        assert(list.subrange(0, place) =~= list);
        assert(spec_insert_repository(list, repository) + list.subrange(
            place,
            list.len() as int,
        ) =~= spec_insert_repository(list, repository));
    } else {
        let front = list.drop_last();
        assert(spec_expansion(list[list.len() - 1].repo_type) > spec_expansion(
            repository.repo_type,
        ));
        assert forall|i: int| place <= i < front.len() implies spec_expansion(
            (#[trigger] front[i]).repo_type,
        ) > spec_expansion(repository.repo_type) by {
            assert(front[i] == list[i]);
        }
        lemma_insert_behind(front, repository, place);
        assert(front.subrange(0, place) =~= list.subrange(0, place));
        assert(front.subrange(place, front.len() as int).push(list.last()) =~= list.subrange(
            place,
            list.len() as int,
        ));
        assert(spec_insert_repository(list, repository) =~= spec_insert_repository(
            list.subrange(0, place),
            repository,
        ) + list.subrange(place, list.len() as int));
    }
}

/// Takes an expansion into repositories that stand in the order of their
/// numbers.
fn insert_repository(repositories: &mut Vec<Repository>, repository: Repository)
    ensures
        spec_repository_views(final(repositories)@) == spec_insert_repository(
            spec_repository_views(old(repositories)@),
            repository@,
        ),
{
    let number: u32 = repository.expansion();
    let ghost list = spec_repository_views(repositories@);
    let ghost added = repository@;
    let mut place: usize = repositories.len();
    while place > 0 && repositories[place - 1].expansion() > number
        invariant
            place <= repositories@.len(),
            repositories@ == old(repositories)@,
            list == spec_repository_views(repositories@),
            number == spec_expansion(added.repo_type),
            forall|i: int|
                place <= i < list.len() ==> spec_expansion((#[trigger] list[i]).repo_type)
                    > number,
        decreases place,
    {
        assert(list[place - 1] == repositories@[place - 1]@);
        place = place - 1;
    }
    proof {
        lemma_insert_behind(list, added, place as int);
        let front = list.subrange(0, place as int);
        if place > 0 {
            assert(front.last() == list[place - 1]);
            assert(list[place - 1] == repositories@[place - 1]@);
        }
    }
    if place > 0 && repositories[place - 1].expansion() == number {
        proof {
            let front = list.subrange(0, place as int);
            assert(spec_insert_repository(front, added) == front);
            assert(front + list.subrange(place as int, list.len() as int) =~= list);
        }
        return ;
    }
    repositories.insert(place, repository);
    proof {
        let front = list.subrange(0, place as int);
        assert(spec_insert_repository(front, added) =~= front.push(added));
        assert(spec_repository_views(repositories@) =~= front.push(added) + list.subrange(
            place as int,
            list.len() as int,
        )) by {
            assert forall|i: int| 0 <= i < repositories@.len() implies spec_repository_views(
                repositories@,
            )[i] == (front.push(added) + list.subrange(place as int, list.len() as int))[i] by {
                if i < place {
                    assert(repositories@[i] == old(repositories)@[i]);
                    assert(list[i] == old(repositories)@[i]@);
                } else if i > place {
                    assert(repositories@[i] == old(repositories)@[i - 1]);
                    assert(list[i - 1] == old(repositories)@[i - 1]@);
                }
            }
        }
    }
}

impl GameData {
    /// The game data of a game directory, if the directory is there.
    ///
    /// **Note**: None of the repositories are searched, and it's required to
    /// call `reload_repositories()`.
    pub fn from_existing(directory: &str, is_directory: bool) -> (game: Option<GameData>)
        ensures
            game.is_some() == is_directory,
            game.is_some() ==> {
                &&& game.unwrap().game_directory@ == directory@
                &&& game.unwrap().repositories@.len() == 0
                &&& game.unwrap().index_files@.len() == 0
            },
    {
        if is_directory {
            let mut game_directory = String::new();
            push_text(&mut game_directory, directory);
            assert(game_directory@ =~= directory@);
            Some(GameData { game_directory, repositories: Vec::new(), index_files: Vec::new() })
        } else {
            None
        }
    }

    /// Sets the repositories anew: the base repository with the given
    /// version, and after it one expansion for every directory whose name is
    /// that of an expansion, in the order of their numbers. Of two directories
    /// with the same number the first one counts.
    pub fn reload_repositories(
        &mut self,
        base_version: Option<String>,
        directories: &Vec<DirectoryEntry>,
    )
        ensures
            spec_repository_views(final(self).repositories@) == spec_collect_repositories(
                seq![spec_base_repository(spec_option_text(base_version))],
                spec_directory_names(directories@),
                spec_directory_versions(directories@),
                directories@.len() as int,
            ),
            final(self).game_directory@ == old(self).game_directory@,
            final(self).index_files@ == old(self).index_files@,
    {
        let ghost names = spec_directory_names(directories@);
        let ghost versions = spec_directory_versions(directories@);
        let ghost base = spec_base_repository(spec_option_text(base_version));
        let mut name = String::new();
        push_text(&mut name, "ffxiv");
        assert(name@ =~= "ffxiv"@);
        let mut repositories: Vec<Repository> = Vec::new();
        repositories.push(
            Repository {
                name,
                platform: Platform::Win32,
                repo_type: RepositoryType::Base,
                version: base_version,
            },
        );
        assert(spec_repository_views(repositories@) =~= seq![base]);
        let mut i: usize = 0;
        while i < directories.len()
            invariant
                i <= directories@.len(),
                names == spec_directory_names(directories@),
                versions == spec_directory_versions(directories@),
                spec_repository_views(repositories@) == spec_collect_repositories(
                    seq![base],
                    names,
                    versions,
                    i as int,
                ),
            decreases directories@.len() - i,
        {
            let entry = &directories[i];
            assert(names[i as int] == entry.name@);
            assert(versions[i as int] == spec_option_text(entry.version));
            match expansion_number(text_bytes(entry.name.as_str())) {
                Some(number) => {
                    insert_repository(
                        &mut repositories,
                        Repository {
                            name: entry.name.clone(),
                            platform: Platform::Win32,
                            repo_type: RepositoryType::Expansion { number },
                            version: clone_option(&entry.version),
                        },
                    );
                },
                None => {},
            }
            i = i + 1;
        }
        self.repositories = repositories;
    }

    /// The place of the first repository with the given name.
    fn find_repository(&self, name: &[u8]) -> (place: Option<usize>)
        ensures
            match place {
                Some(place) => spec_find_repository(
                    self.repositories@,
                    name@,
                    self.repositories@.len() as int,
                ) == Some(place as int) && place < self.repositories@.len(),
                None => spec_find_repository(
                    self.repositories@,
                    name@,
                    self.repositories@.len() as int,
                ).is_none(),
            },
    {
        let count: usize = self.repositories.len();
        let mut i: usize = 0;
        while i < count
            invariant
                i <= count,
                count == self.repositories@.len(),
                spec_find_repository(self.repositories@, name@, i as int).is_none(),
            decreases count - i,
        {
            if bytes_equal(text_bytes(self.repositories[i].name.as_str()), name) {
                proof {
                    lemma_find_repository_stays(self.repositories@, name@, i + 1, count as int);
                }
                return Some(i);
            }
            i = i + 1;
        }
        None
    }

    /// The place of the repository and the category of a path, from the bytes
    /// of the path.
    fn parse_place(&self, path: &[u8]) -> (parsed: Option<(usize, Category)>)
        ensures
            match parsed {
                Some((place, category)) => spec_parse_repository_category(
                    self.repositories@,
                    path@,
                ) == Some((place as int, category)) && place < self.repositories@.len(),
                None => spec_parse_repository_category(self.repositories@, path@).is_none(),
            },
    {
        let len: usize = path.len();
        let first: usize = find(path, SLASH, 0, len);
        if first >= len {
            return None;
        }
        let first_token = slice_subrange(path, 0, first);
        match self.find_repository(first_token) {
            Some(place) => {
                let second: usize = find(path, SLASH, first + 1, len);
                match string_to_category_bytes(slice_subrange(path, first + 1, second)) {
                    Some(category) => Some((place, category)),
                    None => None,
                }
            },
            None => match string_to_category_bytes(first_token) {
                Some(category) => if self.repositories.len() > 0 {
                    Some((0, category))
                } else {
                    None
                },
                None => None,
            },
        }
    }

    /// Parses a path structure and spits out the corresponding category and repository.
    pub fn parse_repository_category(&self, path: &str) -> (parsed: Option<(&Repository, Category)>)
        ensures
            match spec_parse_repository_category(self.repositories@, spec_text_bytes(path@)) {
                Some((place, category)) => parsed == Some(
                    (&self.repositories@[place], category),
                ) && 0 <= place < self.repositories@.len(),
                None => parsed.is_none(),
            },
    {
        match self.parse_place(text_bytes(path)) {
            Some((place, category)) => Some((&self.repositories[place], category)),
            None => None,
        }
    }

    /// The path of the index file in which the asset at `path` is looked up.
    /// The path must name a repository and a category.
    pub fn get_index_filename(&self, path: &str) -> (filename: String)
        requires
            spec_parse_repository_category(self.repositories@, spec_text_bytes(path@)).is_some(),
        ensures
            ({
                let (place, category) = spec_parse_repository_category(
                    self.repositories@,
                    spec_text_bytes(path@),
                ).unwrap();
                let repository = self.repositories@[place]@;
                filename@ == spec_join(
                    spec_repository_path(self.game_directory@, repository.name),
                    spec_index_filename(repository.repo_type, repository.platform, category),
                )
            }),
    {
        match self.parse_place(text_bytes(path)) {
            Some((place, category)) => {
                let repository = &self.repositories[place];
                let directory = join(
                    join(self.game_directory.as_str(), "sqpack").as_str(),
                    repository.name.as_str(),
                );
                join(directory.as_str(), repository.index_filename(category).as_str())
            },
            None => String::new(),
        }
    }

    /// The path of the data file with the given number in which the asset at
    /// `path` lies. The path must name a repository and a category.
    pub fn get_dat_filename(&self, path: &str, data_file_id: u32) -> (filename: String)
        requires
            spec_parse_repository_category(self.repositories@, spec_text_bytes(path@)).is_some(),
        ensures
            ({
                let (place, category) = spec_parse_repository_category(
                    self.repositories@,
                    spec_text_bytes(path@),
                ).unwrap();
                let repository = self.repositories@[place]@;
                filename@ == spec_join(
                    spec_repository_path(self.game_directory@, repository.name),
                    spec_dat_filename(
                        repository.repo_type,
                        repository.platform,
                        category,
                        data_file_id,
                    ),
                )
            }),
    {
        match self.parse_place(text_bytes(path)) {
            Some((place, category)) => {
                let repository = &self.repositories[place];
                let directory = join(
                    join(self.game_directory.as_str(), "sqpack").as_str(),
                    repository.name.as_str(),
                );
                join(directory.as_str(), repository.dat_filename(category, data_file_id).as_str())
            },
            None => String::new(),
        }
    }

    /// The place of the index file that was read under the given name.
    fn find_index(&self, filename: &str) -> (place: Option<usize>)
        ensures
            match place {
                Some(place) => spec_find_index(
                    self.index_files@,
                    filename@,
                    self.index_files@.len() as int,
                ) == Some(place as int) && place < self.index_files@.len(),
                None => spec_find_index(
                    self.index_files@,
                    filename@,
                    self.index_files@.len() as int,
                ).is_none(),
            },
    {
        let count: usize = self.index_files.len();
        let wanted: String = filename.to_owned();
        let mut i: usize = 0;
        while i < count
            invariant
                i <= count,
                count == self.index_files@.len(),
                wanted@ == filename@,
                spec_find_index(self.index_files@, filename@, i as int).is_none(),
            decreases count - i,
        {
            if self.index_files[i].filename == wanted {
                proof {
                    lemma_find_index_stays(self.index_files@, filename@, i + 1, count as int);
                }
                return Some(i);
            }
            i = i + 1;
        }
        None
    }

    /// Keeps the index that the bytes of an index file store under the name
    /// of the file, unless an index is kept under that name already.
    ///
    /// Returns whether an index is kept under the name now: it is not where
    /// none was kept and the bytes store none.
    pub fn cache_index_file(&mut self, filename: &str, contents: &[u8]) -> (cached: bool)
        ensures
            final(self).game_directory@ == old(self).game_directory@,
            final(self).repositories@ == old(self).repositories@,
            match spec_find_index(
                old(self).index_files@,
                filename@,
                old(self).index_files@.len() as int,
            ) {
                Some(place) => cached && final(self).index_files@ == old(self).index_files@,
                None => match spec_index(contents@) {
                    Some(index) => cached && final(self).index_files@.len() == old(
                        self,
                    ).index_files@.len() + 1 && final(self).index_files@.last().filename@
                        == filename@ && final(self).index_files@.last().index@ == index
                        && final(self).index_files@.drop_last() == old(self).index_files@,
                    None => !cached && final(self).index_files@ == old(self).index_files@,
                },
            },
    {
        if self.find_index(filename).is_some() {
            return true;
        }
        match IndexFile::from_existing(contents) {
            Some(index) => {
                self.index_files.push(CachedIndex { filename: filename.to_owned(), index });
                assert(self.index_files@.drop_last() =~= old(self).index_files@);
                true
            },
            None => false,
        }
    }

    /// The index that is kept under the name of its file.
    pub fn get_index_file(&self, filename: &str) -> (index: Option<&IndexFile>)
        ensures
            match spec_find_index(
                self.index_files@,
                filename@,
                self.index_files@.len() as int,
            ) {
                Some(place) => index == Some(&self.index_files@[place].index) && 0 <= place
                    < self.index_files@.len(),
                None => index.is_none(),
            },
    {
        match self.find_index(filename) {
            Some(place) => Some(&self.index_files[place].index),
            None => None,
        }
    }

    /// The entry of the asset at `path` in the index file in which it is
    /// looked up. There is none where the path names no repository and
    /// category, the index file was not read yet, or it has no entry with the
    /// hash of the path.
    pub fn find_entry(&self, path: &str) -> (entry: Option<IndexHashTableEntry>)
        ensures
            entry == self.spec_entry(path@),
    {
        let bytes = text_bytes(path);
        if self.parse_place(bytes).is_none() {
            return None;
        }
        let filename = self.get_index_filename(path);
        match self.find_index(filename.as_str()) {
            Some(place) => self.index_files[place].index.find_entry(calculate_hash_bytes(bytes)),
            None => None,
        }
    }

    /// The entry of the asset at `path` in the index file in which it is
    /// looked up, if there is one.
    pub open spec fn spec_entry(&self, path: Seq<char>) -> Option<IndexHashTableEntry> {
        match spec_parse_repository_category(self.repositories@, spec_text_bytes(path)) {
            None => None,
            Some((place, category)) => {
                let repository = self.repositories@[place]@;
                let filename = spec_join(
                    spec_repository_path(self.game_directory@, repository.name),
                    spec_index_filename(repository.repo_type, repository.platform, category),
                );
                match spec_find_index(
                    self.index_files@,
                    filename,
                    self.index_files@.len() as int,
                ) {
                    None => None,
                    Some(file) => spec_find_entry(
                        self.index_files@[file].index.entries@,
                        spec_hash(spec_text_bytes(path)),
                        self.index_files@[file].index.entries@.len() as int,
                    ),
                }
            },
        }
    }

    /// Checks if a file located at `path` exists: whether the index file in
    /// which it is looked up was read and has an entry with its hash.
    pub fn file_exists(&self, path: &str) -> (found: bool)
        ensures
            found == self.spec_entry(path@).is_some(),
    {
        self.find_entry(path).is_some()
    }

    /// The bytes of the asset at `path`, given the bytes of the data file in
    /// which it lies: what the data file holds at the offset of the entry of
    /// the path. It depends on nothing but the game data, the path and the
    /// data file.
    pub open spec fn spec_extract(&self, path: Seq<char>, dat: Seq<u8>) -> Option<Seq<u8>> {
        match self.spec_entry(path) {
            None => None,
            Some(entry) => spec_read_from_offset(dat, spec_offset(entry.bitfield) as int),
        }
    }

    /// Extracts the file located at `path` from the bytes of the data file in
    /// which it lies. This is returned as an in-memory buffer, and will
    /// usually have to be further parsed.
    ///
    /// The data file is the one that `get_dat_filename` names for the number
    /// that the entry of the path gives. There is nothing where the path has
    /// no entry or the data file holds no asset at the offset of the entry.
    /// Repeated calls return the same bytes.
    pub fn extract(&self, path: &str, dat: &[u8]) -> (file: Option<Vec<u8>>)
        ensures
            match file {
                Some(file) => self.spec_extract(path@, dat@) == Some(file@),
                None => self.spec_extract(path@, dat@).is_none(),
            },
    {
        match self.find_entry(path) {
            Some(entry) => read_from_offset(dat, entry.offset()),
            None => None,
        }
    }

    /// The path of the header of a sheet, if the list of the sheets names the
    /// sheet. The list is given as the bytes of its file.
    pub fn get_sheet_header_path(&self, name: &str, root_exl: &[u8]) -> (path: Option<String>)
        ensures
            match spec_exl(root_exl@) {
                Some(list) => if spec_lists_sheet(list, name@) {
                    path.is_some() && path.unwrap()@ == spec_sheet_header_path(name@)
                } else {
                    path.is_none()
                },
                None => path.is_none(),
            },
    {
        let list = match EXL::from_existing(root_exl) {
            Some(list) => list,
            None => { return None; },
        };
        let wanted: String = name.to_owned();
        let count: usize = list.entries.len();
        let mut i: usize = 0;
        while i < count
            invariant
                i <= count,
                count == list.entries@.len(),
                wanted@ == name@,
                spec_exl(root_exl@) == Some(list@),
                forall|j: int| 0 <= j < i ==> (#[trigger] list@.entries[j]).0 != name@,
            decreases count - i,
        {
            assert(list@.entries[i as int].0 == list.entries@[i as int].0@);
            if list.entries[i].0 == wanted {
                let mut path = String::new();
                push_text(&mut path, "exd/");
                let length: usize = name.unicode_len();
                let ghost start = path@;
                let mut k: usize = 0;
                while k < length
                    invariant
                        k <= length,
                        length == name@.len(),
                        path@ == start + spec_lower_text(name@.subrange(0, k as int)),
                    decreases length - k,
                {
                    let c: char = name.get_char(k);
                    let lower: char = if 'A' <= c && c <= 'Z' {
                        ((c as u8) + 0x20) as char
                    } else {
                        c
                    };
                    push_char(&mut path, lower);
                    k = k + 1;
                    assert(path@ =~= start + spec_lower_text(name@.subrange(0, k as int)));
                }
                assert(name@.subrange(0, length as int) =~= name@);
                push_text(&mut path, ".exh");
                assert(path@ =~= spec_sheet_header_path(name@));
                return Some(path);
            }
            i = i + 1;
        }
        None
    }

    /// Reads the header of a sheet from the bytes of the list of the sheets
    /// and the bytes of the header's file, which `get_sheet_header_path`
    /// names. There is none where the list does not name the sheet or the
    /// bytes store no header.
    pub fn read_excel_sheet_header(&self, name: &str, root_exl: &[u8], exh_file: &[u8]) -> (sheet:
        Option<EXH>)
        ensures
            match spec_exl(root_exl@) {
                Some(list) => if spec_lists_sheet(list, name@) {
                    match sheet {
                        Some(sheet) => spec_exh(exh_file@) == Some(sheet@),
                        None => spec_exh(exh_file@).is_none(),
                    }
                } else {
                    sheet.is_none()
                },
                None => sheet.is_none(),
            },
    {
        match self.get_sheet_header_path(name, root_exl) {
            Some(_) => EXH::from_existing(exh_file),
            None => None,
        }
    }

    /// The names of all sheets, in the order of the list of the sheets, which
    /// is given as the bytes of its file.
    pub fn get_all_sheet_names(&self, root_exl: &[u8]) -> (names: Option<Vec<String>>)
        ensures
            match spec_exl(root_exl@) {
                Some(list) => names.is_some() && spec_texts(names.unwrap()@) == spec_sheet_names(
                    list,
                ),
                None => names.is_none(),
            },
    {
        let list = match EXL::from_existing(root_exl) {
            Some(list) => list,
            None => { return None; },
        };
        let mut names: Vec<String> = Vec::new();
        let count: usize = list.entries.len();
        let mut i: usize = 0;
        while i < count
            invariant
                i <= count,
                count == list.entries@.len(),
                names@.len() == i,
                forall|j: int| 0 <= j < i ==> (#[trigger] names@[j])@ == list.entries@[j].0@,
            decreases count - i,
        {
            names.push(list.entries[i].0.clone());
            i = i + 1;
        }
        assert(spec_texts(names@) =~= spec_sheet_names(list@));
        Some(names)
    }

    /// The path of the file of a page of a sheet in a language, if the sheet
    /// has the page.
    pub fn get_excel_sheet_path(&self, name: &str, exh: &EXH, language: Language, page: usize) -> (path:
        Option<String>)
        ensures
            path.is_some() == (page < exh.pages@.len()),
            path.is_some() ==> path.unwrap()@ == "exd/"@ + spec_exd_filename(
                name@,
                language,
                exh.pages@[page as int],
            ),
    {
        if page >= exh.pages.len() {
            return None;
        }
        let mut path = String::new();
        push_text(&mut path, "exd/");
        push_text(
            &mut path,
            EXD::calculate_filename(name, language, &exh.pages[page]).as_str(),
        );
        Some(path)
    }

    /// Reads a page of a sheet from the bytes of its file, which
    /// `get_excel_sheet_path` names. There is none where the sheet does not
    /// have the page or the bytes store no page.
    pub fn read_excel_sheet(
        &self,
        name: &str,
        exh: &EXH,
        language: Language,
        page: usize,
        exd_file: &[u8],
    ) -> (sheet: Option<EXD>)
        ensures
            if page < exh.pages@.len() {
                match sheet {
                    Some(sheet) => spec_exd(exd_file@, exh@) == Some(sheet@),
                    None => spec_exd(exd_file@, exh@).is_none(),
                }
            } else {
                sheet.is_none()
            },
    {
        if page >= exh.pages.len() {
            return None;
        }
        EXD::from_existing(exh, exd_file)
    }

    /// Reads a patch, given as the bytes of its file, into the operations
    /// that it asks for on the game directory.
    pub fn apply_patch(&self, patch: &[u8]) -> (result: Result<Vec<PatchOperation>, PatchError>)
        ensures
            match result {
                Ok(operations) => spec_apply_patch(self.game_directory@, patch@) == Ok::<
                    Seq<PatchOperationView>,
                    PatchError,
                >(spec_operation_views(operations@)),
                Err(error) => spec_apply_patch(self.game_directory@, patch@) == Err::<
                    Seq<PatchOperationView>,
                    PatchError,
                >(error),
            },
    {
        apply_patch(self.game_directory.as_str(), patch)
    }

    /// The path of the backup of the version file of a repository.
    pub fn get_backup_path(&self, repository: &Repository) -> (path: String)
        ensures
            path@ == spec_backup_path(self.game_directory@, repository.name@),
    {
        let directory = join(
            join(self.game_directory.as_str(), "sqpack").as_str(),
            repository.name.as_str(),
        );
        let mut file = String::new();
        push_text(&mut file, repository.name.as_str());
        push_text(&mut file, ".bck");
        assert(file@ =~= repository.name@ + ".bck"@);
        join(directory.as_str(), file.as_str())
    }

    /// Detects whether or not the game files need a repair, right now it only checks for invalid
    /// version files.
    /// If the repair is needed, a list of invalid repositories is given.
    ///
    /// A repository needs a repair where it has no version. `backups` holds
    /// for each repository, in their order, the text of the backup of its
    /// version file, if that could be read.
    pub fn needs_repair(&self, backups: &Vec<Option<String>>) -> (list: Option<
        Vec<(&Repository, RepairAction)>,
    >)
        ensures
            match list {
                None => spec_needs_repair(
                    self.repositories@,
                    backups@,
                    self.repositories@.len() as int,
                ).len() == 0,
                Some(list) => list@.len() > 0 && spec_repair_list_is(
                    list@,
                    self.repositories@,
                    spec_needs_repair(
                        self.repositories@,
                        backups@,
                        self.repositories@.len() as int,
                    ),
                ),
            },
    {
        let count: usize = self.repositories.len();
        let mut list: Vec<(&Repository, RepairAction)> = Vec::new();
        let mut i: usize = 0;
        while i < count
            invariant
                i <= count,
                count == self.repositories@.len(),
                spec_repair_list_is(
                    list@,
                    self.repositories@,
                    spec_needs_repair(self.repositories@, backups@, i as int),
                ),
            decreases count - i,
        {
            let ghost before = spec_needs_repair(self.repositories@, backups@, i as int);
            let ghost after = spec_needs_repair(self.repositories@, backups@, i + 1);
            let ghost listed = list@;
            if self.repositories[i].version.is_none() {
                let action = if i < backups.len() {
                    match &backups[i] {
                        Some(backup) => if is_version(text_bytes(backup.as_str())) {
                            RepairAction::VersionFileCanRestore
                        } else {
                            RepairAction::VersionFileMissing
                        },
                        None => RepairAction::VersionFileMissing,
                    }
                } else {
                    RepairAction::VersionFileMissing
                };
                list.push((&self.repositories[i], action));
                proof {
                    assert(after == before.push((i as int, spec_repair_action(backups@, i as int))));
                    assert(action == spec_repair_action(backups@, i as int));
                    assert forall|k: int| 0 <= k < list@.len() implies {
                        &&& 0 <= (#[trigger] after[k]).0 < self.repositories@.len()
                        &&& list@[k].0 == &self.repositories@[after[k].0]
                        &&& list@[k].1 == after[k].1
                    } by {
                        if k < listed.len() {
                            assert(list@[k] == listed[k]);
                            assert(after[k] == before[k]);
                        } else {
                            assert(k == before.len());
                            assert(after[k] == (i as int, spec_repair_action(backups@, i as int)));
                        }
                    }
                }
            } else {
                assert(after == before);
            }
            assert(spec_repair_list_is(list@, self.repositories@, after));
            i = i + 1;
        }
        if list.len() == 0 {
            None
        } else {
            Some(list)
        }
    }

    /// Plans the repair of one repository, assuming any damaging effects it
    /// may have. NOTE: The repair of a lost version is a destructive
    /// operation: it empties the directory of the repository.
    ///
    /// Returns the steps of the repair, which are to be performed in their
    /// order. `backup` is the text of the backup of the repository's version
    /// file, if that could be read. The repair fails where the version is to
    /// be put back and the backup holds none; it fails as well where a step
    /// cannot be performed, which the caller reports with the same error.
    pub fn perform_repair<'a>(
        &self,
        repository: &'a Repository,
        action: RepairAction,
        backup: Option<&str>,
    ) -> (plan: Result<Vec<RepairStep>, RepairError<'a>>)
        ensures
            match spec_repair_steps(
                self.game_directory@,
                repository.name@,
                action,
                match backup {
                    Some(text) => Some(text@),
                    None => None,
                },
            ) {
                Some(steps) => plan.is_ok() && spec_step_views(plan.unwrap()@) == steps,
                None => match plan {
                    Err(RepairError::FailedRepair(failed)) => failed == repository,
                    Ok(_) => false,
                },
            },
    {
        let directory = join(
            join(self.game_directory.as_str(), "sqpack").as_str(),
            repository.name.as_str(),
        );
        let mut file = String::new();
        push_text(&mut file, repository.name.as_str());
        push_text(&mut file, ".ver");
        assert(file@ =~= repository.name@ + ".ver"@);
        let version_path = join(directory.as_str(), file.as_str());
        let mut steps: Vec<RepairStep> = Vec::new();
        match action {
            RepairAction::VersionFileMissing => {
                let again = join(
                    join(self.game_directory.as_str(), "sqpack").as_str(),
                    repository.name.as_str(),
                );
                steps.push(RepairStep::RemoveDirectory { path: directory });
                steps.push(RepairStep::CreateDirectory { path: again });
                steps.push(
                    RepairStep::WriteFile {
                        path: version_path,
                        contents: "2012.01.01.0000.0000".to_owned(),
                    },
                );
                assert(spec_step_views(steps@) =~= spec_repair_steps(
                    self.game_directory@,
                    repository.name@,
                    action,
                    match backup {
                        Some(text) => Some(text@),
                        None => None,
                    },
                ).unwrap());
                Ok(steps)
            },
            RepairAction::VersionFileCanRestore => {
                let version = match backup {
                    Some(version) => version,
                    None => { return Err(RepairError::FailedRepair(repository)); },
                };
                if !is_version(text_bytes(version)) {
                    return Err(RepairError::FailedRepair(repository));
                }
                steps.push(
                    RepairStep::WriteFile { path: version_path, contents: version.to_owned() },
                );
                assert(spec_step_views(steps@) =~= seq![steps@[0]@]);
                Ok(steps)
            },
        }
    }
}

proof fn lemma_find_repository_stays(
    repositories: Seq<Repository>,
    name: Seq<u8>,
    found: int,
    upto: int,
)
    requires
        0 <= found <= upto,
        spec_find_repository(repositories, name, found).is_some(),
    ensures
        spec_find_repository(repositories, name, upto) == spec_find_repository(
            repositories,
            name,
            found,
        ),
    decreases upto - found,
{
    if found < upto {
        lemma_find_repository_stays(repositories, name, found, upto - 1);
    }
}

proof fn lemma_find_index_stays(files: Seq<CachedIndex>, filename: Seq<char>, found: int, upto: int)
    requires
        0 <= found <= upto,
        spec_find_index(files, filename, found).is_some(),
    ensures
        spec_find_index(files, filename, upto) == spec_find_index(files, filename, found),
    decreases upto - found,
{
    if found < upto {
        lemma_find_index_stays(files, filename, found, upto - 1);
    }
}

} // verus!
