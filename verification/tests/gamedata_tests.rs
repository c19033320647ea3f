use physis::common::Language;
use physis::exh::EXH;
use physis::gamedata::{DirectoryEntry, GameData, RepairAction, RepairError, RepairStep};
use physis::patch::PatchOperation;
use physis::repository::{string_to_category, Category, Repository, RepositoryType};
use physis::sqpack::calculate_hash;

fn directory(name: &str, version: Option<&str>) -> DirectoryEntry {
    DirectoryEntry { name: name.to_string(), version: version.map(|text| text.to_string()) }
}

fn common_setup_data() -> GameData {
    GameData::from_existing("/opt/game", true).unwrap()
}

fn reloaded() -> GameData {
    let mut data = common_setup_data();
    data.reload_repositories(
        Some("2023.01.01.0000.0000".to_string()),
        &vec![
            directory("ex2", None),
            directory("ffxiv", Some("2023.01.01.0000.0000")),
            directory("ex1", Some("2023.02.02.0000.0000")),
        ],
    );
    data
}

#[test]
fn game_directory_must_be_there() {
    assert!(GameData::from_existing("/nowhere", false).is_none());
    let data = common_setup_data();
    assert_eq!(data.game_directory, "/opt/game");
    assert!(data.repositories.is_empty());
    assert!(data.index_files.is_empty());
}

#[test]
fn repository_ordering() {
    let data = reloaded();

    assert_eq!(data.repositories[0].name, "ffxiv");
    assert_eq!(data.repositories[1].name, "ex1");
    assert_eq!(data.repositories[2].name, "ex2");
    assert_eq!(data.repositories.len(), 3);
}

#[test]
fn repositories_are_collected_from_the_directories() {
    let mut data = common_setup_data();
    data.reload_repositories(
        None,
        &vec![
            directory("ex10", None),
            directory("ex3", Some("2020.01.01.0000.0000")),
            directory("ex", None),
            directory("ex0", None),
            directory("ex03", None),
            directory("ex3", Some("2021.01.01.0000.0000")),
            directory("ex2a", None),
            directory("EX4", None),
            directory("movie", None),
            directory("ex4294967296", None),
            directory("ex4294967295", None),
            directory("ex1", None),
        ],
    );
    let names: Vec<&str> = data.repositories.iter().map(|repository| repository.name.as_str()).collect();
    assert_eq!(names, vec!["ffxiv", "ex1", "ex3", "ex10", "ex4294967295"]);
    assert_eq!(data.repositories[0].repo_type, RepositoryType::Base);
    assert_eq!(data.repositories[0].version, None);
    assert_eq!(data.repositories[2].repo_type, RepositoryType::Expansion { number: 3 });
    assert_eq!(data.repositories[2].version, Some("2020.01.01.0000.0000".to_string()));
    assert_eq!(data.repositories[3].repo_type, RepositoryType::Expansion { number: 10 });

    // a reload starts anew
    data.reload_repositories(Some("2012.01.01.0000.0000".to_string()), &vec![]);
    assert_eq!(data.repositories.len(), 1);
    assert_eq!(data.repositories[0].version, Some("2012.01.01.0000.0000".to_string()));
}

#[test]
fn repository_and_category_parsing() {
    let data = reloaded();

    assert_eq!(
        data.parse_repository_category("exd/root.exl").unwrap(),
        (&data.repositories[0], Category::EXD)
    );
    assert!(data
        .parse_repository_category("what/some_font.dat")
        .is_none());
}

#[test]
fn repositories_and_categories_of_paths() {
    let data = reloaded();
    assert_eq!(
        data.parse_repository_category("ex1/bg/thing.lgb").unwrap(),
        (&data.repositories[1], Category::Background)
    );
    assert_eq!(
        data.parse_repository_category("ffxiv/music").unwrap(),
        (&data.repositories[0], Category::Music)
    );
    // an asset of an expansion that is addressed by its category goes to the base repository
    assert_eq!(
        data.parse_repository_category("bg/ex1/01_roc_r2/thing.lgb").unwrap(),
        (&data.repositories[0], Category::Background)
    );
    assert!(data.parse_repository_category("exd").is_none());
    assert!(data.parse_repository_category("").is_none());
    assert!(data.parse_repository_category("ex2/what/x").is_none());
    assert!(data.parse_repository_category("EXD/root.exl").is_none());
    assert!(common_setup_data().parse_repository_category("exd/root.exl").is_none());
}

#[test]
fn categories_by_name() {
    let all = [
        ("common", Category::Common, 0x00),
        ("bgcommon", Category::BackgroundCommon, 0x01),
        ("bg", Category::Background, 0x02),
        ("cut", Category::Cutscene, 0x03),
        ("chara", Category::Character, 0x04),
        ("shader", Category::Shader, 0x05),
        ("ui", Category::UI, 0x06),
        ("sound", Category::Sound, 0x07),
        ("vfx", Category::VFX, 0x08),
        ("ui_script", Category::UIScript, 0x09),
        ("exd", Category::EXD, 0x0A),
        ("game_script", Category::GameScript, 0x0B),
        ("music", Category::Music, 0x0C),
        ("sqpack_test", Category::SqPackTest, 0x12),
        ("debug", Category::Debug, 0x13),
    ];
    for (name, category, code) in all {
        assert_eq!(string_to_category(name), Some(category));
        assert_eq!(category.name(), name);
        assert_eq!(category.code(), code);
    }
    assert_eq!(string_to_category("what"), None);
    assert_eq!(string_to_category(""), None);
    assert_eq!(string_to_category("exd "), None);
}

#[test]
fn names_of_pack_files() {
    let data = reloaded();
    assert_eq!(data.get_index_filename("exd/root.exl"), "/opt/game/sqpack/ffxiv/0a0000.win32.index");
    assert_eq!(data.get_dat_filename("exd/root.exl", 0), "/opt/game/sqpack/ffxiv/0a0000.win32.dat0");
    assert_eq!(data.get_index_filename("ex1/bg/thing"), "/opt/game/sqpack/ex1/020100.win32.index");
    assert_eq!(data.get_dat_filename("ex2/debug/thing", 12), "/opt/game/sqpack/ex2/130200.win32.dat12");
    let repository = Repository {
        name: "ex12".to_string(),
        platform: physis::common::Platform::PS3,
        repo_type: RepositoryType::Expansion { number: 12 },
        version: None,
    };
    assert_eq!(repository.index_filename(Category::SqPackTest), "121200.ps3.index");
    assert_eq!(repository.dat_filename(Category::Common, 3), "001200.ps3.dat3");
    assert_eq!(repository.expansion(), 12);
}

fn index_bytes(entries: &[(u64, u32)]) -> Vec<u8> {
    let mut bytes: Vec<u8> = Vec::new();
    bytes.extend_from_slice(b"SqPack");
    bytes.extend_from_slice(&[0, 0, 0, 0, 0, 0]);
    bytes.extend_from_slice(&1024u32.to_le_bytes());
    bytes.extend_from_slice(&1u32.to_le_bytes());
    bytes.extend_from_slice(&2u32.to_le_bytes());
    bytes.resize(1024, 0);
    bytes.extend_from_slice(&1024u32.to_le_bytes());
    bytes.extend_from_slice(&1u32.to_le_bytes());
    bytes.extend_from_slice(&2048u32.to_le_bytes());
    bytes.extend_from_slice(&((entries.len() * 16) as u32).to_le_bytes());
    bytes.resize(2048, 0);
    for (hash, bitfield) in entries {
        bytes.extend_from_slice(&hash.to_le_bytes());
        bytes.extend_from_slice(&bitfield.to_le_bytes());
        bytes.extend_from_slice(&[0, 0, 0, 0]);
    }
    bytes
}

fn dat_bytes(at: usize, contents: &[u8]) -> Vec<u8> {
    let mut bytes: Vec<u8> = vec![0; at];
    bytes.extend_from_slice(&32u32.to_le_bytes());
    bytes.extend_from_slice(&2u32.to_le_bytes());
    bytes.extend_from_slice(&(contents.len() as u32).to_le_bytes());
    bytes.extend_from_slice(&[0u8; 8]);
    bytes.extend_from_slice(&1u32.to_le_bytes());
    bytes.extend_from_slice(&0u32.to_le_bytes());
    bytes.extend_from_slice(&[0u8; 4]);
    let packed = miniz_oxide::deflate::compress_to_vec(contents, 6);
    bytes.extend_from_slice(&16u32.to_le_bytes());
    bytes.extend_from_slice(&0u32.to_le_bytes());
    bytes.extend_from_slice(&(packed.len() as u32).to_le_bytes());
    bytes.extend_from_slice(&(contents.len() as u32).to_le_bytes());
    bytes.extend_from_slice(&packed);
    bytes
}

const ROOT: &[u8] = b"EXLT,2\nAchievement,209\nAction,4\nItem,-1\n";

fn with_index() -> GameData {
    let mut data = reloaded();
    let name = data.get_index_filename("exd/root.exl");
    let index = index_bytes(&[
        (calculate_hash("exd/other.exh"), (256 / 8) | (1 << 1)),
        (calculate_hash("exd/root.exl"), (128 / 8) | (2 << 1)),
        (calculate_hash("exd/root.exl"), (512 / 8) | (3 << 1)),
    ]);
    assert!(data.cache_index_file(&name, &index));
    data
}

#[test]
fn index_files_are_kept() {
    let mut data = reloaded();
    let name = data.get_index_filename("exd/root.exl");
    assert!(data.get_index_file(&name).is_none());
    assert!(!data.file_exists("exd/root.exl"));
    assert!(!data.cache_index_file(&name, b"not an index"));
    assert!(data.get_index_file(&name).is_none());
    assert!(data.cache_index_file(&name, &index_bytes(&[(1, 0x20)])));
    assert_eq!(data.get_index_file(&name).unwrap().entries.len(), 1);
    // what is kept is not read again
    assert!(data.cache_index_file(&name, b"not an index"));
    assert!(data.cache_index_file(&name, &index_bytes(&[(1, 0x20), (2, 0x40)])));
    assert_eq!(data.get_index_file(&name).unwrap().entries.len(), 1);
    assert_eq!(data.index_files.len(), 1);
    assert!(data.get_index_file("/opt/game/sqpack/ffxiv/040000.win32.index").is_none());
}

#[test]
fn files_are_found_by_the_hash_of_their_path() {
    let data = with_index();
    assert!(data.file_exists("exd/root.exl"));
    assert!(data.file_exists("EXD/Other.EXH") == false);
    assert!(data.file_exists("exd/other.exh"));
    assert!(!data.file_exists("exd/missing.exh"));
    assert!(!data.file_exists("chara/human.sklb"));
    assert!(!data.file_exists("nothing"));
    let entry = data.find_entry("exd/root.exl").unwrap();
    assert_eq!(entry.hash, 0x1c64_8666_ae4a_8143);
    assert_eq!(entry.data_file_id(), 2);
    assert_eq!(entry.offset(), 128);
    assert_eq!(data.find_entry("exd/missing.exh"), None);
}

#[test]
fn files_are_extracted() {
    let data = with_index();
    let entry = data.find_entry("exd/root.exl").unwrap();
    assert_eq!(
        data.get_dat_filename("exd/root.exl", entry.data_file_id() as u32),
        "/opt/game/sqpack/ffxiv/0a0000.win32.dat2"
    );
    let dat = dat_bytes(128, ROOT);
    assert_eq!(data.extract("exd/root.exl", &dat).unwrap(), ROOT);
    // repeated calls give the same bytes
    assert_eq!(data.extract("exd/root.exl", &dat), data.extract("exd/root.exl", &dat));
    assert!(data.extract("exd/missing.exh", &dat).is_none());
    assert!(data.extract("exd/other.exh", &dat).is_none());
    assert!(data.extract("exd/root.exl", &dat[..dat.len() - 1]).is_none());
    assert!(reloaded().extract("exd/root.exl", &dat).is_none());
}

fn exh_bytes() -> Vec<u8> {
    let mut bytes: Vec<u8> = Vec::new();
    bytes.extend_from_slice(b"EXHF");
    bytes.extend_from_slice(&3u16.to_be_bytes());
    bytes.extend_from_slice(&4u16.to_be_bytes());
    bytes.extend_from_slice(&1u16.to_be_bytes());
    bytes.extend_from_slice(&1u16.to_be_bytes());
    bytes.extend_from_slice(&1u16.to_be_bytes());
    bytes.extend_from_slice(&[0u8; 6]);
    bytes.extend_from_slice(&1u32.to_be_bytes());
    bytes.extend_from_slice(&[0u8; 8]);
    bytes.extend_from_slice(&[0, 7, 0, 0]);
    bytes.extend_from_slice(&30u32.to_be_bytes());
    bytes.extend_from_slice(&1u32.to_be_bytes());
    bytes.extend_from_slice(&[2, 0]);
    bytes
}

fn exd_bytes() -> Vec<u8> {
    let mut bytes: Vec<u8> = Vec::new();
    bytes.extend_from_slice(b"EXDF");
    bytes.extend_from_slice(&2u16.to_be_bytes());
    bytes.extend_from_slice(&[0u8; 2]);
    bytes.extend_from_slice(&8u32.to_be_bytes());
    bytes.extend_from_slice(&[0u8; 20]);
    bytes.extend_from_slice(&30u32.to_be_bytes());
    bytes.extend_from_slice(&40u32.to_be_bytes());
    bytes.extend_from_slice(&4u32.to_be_bytes());
    bytes.extend_from_slice(&1u16.to_be_bytes());
    bytes.extend_from_slice(&0xDEAD_BEEFu32.to_be_bytes());
    bytes
}

#[test]
fn sheets_are_looked_up_in_the_list() {
    let data = reloaded();
    assert_eq!(
        data.get_all_sheet_names(ROOT).unwrap(),
        vec!["Achievement".to_string(), "Action".to_string(), "Item".to_string()]
    );
    assert!(data.get_all_sheet_names(b"broken").is_none());
    assert_eq!(data.get_sheet_header_path("Achievement", ROOT).unwrap(), "exd/achievement.exh");
    assert_eq!(data.get_sheet_header_path("Item", ROOT).unwrap(), "exd/item.exh");
    assert!(data.get_sheet_header_path("item", ROOT).is_none());
    assert!(data.get_sheet_header_path("Quest", ROOT).is_none());
    assert!(data.get_sheet_header_path("Item", b"broken").is_none());

    let sheet = data.read_excel_sheet_header("Item", ROOT, &exh_bytes()).unwrap();
    assert_eq!(sheet.header.column_count, 1);
    assert_eq!(sheet.languages, vec![Language::English]);
    assert!(data.read_excel_sheet_header("Quest", ROOT, &exh_bytes()).is_none());
    assert!(data.read_excel_sheet_header("Item", ROOT, b"EXHF").is_none());
    assert!(data.read_excel_sheet_header("Item", b"broken", &exh_bytes()).is_none());
}

#[test]
fn sheet_pages_are_read() {
    let data = reloaded();
    let sheet = EXH::from_existing(&exh_bytes()).unwrap();
    assert_eq!(
        data.get_excel_sheet_path("Item", &sheet, Language::English, 0).unwrap(),
        "exd/Item_30_en.exd"
    );
    assert_eq!(
        data.get_excel_sheet_path("Item", &sheet, Language::Neutral, 0).unwrap(),
        "exd/Item_30.exd"
    );
    assert!(data.get_excel_sheet_path("Item", &sheet, Language::English, 1).is_none());
    let page = data.read_excel_sheet("Item", &sheet, Language::English, 0, &exd_bytes()).unwrap();
    assert_eq!(page.rows.len(), 1);
    assert_eq!(page.rows[0].data, vec![physis::exd::ColumnData::UInt32(0xDEAD_BEEF)]);
    assert!(data.read_excel_sheet("Item", &sheet, Language::English, 1, &exd_bytes()).is_none());
    assert!(data.read_excel_sheet("Item", &sheet, Language::English, 0, b"EXDF").is_none());
}

#[test]
fn patches_are_read_for_the_game_directory() {
    let data = reloaded();
    let mut patch: Vec<u8> =
        vec![0x91, 0x5A, 0x49, 0x50, 0x41, 0x54, 0x43, 0x48, 0x0D, 0x0A, 0x1A, 0x0A];
    patch.extend_from_slice(&[0, 0, 0, 7, b'A', b'D', b'I', b'R', 0, 0, 0, 3, b'n', b'e', b'w', 1, 2, 3, 4]);
    patch.extend_from_slice(&[0, 0, 0, 0, b'E', b'O', b'F', b'_', 0, 0, 0, 0]);
    assert_eq!(
        data.apply_patch(&patch),
        Ok(vec![PatchOperation::CreateDirectory { path: "/opt/game/new".to_string() }])
    );
    assert!(data.apply_patch(b"no patch").is_err());
}

#[test]
fn repositories_without_a_version_need_a_repair() {
    let data = reloaded();
    let needed = data.needs_repair(&vec![None, None, Some("2019.05.05.0000.0001".to_string())]).unwrap();
    assert_eq!(needed.len(), 1);
    assert_eq!(needed[0].0.name, "ex2");
    assert_eq!(needed[0].1, RepairAction::VersionFileCanRestore);
    let needed = data.needs_repair(&vec![None, None, Some("2019.05.05".to_string())]).unwrap();
    assert_eq!(needed[0].1, RepairAction::VersionFileMissing);
    let needed = data.needs_repair(&vec![]).unwrap();
    assert_eq!(needed[0].1, RepairAction::VersionFileMissing);

    let mut broken = common_setup_data();
    broken.reload_repositories(None, &vec![directory("ex1", None), directory("ex2", Some("x"))]);
    let needed = broken
        .needs_repair(&vec![Some("2012.01.01.0000.0000\n".to_string()), Some("2012.01.01.0000.0000".to_string())])
        .unwrap();
    assert_eq!(needed.len(), 2);
    assert_eq!(needed[0].0.name, "ffxiv");
    assert_eq!(needed[0].1, RepairAction::VersionFileMissing);
    assert_eq!(needed[1].0.name, "ex1");
    assert_eq!(needed[1].1, RepairAction::VersionFileCanRestore);

    let mut whole = common_setup_data();
    whole.reload_repositories(Some("2012.01.01.0000.0000".to_string()), &vec![]);
    assert!(whole.needs_repair(&vec![]).is_none());
    assert!(common_setup_data().needs_repair(&vec![]).is_none());
}

#[test]
fn repairs_are_planned() {
    let data = reloaded();
    let repository = &data.repositories[2];
    assert_eq!(data.get_backup_path(repository), "/opt/game/sqpack/ex2/ex2.bck");
    let steps = data.perform_repair(repository, RepairAction::VersionFileMissing, None).unwrap();
    assert_eq!(
        steps,
        vec![
            RepairStep::RemoveDirectory { path: "/opt/game/sqpack/ex2".to_string() },
            RepairStep::CreateDirectory { path: "/opt/game/sqpack/ex2".to_string() },
            RepairStep::WriteFile {
                path: "/opt/game/sqpack/ex2/ex2.ver".to_string(),
                contents: "2012.01.01.0000.0000".to_string(),
            },
        ]
    );
    let steps = data
        .perform_repair(repository, RepairAction::VersionFileCanRestore, Some("2019.05.05.0000.0001"))
        .unwrap();
    assert_eq!(
        steps,
        vec![RepairStep::WriteFile {
            path: "/opt/game/sqpack/ex2/ex2.ver".to_string(),
            contents: "2019.05.05.0000.0001".to_string(),
        }]
    );
    match data.perform_repair(repository, RepairAction::VersionFileCanRestore, None) {
        Err(RepairError::FailedRepair(failed)) => assert_eq!(failed.name, "ex2"),
        Ok(_) => panic!("a repair without a backup"),
    }
    match data.perform_repair(repository, RepairAction::VersionFileCanRestore, Some("2019")) {
        Err(RepairError::FailedRepair(failed)) => assert_eq!(failed.name, "ex2"),
        Ok(_) => panic!("a repair from a backup without a version"),
    }
}
