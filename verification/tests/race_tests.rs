use physis::race::{convert_to_internal, get_race_id, Gender, Race, RaceTest, Subrace};

#[test]
fn test_convert_to_internal() {
    assert_eq!(
        convert_to_internal(Race::Hyur, Subrace::Midlander, Gender::Female).unwrap(),
        RaceTest::HyurMidlanderFemale
    );
}

#[test]
fn race_ids() {
    assert_eq!(get_race_id(Race::Hyur, Subrace::Midlander, Gender::Male), Some(101));
    assert_eq!(get_race_id(Race::Hyur, Subrace::Midlander, Gender::Female), Some(201));
    assert_eq!(get_race_id(Race::Hyur, Subrace::Highlander, Gender::Male), Some(301));
    assert_eq!(get_race_id(Race::Hyur, Subrace::Highlander, Gender::Female), Some(401));
    assert_eq!(get_race_id(Race::Elezen, Subrace::Duskwight, Gender::Male), Some(501));
    assert_eq!(get_race_id(Race::Elezen, Subrace::Wildwood, Gender::Female), Some(601));
    assert_eq!(get_race_id(Race::Miqote, Subrace::Seeker, Gender::Male), Some(701));
    assert_eq!(get_race_id(Race::Miqote, Subrace::Keeper, Gender::Female), Some(801));
    assert_eq!(get_race_id(Race::Roegadyn, Subrace::SeaWolf, Gender::Male), Some(901));
    assert_eq!(get_race_id(Race::Roegadyn, Subrace::Hellsguard, Gender::Female), Some(1001));
    assert_eq!(get_race_id(Race::Lalafell, Subrace::Plainsfolk, Gender::Male), Some(1101));
    assert_eq!(get_race_id(Race::Lalafell, Subrace::Dunesfolk, Gender::Female), Some(1201));
    assert_eq!(get_race_id(Race::AuRa, Subrace::Raen, Gender::Male), Some(1301));
    assert_eq!(get_race_id(Race::AuRa, Subrace::Xaela, Gender::Female), Some(1401));
    assert_eq!(get_race_id(Race::Hrothgar, Subrace::Hellion, Gender::Male), Some(1501));
    assert_eq!(get_race_id(Race::Hrothgar, Subrace::Lost, Gender::Female), Some(1601));
    assert_eq!(get_race_id(Race::Viera, Subrace::Rava, Gender::Male), Some(1701));
    assert_eq!(get_race_id(Race::Viera, Subrace::Veena, Gender::Female), Some(1801));
}

#[test]
fn hyur_needs_its_own_subrace() {
    assert_eq!(get_race_id(Race::Hyur, Subrace::Wildwood, Gender::Male), None);
    assert_eq!(convert_to_internal(Race::Hyur, Subrace::Veena, Gender::Female), None);
    assert_eq!(get_race_id(Race::Elezen, Subrace::Midlander, Gender::Male), Some(501));
}
