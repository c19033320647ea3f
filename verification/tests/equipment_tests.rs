use physis::equipment::{build_equipment_path, get_slot_abbreviation, get_slot_from_id, Slot};
use physis::race::{Gender, Race, Subrace};

#[test]
fn test_equipment_path() {
    assert_eq!(
        build_equipment_path(0, Race::Hyur, Subrace::Midlander, Gender::Male, Slot::Body),
        "chara/equipment/e0000/model/c0101e0000_top.mdl"
    );
}

#[test]
fn equipment_path_pads_and_grows() {
    assert_eq!(
        build_equipment_path(6016, Race::Viera, Subrace::Rava, Gender::Female, Slot::Head),
        "chara/equipment/e6016/model/c1801e6016_met.mdl"
    );
    assert_eq!(
        build_equipment_path(12345, Race::Elezen, Subrace::Wildwood, Gender::Male, Slot::Rings),
        "chara/equipment/e12345/model/c0501e12345_rir.mdl"
    );
    assert_eq!(
        build_equipment_path(-1, Race::Hyur, Subrace::Highlander, Gender::Female, Slot::Feet),
        "chara/equipment/e-001/model/c0401e-001_sho.mdl"
    );
}

#[test]
fn slot_abbreviations() {
    assert_eq!(get_slot_abbreviation(Slot::Head), "met");
    assert_eq!(get_slot_abbreviation(Slot::Hands), "glv");
    assert_eq!(get_slot_abbreviation(Slot::Legs), "dwn");
    assert_eq!(get_slot_abbreviation(Slot::Feet), "sho");
    assert_eq!(get_slot_abbreviation(Slot::Body), "top");
    assert_eq!(get_slot_abbreviation(Slot::Earring), "ear");
    assert_eq!(get_slot_abbreviation(Slot::Neck), "nek");
    assert_eq!(get_slot_abbreviation(Slot::Rings), "rir");
    assert_eq!(get_slot_abbreviation(Slot::Wrists), "wrs");
}

#[test]
fn slots_from_ids() {
    assert_eq!(get_slot_from_id(3), Some(Slot::Head));
    assert_eq!(get_slot_from_id(5), Some(Slot::Hands));
    assert_eq!(get_slot_from_id(7), Some(Slot::Legs));
    assert_eq!(get_slot_from_id(8), Some(Slot::Feet));
    assert_eq!(get_slot_from_id(4), Some(Slot::Body));
    assert_eq!(get_slot_from_id(9), Some(Slot::Earring));
    assert_eq!(get_slot_from_id(10), Some(Slot::Neck));
    assert_eq!(get_slot_from_id(12), Some(Slot::Rings));
    assert_eq!(get_slot_from_id(11), Some(Slot::Wrists));
    assert_eq!(get_slot_from_id(0), None);
    assert_eq!(get_slot_from_id(6), None);
    assert_eq!(get_slot_from_id(13), None);
    assert_eq!(get_slot_from_id(-3), None);
}
