//! Equipment slots, and the paths of equipment models.

use vstd::prelude::*;
use crate::race::{get_race_id, spec_race_id, Gender, Race, Subrace};
use crate::text::{push_padded_signed, push_text, spec_padded_signed};

verus! {

/// The slot the item is for.
#[derive(PartialEq, Eq, Structural, Clone, Copy, Debug)]
pub enum Slot {
    /// The head slot. Shorthand is "met".
    Head,
    /// The hands slot. Shorthand is "glv".
    Hands,
    /// The legs slot. Shorthand is "dwn".
    Legs,
    /// The feet slot. Shorthand is "sho".
    Feet,
    /// The body or chest slot. Shorthand is "top".
    Body,
    /// The earrings slot. Shorthand is "ear".
    Earring,
    /// The neck slot. Shorthand is "nek".
    Neck,
    /// The ring slot. Shorthand is "rir".
    Rings,
    /// The wrists slot. Shorthand is "wrs".
    Wrists,
}

/// The shorthand of a slot.
pub open spec fn spec_slot_abbreviation(slot: Slot) -> Seq<char> {
    match slot {
        Slot::Head => "met"@,
        Slot::Hands => "glv"@,
        Slot::Legs => "dwn"@,
        Slot::Feet => "sho"@,
        Slot::Body => "top"@,
        Slot::Earring => "ear"@,
        Slot::Neck => "nek"@,
        Slot::Rings => "rir"@,
        Slot::Wrists => "wrs"@,
    }
}

/// The slot with the given id, if there is one.
pub open spec fn spec_slot_from_id(id: int) -> Option<Slot> {
    if id == 3 {
        Some(Slot::Head)
    } else if id == 5 {
        Some(Slot::Hands)
    } else if id == 7 {
        Some(Slot::Legs)
    } else if id == 8 {
        Some(Slot::Feet)
    } else if id == 4 {
        Some(Slot::Body)
    } else if id == 9 {
        Some(Slot::Earring)
    } else if id == 10 {
        Some(Slot::Neck)
    } else if id == 12 {
        Some(Slot::Rings)
    } else if id == 11 {
        Some(Slot::Wrists)
    } else {
        None
    }
}

/// The path of the model of a piece of equipment: the model number with four
/// digits, the race identifier with four digits, the model number again, and
/// the shorthand of the slot.
pub open spec fn spec_equipment_path(model_id: int, race_id: int, slot: Slot) -> Seq<char> {
    "chara/equipment/e"@ + spec_padded_signed(model_id, 4) + "/model/c"@ + spec_padded_signed(
        race_id,
        4,
    ) + "e"@ + spec_padded_signed(model_id, 4) + "_"@ + spec_slot_abbreviation(slot) + ".mdl"@
}

/// Returns the shorthand abbreviation of `slot`. For example, Body's shorthand is "top".
pub fn get_slot_abbreviation(slot: Slot) -> (abbreviation: &'static str)
    ensures
        abbreviation@ == spec_slot_abbreviation(slot),
{
    match slot {
        Slot::Head => "met",
        Slot::Hands => "glv",
        Slot::Legs => "dwn",
        Slot::Feet => "sho",
        Slot::Body => "top",
        Slot::Earring => "ear",
        Slot::Neck => "nek",
        Slot::Rings => "rir",
        Slot::Wrists => "wrs",
    }
}

/// Determines the correct slot from an id. This can fail, so a None is returned when no slot matches
/// that id.
pub fn get_slot_from_id(id: i32) -> (slot: Option<Slot>)
    ensures
        slot == spec_slot_from_id(id as int),
{
    match id {
        3 => Some(Slot::Head),
        5 => Some(Slot::Hands),
        7 => Some(Slot::Legs),
        8 => Some(Slot::Feet),
        4 => Some(Slot::Body),
        9 => Some(Slot::Earring),
        10 => Some(Slot::Neck),
        12 => Some(Slot::Rings),
        11 => Some(Slot::Wrists),
        _ => None,
    }
}

/// Builds a game path to the equipment specified. The combination of race,
/// subrace and gender must have an identifier.
pub fn build_equipment_path(
    model_id: i32,
    race: Race,
    subrace: Subrace,
    gender: Gender,
    slot: Slot,
) -> (path: String)
    requires
        spec_race_id(race, subrace, gender).is_some(),
    ensures
        path@ == spec_equipment_path(
            model_id as int,
            spec_race_id(race, subrace, gender).unwrap(),
            slot,
        ),
{
    let race_id: i32 = match get_race_id(race, subrace, gender) {
        Some(id) => id,
        None => 0,
    };
    let mut path = String::new();
    push_text(&mut path, "chara/equipment/e");
    push_padded_signed(&mut path, model_id, 4);
    push_text(&mut path, "/model/c");
    push_padded_signed(&mut path, race_id, 4);
    push_text(&mut path, "e");
    push_padded_signed(&mut path, model_id, 4);
    push_text(&mut path, "_");
    push_text(&mut path, get_slot_abbreviation(slot));
    push_text(&mut path, ".mdl");
    assert(path@ =~= spec_equipment_path(
        model_id as int,
        spec_race_id(race, subrace, gender).unwrap(),
        slot,
    ));
    path
}

} // verus!
