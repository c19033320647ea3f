//! Playable races, and the identifiers that asset paths use for them.

use vstd::prelude::*;

verus! {

/// Gender of the character.
#[derive(PartialEq, Eq, Structural, Clone, Copy, Debug)]
pub enum Gender {
    Male,
    Female,
}

/// The race's "subrace". Each race has two subraces, which share one identifier,
/// with the exception of Hyurs, whose two subraces have identifiers of their own.
#[derive(PartialEq, Eq, Structural, Clone, Copy, Debug)]
pub enum Subrace {
    Midlander,
    Highlander,
    Wildwood,
    Duskwight,
    Plainsfolk,
    Dunesfolk,
    Seeker,
    Keeper,
    SeaWolf,
    Hellsguard,
    Raen,
    Xaela,
    Hellion,
    Lost,
    Rava,
    Veena,
}

/// The major races of Eorzea.
#[derive(PartialEq, Eq, Structural, Clone, Copy, Debug)]
pub enum Race {
    Hyur,
    Elezen,
    Lalafell,
    Miqote,
    Roegadyn,
    AuRa,
    Hrothgar,
    Viera,
}

/// One entry of the identifier table: a race, a gender and, for Hyurs, a subrace.
#[derive(PartialEq, Eq, Structural, Clone, Copy, Debug)]
pub enum RaceTest {
    HyurMidlanderMale,
    HyurMidlanderFemale,
    HyurHighlanderMale,
    HyurHighlanderFemale,
    ElezenMale,
    ElezenFemale,
    MiqoteMale,
    MiqoteFemale,
    RoegadynMale,
    RoegadynFemale,
    LalafellMale,
    LalafellFemale,
    AuRaMale,
    AuRaFemale,
    HrothgarMale,
    HrothgarFemale,
    VieraMale,
    VieraFemale,
}

/// The table entry for a combination, if the table has one. Only a Hyur needs a
/// subrace, and it must be one of the two Hyur subraces.
pub open spec fn spec_convert_to_internal(race: Race, subrace: Subrace, gender: Gender) -> Option<
    RaceTest,
> {
    match (race, gender) {
        (Race::Hyur, Gender::Male) => match subrace {
            Subrace::Midlander => Some(RaceTest::HyurMidlanderMale),
            Subrace::Highlander => Some(RaceTest::HyurHighlanderMale),
            _ => None,
        },
        (Race::Hyur, Gender::Female) => match subrace {
            Subrace::Midlander => Some(RaceTest::HyurMidlanderFemale),
            Subrace::Highlander => Some(RaceTest::HyurHighlanderFemale),
            _ => None,
        },
        (Race::Elezen, Gender::Male) => Some(RaceTest::ElezenMale),
        (Race::Elezen, Gender::Female) => Some(RaceTest::ElezenFemale),
        (Race::Miqote, Gender::Male) => Some(RaceTest::MiqoteMale),
        (Race::Miqote, Gender::Female) => Some(RaceTest::MiqoteFemale),
        (Race::Roegadyn, Gender::Male) => Some(RaceTest::RoegadynMale),
        (Race::Roegadyn, Gender::Female) => Some(RaceTest::RoegadynFemale),
        (Race::Lalafell, Gender::Male) => Some(RaceTest::LalafellMale),
        (Race::Lalafell, Gender::Female) => Some(RaceTest::LalafellFemale),
        (Race::AuRa, Gender::Male) => Some(RaceTest::AuRaMale),
        (Race::AuRa, Gender::Female) => Some(RaceTest::AuRaFemale),
        (Race::Hrothgar, Gender::Male) => Some(RaceTest::HrothgarMale),
        (Race::Hrothgar, Gender::Female) => Some(RaceTest::HrothgarFemale),
        (Race::Viera, Gender::Male) => Some(RaceTest::VieraMale),
        (Race::Viera, Gender::Female) => Some(RaceTest::VieraFemale),
    }
}

/// The identifier of a table entry, such as 101 for a male Midlander Hyur.
pub open spec fn spec_internal_id(entry: RaceTest) -> int {
    match entry {
        RaceTest::HyurMidlanderMale => 101,
        RaceTest::HyurMidlanderFemale => 201,
        RaceTest::HyurHighlanderMale => 301,
        RaceTest::HyurHighlanderFemale => 401,
        RaceTest::ElezenMale => 501,
        RaceTest::ElezenFemale => 601,
        RaceTest::MiqoteMale => 701,
        RaceTest::MiqoteFemale => 801,
        RaceTest::RoegadynMale => 901,
        RaceTest::RoegadynFemale => 1001,
        RaceTest::LalafellMale => 1101,
        RaceTest::LalafellFemale => 1201,
        RaceTest::AuRaMale => 1301,
        RaceTest::AuRaFemale => 1401,
        RaceTest::HrothgarMale => 1501,
        RaceTest::HrothgarFemale => 1601,
        RaceTest::VieraMale => 1701,
        RaceTest::VieraFemale => 1801,
    }
}

/// The identifier of a combination, if the table has an entry for it.
pub open spec fn spec_race_id(race: Race, subrace: Subrace, gender: Gender) -> Option<int> {
    match spec_convert_to_internal(race, subrace, gender) {
        Some(entry) => Some(spec_internal_id(entry)),
        None => None,
    }
}

impl RaceTest {
    /// The identifier that asset paths use for this entry.
    pub fn id(self) -> (id: i32)
        ensures
            id == spec_internal_id(self),
            101 <= id <= 1801,
    {
        match self {
            RaceTest::HyurMidlanderMale => 101,
            RaceTest::HyurMidlanderFemale => 201,
            RaceTest::HyurHighlanderMale => 301,
            RaceTest::HyurHighlanderFemale => 401,
            RaceTest::ElezenMale => 501,
            RaceTest::ElezenFemale => 601,
            RaceTest::MiqoteMale => 701,
            RaceTest::MiqoteFemale => 801,
            RaceTest::RoegadynMale => 901,
            RaceTest::RoegadynFemale => 1001,
            RaceTest::LalafellMale => 1101,
            RaceTest::LalafellFemale => 1201,
            RaceTest::AuRaMale => 1301,
            RaceTest::AuRaFemale => 1401,
            RaceTest::HrothgarMale => 1501,
            RaceTest::HrothgarFemale => 1601,
            RaceTest::VieraMale => 1701,
            RaceTest::VieraFemale => 1801,
        }
    }
}

/// Looks a combination up in the identifier table.
pub fn convert_to_internal(race: Race, subrace: Subrace, gender: Gender) -> (entry: Option<RaceTest>)
    ensures
        entry == spec_convert_to_internal(race, subrace, gender),
{
    match race {
        Race::Hyur => match subrace {
            Subrace::Midlander => match gender {
                Gender::Male => Some(RaceTest::HyurMidlanderMale),
                Gender::Female => Some(RaceTest::HyurMidlanderFemale),
            },
            Subrace::Highlander => match gender {
                Gender::Male => Some(RaceTest::HyurHighlanderMale),
                Gender::Female => Some(RaceTest::HyurHighlanderFemale),
            },
            _ => None,
        },
        Race::Elezen => match gender {
            Gender::Male => Some(RaceTest::ElezenMale),
            Gender::Female => Some(RaceTest::ElezenFemale),
        },
        Race::Miqote => match gender {
            Gender::Male => Some(RaceTest::MiqoteMale),
            Gender::Female => Some(RaceTest::MiqoteFemale),
        },
        Race::Roegadyn => match gender {
            Gender::Male => Some(RaceTest::RoegadynMale),
            Gender::Female => Some(RaceTest::RoegadynFemale),
        },
        Race::Lalafell => match gender {
            Gender::Male => Some(RaceTest::LalafellMale),
            Gender::Female => Some(RaceTest::LalafellFemale),
        },
        Race::AuRa => match gender {
            Gender::Male => Some(RaceTest::AuRaMale),
            Gender::Female => Some(RaceTest::AuRaFemale),
        },
        Race::Hrothgar => match gender {
            Gender::Male => Some(RaceTest::HrothgarMale),
            Gender::Female => Some(RaceTest::HrothgarFemale),
        },
        Race::Viera => match gender {
            Gender::Male => Some(RaceTest::VieraMale),
            Gender::Female => Some(RaceTest::VieraFemale),
        },
    }
}

/// Gets a proper race identifier (such as 101, for Hyur-Midlander-Males) given a race, a subrace,
/// and a gender. A Hyur with a subrace of another race has no identifier.
pub fn get_race_id(race: Race, subrace: Subrace, gender: Gender) -> (id: Option<i32>)
    ensures
        id.is_some() == spec_race_id(race, subrace, gender).is_some(),
        id.is_some() ==> id.unwrap() == spec_race_id(race, subrace, gender).unwrap(),
        id.is_some() ==> 101 <= id.unwrap() <= 1801,
        race != Race::Hyur ==> id.is_some(),
{
    match convert_to_internal(race, subrace, gender) {
        Some(entry) => Some(entry.id()),
        None => None,
    }
}

} // verus!
