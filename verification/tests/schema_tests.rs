//! Decode-table tests: every canonical code decodes to its variant, the
//! documented alternative missing codes work, and byte strings outside a
//! table decode to nothing.

use analyzer::schema::{
    AdmissionType, Age, Education, OffenseDetailedType, OffenseType, Race, ReleaseType,
    Sentence, Sex, State, TimeServed,
};

#[test]
fn sex_decodes() {
    assert_eq!(Sex::decode(b"1"), Some(Sex::Male));
    assert_eq!(Sex::decode(b"2"), Some(Sex::Female));
    assert_eq!(Sex::decode(b"3"), None);
    assert_eq!(Sex::decode(b""), None);
    assert_eq!(Sex::decode(b"12"), None);
    assert_eq!(Sex::decode(b" "), None);
}

#[test]
fn admission_type_decodes() {
    assert_eq!(AdmissionType::decode(b"1"), Some(AdmissionType::New));
    assert_eq!(AdmissionType::decode(b"2"), Some(AdmissionType::Parole));
    assert_eq!(AdmissionType::decode(b"3"), Some(AdmissionType::Other));
    assert_eq!(AdmissionType::decode(b"9"), Some(AdmissionType::Missing));
    assert_eq!(AdmissionType::decode(b"4"), None);
    assert_eq!(AdmissionType::decode(b" "), None);
}

#[test]
fn offense_type_decodes() {
    assert_eq!(OffenseType::decode(b"1"), Some(OffenseType::Violent));
    assert_eq!(OffenseType::decode(b"2"), Some(OffenseType::Property));
    assert_eq!(OffenseType::decode(b"3"), Some(OffenseType::Drugs));
    assert_eq!(OffenseType::decode(b"4"), Some(OffenseType::PublicOrder));
    assert_eq!(OffenseType::decode(b"5"), Some(OffenseType::Other));
    assert_eq!(OffenseType::decode(b"9"), Some(OffenseType::Missing));
    assert_eq!(OffenseType::decode(b"6"), None);
}

#[test]
fn offense_detailed_type_decodes() {
    assert_eq!(OffenseDetailedType::decode(b"1"), Some(OffenseDetailedType::Murder));
    assert_eq!(OffenseDetailedType::decode(b"9"), Some(OffenseDetailedType::VehicleTheft));
    assert_eq!(OffenseDetailedType::decode(b"10"), Some(OffenseDetailedType::Fraud));
    assert_eq!(OffenseDetailedType::decode(b"14"), Some(OffenseDetailedType::Other));
    assert_eq!(OffenseDetailedType::decode(b"99"), Some(OffenseDetailedType::Missing));
    assert_eq!(OffenseDetailedType::decode(b"15"), None);
    assert_eq!(OffenseDetailedType::decode(b"00"), None);
    assert_eq!(OffenseDetailedType::decode(b"09"), None);
}

#[test]
fn education_decodes() {
    assert_eq!(Education::decode(b"1"), Some(Education::NoHighSchool));
    assert_eq!(Education::decode(b"2"), Some(Education::HighSchool));
    assert_eq!(Education::decode(b"3"), Some(Education::College));
    assert_eq!(Education::decode(b"9"), Some(Education::Missing));
    assert_eq!(Education::decode(b"4"), None);
}

#[test]
fn race_decodes() {
    assert_eq!(Race::decode(b"1"), Some(Race::White));
    assert_eq!(Race::decode(b"2"), Some(Race::Black));
    assert_eq!(Race::decode(b"3"), Some(Race::Hispanic));
    assert_eq!(Race::decode(b"4"), Some(Race::Other));
    assert_eq!(Race::decode(b"9"), Some(Race::Missing));
    assert_eq!(Race::decode(b"5"), None);
    assert_eq!(Race::decode(b"x"), None);
}

#[test]
fn age_decodes_with_space_alias() {
    assert_eq!(Age::decode(b"1"), Some(Age::Age18To24));
    assert_eq!(Age::decode(b"5"), Some(Age::Age55Plus));
    assert_eq!(Age::decode(b"9"), Some(Age::Missing));
    assert_eq!(Age::decode(b" "), Some(Age::Missing));
    assert_eq!(Age::decode(b"6"), None);
}

#[test]
fn time_served_decodes() {
    assert_eq!(TimeServed::decode(b"0"), Some(TimeServed::Years0To1));
    assert_eq!(TimeServed::decode(b"4"), Some(TimeServed::Years10Plus));
    assert_eq!(TimeServed::decode(b"9"), Some(TimeServed::Missing));
    assert_eq!(TimeServed::decode(b"5"), None);
    assert_eq!(TimeServed::decode(b" "), None);
}

#[test]
fn sentence_decodes_with_space_alias() {
    assert_eq!(Sentence::decode(b"0"), Some(Sentence::Years0To1));
    assert_eq!(Sentence::decode(b"6"), Some(Sentence::YearsLife));
    assert_eq!(Sentence::decode(b"9"), Some(Sentence::Missing));
    assert_eq!(Sentence::decode(b" "), Some(Sentence::Missing));
    assert_eq!(Sentence::decode(b"7"), None);
}

#[test]
fn release_type_decodes_space_only_missing() {
    assert_eq!(ReleaseType::decode(b"1"), Some(ReleaseType::Conditional));
    assert_eq!(ReleaseType::decode(b"2"), Some(ReleaseType::Unconditional));
    assert_eq!(ReleaseType::decode(b"3"), Some(ReleaseType::Other));
    assert_eq!(ReleaseType::decode(b" "), Some(ReleaseType::Missing));
    assert_eq!(ReleaseType::decode(b"9"), None);
}

#[test]
fn state_decodes() {
    assert_eq!(State::decode(b"1"), Some(State::Alabama));
    assert_eq!(State::decode(b"6"), Some(State::California));
    assert_eq!(State::decode(b"9"), Some(State::Connecticut));
    assert_eq!(State::decode(b"10"), Some(State::Delaware));
    assert_eq!(State::decode(b"48"), Some(State::Texas));
    assert_eq!(State::decode(b"56"), Some(State::Wyoming));
    // The gaps of the code table decode to nothing.
    assert_eq!(State::decode(b"3"), None);
    assert_eq!(State::decode(b"7"), None);
    assert_eq!(State::decode(b"14"), None);
    assert_eq!(State::decode(b"43"), None);
    assert_eq!(State::decode(b"52"), None);
    assert_eq!(State::decode(b"57"), None);
    assert_eq!(State::decode(b"06"), None);
    assert_eq!(State::decode(b"111"), None);
}

#[test]
fn variant_ordinals_follow_declaration_order() {
    assert_eq!(Sex::Male.index(), 0);
    assert_eq!(Sex::Female.index(), 1);
    assert_eq!(AdmissionType::Missing.index(), 3);
    assert_eq!(Sentence::YearsLife.index(), 6);
    assert_eq!(State::Alabama.index(), 0);
    assert_eq!(State::Wyoming.index(), 50);
    assert_eq!(OffenseDetailedType::Missing.index(), 14);
}
