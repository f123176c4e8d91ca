//! Recidivist reduction and acceptance filtering: the earliest admission
//! per subject is withheld whatever the input order, and a missing
//! mandatory field or a failed attribute filter rejects a record.

use analyzer::options::{accepts, parse_admission_type, parse_race, parse_sex, Options};
use analyzer::record::Record;
use analyzer::reducer::Reducer;
use analyzer::schema::{
    AdmissionType, Age, Education, OffenseDetailedType, OffenseType, Race, ReleaseType,
    Sentence, Sex, State, TimeServed,
};

fn record_with_year(year: u16) -> Record {
    Record {
        sex: Sex::Male,
        admission_type: AdmissionType::New,
        offense_type: OffenseType::Violent,
        sentence: Sentence::Years5To10,
        race: Race::White,
        age_admission: Age::Age25To34,
        time_served: TimeServed::Years2To5,
        release_type: ReleaseType::Conditional,
        education: Education::Missing,
        admission_year: year,
        release_year: year + 3,
        mandatory_release_year: 0,
        projected_release_year: 0,
        parole_eligibility_year: 0,
        offense_detailed_type: OffenseDetailedType::Assault,
        age_release: Age::Age25To34,
        state: State::California,
    }
}

/// Feed one subject's records in the given order; return the emitted
/// admission years, sorted.
fn emitted_years(years: &[u16]) -> Vec<u16> {
    let mut reducer = Reducer::new();
    let id: Vec<u8> = b"subject".to_vec();
    let mut out: Vec<u16> = Vec::new();
    for &y in years {
        if let Some(r) = reducer.step(&id, record_with_year(y)) {
            out.push(r.admission_year);
        }
    }
    out.sort();
    out
}

#[test]
fn reducer_withholds_earliest_in_every_order() {
    let perms: [[u16; 3]; 6] = [
        [2005, 2001, 2009],
        [2005, 2009, 2001],
        [2001, 2005, 2009],
        [2001, 2009, 2005],
        [2009, 2001, 2005],
        [2009, 2005, 2001],
    ];
    for p in perms.iter() {
        assert_eq!(emitted_years(p), vec![2005, 2009]);
    }
}

#[test]
fn reducer_emits_nothing_for_single_occurrence() {
    assert_eq!(emitted_years(&[2005]), Vec::<u16>::new());
}

#[test]
fn reducer_keeps_subjects_apart() {
    let mut reducer = Reducer::new();
    let a: Vec<u8> = b"a".to_vec();
    let b: Vec<u8> = b"b".to_vec();
    assert!(reducer.step(&a, record_with_year(2000)).is_none());
    assert!(reducer.step(&b, record_with_year(1990)).is_none());
    let emitted = reducer.step(&a, record_with_year(2002)).unwrap();
    assert_eq!(emitted.admission_year, 2002);
    let emitted = reducer.step(&b, record_with_year(1980)).unwrap();
    assert_eq!(emitted.admission_year, 1990);
}

#[test]
fn reducer_emits_equal_years_directly() {
    let mut reducer = Reducer::new();
    let id: Vec<u8> = b"s".to_vec();
    assert!(reducer.step(&id, record_with_year(2001)).is_none());
    // Not strictly earlier: the incoming record is the one emitted.
    let emitted = reducer.step(&id, record_with_year(2001)).unwrap();
    assert_eq!(emitted.admission_year, 2001);
}

#[test]
fn missing_race_is_always_rejected() {
    let mut r = record_with_year(2005);
    r.race = Race::Missing;
    let opts = Options::none();
    assert!(!accepts(&opts, &r));
    let filtering = Options {
        recidivists: true,
        sex: Some(Sex::Male),
        admission_type: Some(AdmissionType::New),
        race: None,
    };
    assert!(!accepts(&filtering, &r));
}

#[test]
fn each_missing_mandatory_field_rejects() {
    let opts = Options::none();
    assert!(accepts(&opts, &record_with_year(2005)));
    let mut r = record_with_year(2005);
    r.admission_type = AdmissionType::Missing;
    assert!(!accepts(&opts, &r));
    let mut r = record_with_year(2005);
    r.offense_type = OffenseType::Missing;
    assert!(!accepts(&opts, &r));
    let mut r = record_with_year(2005);
    r.sentence = Sentence::Missing;
    assert!(!accepts(&opts, &r));
    let mut r = record_with_year(2005);
    r.age_admission = Age::Missing;
    assert!(!accepts(&opts, &r));
    let mut r = record_with_year(2005);
    r.time_served = TimeServed::Missing;
    assert!(!accepts(&opts, &r));
    let mut r = record_with_year(2005);
    r.release_type = ReleaseType::Missing;
    assert!(!accepts(&opts, &r));
    // Missing education is not mandatory and does not reject.
    let mut r = record_with_year(2005);
    r.education = Education::Missing;
    assert!(accepts(&opts, &r));
}

#[test]
fn attribute_filters_match_exactly() {
    let r = record_with_year(2005);
    let mut opts = Options::none();
    opts.sex = Some(Sex::Female);
    assert!(!accepts(&opts, &r));
    opts.sex = Some(Sex::Male);
    assert!(accepts(&opts, &r));
    opts.admission_type = Some(AdmissionType::Parole);
    assert!(!accepts(&opts, &r));
    opts.admission_type = Some(AdmissionType::New);
    opts.race = Some(Race::White);
    assert!(accepts(&opts, &r));
    opts.race = Some(Race::Black);
    assert!(!accepts(&opts, &r));
}

#[test]
fn option_codes_parse() {
    assert_eq!(parse_sex(None), None);
    let male = String::from("male");
    let female = String::from("female");
    assert_eq!(parse_sex(Some(&male)), Some(Sex::Male));
    assert_eq!(parse_sex(Some(&female)), Some(Sex::Female));
    let parole = String::from("parole");
    let new = String::from("new");
    let other = String::from("other");
    assert_eq!(parse_admission_type(Some(&parole)), Some(AdmissionType::Parole));
    assert_eq!(parse_admission_type(Some(&new)), Some(AdmissionType::New));
    assert_eq!(parse_admission_type(Some(&other)), Some(AdmissionType::Other));
    let black = String::from("black");
    let hispanic = String::from("hispanic");
    let white = String::from("white");
    assert_eq!(parse_race(Some(&black)), Some(Race::Black));
    assert_eq!(parse_race(Some(&hispanic)), Some(Race::Hispanic));
    assert_eq!(parse_race(Some(&white)), Some(Race::White));
    assert_eq!(parse_race(Some(&other)), Some(Race::Other));
}
