//! One-hot encoding tests: exact bit positions, one bit per participating
//! field, no bits for missing values or excluded fields, the full
//! vocabulary, labels and the display form.

use analyzer::itemset::{encode, labels, ItemSet, ONEHOT_WIDTH};
use analyzer::record::Record;
use analyzer::schema::{
    AdmissionType, Age, Education, OffenseDetailedType, OffenseType, Race, ReleaseType,
    Sentence, Sex, State, TimeServed,
};

fn sample_record() -> Record {
    Record {
        sex: Sex::Female,
        admission_type: AdmissionType::Parole,
        offense_type: OffenseType::Drugs,
        sentence: Sentence::Years10To25,
        race: Race::Hispanic,
        age_admission: Age::Age35To44,
        time_served: TimeServed::Years1To2,
        release_type: ReleaseType::Other,
        education: Education::College,
        admission_year: 2001,
        release_year: 2004,
        mandatory_release_year: 0,
        projected_release_year: 0,
        parole_eligibility_year: 0,
        offense_detailed_type: OffenseDetailedType::Drugs,
        age_release: Age::Age35To44,
        state: State::NewYork,
    }
}

#[test]
fn encode_sets_exactly_the_expected_bits() {
    // Field bases: sex 0, admission type 2, offense type 5, sentence 10,
    // race 17, admission age 21, time served 26, release type 31.
    let s = encode(&sample_record());
    let expected: Vec<usize> = vec![
        0 + 1,  // sex = Female
        2 + 1,  // admission type = Parole
        5 + 2,  // offense type = Drugs
        10 + 4,  // sentence = ten to twenty-five years
        17 + 2,  // race = Hispanic
        21 + 2,  // admission age = thirty-five to forty-four
        26 + 1,  // time served = one to two years
        31 + 2,  // release type = Other
    ];
    assert_eq!(s.items(), expected);
}

#[test]
fn encode_is_one_hot_per_participating_field() {
    let s = encode(&sample_record());
    let ranges: [(usize, usize); 8] =
        [(0, 2), (2, 5), (5, 10), (10, 17), (17, 21), (21, 26), (26, 31), (31, 34)];
    for (lo, hi) in ranges.iter() {
        let mut count = 0;
        for i in *lo..*hi {
            if s.contains(i) {
                count += 1;
            }
        }
        assert_eq!(count, 1);
    }
}

#[test]
fn encode_skips_missing_values() {
    let mut r = sample_record();
    r.admission_type = AdmissionType::Missing;
    r.release_type = ReleaseType::Missing;
    let s = encode(&r);
    // The whole admission-type range is clear; the other fields still
    // have their one bit.
    for i in 2..5 {
        assert!(!s.contains(i));
    }
    for i in 31..34 {
        assert!(!s.contains(i));
    }
    assert_eq!(s.items().len(), 6);
}

#[test]
fn excluded_fields_never_contribute_bits() {
    let mut a = sample_record();
    let mut b = sample_record();
    // Excluded fields differ; participating fields agree.
    a.education = Education::NoHighSchool;
    b.education = Education::Missing;
    a.state = State::Texas;
    b.state = State::Maine;
    a.admission_year = 1999;
    b.admission_year = 2014;
    a.offense_detailed_type = OffenseDetailedType::Murder;
    b.offense_detailed_type = OffenseDetailedType::Fraud;
    a.age_release = Age::Age18To24;
    b.age_release = Age::Age55Plus;
    assert_eq!(encode(&a), encode(&b));
}

#[test]
fn empty_and_add_and_contains() {
    let mut s = ItemSet::empty();
    assert_eq!(s.items(), Vec::<usize>::new());
    s.add(7);
    s.add(0);
    s.add(33);
    assert!(s.contains(0));
    assert!(s.contains(7));
    assert!(s.contains(33));
    assert!(!s.contains(1));
    assert_eq!(s.items(), vec![0, 7, 33]);
}

#[test]
fn full_holds_the_whole_vocabulary() {
    let f = ItemSet::full();
    let items = f.items();
    assert_eq!(items.len(), ONEHOT_WIDTH);
    for (k, i) in items.iter().enumerate() {
        assert_eq!(*i, k);
    }
}

#[test]
fn labels_cover_the_vocabulary_in_offset_order() {
    let l = labels();
    assert_eq!(l.len(), ONEHOT_WIDTH);
    assert_eq!(l[0], "sex=Male");
    assert_eq!(l[1], "sex=Female");
    assert_eq!(l[2], "admission_type=New");
    assert_eq!(l[10], "sentence=Years0To1");
    assert_eq!(l[17], "race=White");
    assert_eq!(l[33], "release_type=Other");
}

#[test]
fn display_joins_labels_in_ascending_bit_order() {
    let l = labels();
    let mut s = ItemSet::empty();
    assert_eq!(s.display(&l), "{}");
    s.add(1);
    assert_eq!(s.display(&l), "{sex=Female}");
    s.add(17);
    s.add(3);
    assert_eq!(s.display(&l), "{sex=Female, admission_type=Parole, race=White}");
}
