//! Record decoding tests: the permissive numeric decode, a fully valid
//! line, and each failure kind with the field it names.

use analyzer::record::{parse_u16, Field, FieldDecodeError, Record};
use analyzer::schema::{
    AdmissionType, Age, Education, OffenseDetailedType, OffenseType, Race, ReleaseType,
    Sentence, Sex, State, TimeServed,
};

fn fields(values: &[&[u8]]) -> Vec<Vec<u8>> {
    values.iter().map(|v| v.to_vec()).collect()
}

/// Seventeen decodable columns, identifier already stripped.
fn good_fields() -> Vec<Vec<u8>> {
    fields(&[
        b"1",  // sex: male
        b"2",  // admission type: parole
        b"3",  // offense type: drugs
        b"9",  // education: missing
        b"2005",  // admission year
        b"2010",  // release year
        b" ",  // mandatory release year: blank decodes to zero
        b"+2011",  // projected release year: explicit plus sign
        b"0",  // parole eligibility year
        b"2",  // sentence: two to five years
        b"12",  // detailed offense: drugs
        b"2",  // race: black
        b"3",  // admission age: thirty-five to forty-four
        b"4",  // release age: forty-five to fifty-four
        b"2",  // time served: two to five years
        b"1",  // release type: conditional
        b"48",  // state: texas
    ])
}

#[test]
fn parse_u16_accepts_digits_blank_and_plus() {
    assert_eq!(parse_u16(b"2005"), Some(2005));
    assert_eq!(parse_u16(b"0"), Some(0));
    assert_eq!(parse_u16(b" "), Some(0));
    assert_eq!(parse_u16(b"+7"), Some(7));
    assert_eq!(parse_u16(b"65535"), Some(65535));
}

#[test]
fn parse_u16_rejects_junk_and_overflow() {
    assert_eq!(parse_u16(b""), None);
    assert_eq!(parse_u16(b"+"), None);
    assert_eq!(parse_u16(b"65536"), None);
    assert_eq!(parse_u16(b"99999"), None);
    assert_eq!(parse_u16(b"12a"), None);
    assert_eq!(parse_u16(b"-3"), None);
    assert_eq!(parse_u16(b"  "), None);
    assert_eq!(parse_u16(b"1 "), None);
}

#[test]
fn parse_fills_every_field() {
    let record = Record::parse(&good_fields()).unwrap();
    assert_eq!(record.sex, Sex::Male);
    assert_eq!(record.admission_type, AdmissionType::Parole);
    assert_eq!(record.offense_type, OffenseType::Drugs);
    assert_eq!(record.education, Education::Missing);
    assert_eq!(record.admission_year, 2005);
    assert_eq!(record.release_year, 2010);
    assert_eq!(record.mandatory_release_year, 0);
    assert_eq!(record.projected_release_year, 2011);
    assert_eq!(record.parole_eligibility_year, 0);
    assert_eq!(record.sentence, Sentence::Years2To5);
    assert_eq!(record.offense_detailed_type, OffenseDetailedType::Drugs);
    assert_eq!(record.race, Race::Black);
    assert_eq!(record.age_admission, Age::Age35To44);
    assert_eq!(record.age_release, Age::Age45To54);
    assert_eq!(record.time_served, TimeServed::Years2To5);
    assert_eq!(record.release_type, ReleaseType::Conditional);
    assert_eq!(record.state, State::Texas);
}

#[test]
fn parse_ignores_extra_columns() {
    let mut f = good_fields();
    f.push(b"anything".to_vec());
    assert!(Record::parse(&f).is_ok());
}

#[test]
fn parse_reports_unknown_code_with_field_and_bytes() {
    let mut f = good_fields();
    f[11] = b"8".to_vec();
    assert_eq!(
        Record::parse(&f).unwrap_err(),
        FieldDecodeError::UnknownCode { field: Field::Race, raw: b"8".to_vec() },
    );
}

#[test]
fn parse_reports_first_failing_field() {
    let mut f = good_fields();
    f[2] = b"x".to_vec();
    f[11] = b"8".to_vec();
    assert_eq!(
        Record::parse(&f).unwrap_err(),
        FieldDecodeError::UnknownCode { field: Field::OffenseType, raw: b"x".to_vec() },
    );
}

#[test]
fn parse_reports_bad_number() {
    let mut f = good_fields();
    f[4] = b"20x5".to_vec();
    assert_eq!(
        Record::parse(&f).unwrap_err(),
        FieldDecodeError::BadNumber { field: Field::AdmissionYear, raw: b"20x5".to_vec() },
    );
}

#[test]
fn parse_reports_missing_field() {
    let mut f = good_fields();
    f.truncate(16);
    assert_eq!(
        Record::parse(&f).unwrap_err(),
        FieldDecodeError::MissingField { field: Field::State },
    );
    assert_eq!(
        Record::parse(&Vec::new()).unwrap_err(),
        FieldDecodeError::MissingField { field: Field::Sex },
    );
}
