//! One admission record: a fixed aggregate of categorical values plus a few
//! numeric year fields, decoded from the byte-string fields of one input
//! line (subject identifier already stripped).  Decoding either fills every
//! field or fails with an error naming the first offending field.

use vstd::prelude::*;

use crate::schema::{
    Age, AdmissionType, Education, OffenseDetailedType, OffenseType, Race, ReleaseType,
    Sentence, Sex, State, TimeServed, SPACE, is_digit, digit_val,
};

verus! {

/// ASCII plus sign, accepted as an optional leading sign of a year field.
pub const PLUS: u8 = 43;

/// The sequence of views of a sequence of byte vectors.
pub open spec fn views(s: Seq<Vec<u8>>) -> Seq<Seq<u8>> {
    s.map_values(|v: Vec<u8>| v@)
}

/// Whether every byte of `t` is an ASCII decimal digit.
pub open spec fn all_digits(t: Seq<u8>) -> bool {
    forall|i: int| 0 <= i < t.len() ==> is_digit(#[trigger] t[i])
}

/// The number denoted by a digit string, most significant digit first.
pub open spec fn digits_val(t: Seq<u8>) -> int
    decreases t.len(),
{
    if t.len() == 0 {
        0
    } else {
        digits_val(t.drop_last()) * 10 + digit_val(t.last())
    }
}

/// The permissive numeric decode of a year field: a single space denotes
/// zero; otherwise an optional leading plus sign followed by at least one
/// digit, with a value that fits in sixteen bits.  Anything else fails.
pub open spec fn u16_decode_spec(s: Seq<u8>) -> Option<u16> {
    if s.len() == 1 && s[0] == SPACE {
        Some(0u16)
    } else {
        let t = if s.len() > 0 && s[0] == PLUS {
            s.subrange(1, s.len() as int)
        } else {
            s
        };
        if t.len() > 0 && all_digits(t) && digits_val(t) <= 65535 {
            Some(digits_val(t) as u16)
        } else {
            None
        }
    }
}

/// Extending a digit string cannot decrease its value.
proof fn lemma_digits_val_mono(t: Seq<u8>, k: int)
    requires
        0 <= k <= t.len(),
        all_digits(t),
    ensures
        digits_val(t) >= digits_val(t.subrange(0, k)),
    decreases t.len() - k,
{
    if k < t.len() {
        let prefix = t.subrange(0, k + 1);
        assert(prefix.drop_last() =~= t.subrange(0, k));
        assert(digits_val(t.subrange(0, k)) >= 0) by {
            lemma_digits_val_nonneg(t.subrange(0, k));
        }
        assert(digits_val(prefix) >= digits_val(t.subrange(0, k)));
        lemma_digits_val_mono(t, k + 1);
        assert(t.subrange(0, t.len() as int) =~= t);
    } else {
        assert(t.subrange(0, k) =~= t);
    }
}

/// A digit string's value is not negative.
proof fn lemma_digits_val_nonneg(t: Seq<u8>)
    requires
        all_digits(t),
    ensures
        digits_val(t) >= 0,
    decreases t.len(),
{
    if t.len() > 0 {
        assert(all_digits(t.drop_last()));
        lemma_digits_val_nonneg(t.drop_last());
    }
}

/// Decode one year field, as [`u16_decode_spec`] describes.
pub fn parse_u16(s: &[u8]) -> (r: Option<u16>)
    ensures
        r == u16_decode_spec(s@),
{
    if s.len() == 1 && s[0] == SPACE {
        return Some(0);
    }
    let start: usize = if s.len() > 0 && s[0] == PLUS {
        1
    } else {
        0
    };
    let ghost t: Seq<u8> = if s@.len() > 0 && s@[0] == PLUS {
        s@.subrange(1, s@.len() as int)
    } else {
        s@
    };
    if start >= s.len() {
        return None;
    }
    let mut acc: u32 = 0;
    let mut i: usize = start;
    while i < s.len()
        invariant
            start <= i <= s.len(),
            s@.len() > start,
            !(s@.len() == 1 && s@[0] == SPACE),
            start == if s@.len() > 0 && s@[0] == PLUS { 1int } else { 0int },
            t == s@.subrange(start as int, s@.len() as int),
            acc == digits_val(t.subrange(0, i - start)),
            acc <= 65535,
            all_digits(t.subrange(0, i - start)),
        decreases s.len() - i,
    {
        let c = s[i];
        if c < 48 || c > 57 {
            assert(!is_digit(t[i - start]));
            return None;
        }
        assert(t.subrange(0, i + 1 - start).drop_last() =~= t.subrange(0, i - start));
        acc = acc * 10 + (c - 48) as u32;
        i = i + 1;
        if acc > 65535 {
            proof {
                let k = i - start;
                assert(acc == digits_val(t.subrange(0, k as int)));
                if all_digits(t) {
                    lemma_digits_val_mono(t, k as int);
                    assert(digits_val(t) > 65535);
                }
                assert(s@.subrange(0, s@.len() as int) =~= s@);
                assert(u16_decode_spec(s@) is None);
            }
            return None;
        }
    }
    proof {
        assert(t.subrange(0, i - start) =~= t);
    }
    Some(acc as u16)
}

/// Copy a byte vector.
pub fn copy_bytes(v: &Vec<u8>) -> (r: Vec<u8>)
    ensures
        r@ == v@,
{
    let mut r: Vec<u8> = Vec::new();
    let mut i: usize = 0;
    while i < v.len()
        invariant
            i <= v.len(),
            r@ == v@.subrange(0, i as int),
        decreases v.len() - i,
    {
        r.push(v[i]);
        assert(r@ =~= v@.subrange(0, i + 1));
        i = i + 1;
    }
    proof {
        assert(r@ =~= v@);
    }
    r
}

/// Name of one field of a record, in input-column order.
#[derive(Copy, Clone, Debug, PartialEq, Eq, Hash, Structural)]
pub enum Field {
    Sex,
    AdmissionType,
    OffenseType,
    Education,
    AdmissionYear,
    ReleaseYear,
    MandatoryReleaseYear,
    ProjectedReleaseYear,
    ParoleEligibilityYear,
    Sentence,
    OffenseDetailedType,
    Race,
    AgeAdmission,
    AgeRelease,
    TimeServed,
    ReleaseType,
    State,
}

/// Number of fields of a record, and of byte-string columns of a data line
/// after the subject identifier.
pub const RECORD_FIELD_COUNT: usize = 17;

/// The field found at input column `i`.
pub open spec fn field_at(i: int) -> Field {
    if i == 0 {
        Field::Sex
    } else if i == 1 {
        Field::AdmissionType
    } else if i == 2 {
        Field::OffenseType
    } else if i == 3 {
        Field::Education
    } else if i == 4 {
        Field::AdmissionYear
    } else if i == 5 {
        Field::ReleaseYear
    } else if i == 6 {
        Field::MandatoryReleaseYear
    } else if i == 7 {
        Field::ProjectedReleaseYear
    } else if i == 8 {
        Field::ParoleEligibilityYear
    } else if i == 9 {
        Field::Sentence
    } else if i == 10 {
        Field::OffenseDetailedType
    } else if i == 11 {
        Field::Race
    } else if i == 12 {
        Field::AgeAdmission
    } else if i == 13 {
        Field::AgeRelease
    } else if i == 14 {
        Field::TimeServed
    } else if i == 15 {
        Field::ReleaseType
    } else {
        Field::State
    }
}

/// Whether input column `i` holds a numeric year field.
pub open spec fn is_year_column(i: int) -> bool {
    4 <= i <= 8
}

/// Why a record failed to decode: an unknown categorical code, a malformed
/// number, or a column missing from the line.  Each names its field.
#[derive(Clone, Debug, PartialEq, Eq)]
pub enum FieldDecodeError {
    UnknownCode { field: Field, raw: Vec<u8> },
    BadNumber { field: Field, raw: Vec<u8> },
    MissingField { field: Field },
}

/// One fully populated admission record.  Missingness is a concrete
/// sentinel variant, never an absent value.
#[derive(Copy, Clone, Debug, PartialEq, Eq, Hash, Structural)]
pub struct Record {
    pub sex: Sex,
    pub admission_type: AdmissionType,
    pub offense_type: OffenseType,
    pub sentence: Sentence,
    pub race: Race,
    pub age_admission: Age,
    pub time_served: TimeServed,
    pub release_type: ReleaseType,
    pub education: Education,
    pub admission_year: u16,
    pub release_year: u16,
    pub mandatory_release_year: u16,
    pub projected_release_year: u16,
    pub parole_eligibility_year: u16,
    pub offense_detailed_type: OffenseDetailedType,
    pub age_release: Age,
    pub state: State,
}

/// Whether column `i` of the field sequence `fs` is present and decodes.
pub open spec fn field_ok(fs: Seq<Seq<u8>>, i: int) -> bool {
    i < fs.len() && {
        if i == 0 {
            Sex::decode_spec(fs[i]) is Some
        } else if i == 1 {
            AdmissionType::decode_spec(fs[i]) is Some
        } else if i == 2 {
            OffenseType::decode_spec(fs[i]) is Some
        } else if i == 3 {
            Education::decode_spec(fs[i]) is Some
        } else if is_year_column(i) {
            u16_decode_spec(fs[i]) is Some
        } else if i == 9 {
            Sentence::decode_spec(fs[i]) is Some
        } else if i == 10 {
            OffenseDetailedType::decode_spec(fs[i]) is Some
        } else if i == 11 {
            Race::decode_spec(fs[i]) is Some
        } else if i == 12 || i == 13 {
            Age::decode_spec(fs[i]) is Some
        } else if i == 14 {
            TimeServed::decode_spec(fs[i]) is Some
        } else if i == 15 {
            ReleaseType::decode_spec(fs[i]) is Some
        } else {
            State::decode_spec(fs[i]) is Some
        }
    }
}


/// The record decoded from `fs`, meaningful when [`parse_ok`] holds.
#[verifier::opaque]
pub open spec fn record_from(fs: Seq<Seq<u8>>) -> Record {
    Record {
        sex: Sex::decode_spec(fs[0]).unwrap(),
        admission_type: AdmissionType::decode_spec(fs[1]).unwrap(),
        offense_type: OffenseType::decode_spec(fs[2]).unwrap(),
        education: Education::decode_spec(fs[3]).unwrap(),
        admission_year: u16_decode_spec(fs[4]).unwrap(),
        release_year: u16_decode_spec(fs[5]).unwrap(),
        mandatory_release_year: u16_decode_spec(fs[6]).unwrap(),
        projected_release_year: u16_decode_spec(fs[7]).unwrap(),
        parole_eligibility_year: u16_decode_spec(fs[8]).unwrap(),
        sentence: Sentence::decode_spec(fs[9]).unwrap(),
        offense_detailed_type: OffenseDetailedType::decode_spec(fs[10]).unwrap(),
        race: Race::decode_spec(fs[11]).unwrap(),
        age_admission: Age::decode_spec(fs[12]).unwrap(),
        age_release: Age::decode_spec(fs[13]).unwrap(),
        time_served: TimeServed::decode_spec(fs[14]).unwrap(),
        release_type: ReleaseType::decode_spec(fs[15]).unwrap(),
        state: State::decode_spec(fs[16]).unwrap(),
    }
}

/// The first column of `fs` that fails to decode, or the field count when
/// all decode.
pub open spec fn first_bad(fs: Seq<Seq<u8>>) -> int {
    if !field_ok(fs, 0) {
        0
    } else if !field_ok(fs, 1) {
        1
    } else if !field_ok(fs, 2) {
        2
    } else if !field_ok(fs, 3) {
        3
    } else if !field_ok(fs, 4) {
        4
    } else if !field_ok(fs, 5) {
        5
    } else if !field_ok(fs, 6) {
        6
    } else if !field_ok(fs, 7) {
        7
    } else if !field_ok(fs, 8) {
        8
    } else if !field_ok(fs, 9) {
        9
    } else if !field_ok(fs, 10) {
        10
    } else if !field_ok(fs, 11) {
        11
    } else if !field_ok(fs, 12) {
        12
    } else if !field_ok(fs, 13) {
        13
    } else if !field_ok(fs, 14) {
        14
    } else if !field_ok(fs, 15) {
        15
    } else if !field_ok(fs, 16) {
        16
    } else {
        17
    }
}

/// Whether a whole record decodes from the field sequence `fs`: no column
/// fails, so the first failure index is the field count itself.
#[verifier::opaque]
pub open spec fn parse_ok(fs: Seq<Seq<u8>>) -> bool {
    first_bad(fs) == RECORD_FIELD_COUNT
}

/// Whether `e` correctly describes the first decode failure of `fs`: it
/// names the first failing field, carries that field's raw bytes when the
/// column is present, and distinguishes a malformed number from an unknown
/// categorical code.
#[verifier::opaque]
pub open spec fn error_describes(fs: Seq<Seq<u8>>, e: FieldDecodeError) -> bool {
    let j = first_bad(fs);
    match e {
        FieldDecodeError::MissingField { field } => j >= fs.len() && field == field_at(j),
        FieldDecodeError::UnknownCode { field, raw } => j < fs.len() && !is_year_column(j)
            && field == field_at(j) && raw@ == fs[j],
        FieldDecodeError::BadNumber { field, raw } => j < fs.len() && is_year_column(j)
            && field == field_at(j) && raw@ == fs[j],
    }
}

impl Record {
    /// Decode one record from the byte-string columns of a line, subject
    /// identifier already stripped; extra columns beyond the seventeenth
    /// are ignored.  Succeeds exactly when every column is present and
    /// decodes; otherwise reports the first failure.
    pub fn parse(fields: &Vec<Vec<u8>>) -> (r: Result<Record, FieldDecodeError>)
        ensures
            r is Ok <==> parse_ok(views(fields@)),
            r matches Ok(rec) ==> rec == record_from(views(fields@)),
            r matches Err(e) ==> error_describes(views(fields@), e),
    {
        let ghost fs = views(fields@);
        let n = fields.len();
        proof {
            reveal(parse_ok);
            reveal(record_from);
            reveal(error_describes);
            assert(fs.len() == fields@.len());
            assert forall|i: int| 0 <= i < fields@.len() implies fs[i] == fields@[i]@ by {}
        }

        if n <= 0 {
            return Err(FieldDecodeError::MissingField { field: Field::Sex });
        }
        let sex = match Sex::decode(fields[0].as_slice()) {
            Some(v) => v,
            None => {
                return Err(
                    FieldDecodeError::UnknownCode { field: Field::Sex, raw: copy_bytes(&fields[0]) },
                );
            },
        };
        if n <= 1 {
            return Err(FieldDecodeError::MissingField { field: Field::AdmissionType });
        }
        let admission_type = match AdmissionType::decode(fields[1].as_slice()) {
            Some(v) => v,
            None => {
                return Err(
                    FieldDecodeError::UnknownCode {
                        field: Field::AdmissionType,
                        raw: copy_bytes(&fields[1]),
                    },
                );
            },
        };
        if n <= 2 {
            return Err(FieldDecodeError::MissingField { field: Field::OffenseType });
        }
        let offense_type = match OffenseType::decode(fields[2].as_slice()) {
            Some(v) => v,
            None => {
                return Err(
                    FieldDecodeError::UnknownCode {
                        field: Field::OffenseType,
                        raw: copy_bytes(&fields[2]),
                    },
                );
            },
        };
        if n <= 3 {
            return Err(FieldDecodeError::MissingField { field: Field::Education });
        }
        let education = match Education::decode(fields[3].as_slice()) {
            Some(v) => v,
            None => {
                return Err(
                    FieldDecodeError::UnknownCode {
                        field: Field::Education,
                        raw: copy_bytes(&fields[3]),
                    },
                );
            },
        };
        if n <= 4 {
            return Err(FieldDecodeError::MissingField { field: Field::AdmissionYear });
        }
        let admission_year = match parse_u16(fields[4].as_slice()) {
            Some(v) => v,
            None => {
                return Err(
                    FieldDecodeError::BadNumber {
                        field: Field::AdmissionYear,
                        raw: copy_bytes(&fields[4]),
                    },
                );
            },
        };
        if n <= 5 {
            return Err(FieldDecodeError::MissingField { field: Field::ReleaseYear });
        }
        let release_year = match parse_u16(fields[5].as_slice()) {
            Some(v) => v,
            None => {
                return Err(
                    FieldDecodeError::BadNumber {
                        field: Field::ReleaseYear,
                        raw: copy_bytes(&fields[5]),
                    },
                );
            },
        };
        if n <= 6 {
            return Err(FieldDecodeError::MissingField { field: Field::MandatoryReleaseYear });
        }
        let mandatory_release_year = match parse_u16(fields[6].as_slice()) {
            Some(v) => v,
            None => {
                return Err(
                    FieldDecodeError::BadNumber {
                        field: Field::MandatoryReleaseYear,
                        raw: copy_bytes(&fields[6]),
                    },
                );
            },
        };
        if n <= 7 {
            return Err(FieldDecodeError::MissingField { field: Field::ProjectedReleaseYear });
        }
        let projected_release_year = match parse_u16(fields[7].as_slice()) {
            Some(v) => v,
            None => {
                return Err(
                    FieldDecodeError::BadNumber {
                        field: Field::ProjectedReleaseYear,
                        raw: copy_bytes(&fields[7]),
                    },
                );
            },
        };
        if n <= 8 {
            return Err(FieldDecodeError::MissingField { field: Field::ParoleEligibilityYear });
        }
        let parole_eligibility_year = match parse_u16(fields[8].as_slice()) {
            Some(v) => v,
            None => {
                return Err(
                    FieldDecodeError::BadNumber {
                        field: Field::ParoleEligibilityYear,
                        raw: copy_bytes(&fields[8]),
                    },
                );
            },
        };
        if n <= 9 {
            return Err(FieldDecodeError::MissingField { field: Field::Sentence });
        }
        let sentence = match Sentence::decode(fields[9].as_slice()) {
            Some(v) => v,
            None => {
                return Err(
                    FieldDecodeError::UnknownCode {
                        field: Field::Sentence,
                        raw: copy_bytes(&fields[9]),
                    },
                );
            },
        };
        if n <= 10 {
            return Err(FieldDecodeError::MissingField { field: Field::OffenseDetailedType });
        }
        let offense_detailed_type = match OffenseDetailedType::decode(fields[10].as_slice()) {
            Some(v) => v,
            None => {
                return Err(
                    FieldDecodeError::UnknownCode {
                        field: Field::OffenseDetailedType,
                        raw: copy_bytes(&fields[10]),
                    },
                );
            },
        };
        if n <= 11 {
            return Err(FieldDecodeError::MissingField { field: Field::Race });
        }
        let race = match Race::decode(fields[11].as_slice()) {
            Some(v) => v,
            None => {
                return Err(
                    FieldDecodeError::UnknownCode { field: Field::Race, raw: copy_bytes(&fields[11]) },
                );
            },
        };
        if n <= 12 {
            return Err(FieldDecodeError::MissingField { field: Field::AgeAdmission });
        }
        let age_admission = match Age::decode(fields[12].as_slice()) {
            Some(v) => v,
            None => {
                return Err(
                    FieldDecodeError::UnknownCode {
                        field: Field::AgeAdmission,
                        raw: copy_bytes(&fields[12]),
                    },
                );
            },
        };
        if n <= 13 {
            return Err(FieldDecodeError::MissingField { field: Field::AgeRelease });
        }
        let age_release = match Age::decode(fields[13].as_slice()) {
            Some(v) => v,
            None => {
                return Err(
                    FieldDecodeError::UnknownCode {
                        field: Field::AgeRelease,
                        raw: copy_bytes(&fields[13]),
                    },
                );
            },
        };
        if n <= 14 {
            return Err(FieldDecodeError::MissingField { field: Field::TimeServed });
        }
        let time_served = match TimeServed::decode(fields[14].as_slice()) {
            Some(v) => v,
            None => {
                return Err(
                    FieldDecodeError::UnknownCode {
                        field: Field::TimeServed,
                        raw: copy_bytes(&fields[14]),
                    },
                );
            },
        };
        if n <= 15 {
            return Err(FieldDecodeError::MissingField { field: Field::ReleaseType });
        }
        let release_type = match ReleaseType::decode(fields[15].as_slice()) {
            Some(v) => v,
            None => {
                return Err(
                    FieldDecodeError::UnknownCode {
                        field: Field::ReleaseType,
                        raw: copy_bytes(&fields[15]),
                    },
                );
            },
        };
        if n <= 16 {
            return Err(FieldDecodeError::MissingField { field: Field::State });
        }
        let state = match State::decode(fields[16].as_slice()) {
            Some(v) => v,
            None => {
                return Err(
                    FieldDecodeError::UnknownCode { field: Field::State, raw: copy_bytes(&fields[16]) },
                );
            },
        };

        proof {
            assert(first_bad(fs) == 17);
        }
        Ok(
            Record {
                sex,
                admission_type,
                offense_type,
                sentence,
                race,
                age_admission,
                time_served,
                release_type,
                education,
                admission_year,
                release_year,
                mandatory_release_year,
                projected_release_year,
                parole_eligibility_year,
                offense_detailed_type,
                age_release,
                state,
            },
        )
    }
}

} // verus!
