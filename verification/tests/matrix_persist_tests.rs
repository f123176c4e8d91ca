//! Matrix assembly and persistence tests: the transposed matrix holds
//! exactly the encoded bits, and the byte round trip is exact for the
//! all-zero, all-one and mixed matrices, while malformed bytes fail with
//! the right error.

use analyzer::itemset::{encode, ONEHOT_WIDTH};
use analyzer::matrix::{encode_records, BitMatrix};
use analyzer::persist::{load_matrix, save_matrix, PersistenceError};
use analyzer::record::Record;
use analyzer::schema::{
    AdmissionType, Age, Education, OffenseDetailedType, OffenseType, Race, ReleaseType,
    Sentence, Sex, State, TimeServed,
};

fn record(sex: Sex, race: Race) -> Record {
    Record {
        sex,
        admission_type: AdmissionType::New,
        offense_type: OffenseType::Property,
        sentence: Sentence::Years1To2,
        race,
        age_admission: Age::Age18To24,
        time_served: TimeServed::Years0To1,
        release_type: ReleaseType::Unconditional,
        education: Education::Missing,
        admission_year: 2000,
        release_year: 2001,
        mandatory_release_year: 0,
        projected_release_year: 0,
        parole_eligibility_year: 0,
        offense_detailed_type: OffenseDetailedType::Larceny,
        age_release: Age::Age18To24,
        state: State::Ohio,
    }
}

fn matrix(rows: Vec<Vec<bool>>, transactions: usize) -> BitMatrix {
    BitMatrix { items: rows.len(), transactions, rows }
}

#[test]
fn encode_records_transposes_the_encodings() {
    let records = vec![record(Sex::Male, Race::White), record(Sex::Female, Race::Black)];
    let m = encode_records(&records);
    assert_eq!(m.items, ONEHOT_WIDTH);
    assert_eq!(m.transactions, 2);
    for (j, r) in records.iter().enumerate() {
        let code = encode(r);
        for i in 0..ONEHOT_WIDTH {
            assert_eq!(m.get(i, j), code.contains(i));
        }
    }
}

#[test]
fn encode_records_of_nothing_is_empty() {
    let m = encode_records(&Vec::new());
    assert_eq!(m.items, ONEHOT_WIDTH);
    assert_eq!(m.transactions, 0);
}

#[test]
fn round_trip_all_zero() {
    let m = matrix(vec![vec![false; 17]; 5], 17);
    let loaded = load_matrix(&save_matrix(&m)).unwrap();
    assert_eq!(loaded, m);
}

#[test]
fn round_trip_all_one() {
    let m = matrix(vec![vec![true; 9]; 4], 9);
    let loaded = load_matrix(&save_matrix(&m)).unwrap();
    assert_eq!(loaded, m);
}

#[test]
fn round_trip_mixed_and_unaligned() {
    // Deterministic, byte-boundary-unfriendly dimensions.
    let mut rows: Vec<Vec<bool>> = Vec::new();
    for i in 0..7 {
        let mut row: Vec<bool> = Vec::new();
        for j in 0..13 {
            row.push((i * 5 + j * 3) % 4 == 1);
        }
        rows.push(row);
    }
    let m = matrix(rows, 13);
    let loaded = load_matrix(&save_matrix(&m)).unwrap();
    assert_eq!(loaded, m);
}

#[test]
fn round_trip_degenerate_dimensions() {
    let m = matrix(Vec::new(), 0);
    assert_eq!(load_matrix(&save_matrix(&m)).unwrap(), m);
    let m = matrix(vec![Vec::new(); 3], 0);
    assert_eq!(load_matrix(&save_matrix(&m)).unwrap(), m);
    let m = matrix(vec![vec![true]], 1);
    assert_eq!(load_matrix(&save_matrix(&m)).unwrap(), m);
}

#[test]
fn round_trip_assembled_matrix() {
    let records = vec![
        record(Sex::Male, Race::White),
        record(Sex::Female, Race::Hispanic),
        record(Sex::Male, Race::Other),
    ];
    let m = encode_records(&records);
    assert_eq!(load_matrix(&save_matrix(&m)).unwrap(), m);
}

#[test]
fn load_rejects_short_header() {
    assert_eq!(load_matrix(&Vec::new()).unwrap_err(), PersistenceError::Truncated);
    assert_eq!(load_matrix(&vec![0u8; 15]).unwrap_err(), PersistenceError::Truncated);
}

#[test]
fn load_rejects_truncated_body() {
    let m = matrix(vec![vec![true; 9]; 4], 9);
    let mut bytes = save_matrix(&m);
    bytes.pop();
    assert_eq!(load_matrix(&bytes).unwrap_err(), PersistenceError::LengthMismatch);
}

#[test]
fn load_rejects_trailing_bytes() {
    let m = matrix(vec![vec![false; 3]; 2], 3);
    let mut bytes = save_matrix(&m);
    bytes.push(0);
    assert_eq!(load_matrix(&bytes).unwrap_err(), PersistenceError::LengthMismatch);
}

#[test]
fn load_rejects_absurd_dimensions() {
    // The largest representable item count with one byte per row could
    // never fit in sixteen header bytes plus a body.
    let mut bytes = vec![0u8; 16];
    for b in bytes.iter_mut().take(8) {
        *b = 0xff;
    }
    bytes[8] = 8;
    let r = load_matrix(&bytes).unwrap_err();
    assert!(
        r == PersistenceError::DimensionsTooLarge || r == PersistenceError::LengthMismatch
    );
}
