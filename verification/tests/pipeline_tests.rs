//! Whole-pipeline and aggregation tests: frequency tables count exactly
//! the accepted records, percentages computed from them sum to one
//! hundred, results sort by descending support, and a small end-to-end
//! input with one bad line yields two accepted records and one skip.

use analyzer::distribution::Distribution;
use analyzer::itemset::ItemSet;
use analyzer::mining::sort_by_support;
use analyzer::options::Options;
use analyzer::pipeline::{read_records, split_fields, RawLineSplitter};
use analyzer::record::{Field, FieldDecodeError, Record};
use analyzer::schema::{
    AdmissionType, Age, Education, OffenseDetailedType, OffenseType, Race, ReleaseType,
    Sentence, Sex, State, TimeServed,
};

fn record(sex: Sex, race: Race, year: u16) -> Record {
    Record {
        sex,
        admission_type: AdmissionType::New,
        offense_type: OffenseType::Violent,
        sentence: Sentence::Years5To10,
        race,
        age_admission: Age::Age25To34,
        time_served: TimeServed::Years2To5,
        release_type: ReleaseType::Conditional,
        education: Education::Missing,
        admission_year: year,
        release_year: 0,
        mandatory_release_year: 0,
        projected_release_year: 0,
        parole_eligibility_year: 0,
        offense_detailed_type: OffenseDetailedType::Robbery,
        age_release: Age::Age25To34,
        state: State::Florida,
    }
}

#[test]
fn line_splitter_reads_lines_without_their_line_feeds() {
    let mut s = RawLineSplitter::new(b"ab\ncd\n".to_vec());
    assert_eq!(s.read_line(), Some(b"ab".to_vec()));
    assert_eq!(s.read_line(), Some(b"cd".to_vec()));
    assert_eq!(s.read_line(), None);
    // An unterminated final line comes back whole.
    let mut s = RawLineSplitter::new(b"ab\ncd".to_vec());
    assert_eq!(s.read_line(), Some(b"ab".to_vec()));
    assert_eq!(s.read_line(), Some(b"cd".to_vec()));
    assert_eq!(s.read_line(), None);
    // An empty line is just a line feed.
    let mut s = RawLineSplitter::new(b"\nx\n".to_vec());
    assert_eq!(s.read_line(), Some(b"".to_vec()));
    assert_eq!(s.read_line(), Some(b"x".to_vec()));
    assert_eq!(s.read_line(), None);
}

#[test]
fn fields_split_at_tabs() {
    assert_eq!(split_fields(&b"a\tbc\t\td".to_vec()), vec![
        b"a".to_vec(),
        b"bc".to_vec(),
        b"".to_vec(),
        b"d".to_vec(),
    ]);
    assert_eq!(split_fields(&b"".to_vec()), vec![b"".to_vec()]);
}

#[test]
fn distribution_counts_every_field() {
    let mut d = Distribution::new();
    let records = [
        record(Sex::Male, Race::White, 2000),
        record(Sex::Male, Race::Black, 2001),
        record(Sex::Female, Race::White, 2000),
    ];
    for r in records.iter() {
        d.insert(r);
    }
    assert_eq!(d.total_records, 3);
    assert_eq!(d.sex[Sex::Male.index()], 2);
    assert_eq!(d.sex[Sex::Female.index()], 1);
    assert_eq!(d.race[Race::White.index()], 2);
    assert_eq!(d.race[Race::Black.index()], 1);
    assert_eq!(d.race[Race::Hispanic.index()], 0);
    assert_eq!(d.admission_year[2000], 2);
    assert_eq!(d.admission_year[2001], 1);
    assert_eq!(d.admission_type[AdmissionType::New.index()], 3);
    assert_eq!(d.state[State::Florida.index()], 3);
    assert_eq!(d.education[Education::Missing.index()], 3);
}

#[test]
fn distribution_percentages_sum_to_one_hundred() {
    let mut d = Distribution::new();
    for k in 0..7u16 {
        let race = if k % 3 == 0 {
            Race::White
        } else if k % 3 == 1 {
            Race::Black
        } else {
            Race::Hispanic
        };
        d.insert(&record(Sex::Male, race, 2000 + k));
    }
    let total = d.total_records as f64;
    let sum: f64 = d.race.iter().map(|&c| (c as f64 * 100.0) / total).sum();
    assert!((sum - 100.0).abs() < 1e-9);
}

#[test]
fn sort_by_support_is_descending_and_keeps_pairs() {
    let mut a = ItemSet::empty();
    a.add(1);
    let mut b = ItemSet::empty();
    b.add(2);
    let mut c = ItemSet::empty();
    c.add(3);
    let sorted = sort_by_support(vec![(a, 2), (b, 9), (c, 4)]);
    let supports: Vec<usize> = sorted.iter().map(|p| p.1).collect();
    assert_eq!(supports, vec![9, 4, 2]);
    assert!(sorted.contains(&(a, 2)));
    assert!(sorted.contains(&(b, 9)));
    assert!(sorted.contains(&(c, 4)));
    assert_eq!(sort_by_support(Vec::new()), Vec::new());
}

/// One data line: identifier then seventeen columns.
fn line(id: &str, race: &str, year: &str) -> String {
    format!(
        "{}\t1\t1\t1\t9\t{}\t0\t0\t0\t0\t3\t4\t{}\t2\t2\t2\t1\t12",
        id, year, race
    )
}

#[test]
fn end_to_end_counts_two_accepted_and_one_skip() {
    let mut input = String::from("header line is not examined\n");
    input.push_str(&line("a", "1", "2005"));
    input.push('\n');
    input.push_str(&line("b", "8", "2006"));  // unknown race code
    input.push('\n');
    input.push_str(&line("c", "2", "2007"));
    input.push('\n');
    let out = read_records(input.into_bytes(), &Options::none());
    assert_eq!(out.records.len(), 2);
    assert_eq!(out.skipped.len(), 1);
    assert_eq!(out.skipped[0].0, 2);
    assert_eq!(
        out.skipped[0].1,
        FieldDecodeError::UnknownCode { field: Field::Race, raw: b"8".to_vec() },
    );
    assert_eq!(out.distribution.total_records, 2);
    assert_eq!(out.records[0].admission_year, 2005);
    assert_eq!(out.records[1].admission_year, 2007);
}

#[test]
fn end_to_end_recidivist_mode_withholds_earliest() {
    let mut input = String::from("header\n");
    for (id, year) in [("s", "2005"), ("s", "2001"), ("s", "2009"), ("t", "1999")] {
        input.push_str(&line(id, "1", year));
        input.push('\n');
    }
    let mut opts = Options::none();
    opts.recidivists = true;
    let out = read_records(input.into_bytes(), &opts);
    let years: Vec<u16> = out.records.iter().map(|r| r.admission_year).collect();
    assert_eq!(years, vec![2005, 2009]);
    assert_eq!(out.distribution.total_records, 2);
    assert!(out.skipped.is_empty());
}

#[test]
fn end_to_end_validity_filter_drops_missing_race() {
    let mut input = String::from("header\n");
    input.push_str(&line("a", "9", "2005"));  // race missing: decodes, not accepted
    input.push('\n');
    input.push_str(&line("b", "2", "2006"));
    input.push('\n');
    let out = read_records(input.into_bytes(), &Options::none());
    assert_eq!(out.records.len(), 1);
    assert_eq!(out.records[0].race, Race::Black);
    assert!(out.skipped.is_empty());
    assert_eq!(out.distribution.total_records, 1);
    assert_eq!(out.distribution.race[Race::Missing.index()], 0);
}

#[test]
fn end_to_end_unterminated_final_line_is_kept_whole() {
    let mut input = String::from("header\n");
    input.push_str(&line("a", "1", "2005"));
    input.push('\n');
    input.push_str(&line("b", "2", "2006"));  // no trailing line feed
    let out = read_records(input.into_bytes(), &Options::none());
    assert_eq!(out.records.len(), 2);
    assert!(out.skipped.is_empty());
    // The final column of the final record is intact.
    assert_eq!(out.records[1].state, analyzer::schema::State::Florida);
}

#[test]
fn end_to_end_empty_input() {
    let out = read_records(Vec::new(), &Options::none());
    assert!(out.records.is_empty());
    assert!(out.skipped.is_empty());
    assert_eq!(out.distribution.total_records, 0);
}

#[test]
fn end_to_end_attribute_filter() {
    let mut input = String::from("header\n");
    input.push_str(&line("a", "1", "2005"));  // white
    input.push('\n');
    input.push_str(&line("b", "2", "2006"));  // black
    input.push('\n');
    let mut opts = Options::none();
    opts.race = Some(Race::Black);
    let out = read_records(input.into_bytes(), &opts);
    assert_eq!(out.records.len(), 1);
    assert_eq!(out.records[0].race, Race::Black);
}
