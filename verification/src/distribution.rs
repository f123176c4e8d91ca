//! Running frequency tables over the accepted records: one counter per
//! observed value of every tracked field, plus the total record count.
//! Counters only ever grow, by one record at a time; the year fields are
//! counted over the full sixteen-bit year domain.

use vstd::prelude::*;
use vstd::pervasive::VecAdditionalExecFns;

use crate::record::Record;
use crate::schema::{
    ADMISSION_TYPE_COUNT, AGE_COUNT, EDUCATION_COUNT, OFFENSE_DETAILED_TYPE_COUNT,
    OFFENSE_TYPE_COUNT, RACE_COUNT, RELEASE_TYPE_COUNT, SENTENCE_COUNT, SEX_COUNT, STATE_COUNT,
    TIME_SERVED_COUNT,
};

verus! {

/// Size of a year counter table: one slot per sixteen-bit year value.
pub const YEAR_SLOTS: usize = 65536;

/// How many records of `rs` satisfy `p`.
pub open spec fn count_where(rs: Seq<Record>, p: spec_fn(Record) -> bool) -> int
    decreases rs.len(),
{
    if rs.len() == 0 {
        0
    } else {
        count_where(rs.drop_last(), p) + if p(rs.last()) {
            1int
        } else {
            0int
        }
    }
}

/// Appending one record raises exactly the matching counts by one.
pub proof fn lemma_count_where_push(rs: Seq<Record>, p: spec_fn(Record) -> bool, r: Record)
    ensures
        count_where(rs.push(r), p) == count_where(rs, p) + if p(r) {
            1int
        } else {
            0int
        },
{
    assert(rs.push(r).drop_last() =~= rs);
    assert(rs.push(r).last() == r);
}

/// A count never exceeds the length counted over.
pub proof fn lemma_count_where_le_len(rs: Seq<Record>, p: spec_fn(Record) -> bool)
    ensures
        0 <= count_where(rs, p) <= rs.len(),
    decreases rs.len(),
{
    if rs.len() > 0 {
        lemma_count_where_le_len(rs.drop_last(), p);
    }
}


/// The records whose sex has ordinal `i`.
pub open spec fn sex_is(i: int) -> spec_fn(Record) -> bool {
    |r: Record| r.sex.index_spec() == i
}

/// The records whose admission type has ordinal `i`.
pub open spec fn admission_type_is(i: int) -> spec_fn(Record) -> bool {
    |r: Record| r.admission_type.index_spec() == i
}

/// The records whose offense type has ordinal `i`.
pub open spec fn offense_type_is(i: int) -> spec_fn(Record) -> bool {
    |r: Record| r.offense_type.index_spec() == i
}

/// The records whose education has ordinal `i`.
pub open spec fn education_is(i: int) -> spec_fn(Record) -> bool {
    |r: Record| r.education.index_spec() == i
}

/// The records admitted in year `i`.
pub open spec fn admission_year_is(i: int) -> spec_fn(Record) -> bool {
    |r: Record| r.admission_year == i
}

/// The records released in year `i`.
pub open spec fn release_year_is(i: int) -> spec_fn(Record) -> bool {
    |r: Record| r.release_year == i
}

/// The records with mandatory release year `i`.
pub open spec fn mandatory_release_year_is(i: int) -> spec_fn(Record) -> bool {
    |r: Record| r.mandatory_release_year == i
}

/// The records with projected release year `i`.
pub open spec fn projected_release_year_is(i: int) -> spec_fn(Record) -> bool {
    |r: Record| r.projected_release_year == i
}

/// The records with parole eligibility year `i`.
pub open spec fn parole_eligibility_year_is(i: int) -> spec_fn(Record) -> bool {
    |r: Record| r.parole_eligibility_year == i
}

/// The records whose sentence bracket has ordinal `i`.
pub open spec fn sentence_is(i: int) -> spec_fn(Record) -> bool {
    |r: Record| r.sentence.index_spec() == i
}

/// The records whose detailed offense has ordinal `i`.
pub open spec fn offense_detailed_type_is(i: int) -> spec_fn(Record) -> bool {
    |r: Record| r.offense_detailed_type.index_spec() == i
}

/// The records whose race has ordinal `i`.
pub open spec fn race_is(i: int) -> spec_fn(Record) -> bool {
    |r: Record| r.race.index_spec() == i
}

/// The records whose admission age bracket has ordinal `i`.
pub open spec fn age_admission_is(i: int) -> spec_fn(Record) -> bool {
    |r: Record| r.age_admission.index_spec() == i
}

/// The records whose release age bracket has ordinal `i`.
pub open spec fn age_release_is(i: int) -> spec_fn(Record) -> bool {
    |r: Record| r.age_release.index_spec() == i
}

/// The records whose time-served bracket has ordinal `i`.
pub open spec fn time_served_is(i: int) -> spec_fn(Record) -> bool {
    |r: Record| r.time_served.index_spec() == i
}

/// The records whose release type has ordinal `i`.
pub open spec fn release_type_is(i: int) -> spec_fn(Record) -> bool {
    |r: Record| r.release_type.index_spec() == i
}

/// The records whose state has ordinal `i`.
pub open spec fn state_is(i: int) -> spec_fn(Record) -> bool {
    |r: Record| r.state.index_spec() == i
}

/// The frequency tables of one run, over the accepted record set.
#[derive(Clone, Debug, PartialEq, Eq)]
pub struct Distribution {
    pub total_records: usize,
    pub sex: Vec<usize>,
    pub admission_type: Vec<usize>,
    pub offense_type: Vec<usize>,
    pub education: Vec<usize>,
    pub admission_year: Vec<usize>,
    pub release_year: Vec<usize>,
    pub mandatory_release_year: Vec<usize>,
    pub projected_release_year: Vec<usize>,
    pub parole_eligibility_year: Vec<usize>,
    pub sentence: Vec<usize>,
    pub offense_detailed_type: Vec<usize>,
    pub race: Vec<usize>,
    pub age_admission: Vec<usize>,
    pub age_release: Vec<usize>,
    pub time_served: Vec<usize>,
    pub release_type: Vec<usize>,
    pub state: Vec<usize>,
}

/// How `post` relates to `pre` after one record `r` is inserted: the total
/// and exactly one counter per tracked field are one higher.
pub open spec fn insert_rel(pre: Distribution, post: Distribution, r: Record) -> bool {
    &&& post.total_records == pre.total_records + 1
    &&& post.sex@ == pre.sex@.update(
        r.sex.index_spec(),
        (pre.sex@[r.sex.index_spec()] + 1) as usize,
    )
    &&& post.admission_type@ == pre.admission_type@.update(
        r.admission_type.index_spec(),
        (pre.admission_type@[r.admission_type.index_spec()] + 1) as usize,
    )
    &&& post.offense_type@ == pre.offense_type@.update(
        r.offense_type.index_spec(),
        (pre.offense_type@[r.offense_type.index_spec()] + 1) as usize,
    )
    &&& post.education@ == pre.education@.update(
        r.education.index_spec(),
        (pre.education@[r.education.index_spec()] + 1) as usize,
    )
    &&& post.admission_year@ == pre.admission_year@.update(
        r.admission_year as int,
        (pre.admission_year@[r.admission_year as int] + 1) as usize,
    )
    &&& post.release_year@ == pre.release_year@.update(
        r.release_year as int,
        (pre.release_year@[r.release_year as int] + 1) as usize,
    )
    &&& post.mandatory_release_year@ == pre.mandatory_release_year@.update(
        r.mandatory_release_year as int,
        (pre.mandatory_release_year@[r.mandatory_release_year as int] + 1) as usize,
    )
    &&& post.projected_release_year@ == pre.projected_release_year@.update(
        r.projected_release_year as int,
        (pre.projected_release_year@[r.projected_release_year as int] + 1) as usize,
    )
    &&& post.parole_eligibility_year@ == pre.parole_eligibility_year@.update(
        r.parole_eligibility_year as int,
        (pre.parole_eligibility_year@[r.parole_eligibility_year as int] + 1) as usize,
    )
    &&& post.sentence@ == pre.sentence@.update(
        r.sentence.index_spec(),
        (pre.sentence@[r.sentence.index_spec()] + 1) as usize,
    )
    &&& post.offense_detailed_type@ == pre.offense_detailed_type@.update(
        r.offense_detailed_type.index_spec(),
        (pre.offense_detailed_type@[r.offense_detailed_type.index_spec()] + 1) as usize,
    )
    &&& post.race@ == pre.race@.update(
        r.race.index_spec(),
        (pre.race@[r.race.index_spec()] + 1) as usize,
    )
    &&& post.age_admission@ == pre.age_admission@.update(
        r.age_admission.index_spec(),
        (pre.age_admission@[r.age_admission.index_spec()] + 1) as usize,
    )
    &&& post.age_release@ == pre.age_release@.update(
        r.age_release.index_spec(),
        (pre.age_release@[r.age_release.index_spec()] + 1) as usize,
    )
    &&& post.time_served@ == pre.time_served@.update(
        r.time_served.index_spec(),
        (pre.time_served@[r.time_served.index_spec()] + 1) as usize,
    )
    &&& post.release_type@ == pre.release_type@.update(
        r.release_type.index_spec(),
        (pre.release_type@[r.release_type.index_spec()] + 1) as usize,
    )
    &&& post.state@ == pre.state@.update(
        r.state.index_spec(),
        (pre.state@[r.state.index_spec()] + 1) as usize,
    )
}

/// Whether `d`'s tables have their fixed sizes: one slot per variant of
/// each categorical field, one per sixteen-bit year value.
pub open spec fn shape(d: Distribution) -> bool {
    &&& d.sex@.len() == SEX_COUNT
    &&& d.admission_type@.len() == ADMISSION_TYPE_COUNT
    &&& d.offense_type@.len() == OFFENSE_TYPE_COUNT
    &&& d.education@.len() == EDUCATION_COUNT
    &&& d.admission_year@.len() == YEAR_SLOTS
    &&& d.release_year@.len() == YEAR_SLOTS
    &&& d.mandatory_release_year@.len() == YEAR_SLOTS
    &&& d.projected_release_year@.len() == YEAR_SLOTS
    &&& d.parole_eligibility_year@.len() == YEAR_SLOTS
    &&& d.sentence@.len() == SENTENCE_COUNT
    &&& d.offense_detailed_type@.len() == OFFENSE_DETAILED_TYPE_COUNT
    &&& d.race@.len() == RACE_COUNT
    &&& d.age_admission@.len() == AGE_COUNT
    &&& d.age_release@.len() == AGE_COUNT
    &&& d.time_served@.len() == TIME_SERVED_COUNT
    &&& d.release_type@.len() == RELEASE_TYPE_COUNT
    &&& d.state@.len() == STATE_COUNT
}

/// Whether no counter of `d` exceeds the total record count.
pub open spec fn counters_bounded(d: Distribution) -> bool {
    &&& forall|i: int| 0 <= i < d.sex@.len() ==> (#[trigger] d.sex@[i]) <= d.total_records
    &&& forall|i: int|
        0 <= i < d.admission_type@.len() ==> (#[trigger] d.admission_type@[i])
            <= d.total_records
    &&& forall|i: int|
        0 <= i < d.offense_type@.len() ==> (#[trigger] d.offense_type@[i]) <= d.total_records
    &&& forall|i: int|
        0 <= i < d.education@.len() ==> (#[trigger] d.education@[i]) <= d.total_records
    &&& forall|i: int|
        0 <= i < d.admission_year@.len() ==> (#[trigger] d.admission_year@[i])
            <= d.total_records
    &&& forall|i: int|
        0 <= i < d.release_year@.len() ==> (#[trigger] d.release_year@[i]) <= d.total_records
    &&& forall|i: int|
        0 <= i < d.mandatory_release_year@.len() ==> (#[trigger] d.mandatory_release_year@[i])
            <= d.total_records
    &&& forall|i: int|
        0 <= i < d.projected_release_year@.len() ==> (#[trigger] d.projected_release_year@[i])
            <= d.total_records
    &&& forall|i: int|
        0 <= i < d.parole_eligibility_year@.len() ==> (#[trigger] d.parole_eligibility_year@[i])
            <= d.total_records
    &&& forall|i: int|
        0 <= i < d.sentence@.len() ==> (#[trigger] d.sentence@[i]) <= d.total_records
    &&& forall|i: int|
        0 <= i < d.offense_detailed_type@.len() ==> (#[trigger] d.offense_detailed_type@[i])
            <= d.total_records
    &&& forall|i: int| 0 <= i < d.race@.len() ==> (#[trigger] d.race@[i]) <= d.total_records
    &&& forall|i: int|
        0 <= i < d.age_admission@.len() ==> (#[trigger] d.age_admission@[i])
            <= d.total_records
    &&& forall|i: int|
        0 <= i < d.age_release@.len() ==> (#[trigger] d.age_release@[i]) <= d.total_records
    &&& forall|i: int|
        0 <= i < d.time_served@.len() ==> (#[trigger] d.time_served@[i]) <= d.total_records
    &&& forall|i: int|
        0 <= i < d.release_type@.len() ==> (#[trigger] d.release_type@[i]) <= d.total_records
    &&& forall|i: int| 0 <= i < d.state@.len() ==> (#[trigger] d.state@[i]) <= d.total_records
}

/// Whether the distribution `d` is exactly the frequency tables of the
/// record sequence `rs`: the total is the record count, and every counter
/// of every tracked field holds the number of records with that value.
pub open spec fn represents(d: Distribution, rs: Seq<Record>) -> bool {
    &&& d.total_records == rs.len()
    &&& shape(d)
    &&& forall|i: int|
        0 <= i < SEX_COUNT ==> (#[trigger] d.sex@[i]) == count_where(
            rs,
            sex_is(i),
        )
    &&& forall|i: int|
        0 <= i < ADMISSION_TYPE_COUNT ==> (#[trigger] d.admission_type@[i]) == count_where(
            rs,
            admission_type_is(i),
        )
    &&& forall|i: int|
        0 <= i < OFFENSE_TYPE_COUNT ==> (#[trigger] d.offense_type@[i]) == count_where(
            rs,
            offense_type_is(i),
        )
    &&& forall|i: int|
        0 <= i < EDUCATION_COUNT ==> (#[trigger] d.education@[i]) == count_where(
            rs,
            education_is(i),
        )
    &&& forall|i: int|
        0 <= i < YEAR_SLOTS ==> (#[trigger] d.admission_year@[i]) == count_where(
            rs,
            admission_year_is(i),
        )
    &&& forall|i: int|
        0 <= i < YEAR_SLOTS ==> (#[trigger] d.release_year@[i]) == count_where(
            rs,
            release_year_is(i),
        )
    &&& forall|i: int|
        0 <= i < YEAR_SLOTS ==> (#[trigger] d.mandatory_release_year@[i]) == count_where(
            rs,
            mandatory_release_year_is(i),
        )
    &&& forall|i: int|
        0 <= i < YEAR_SLOTS ==> (#[trigger] d.projected_release_year@[i]) == count_where(
            rs,
            projected_release_year_is(i),
        )
    &&& forall|i: int|
        0 <= i < YEAR_SLOTS ==> (#[trigger] d.parole_eligibility_year@[i]) == count_where(
            rs,
            parole_eligibility_year_is(i),
        )
    &&& forall|i: int|
        0 <= i < SENTENCE_COUNT ==> (#[trigger] d.sentence@[i]) == count_where(
            rs,
            sentence_is(i),
        )
    &&& forall|i: int|
        0 <= i < OFFENSE_DETAILED_TYPE_COUNT ==> (#[trigger] d.offense_detailed_type@[i])
            == count_where(rs, offense_detailed_type_is(i))
    &&& forall|i: int|
        0 <= i < RACE_COUNT ==> (#[trigger] d.race@[i]) == count_where(
            rs,
            race_is(i),
        )
    &&& forall|i: int|
        0 <= i < AGE_COUNT ==> (#[trigger] d.age_admission@[i]) == count_where(
            rs,
            age_admission_is(i),
        )
    &&& forall|i: int|
        0 <= i < AGE_COUNT ==> (#[trigger] d.age_release@[i]) == count_where(
            rs,
            age_release_is(i),
        )
    &&& forall|i: int|
        0 <= i < TIME_SERVED_COUNT ==> (#[trigger] d.time_served@[i]) == count_where(
            rs,
            time_served_is(i),
        )
    &&& forall|i: int|
        0 <= i < RELEASE_TYPE_COUNT ==> (#[trigger] d.release_type@[i]) == count_where(
            rs,
            release_type_is(i),
        )
    &&& forall|i: int|
        0 <= i < STATE_COUNT ==> (#[trigger] d.state@[i]) == count_where(
            rs,
            state_is(i),
        )
}

/// A vector of `n` zero counters.
fn zeros(n: usize) -> (r: Vec<usize>)
    ensures
        r@.len() == n,
        forall|i: int| 0 <= i < n ==> (#[trigger] r@[i]) == 0,
{
    let mut r: Vec<usize> = Vec::new();
    let mut i: usize = 0;
    while i < n
        invariant
            i <= n,
            r@.len() == i,
            forall|k: int| 0 <= k < i ==> (#[trigger] r@[k]) == 0,
        decreases n - i,
    {
        r.push(0);
        i = i + 1;
    }
    r
}

impl Distribution {
    /// Fresh tables: every counter zero, representing no records.
    pub fn new() -> (d: Distribution)
        ensures
            represents(d, Seq::empty()),
    {
        Distribution {
            total_records: 0,
            sex: zeros(SEX_COUNT),
            admission_type: zeros(ADMISSION_TYPE_COUNT),
            offense_type: zeros(OFFENSE_TYPE_COUNT),
            education: zeros(EDUCATION_COUNT),
            admission_year: zeros(YEAR_SLOTS),
            release_year: zeros(YEAR_SLOTS),
            mandatory_release_year: zeros(YEAR_SLOTS),
            projected_release_year: zeros(YEAR_SLOTS),
            parole_eligibility_year: zeros(YEAR_SLOTS),
            sentence: zeros(SENTENCE_COUNT),
            offense_detailed_type: zeros(OFFENSE_DETAILED_TYPE_COUNT),
            race: zeros(RACE_COUNT),
            age_admission: zeros(AGE_COUNT),
            age_release: zeros(AGE_COUNT),
            time_served: zeros(TIME_SERVED_COUNT),
            release_type: zeros(RELEASE_TYPE_COUNT),
            state: zeros(STATE_COUNT),
        }
    }

    /// Count one record into every tracked field's table.
    #[verifier::rlimit(60)]
    pub fn insert(&mut self, record: &Record)
        requires
            shape(*old(self)),
            counters_bounded(*old(self)),
            old(self).total_records < usize::MAX,
        ensures
            shape(*final(self)),
            counters_bounded(*final(self)),
            insert_rel(*old(self), *final(self), *record),
    {
        let i0 = record.sex.index();
        let c0 = self.sex[i0];
        self.sex.set(i0, c0 + 1);
        let i1 = record.admission_type.index();
        let c1 = self.admission_type[i1];
        self.admission_type.set(i1, c1 + 1);
        let i2 = record.offense_type.index();
        let c2 = self.offense_type[i2];
        self.offense_type.set(i2, c2 + 1);
        let i3 = record.education.index();
        let c3 = self.education[i3];
        self.education.set(i3, c3 + 1);
        let y0 = record.admission_year as usize;
        let d0 = self.admission_year[y0];
        self.admission_year.set(y0, d0 + 1);
        let y1 = record.release_year as usize;
        let d1 = self.release_year[y1];
        self.release_year.set(y1, d1 + 1);
        let y2 = record.mandatory_release_year as usize;
        let d2 = self.mandatory_release_year[y2];
        self.mandatory_release_year.set(y2, d2 + 1);
        let y3 = record.projected_release_year as usize;
        let d3 = self.projected_release_year[y3];
        self.projected_release_year.set(y3, d3 + 1);
        let y4 = record.parole_eligibility_year as usize;
        let d4 = self.parole_eligibility_year[y4];
        self.parole_eligibility_year.set(y4, d4 + 1);
        let i4 = record.sentence.index();
        let c4 = self.sentence[i4];
        self.sentence.set(i4, c4 + 1);
        let i5 = record.offense_detailed_type.index();
        let c5 = self.offense_detailed_type[i5];
        self.offense_detailed_type.set(i5, c5 + 1);
        let i6 = record.race.index();
        let c6 = self.race[i6];
        self.race.set(i6, c6 + 1);
        let i7 = record.age_admission.index();
        let c7 = self.age_admission[i7];
        self.age_admission.set(i7, c7 + 1);
        let i8 = record.age_release.index();
        let c8 = self.age_release[i8];
        self.age_release.set(i8, c8 + 1);
        let i9 = record.time_served.index();
        let c9 = self.time_served[i9];
        self.time_served.set(i9, c9 + 1);
        let i10 = record.release_type.index();
        let c10 = self.release_type[i10];
        self.release_type.set(i10, c10 + 1);
        let i11 = record.state.index();
        let c11 = self.state[i11];
        self.state.set(i11, c11 + 1);
        self.total_records = self.total_records + 1;
    }
}

/// The tables of any represented record sequence are bounded by its
/// length, so one more record can always be counted while the total fits
/// the machine.
pub proof fn lemma_represents_bounded(d: Distribution, rs: Seq<Record>)
    requires
        represents(d, rs),
    ensures
        counters_bounded(d),
{
    assert forall|i: int| 0 <= i < d.sex@.len() implies (#[trigger] d.sex@[i])
        <= d.total_records by {
        lemma_count_where_le_len(rs, sex_is(i));
    }
    assert forall|i: int| 0 <= i < d.admission_type@.len() implies (#[trigger]
    d.admission_type@[i]) <= d.total_records by {
        lemma_count_where_le_len(rs, admission_type_is(i));
    }
    assert forall|i: int| 0 <= i < d.offense_type@.len() implies (#[trigger]
    d.offense_type@[i]) <= d.total_records by {
        lemma_count_where_le_len(rs, offense_type_is(i));
    }
    assert forall|i: int| 0 <= i < d.education@.len() implies (#[trigger] d.education@[i])
        <= d.total_records by {
        lemma_count_where_le_len(rs, education_is(i));
    }
    assert forall|i: int| 0 <= i < d.admission_year@.len() implies (#[trigger]
    d.admission_year@[i]) <= d.total_records by {
        lemma_count_where_le_len(rs, admission_year_is(i));
    }
    assert forall|i: int| 0 <= i < d.release_year@.len() implies (#[trigger]
    d.release_year@[i]) <= d.total_records by {
        lemma_count_where_le_len(rs, release_year_is(i));
    }
    assert forall|i: int| 0 <= i < d.mandatory_release_year@.len() implies (#[trigger]
    d.mandatory_release_year@[i]) <= d.total_records by {
        lemma_count_where_le_len(rs, mandatory_release_year_is(i));
    }
    assert forall|i: int| 0 <= i < d.projected_release_year@.len() implies (#[trigger]
    d.projected_release_year@[i]) <= d.total_records by {
        lemma_count_where_le_len(rs, projected_release_year_is(i));
    }
    assert forall|i: int| 0 <= i < d.parole_eligibility_year@.len() implies (#[trigger]
    d.parole_eligibility_year@[i]) <= d.total_records by {
        lemma_count_where_le_len(rs, parole_eligibility_year_is(i));
    }
    assert forall|i: int| 0 <= i < d.sentence@.len() implies (#[trigger] d.sentence@[i])
        <= d.total_records by {
        lemma_count_where_le_len(rs, sentence_is(i));
    }
    assert forall|i: int| 0 <= i < d.offense_detailed_type@.len() implies (#[trigger]
    d.offense_detailed_type@[i]) <= d.total_records by {
        lemma_count_where_le_len(rs, offense_detailed_type_is(i));
    }
    assert forall|i: int| 0 <= i < d.race@.len() implies (#[trigger] d.race@[i])
        <= d.total_records by {
        lemma_count_where_le_len(rs, race_is(i));
    }
    assert forall|i: int| 0 <= i < d.age_admission@.len() implies (#[trigger]
    d.age_admission@[i]) <= d.total_records by {
        lemma_count_where_le_len(rs, age_admission_is(i));
    }
    assert forall|i: int| 0 <= i < d.age_release@.len() implies (#[trigger]
    d.age_release@[i]) <= d.total_records by {
        lemma_count_where_le_len(rs, age_release_is(i));
    }
    assert forall|i: int| 0 <= i < d.time_served@.len() implies (#[trigger]
    d.time_served@[i]) <= d.total_records by {
        lemma_count_where_le_len(rs, time_served_is(i));
    }
    assert forall|i: int| 0 <= i < d.release_type@.len() implies (#[trigger]
    d.release_type@[i]) <= d.total_records by {
        lemma_count_where_le_len(rs, release_type_is(i));
    }
    assert forall|i: int| 0 <= i < d.state@.len() implies (#[trigger] d.state@[i])
        <= d.total_records by {
        lemma_count_where_le_len(rs, state_is(i));
    }
}

/// Inserting one record keeps the tables exact: after inserting `r` into
/// tables that represent `rs`, the tables represent `rs` with `r`
/// appended — every counter equals the number of matching records.
pub proof fn lemma_distribution_tracks(
    pre: Distribution,
    post: Distribution,
    rs: Seq<Record>,
    r: Record,
)
    requires
        represents(pre, rs),
        insert_rel(pre, post, r),
    ensures
        represents(post, rs.push(r)),
{
    let rs2 = rs.push(r);
    assert forall|i: int| 0 <= i < SEX_COUNT implies (#[trigger] post.sex@[i]) == count_where(
        rs2,
        sex_is(i),
    ) by {
        assert(pre.sex@[i] == count_where(rs, sex_is(i)));
        lemma_count_where_le_len(rs, sex_is(i));
        lemma_count_where_push(rs, sex_is(i), r);
    }
    assert forall|i: int| 0 <= i < ADMISSION_TYPE_COUNT implies (#[trigger]
    post.admission_type@[i]) == count_where(
        rs2,
        admission_type_is(i),
    ) by {
        assert(pre.admission_type@[i] == count_where(rs, admission_type_is(i)));
        lemma_count_where_le_len(rs, admission_type_is(i));
        lemma_count_where_push(rs, admission_type_is(i), r);
    }
    assert forall|i: int| 0 <= i < OFFENSE_TYPE_COUNT implies (#[trigger]
    post.offense_type@[i]) == count_where(
        rs2,
        offense_type_is(i),
    ) by {
        assert(pre.offense_type@[i] == count_where(rs, offense_type_is(i)));
        lemma_count_where_le_len(rs, offense_type_is(i));
        lemma_count_where_push(rs, offense_type_is(i), r);
    }
    assert forall|i: int| 0 <= i < EDUCATION_COUNT implies (#[trigger] post.education@[i])
        == count_where(rs2, education_is(i)) by {
        assert(pre.education@[i] == count_where(rs, education_is(i)));
        lemma_count_where_le_len(rs, education_is(i));
        lemma_count_where_push(rs, education_is(i), r);
    }
    assert forall|i: int| 0 <= i < YEAR_SLOTS implies (#[trigger] post.admission_year@[i])
        == count_where(rs2, admission_year_is(i)) by {
        assert(pre.admission_year@[i] == count_where(rs, admission_year_is(i)));
        lemma_count_where_le_len(rs, admission_year_is(i));
        lemma_count_where_push(rs, admission_year_is(i), r);
    }
    assert forall|i: int| 0 <= i < YEAR_SLOTS implies (#[trigger] post.release_year@[i])
        == count_where(rs2, release_year_is(i)) by {
        assert(pre.release_year@[i] == count_where(rs, release_year_is(i)));
        lemma_count_where_le_len(rs, release_year_is(i));
        lemma_count_where_push(rs, release_year_is(i), r);
    }
    assert forall|i: int| 0 <= i < YEAR_SLOTS implies (#[trigger]
    post.mandatory_release_year@[i]) == count_where(
        rs2,
        mandatory_release_year_is(i),
    ) by {
        assert(pre.mandatory_release_year@[i] == count_where(rs, mandatory_release_year_is(i)));
        lemma_count_where_le_len(rs, mandatory_release_year_is(i));
        lemma_count_where_push(rs, mandatory_release_year_is(i), r);
    }
    assert forall|i: int| 0 <= i < YEAR_SLOTS implies (#[trigger]
    post.projected_release_year@[i]) == count_where(
        rs2,
        projected_release_year_is(i),
    ) by {
        assert(pre.projected_release_year@[i] == count_where(rs, projected_release_year_is(i)));
        lemma_count_where_le_len(rs, projected_release_year_is(i));
        lemma_count_where_push(rs, projected_release_year_is(i), r);
    }
    assert forall|i: int| 0 <= i < YEAR_SLOTS implies (#[trigger]
    post.parole_eligibility_year@[i]) == count_where(
        rs2,
        parole_eligibility_year_is(i),
    ) by {
        assert(pre.parole_eligibility_year@[i] == count_where(rs, parole_eligibility_year_is(i)));
        lemma_count_where_le_len(rs, parole_eligibility_year_is(i));
        lemma_count_where_push(rs, parole_eligibility_year_is(i), r);
    }
    assert forall|i: int| 0 <= i < SENTENCE_COUNT implies (#[trigger] post.sentence@[i])
        == count_where(rs2, sentence_is(i)) by {
        assert(pre.sentence@[i] == count_where(rs, sentence_is(i)));
        lemma_count_where_le_len(rs, sentence_is(i));
        lemma_count_where_push(rs, sentence_is(i), r);
    }
    assert forall|i: int| 0 <= i < OFFENSE_DETAILED_TYPE_COUNT implies (#[trigger]
    post.offense_detailed_type@[i]) == count_where(
        rs2,
        offense_detailed_type_is(i),
    ) by {
        assert(pre.offense_detailed_type@[i] == count_where(rs, offense_detailed_type_is(i)));
        lemma_count_where_le_len(rs, offense_detailed_type_is(i));
        lemma_count_where_push(rs, offense_detailed_type_is(i), r);
    }
    assert forall|i: int| 0 <= i < RACE_COUNT implies (#[trigger] post.race@[i])
        == count_where(rs2, race_is(i)) by {
        assert(pre.race@[i] == count_where(rs, race_is(i)));
        lemma_count_where_le_len(rs, race_is(i));
        lemma_count_where_push(rs, race_is(i), r);
    }
    assert forall|i: int| 0 <= i < AGE_COUNT implies (#[trigger] post.age_admission@[i])
        == count_where(rs2, age_admission_is(i)) by {
        assert(pre.age_admission@[i] == count_where(rs, age_admission_is(i)));
        lemma_count_where_le_len(rs, age_admission_is(i));
        lemma_count_where_push(rs, age_admission_is(i), r);
    }
    assert forall|i: int| 0 <= i < AGE_COUNT implies (#[trigger] post.age_release@[i])
        == count_where(rs2, age_release_is(i)) by {
        assert(pre.age_release@[i] == count_where(rs, age_release_is(i)));
        lemma_count_where_le_len(rs, age_release_is(i));
        lemma_count_where_push(rs, age_release_is(i), r);
    }
    assert forall|i: int| 0 <= i < TIME_SERVED_COUNT implies (#[trigger]
    post.time_served@[i]) == count_where(
        rs2,
        time_served_is(i),
    ) by {
        assert(pre.time_served@[i] == count_where(rs, time_served_is(i)));
        lemma_count_where_le_len(rs, time_served_is(i));
        lemma_count_where_push(rs, time_served_is(i), r);
    }
    assert forall|i: int| 0 <= i < RELEASE_TYPE_COUNT implies (#[trigger]
    post.release_type@[i]) == count_where(
        rs2,
        release_type_is(i),
    ) by {
        assert(pre.release_type@[i] == count_where(rs, release_type_is(i)));
        lemma_count_where_le_len(rs, release_type_is(i));
        lemma_count_where_push(rs, release_type_is(i), r);
    }
    assert forall|i: int| 0 <= i < STATE_COUNT implies (#[trigger] post.state@[i])
        == count_where(rs2, state_is(i)) by {
        assert(pre.state@[i] == count_where(rs, state_is(i)));
        lemma_count_where_le_len(rs, state_is(i));
        lemma_count_where_push(rs, state_is(i), r);
    }
}

} // verus!
