//! Run options: whether to keep only recidivist admissions, and optional
//! exact-match attribute filters.  A record is accepted when none of its
//! mandatory categorical fields is missing and every set filter matches;
//! an unset filter imposes no constraint.

use vstd::prelude::*;

use crate::record::Record;
use crate::schema::{
    AdmissionType, Age, Race, ReleaseType, Sentence, Sex, TimeServed, OffenseType,
};

verus! {

/// Options of one ingestion run.
#[derive(Debug, Clone, Copy, PartialEq, Eq, Hash)]
pub struct Options {
    pub recidivists: bool,
    pub sex: Option<Sex>,
    pub admission_type: Option<AdmissionType>,
    pub race: Option<Race>,
}

impl Options {
    /// Options that filter nothing and keep every admission.
    pub fn none() -> (r: Options)
        ensures
            !r.recidivists,
            r.sex is None,
            r.admission_type is None,
            r.race is None,
    {
        Options { recidivists: false, sex: None, admission_type: None, race: None }
    }
}

/// Whether no mandatory categorical field of `r` is the missing sentinel.
pub open spec fn record_valid(r: Record) -> bool {
    &&& r.admission_type != AdmissionType::Missing
    &&& r.offense_type != OffenseType::Missing
    &&& r.sentence != Sentence::Missing
    &&& r.race != Race::Missing
    &&& r.age_admission != Age::Missing
    &&& r.time_served != TimeServed::Missing
    &&& r.release_type != ReleaseType::Missing
}

/// Whether every set filter of `opts` matches `r` exactly.
pub open spec fn filters_match(opts: Options, r: Record) -> bool {
    &&& match opts.sex {
        Some(s) => r.sex == s,
        None => true,
    }
    &&& match opts.admission_type {
        Some(a) => r.admission_type == a,
        None => true,
    }
    &&& match opts.race {
        Some(c) => r.race == c,
        None => true,
    }
}

/// Whether `r` belongs to the accepted set under `opts`: valid and matching
/// every set filter.
pub open spec fn accepts_spec(opts: Options, r: Record) -> bool {
    record_valid(r) && filters_match(opts, r)
}

/// Decide acceptance of one record.
pub fn accepts(opts: &Options, r: &Record) -> (b: bool)
    ensures
        b == accepts_spec(*opts, *r),
{
    let valid = r.admission_type != AdmissionType::Missing
        && r.offense_type != OffenseType::Missing
        && r.sentence != Sentence::Missing
        && r.race != Race::Missing
        && r.age_admission != Age::Missing
        && r.time_served != TimeServed::Missing
        && r.release_type != ReleaseType::Missing;
    let sex_ok = match opts.sex {
        Some(s) => r.sex == s,
        None => true,
    };
    let admission_ok = match opts.admission_type {
        Some(a) => r.admission_type == a,
        None => true,
    };
    let race_ok = match opts.race {
        Some(c) => r.race == c,
        None => true,
    };
    valid && sex_ok && admission_ok && race_ok
}

/// A record whose race is the missing sentinel is never accepted, whatever
/// its other fields and whatever the options.
pub proof fn lemma_missing_race_rejected(opts: Options, r: Record)
    requires
        r.race == Race::Missing,
    ensures
        !accepts_spec(opts, r),
{
}

/// Decode the command-line value of the sex filter.  The caller guarantees
/// the value is one the command line offers.
pub fn parse_sex(arg: Option<&String>) -> (r: Option<Sex>)
    requires
        arg matches Some(s) ==> s@ == "male"@ || s@ == "female"@,
    ensures
        arg is None <==> r is None,
        arg matches Some(s) ==> r == Some(
            if s@ == "male"@ {
                Sex::Male
            } else {
                Sex::Female
            },
        ),
{
    match arg {
        None => None,
        Some(s) => {
            let male = String::from_str("male");
            let female = String::from_str("female");
            proof {
                reveal_strlit("male");
                reveal_strlit("female");
            }
            if s.eq(&male) {
                Some(Sex::Male)
            } else {
                assert(s@ == female@);
                Some(Sex::Female)
            }
        },
    }
}

/// Decode the command-line value of the admission-type filter.  The caller
/// guarantees the value is one the command line offers.
pub fn parse_admission_type(arg: Option<&String>) -> (r: Option<AdmissionType>)
    requires
        arg matches Some(s) ==> s@ == "parole"@ || s@ == "new"@ || s@ == "other"@,
    ensures
        arg is None <==> r is None,
        arg matches Some(s) ==> r == Some(
            if s@ == "parole"@ {
                AdmissionType::Parole
            } else if s@ == "new"@ {
                AdmissionType::New
            } else {
                AdmissionType::Other
            },
        ),
{
    match arg {
        None => None,
        Some(s) => {
            let parole = String::from_str("parole");
            let new = String::from_str("new");
            proof {
                reveal_strlit("parole");
                reveal_strlit("new");
                reveal_strlit("other");
            }
            if s.eq(&parole) {
                Some(AdmissionType::Parole)
            } else if s.eq(&new) {
                Some(AdmissionType::New)
            } else {
                assert(s@ == "other"@);
                Some(AdmissionType::Other)
            }
        },
    }
}

/// Decode the command-line value of the race filter.  The caller guarantees
/// the value is one the command line offers.
pub fn parse_race(arg: Option<&String>) -> (r: Option<Race>)
    requires
        arg matches Some(s) ==> s@ == "black"@ || s@ == "hispanic"@ || s@ == "white"@
            || s@ == "other"@,
    ensures
        arg is None <==> r is None,
        arg matches Some(s) ==> r == Some(
            if s@ == "black"@ {
                Race::Black
            } else if s@ == "hispanic"@ {
                Race::Hispanic
            } else if s@ == "white"@ {
                Race::White
            } else {
                Race::Other
            },
        ),
{
    match arg {
        None => None,
        Some(s) => {
            let black = String::from_str("black");
            let hispanic = String::from_str("hispanic");
            let white = String::from_str("white");
            proof {
                reveal_strlit("black");
                reveal_strlit("hispanic");
                reveal_strlit("white");
                reveal_strlit("other");
            }
            if s.eq(&black) {
                Some(Race::Black)
            } else if s.eq(&hispanic) {
                Some(Race::Hispanic)
            } else if s.eq(&white) {
                Some(Race::White)
            } else {
                assert(s@ == "other"@);
                Some(Race::Other)
            }
        },
    }
}

} // verus!
