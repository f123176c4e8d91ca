//! The categorical schema: each value type is a closed enumeration decoded
//! from a small fixed table of byte-string codes, with an explicit `Missing`
//! sentinel where the source data has one.  Decoding any byte string outside
//! the table fails.  Every type also assigns each variant a stable ordinal
//! (declaration order), used for frequency counting and the one-hot layout.
//!
//! Codes are ASCII digit strings (byte 48 is `0`, 57 is `9`); a few fields
//! use a single space (byte 32) as an alternative missing code.

use vstd::prelude::*;

verus! {

/// ASCII space, the alternative missing code of some fields.
pub const SPACE: u8 = 32;

/// Whether the byte string `s` is exactly the one-byte code `c`.
pub open spec fn code_is(s: Seq<u8>, c: u8) -> bool {
    s.len() == 1 && s[0] == c
}

/// Exec counterpart of [`code_is`].
pub fn bytes_is(s: &[u8], c: u8) -> (r: bool)
    ensures
        r == code_is(s@, c),
{
    s.len() == 1 && s[0] == c
}

/// Whether `c` is an ASCII decimal digit.
pub open spec fn is_digit(c: u8) -> bool {
    48 <= c <= 57
}

/// The value of the ASCII digit `c`.
pub open spec fn digit_val(c: u8) -> int {
    c - 48
}

/// The number denoted by a one- or two-digit code without a leading zero:
/// a single digit, or a nonzero digit followed by a digit.  Codes of any
/// other shape denote no number.
pub open spec fn code_num(s: Seq<u8>) -> Option<int> {
    if s.len() == 1 && is_digit(s[0]) {
        Some(digit_val(s[0]))
    } else if s.len() == 2 && is_digit(s[0]) && s[0] != 48 && is_digit(s[1]) {
        Some(digit_val(s[0]) * 10 + digit_val(s[1]))
    } else {
        None
    }
}

/// Exec counterpart of [`code_num`]; the value fits in `u8` (at most 99).
pub fn bytes_code_num(s: &[u8]) -> (r: Option<u8>)
    ensures
        match r {
            Some(n) => code_num(s@) == Some(n as int),
            None => code_num(s@) is None,
        },
{
    if s.len() == 1 && 48 <= s[0] && s[0] <= 57 {
        Some(s[0] - 48)
    } else if s.len() == 2 && 49 <= s[0] && s[0] <= 57 && 48 <= s[1] && s[1] <= 57 {
        Some((s[0] - 48) * 10 + (s[1] - 48))
    } else {
        None
    }
}

/// Subject sex.  The source data has no missing code for this field.
#[derive(Copy, Clone, Debug, PartialEq, Eq, Hash, Structural)]
pub enum Sex {
    Male,
    Female,
}

/// Number of `Sex` variants.
pub const SEX_COUNT: usize = 2;

impl Sex {
    /// The decode table: which variant, if any, a byte string denotes.
    pub open spec fn decode_spec(s: Seq<u8>) -> Option<Sex> {
        if code_is(s, 49) {
            Some(Sex::Male)
        } else if code_is(s, 50) {
            Some(Sex::Female)
        } else {
            None
        }
    }

    /// The canonical code of each variant.
    pub open spec fn code_spec(self) -> Seq<u8> {
        match self {
            Sex::Male => seq![49u8],
            Sex::Female => seq![50u8],
        }
    }

    /// Variant ordinal, in declaration order.
    pub open spec fn index_spec(self) -> int {
        match self {
            Sex::Male => 0,
            Sex::Female => 1,
        }
    }

    pub fn decode(s: &[u8]) -> (r: Option<Sex>)
        ensures
            r == Sex::decode_spec(s@),
    {
        if bytes_is(s, 49) {
            Some(Sex::Male)
        } else if bytes_is(s, 50) {
            Some(Sex::Female)
        } else {
            None
        }
    }

    pub fn index(self) -> (r: usize)
        ensures
            r == self.index_spec(),
    {
        match self {
            Sex::Male => 0,
            Sex::Female => 1,
        }
    }
}

/// Kind of admission.
#[derive(Copy, Clone, Debug, PartialEq, Eq, Hash, Structural)]
pub enum AdmissionType {
    New,
    Parole,
    Other,
    Missing,
}

/// Number of `AdmissionType` variants.
pub const ADMISSION_TYPE_COUNT: usize = 4;

impl AdmissionType {
    pub open spec fn decode_spec(s: Seq<u8>) -> Option<AdmissionType> {
        if code_is(s, 49) {
            Some(AdmissionType::New)
        } else if code_is(s, 50) {
            Some(AdmissionType::Parole)
        } else if code_is(s, 51) {
            Some(AdmissionType::Other)
        } else if code_is(s, 57) {
            Some(AdmissionType::Missing)
        } else {
            None
        }
    }

    pub open spec fn code_spec(self) -> Seq<u8> {
        match self {
            AdmissionType::New => seq![49u8],
            AdmissionType::Parole => seq![50u8],
            AdmissionType::Other => seq![51u8],
            AdmissionType::Missing => seq![57u8],
        }
    }

    pub open spec fn index_spec(self) -> int {
        match self {
            AdmissionType::New => 0,
            AdmissionType::Parole => 1,
            AdmissionType::Other => 2,
            AdmissionType::Missing => 3,
        }
    }

    pub fn decode(s: &[u8]) -> (r: Option<AdmissionType>)
        ensures
            r == AdmissionType::decode_spec(s@),
    {
        if bytes_is(s, 49) {
            Some(AdmissionType::New)
        } else if bytes_is(s, 50) {
            Some(AdmissionType::Parole)
        } else if bytes_is(s, 51) {
            Some(AdmissionType::Other)
        } else if bytes_is(s, 57) {
            Some(AdmissionType::Missing)
        } else {
            None
        }
    }

    pub fn index(self) -> (r: usize)
        ensures
            r == self.index_spec(),
    {
        match self {
            AdmissionType::New => 0,
            AdmissionType::Parole => 1,
            AdmissionType::Other => 2,
            AdmissionType::Missing => 3,
        }
    }
}

/// Broad offense category.
#[derive(Copy, Clone, Debug, PartialEq, Eq, Hash, Structural)]
pub enum OffenseType {
    Violent,
    Property,
    Drugs,
    PublicOrder,
    Other,
    Missing,
}

/// Number of `OffenseType` variants.
pub const OFFENSE_TYPE_COUNT: usize = 6;

impl OffenseType {
    pub open spec fn decode_spec(s: Seq<u8>) -> Option<OffenseType> {
        if code_is(s, 49) {
            Some(OffenseType::Violent)
        } else if code_is(s, 50) {
            Some(OffenseType::Property)
        } else if code_is(s, 51) {
            Some(OffenseType::Drugs)
        } else if code_is(s, 52) {
            Some(OffenseType::PublicOrder)
        } else if code_is(s, 53) {
            Some(OffenseType::Other)
        } else if code_is(s, 57) {
            Some(OffenseType::Missing)
        } else {
            None
        }
    }

    pub open spec fn code_spec(self) -> Seq<u8> {
        match self {
            OffenseType::Violent => seq![49u8],
            OffenseType::Property => seq![50u8],
            OffenseType::Drugs => seq![51u8],
            OffenseType::PublicOrder => seq![52u8],
            OffenseType::Other => seq![53u8],
            OffenseType::Missing => seq![57u8],
        }
    }

    pub open spec fn index_spec(self) -> int {
        match self {
            OffenseType::Violent => 0,
            OffenseType::Property => 1,
            OffenseType::Drugs => 2,
            OffenseType::PublicOrder => 3,
            OffenseType::Other => 4,
            OffenseType::Missing => 5,
        }
    }

    pub fn decode(s: &[u8]) -> (r: Option<OffenseType>)
        ensures
            r == OffenseType::decode_spec(s@),
    {
        if bytes_is(s, 49) {
            Some(OffenseType::Violent)
        } else if bytes_is(s, 50) {
            Some(OffenseType::Property)
        } else if bytes_is(s, 51) {
            Some(OffenseType::Drugs)
        } else if bytes_is(s, 52) {
            Some(OffenseType::PublicOrder)
        } else if bytes_is(s, 53) {
            Some(OffenseType::Other)
        } else if bytes_is(s, 57) {
            Some(OffenseType::Missing)
        } else {
            None
        }
    }

    pub fn index(self) -> (r: usize)
        ensures
            r == self.index_spec(),
    {
        match self {
            OffenseType::Violent => 0,
            OffenseType::Property => 1,
            OffenseType::Drugs => 2,
            OffenseType::PublicOrder => 3,
            OffenseType::Other => 4,
            OffenseType::Missing => 5,
        }
    }
}

/// Detailed offense category, keyed by a one- or two-digit numeric code.
#[derive(Copy, Clone, Debug, PartialEq, Eq, Hash, Structural)]
pub enum OffenseDetailedType {
    Murder,
    NegligentManslaughter,
    Rape,
    Robbery,
    Assault,
    OtherViolent,
    Burglary,
    Larceny,
    VehicleTheft,
    Fraud,
    OtherProperty,
    Drugs,
    PublicOrder,
    Other,
    Missing,
}

/// Number of `OffenseDetailedType` variants.
pub const OFFENSE_DETAILED_TYPE_COUNT: usize = 15;

impl OffenseDetailedType {
    /// The variant denoted by the numeric code `n`: 1 through 14 in
    /// declaration order, 99 for the missing sentinel.
    pub open spec fn of_num(n: int) -> Option<OffenseDetailedType> {
        if n == 1 {
            Some(OffenseDetailedType::Murder)
        } else if n == 2 {
            Some(OffenseDetailedType::NegligentManslaughter)
        } else if n == 3 {
            Some(OffenseDetailedType::Rape)
        } else if n == 4 {
            Some(OffenseDetailedType::Robbery)
        } else if n == 5 {
            Some(OffenseDetailedType::Assault)
        } else if n == 6 {
            Some(OffenseDetailedType::OtherViolent)
        } else if n == 7 {
            Some(OffenseDetailedType::Burglary)
        } else if n == 8 {
            Some(OffenseDetailedType::Larceny)
        } else if n == 9 {
            Some(OffenseDetailedType::VehicleTheft)
        } else if n == 10 {
            Some(OffenseDetailedType::Fraud)
        } else if n == 11 {
            Some(OffenseDetailedType::OtherProperty)
        } else if n == 12 {
            Some(OffenseDetailedType::Drugs)
        } else if n == 13 {
            Some(OffenseDetailedType::PublicOrder)
        } else if n == 14 {
            Some(OffenseDetailedType::Other)
        } else if n == 99 {
            Some(OffenseDetailedType::Missing)
        } else {
            None
        }
    }

    pub open spec fn decode_spec(s: Seq<u8>) -> Option<OffenseDetailedType> {
        match code_num(s) {
            Some(n) => OffenseDetailedType::of_num(n),
            None => None,
        }
    }

    pub open spec fn num_spec(self) -> int {
        match self {
            OffenseDetailedType::Murder => 1,
            OffenseDetailedType::NegligentManslaughter => 2,
            OffenseDetailedType::Rape => 3,
            OffenseDetailedType::Robbery => 4,
            OffenseDetailedType::Assault => 5,
            OffenseDetailedType::OtherViolent => 6,
            OffenseDetailedType::Burglary => 7,
            OffenseDetailedType::Larceny => 8,
            OffenseDetailedType::VehicleTheft => 9,
            OffenseDetailedType::Fraud => 10,
            OffenseDetailedType::OtherProperty => 11,
            OffenseDetailedType::Drugs => 12,
            OffenseDetailedType::PublicOrder => 13,
            OffenseDetailedType::Other => 14,
            OffenseDetailedType::Missing => 99,
        }
    }

    pub open spec fn code_spec(self) -> Seq<u8> {
        let n = self.num_spec();
        if n < 10 {
            seq![(48 + n) as u8]
        } else {
            seq![(48 + n / 10) as u8, (48 + n % 10) as u8]
        }
    }

    pub open spec fn index_spec(self) -> int {
        match self {
            OffenseDetailedType::Murder => 0,
            OffenseDetailedType::NegligentManslaughter => 1,
            OffenseDetailedType::Rape => 2,
            OffenseDetailedType::Robbery => 3,
            OffenseDetailedType::Assault => 4,
            OffenseDetailedType::OtherViolent => 5,
            OffenseDetailedType::Burglary => 6,
            OffenseDetailedType::Larceny => 7,
            OffenseDetailedType::VehicleTheft => 8,
            OffenseDetailedType::Fraud => 9,
            OffenseDetailedType::OtherProperty => 10,
            OffenseDetailedType::Drugs => 11,
            OffenseDetailedType::PublicOrder => 12,
            OffenseDetailedType::Other => 13,
            OffenseDetailedType::Missing => 14,
        }
    }

    pub fn from_num(n: u8) -> (r: Option<OffenseDetailedType>)
        ensures
            r == OffenseDetailedType::of_num(n as int),
    {
        match n {
            1 => Some(OffenseDetailedType::Murder),
            2 => Some(OffenseDetailedType::NegligentManslaughter),
            3 => Some(OffenseDetailedType::Rape),
            4 => Some(OffenseDetailedType::Robbery),
            5 => Some(OffenseDetailedType::Assault),
            6 => Some(OffenseDetailedType::OtherViolent),
            7 => Some(OffenseDetailedType::Burglary),
            8 => Some(OffenseDetailedType::Larceny),
            9 => Some(OffenseDetailedType::VehicleTheft),
            10 => Some(OffenseDetailedType::Fraud),
            11 => Some(OffenseDetailedType::OtherProperty),
            12 => Some(OffenseDetailedType::Drugs),
            13 => Some(OffenseDetailedType::PublicOrder),
            14 => Some(OffenseDetailedType::Other),
            99 => Some(OffenseDetailedType::Missing),
            _ => None,
        }
    }

    pub fn decode(s: &[u8]) -> (r: Option<OffenseDetailedType>)
        ensures
            r == OffenseDetailedType::decode_spec(s@),
    {
        match bytes_code_num(s) {
            Some(n) => OffenseDetailedType::from_num(n),
            None => None,
        }
    }

    pub fn index(self) -> (r: usize)
        ensures
            r == self.index_spec(),
    {
        match self {
            OffenseDetailedType::Murder => 0,
            OffenseDetailedType::NegligentManslaughter => 1,
            OffenseDetailedType::Rape => 2,
            OffenseDetailedType::Robbery => 3,
            OffenseDetailedType::Assault => 4,
            OffenseDetailedType::OtherViolent => 5,
            OffenseDetailedType::Burglary => 6,
            OffenseDetailedType::Larceny => 7,
            OffenseDetailedType::VehicleTheft => 8,
            OffenseDetailedType::Fraud => 9,
            OffenseDetailedType::OtherProperty => 10,
            OffenseDetailedType::Drugs => 11,
            OffenseDetailedType::PublicOrder => 12,
            OffenseDetailedType::Other => 13,
            OffenseDetailedType::Missing => 14,
        }
    }
}

/// Educational attainment.
#[derive(Copy, Clone, Debug, PartialEq, Eq, Hash, Structural)]
pub enum Education {
    NoHighSchool,
    HighSchool,
    College,
    Missing,
}

/// Number of `Education` variants.
pub const EDUCATION_COUNT: usize = 4;

impl Education {
    pub open spec fn decode_spec(s: Seq<u8>) -> Option<Education> {
        if code_is(s, 49) {
            Some(Education::NoHighSchool)
        } else if code_is(s, 50) {
            Some(Education::HighSchool)
        } else if code_is(s, 51) {
            Some(Education::College)
        } else if code_is(s, 57) {
            Some(Education::Missing)
        } else {
            None
        }
    }

    pub open spec fn code_spec(self) -> Seq<u8> {
        match self {
            Education::NoHighSchool => seq![49u8],
            Education::HighSchool => seq![50u8],
            Education::College => seq![51u8],
            Education::Missing => seq![57u8],
        }
    }

    pub open spec fn index_spec(self) -> int {
        match self {
            Education::NoHighSchool => 0,
            Education::HighSchool => 1,
            Education::College => 2,
            Education::Missing => 3,
        }
    }

    pub fn decode(s: &[u8]) -> (r: Option<Education>)
        ensures
            r == Education::decode_spec(s@),
    {
        if bytes_is(s, 49) {
            Some(Education::NoHighSchool)
        } else if bytes_is(s, 50) {
            Some(Education::HighSchool)
        } else if bytes_is(s, 51) {
            Some(Education::College)
        } else if bytes_is(s, 57) {
            Some(Education::Missing)
        } else {
            None
        }
    }

    pub fn index(self) -> (r: usize)
        ensures
            r == self.index_spec(),
    {
        match self {
            Education::NoHighSchool => 0,
            Education::HighSchool => 1,
            Education::College => 2,
            Education::Missing => 3,
        }
    }
}

/// Subject race.
#[derive(Copy, Clone, Debug, PartialEq, Eq, Hash, Structural)]
pub enum Race {
    White,
    Black,
    Hispanic,
    Other,
    Missing,
}

/// Number of `Race` variants.
pub const RACE_COUNT: usize = 5;

impl Race {
    pub open spec fn decode_spec(s: Seq<u8>) -> Option<Race> {
        if code_is(s, 49) {
            Some(Race::White)
        } else if code_is(s, 50) {
            Some(Race::Black)
        } else if code_is(s, 51) {
            Some(Race::Hispanic)
        } else if code_is(s, 52) {
            Some(Race::Other)
        } else if code_is(s, 57) {
            Some(Race::Missing)
        } else {
            None
        }
    }

    pub open spec fn code_spec(self) -> Seq<u8> {
        match self {
            Race::White => seq![49u8],
            Race::Black => seq![50u8],
            Race::Hispanic => seq![51u8],
            Race::Other => seq![52u8],
            Race::Missing => seq![57u8],
        }
    }

    pub open spec fn index_spec(self) -> int {
        match self {
            Race::White => 0,
            Race::Black => 1,
            Race::Hispanic => 2,
            Race::Other => 3,
            Race::Missing => 4,
        }
    }

    pub fn decode(s: &[u8]) -> (r: Option<Race>)
        ensures
            r == Race::decode_spec(s@),
    {
        if bytes_is(s, 49) {
            Some(Race::White)
        } else if bytes_is(s, 50) {
            Some(Race::Black)
        } else if bytes_is(s, 51) {
            Some(Race::Hispanic)
        } else if bytes_is(s, 52) {
            Some(Race::Other)
        } else if bytes_is(s, 57) {
            Some(Race::Missing)
        } else {
            None
        }
    }

    pub fn index(self) -> (r: usize)
        ensures
            r == self.index_spec(),
    {
        match self {
            Race::White => 0,
            Race::Black => 1,
            Race::Hispanic => 2,
            Race::Other => 3,
            Race::Missing => 4,
        }
    }
}

/// Age bracket.  Some source fields replace the missing nine with a space.
#[derive(Copy, Clone, Debug, PartialEq, Eq, Hash, Structural)]
pub enum Age {
    Age18To24,
    Age25To34,
    Age35To44,
    Age45To54,
    Age55Plus,
    Missing,
}

/// Number of `Age` variants.
pub const AGE_COUNT: usize = 6;

impl Age {
    pub open spec fn decode_spec(s: Seq<u8>) -> Option<Age> {
        if code_is(s, 49) {
            Some(Age::Age18To24)
        } else if code_is(s, 50) {
            Some(Age::Age25To34)
        } else if code_is(s, 51) {
            Some(Age::Age35To44)
        } else if code_is(s, 52) {
            Some(Age::Age45To54)
        } else if code_is(s, 53) {
            Some(Age::Age55Plus)
        } else if code_is(s, 57) || code_is(s, SPACE) {
            Some(Age::Missing)
        } else {
            None
        }
    }

    pub open spec fn code_spec(self) -> Seq<u8> {
        match self {
            Age::Age18To24 => seq![49u8],
            Age::Age25To34 => seq![50u8],
            Age::Age35To44 => seq![51u8],
            Age::Age45To54 => seq![52u8],
            Age::Age55Plus => seq![53u8],
            Age::Missing => seq![57u8],
        }
    }

    pub open spec fn index_spec(self) -> int {
        match self {
            Age::Age18To24 => 0,
            Age::Age25To34 => 1,
            Age::Age35To44 => 2,
            Age::Age45To54 => 3,
            Age::Age55Plus => 4,
            Age::Missing => 5,
        }
    }

    pub fn decode(s: &[u8]) -> (r: Option<Age>)
        ensures
            r == Age::decode_spec(s@),
    {
        if bytes_is(s, 49) {
            Some(Age::Age18To24)
        } else if bytes_is(s, 50) {
            Some(Age::Age25To34)
        } else if bytes_is(s, 51) {
            Some(Age::Age35To44)
        } else if bytes_is(s, 52) {
            Some(Age::Age45To54)
        } else if bytes_is(s, 53) {
            Some(Age::Age55Plus)
        } else if bytes_is(s, 57) || bytes_is(s, SPACE) {
            Some(Age::Missing)
        } else {
            None
        }
    }

    pub fn index(self) -> (r: usize)
        ensures
            r == self.index_spec(),
    {
        match self {
            Age::Age18To24 => 0,
            Age::Age25To34 => 1,
            Age::Age35To44 => 2,
            Age::Age45To54 => 3,
            Age::Age55Plus => 4,
            Age::Missing => 5,
        }
    }
}

/// Time served bracket, in years.
#[derive(Copy, Clone, Debug, PartialEq, Eq, Hash, Structural)]
pub enum TimeServed {
    Years0To1,
    Years1To2,
    Years2To5,
    Years5To10,
    Years10Plus,
    Missing,
}

/// Number of `TimeServed` variants.
pub const TIME_SERVED_COUNT: usize = 6;

impl TimeServed {
    pub open spec fn decode_spec(s: Seq<u8>) -> Option<TimeServed> {
        if code_is(s, 48) {
            Some(TimeServed::Years0To1)
        } else if code_is(s, 49) {
            Some(TimeServed::Years1To2)
        } else if code_is(s, 50) {
            Some(TimeServed::Years2To5)
        } else if code_is(s, 51) {
            Some(TimeServed::Years5To10)
        } else if code_is(s, 52) {
            Some(TimeServed::Years10Plus)
        } else if code_is(s, 57) {
            Some(TimeServed::Missing)
        } else {
            None
        }
    }

    pub open spec fn code_spec(self) -> Seq<u8> {
        match self {
            TimeServed::Years0To1 => seq![48u8],
            TimeServed::Years1To2 => seq![49u8],
            TimeServed::Years2To5 => seq![50u8],
            TimeServed::Years5To10 => seq![51u8],
            TimeServed::Years10Plus => seq![52u8],
            TimeServed::Missing => seq![57u8],
        }
    }

    pub open spec fn index_spec(self) -> int {
        match self {
            TimeServed::Years0To1 => 0,
            TimeServed::Years1To2 => 1,
            TimeServed::Years2To5 => 2,
            TimeServed::Years5To10 => 3,
            TimeServed::Years10Plus => 4,
            TimeServed::Missing => 5,
        }
    }

    pub fn decode(s: &[u8]) -> (r: Option<TimeServed>)
        ensures
            r == TimeServed::decode_spec(s@),
    {
        if bytes_is(s, 48) {
            Some(TimeServed::Years0To1)
        } else if bytes_is(s, 49) {
            Some(TimeServed::Years1To2)
        } else if bytes_is(s, 50) {
            Some(TimeServed::Years2To5)
        } else if bytes_is(s, 51) {
            Some(TimeServed::Years5To10)
        } else if bytes_is(s, 52) {
            Some(TimeServed::Years10Plus)
        } else if bytes_is(s, 57) {
            Some(TimeServed::Missing)
        } else {
            None
        }
    }

    pub fn index(self) -> (r: usize)
        ensures
            r == self.index_spec(),
    {
        match self {
            TimeServed::Years0To1 => 0,
            TimeServed::Years1To2 => 1,
            TimeServed::Years2To5 => 2,
            TimeServed::Years5To10 => 3,
            TimeServed::Years10Plus => 4,
            TimeServed::Missing => 5,
        }
    }
}

/// Sentence length bracket, in years.  Some rows replace the missing nine
/// with a space.
#[derive(Copy, Clone, Debug, PartialEq, Eq, Hash, Structural)]
pub enum Sentence {
    Years0To1,
    Years1To2,
    Years2To5,
    Years5To10,
    Years10To25,
    Years25Plus,
    YearsLife,
    Missing,
}

/// Number of `Sentence` variants.
pub const SENTENCE_COUNT: usize = 8;

impl Sentence {
    pub open spec fn decode_spec(s: Seq<u8>) -> Option<Sentence> {
        if code_is(s, 48) {
            Some(Sentence::Years0To1)
        } else if code_is(s, 49) {
            Some(Sentence::Years1To2)
        } else if code_is(s, 50) {
            Some(Sentence::Years2To5)
        } else if code_is(s, 51) {
            Some(Sentence::Years5To10)
        } else if code_is(s, 52) {
            Some(Sentence::Years10To25)
        } else if code_is(s, 53) {
            Some(Sentence::Years25Plus)
        } else if code_is(s, 54) {
            Some(Sentence::YearsLife)
        } else if code_is(s, 57) || code_is(s, SPACE) {
            Some(Sentence::Missing)
        } else {
            None
        }
    }

    pub open spec fn code_spec(self) -> Seq<u8> {
        match self {
            Sentence::Years0To1 => seq![48u8],
            Sentence::Years1To2 => seq![49u8],
            Sentence::Years2To5 => seq![50u8],
            Sentence::Years5To10 => seq![51u8],
            Sentence::Years10To25 => seq![52u8],
            Sentence::Years25Plus => seq![53u8],
            Sentence::YearsLife => seq![54u8],
            Sentence::Missing => seq![57u8],
        }
    }

    pub open spec fn index_spec(self) -> int {
        match self {
            Sentence::Years0To1 => 0,
            Sentence::Years1To2 => 1,
            Sentence::Years2To5 => 2,
            Sentence::Years5To10 => 3,
            Sentence::Years10To25 => 4,
            Sentence::Years25Plus => 5,
            Sentence::YearsLife => 6,
            Sentence::Missing => 7,
        }
    }

    pub fn decode(s: &[u8]) -> (r: Option<Sentence>)
        ensures
            r == Sentence::decode_spec(s@),
    {
        if bytes_is(s, 48) {
            Some(Sentence::Years0To1)
        } else if bytes_is(s, 49) {
            Some(Sentence::Years1To2)
        } else if bytes_is(s, 50) {
            Some(Sentence::Years2To5)
        } else if bytes_is(s, 51) {
            Some(Sentence::Years5To10)
        } else if bytes_is(s, 52) {
            Some(Sentence::Years10To25)
        } else if bytes_is(s, 53) {
            Some(Sentence::Years25Plus)
        } else if bytes_is(s, 54) {
            Some(Sentence::YearsLife)
        } else if bytes_is(s, 57) || bytes_is(s, SPACE) {
            Some(Sentence::Missing)
        } else {
            None
        }
    }

    pub fn index(self) -> (r: usize)
        ensures
            r == self.index_spec(),
    {
        match self {
            Sentence::Years0To1 => 0,
            Sentence::Years1To2 => 1,
            Sentence::Years2To5 => 2,
            Sentence::Years5To10 => 3,
            Sentence::Years10To25 => 4,
            Sentence::Years25Plus => 5,
            Sentence::YearsLife => 6,
            Sentence::Missing => 7,
        }
    }
}

/// Kind of release.  The source data writes this field's missing code as a
/// space only.
#[derive(Copy, Clone, Debug, PartialEq, Eq, Hash, Structural)]
pub enum ReleaseType {
    Conditional,
    Unconditional,
    Other,
    Missing,
}

/// Number of `ReleaseType` variants.
pub const RELEASE_TYPE_COUNT: usize = 4;

impl ReleaseType {
    pub open spec fn decode_spec(s: Seq<u8>) -> Option<ReleaseType> {
        if code_is(s, 49) {
            Some(ReleaseType::Conditional)
        } else if code_is(s, 50) {
            Some(ReleaseType::Unconditional)
        } else if code_is(s, 51) {
            Some(ReleaseType::Other)
        } else if code_is(s, SPACE) {
            Some(ReleaseType::Missing)
        } else {
            None
        }
    }

    pub open spec fn code_spec(self) -> Seq<u8> {
        match self {
            ReleaseType::Conditional => seq![49u8],
            ReleaseType::Unconditional => seq![50u8],
            ReleaseType::Other => seq![51u8],
            ReleaseType::Missing => seq![SPACE],
        }
    }

    pub open spec fn index_spec(self) -> int {
        match self {
            ReleaseType::Conditional => 0,
            ReleaseType::Unconditional => 1,
            ReleaseType::Other => 2,
            ReleaseType::Missing => 3,
        }
    }

    pub fn decode(s: &[u8]) -> (r: Option<ReleaseType>)
        ensures
            r == ReleaseType::decode_spec(s@),
    {
        if bytes_is(s, 49) {
            Some(ReleaseType::Conditional)
        } else if bytes_is(s, 50) {
            Some(ReleaseType::Unconditional)
        } else if bytes_is(s, 51) {
            Some(ReleaseType::Other)
        } else if bytes_is(s, SPACE) {
            Some(ReleaseType::Missing)
        } else {
            None
        }
    }

    pub fn index(self) -> (r: usize)
        ensures
            r == self.index_spec(),
    {
        match self {
            ReleaseType::Conditional => 0,
            ReleaseType::Unconditional => 1,
            ReleaseType::Other => 2,
            ReleaseType::Missing => 3,
        }
    }
}

/// State of the reporting jurisdiction, keyed by a one- or two-digit
/// numeric code with gaps.  The source data has no missing code here.
#[derive(Copy, Clone, Debug, PartialEq, Eq, Hash, Structural)]
pub enum State {
    Alabama,
    Alaska,
    Arizona,
    Arkansas,
    California,
    Colorado,
    Connecticut,
    Delaware,
    DistrictOfColumbia,
    Florida,
    Georgia,
    Hawaii,
    Idaho,
    Illinois,
    Indiana,
    Iowa,
    Kansas,
    Kentucky,
    Louisiana,
    Maine,
    Maryland,
    Massachusetts,
    Michigan,
    Minnesota,
    Mississippi,
    Missouri,
    Montana,
    Nebraska,
    Nevada,
    NewHampshire,
    NewJersey,
    NewMexico,
    NewYork,
    NorthCarolina,
    NorthDakota,
    Ohio,
    Oklahoma,
    Oregon,
    Pennsylvania,
    RhodeIsland,
    SouthCarolina,
    SouthDakota,
    Tennessee,
    Texas,
    Utah,
    Vermont,
    Virginia,
    Washington,
    WestVirginia,
    Wisconsin,
    Wyoming,
}

/// Number of `State` variants.
pub const STATE_COUNT: usize = 51;

impl State {
    /// The variant denoted by the numeric code `n`.  The codes run from 1
    /// to 56 with gaps at 3, 7, 14, 43 and 52.
    pub open spec fn of_num(n: int) -> Option<State> {
        if n == 1 {
            Some(State::Alabama)
        } else if n == 2 {
            Some(State::Alaska)
        } else if n == 4 {
            Some(State::Arizona)
        } else if n == 5 {
            Some(State::Arkansas)
        } else if n == 6 {
            Some(State::California)
        } else if n == 8 {
            Some(State::Colorado)
        } else if n == 9 {
            Some(State::Connecticut)
        } else if n == 10 {
            Some(State::Delaware)
        } else if n == 11 {
            Some(State::DistrictOfColumbia)
        } else if n == 12 {
            Some(State::Florida)
        } else if n == 13 {
            Some(State::Georgia)
        } else if n == 15 {
            Some(State::Hawaii)
        } else if n == 16 {
            Some(State::Idaho)
        } else if n == 17 {
            Some(State::Illinois)
        } else if n == 18 {
            Some(State::Indiana)
        } else if n == 19 {
            Some(State::Iowa)
        } else if n == 20 {
            Some(State::Kansas)
        } else if n == 21 {
            Some(State::Kentucky)
        } else if n == 22 {
            Some(State::Louisiana)
        } else if n == 23 {
            Some(State::Maine)
        } else if n == 24 {
            Some(State::Maryland)
        } else if n == 25 {
            Some(State::Massachusetts)
        } else if n == 26 {
            Some(State::Michigan)
        } else if n == 27 {
            Some(State::Minnesota)
        } else if n == 28 {
            Some(State::Mississippi)
        } else if n == 29 {
            Some(State::Missouri)
        } else if n == 30 {
            Some(State::Montana)
        } else if n == 31 {
            Some(State::Nebraska)
        } else if n == 32 {
            Some(State::Nevada)
        } else if n == 33 {
            Some(State::NewHampshire)
        } else if n == 34 {
            Some(State::NewJersey)
        } else if n == 35 {
            Some(State::NewMexico)
        } else if n == 36 {
            Some(State::NewYork)
        } else if n == 37 {
            Some(State::NorthCarolina)
        } else if n == 38 {
            Some(State::NorthDakota)
        } else if n == 39 {
            Some(State::Ohio)
        } else if n == 40 {
            Some(State::Oklahoma)
        } else if n == 41 {
            Some(State::Oregon)
        } else if n == 42 {
            Some(State::Pennsylvania)
        } else if n == 44 {
            Some(State::RhodeIsland)
        } else if n == 45 {
            Some(State::SouthCarolina)
        } else if n == 46 {
            Some(State::SouthDakota)
        } else if n == 47 {
            Some(State::Tennessee)
        } else if n == 48 {
            Some(State::Texas)
        } else if n == 49 {
            Some(State::Utah)
        } else if n == 50 {
            Some(State::Vermont)
        } else if n == 51 {
            Some(State::Virginia)
        } else if n == 53 {
            Some(State::Washington)
        } else if n == 54 {
            Some(State::WestVirginia)
        } else if n == 55 {
            Some(State::Wisconsin)
        } else if n == 56 {
            Some(State::Wyoming)
        } else {
            None
        }
    }

    pub open spec fn decode_spec(s: Seq<u8>) -> Option<State> {
        match code_num(s) {
            Some(n) => State::of_num(n),
            None => None,
        }
    }

    pub open spec fn num_spec(self) -> int {
        match self {
            State::Alabama => 1,
            State::Alaska => 2,
            State::Arizona => 4,
            State::Arkansas => 5,
            State::California => 6,
            State::Colorado => 8,
            State::Connecticut => 9,
            State::Delaware => 10,
            State::DistrictOfColumbia => 11,
            State::Florida => 12,
            State::Georgia => 13,
            State::Hawaii => 15,
            State::Idaho => 16,
            State::Illinois => 17,
            State::Indiana => 18,
            State::Iowa => 19,
            State::Kansas => 20,
            State::Kentucky => 21,
            State::Louisiana => 22,
            State::Maine => 23,
            State::Maryland => 24,
            State::Massachusetts => 25,
            State::Michigan => 26,
            State::Minnesota => 27,
            State::Mississippi => 28,
            State::Missouri => 29,
            State::Montana => 30,
            State::Nebraska => 31,
            State::Nevada => 32,
            State::NewHampshire => 33,
            State::NewJersey => 34,
            State::NewMexico => 35,
            State::NewYork => 36,
            State::NorthCarolina => 37,
            State::NorthDakota => 38,
            State::Ohio => 39,
            State::Oklahoma => 40,
            State::Oregon => 41,
            State::Pennsylvania => 42,
            State::RhodeIsland => 44,
            State::SouthCarolina => 45,
            State::SouthDakota => 46,
            State::Tennessee => 47,
            State::Texas => 48,
            State::Utah => 49,
            State::Vermont => 50,
            State::Virginia => 51,
            State::Washington => 53,
            State::WestVirginia => 54,
            State::Wisconsin => 55,
            State::Wyoming => 56,
        }
    }

    pub open spec fn code_spec(self) -> Seq<u8> {
        let n = self.num_spec();
        if n < 10 {
            seq![(48 + n) as u8]
        } else {
            seq![(48 + n / 10) as u8, (48 + n % 10) as u8]
        }
    }

    pub open spec fn index_spec(self) -> int {
        match self {
            State::Alabama => 0,
            State::Alaska => 1,
            State::Arizona => 2,
            State::Arkansas => 3,
            State::California => 4,
            State::Colorado => 5,
            State::Connecticut => 6,
            State::Delaware => 7,
            State::DistrictOfColumbia => 8,
            State::Florida => 9,
            State::Georgia => 10,
            State::Hawaii => 11,
            State::Idaho => 12,
            State::Illinois => 13,
            State::Indiana => 14,
            State::Iowa => 15,
            State::Kansas => 16,
            State::Kentucky => 17,
            State::Louisiana => 18,
            State::Maine => 19,
            State::Maryland => 20,
            State::Massachusetts => 21,
            State::Michigan => 22,
            State::Minnesota => 23,
            State::Mississippi => 24,
            State::Missouri => 25,
            State::Montana => 26,
            State::Nebraska => 27,
            State::Nevada => 28,
            State::NewHampshire => 29,
            State::NewJersey => 30,
            State::NewMexico => 31,
            State::NewYork => 32,
            State::NorthCarolina => 33,
            State::NorthDakota => 34,
            State::Ohio => 35,
            State::Oklahoma => 36,
            State::Oregon => 37,
            State::Pennsylvania => 38,
            State::RhodeIsland => 39,
            State::SouthCarolina => 40,
            State::SouthDakota => 41,
            State::Tennessee => 42,
            State::Texas => 43,
            State::Utah => 44,
            State::Vermont => 45,
            State::Virginia => 46,
            State::Washington => 47,
            State::WestVirginia => 48,
            State::Wisconsin => 49,
            State::Wyoming => 50,
        }
    }

    pub fn from_num(n: u8) -> (r: Option<State>)
        ensures
            r == State::of_num(n as int),
    {
        match n {
            1 => Some(State::Alabama),
            2 => Some(State::Alaska),
            4 => Some(State::Arizona),
            5 => Some(State::Arkansas),
            6 => Some(State::California),
            8 => Some(State::Colorado),
            9 => Some(State::Connecticut),
            10 => Some(State::Delaware),
            11 => Some(State::DistrictOfColumbia),
            12 => Some(State::Florida),
            13 => Some(State::Georgia),
            15 => Some(State::Hawaii),
            16 => Some(State::Idaho),
            17 => Some(State::Illinois),
            18 => Some(State::Indiana),
            19 => Some(State::Iowa),
            20 => Some(State::Kansas),
            21 => Some(State::Kentucky),
            22 => Some(State::Louisiana),
            23 => Some(State::Maine),
            24 => Some(State::Maryland),
            25 => Some(State::Massachusetts),
            26 => Some(State::Michigan),
            27 => Some(State::Minnesota),
            28 => Some(State::Mississippi),
            29 => Some(State::Missouri),
            30 => Some(State::Montana),
            31 => Some(State::Nebraska),
            32 => Some(State::Nevada),
            33 => Some(State::NewHampshire),
            34 => Some(State::NewJersey),
            35 => Some(State::NewMexico),
            36 => Some(State::NewYork),
            37 => Some(State::NorthCarolina),
            38 => Some(State::NorthDakota),
            39 => Some(State::Ohio),
            40 => Some(State::Oklahoma),
            41 => Some(State::Oregon),
            42 => Some(State::Pennsylvania),
            44 => Some(State::RhodeIsland),
            45 => Some(State::SouthCarolina),
            46 => Some(State::SouthDakota),
            47 => Some(State::Tennessee),
            48 => Some(State::Texas),
            49 => Some(State::Utah),
            50 => Some(State::Vermont),
            51 => Some(State::Virginia),
            53 => Some(State::Washington),
            54 => Some(State::WestVirginia),
            55 => Some(State::Wisconsin),
            56 => Some(State::Wyoming),
            _ => None,
        }
    }

    pub fn decode(s: &[u8]) -> (r: Option<State>)
        ensures
            r == State::decode_spec(s@),
    {
        match bytes_code_num(s) {
            Some(n) => State::from_num(n),
            None => None,
        }
    }

    pub fn index(self) -> (r: usize)
        ensures
            r == self.index_spec(),
    {
        match self {
            State::Alabama => 0,
            State::Alaska => 1,
            State::Arizona => 2,
            State::Arkansas => 3,
            State::California => 4,
            State::Colorado => 5,
            State::Connecticut => 6,
            State::Delaware => 7,
            State::DistrictOfColumbia => 8,
            State::Florida => 9,
            State::Georgia => 10,
            State::Hawaii => 11,
            State::Idaho => 12,
            State::Illinois => 13,
            State::Indiana => 14,
            State::Iowa => 15,
            State::Kansas => 16,
            State::Kentucky => 17,
            State::Louisiana => 18,
            State::Maine => 19,
            State::Maryland => 20,
            State::Massachusetts => 21,
            State::Michigan => 22,
            State::Minnesota => 23,
            State::Mississippi => 24,
            State::Missouri => 25,
            State::Montana => 26,
            State::Nebraska => 27,
            State::Nevada => 28,
            State::NewHampshire => 29,
            State::NewJersey => 30,
            State::NewMexico => 31,
            State::NewYork => 32,
            State::NorthCarolina => 33,
            State::NorthDakota => 34,
            State::Ohio => 35,
            State::Oklahoma => 36,
            State::Oregon => 37,
            State::Pennsylvania => 38,
            State::RhodeIsland => 39,
            State::SouthCarolina => 40,
            State::SouthDakota => 41,
            State::Tennessee => 42,
            State::Texas => 43,
            State::Utah => 44,
            State::Vermont => 45,
            State::Virginia => 46,
            State::Washington => 47,
            State::WestVirginia => 48,
            State::Wisconsin => 49,
            State::Wyoming => 50,
        }
    }
}

/// Decoding is the left inverse of the canonical code assignment: every
/// canonical code decodes to exactly its own variant, so the canonical
/// codes are pairwise distinct.
pub proof fn lemma_sex_codes()
    ensures
        forall|v: Sex| #[trigger] Sex::decode_spec(v.code_spec()) == Some(v),
        forall|v1: Sex, v2: Sex|
            #![trigger v1.code_spec(), v2.code_spec()]
            v1.code_spec() == v2.code_spec() ==> v1 == v2,
{
    assert forall|v: Sex| #[trigger] Sex::decode_spec(v.code_spec()) == Some(v) by {
    }
    assert forall|v1: Sex, v2: Sex|
        v1.code_spec() == v2.code_spec() implies v1 == v2 by {
        assert(Sex::decode_spec(v1.code_spec()) == Some(v1));
        assert(Sex::decode_spec(v2.code_spec()) == Some(v2));
    }
}

/// See [`lemma_sex_codes`]: the same law for `AdmissionType`.
pub proof fn lemma_admission_type_codes()
    ensures
        forall|v: AdmissionType| #[trigger] AdmissionType::decode_spec(v.code_spec()) == Some(v),
        forall|v1: AdmissionType, v2: AdmissionType|
            #![trigger v1.code_spec(), v2.code_spec()]
            v1.code_spec() == v2.code_spec() ==> v1 == v2,
{
    assert forall|v: AdmissionType| #[trigger] AdmissionType::decode_spec(v.code_spec()) == Some(v) by {
    }
    assert forall|v1: AdmissionType, v2: AdmissionType|
        v1.code_spec() == v2.code_spec() implies v1 == v2 by {
        assert(AdmissionType::decode_spec(v1.code_spec()) == Some(v1));
        assert(AdmissionType::decode_spec(v2.code_spec()) == Some(v2));
    }
}

/// See [`lemma_sex_codes`]: the same law for `OffenseType`.
pub proof fn lemma_offense_type_codes()
    ensures
        forall|v: OffenseType| #[trigger] OffenseType::decode_spec(v.code_spec()) == Some(v),
        forall|v1: OffenseType, v2: OffenseType|
            #![trigger v1.code_spec(), v2.code_spec()]
            v1.code_spec() == v2.code_spec() ==> v1 == v2,
{
    assert forall|v: OffenseType| #[trigger] OffenseType::decode_spec(v.code_spec()) == Some(v) by {
    }
    assert forall|v1: OffenseType, v2: OffenseType|
        v1.code_spec() == v2.code_spec() implies v1 == v2 by {
        assert(OffenseType::decode_spec(v1.code_spec()) == Some(v1));
        assert(OffenseType::decode_spec(v2.code_spec()) == Some(v2));
    }
}

/// See [`lemma_sex_codes`]: the same law for `OffenseDetailedType`.
pub proof fn lemma_offense_detailed_type_codes()
    ensures
        forall|v: OffenseDetailedType| #[trigger] OffenseDetailedType::decode_spec(v.code_spec()) == Some(v),
        forall|v1: OffenseDetailedType, v2: OffenseDetailedType|
            #![trigger v1.code_spec(), v2.code_spec()]
            v1.code_spec() == v2.code_spec() ==> v1 == v2,
{
    assert forall|v: OffenseDetailedType| #[trigger] OffenseDetailedType::decode_spec(v.code_spec()) == Some(v) by {
        assert(code_num(v.code_spec()) == Some(v.num_spec()));
    }
    assert forall|v1: OffenseDetailedType, v2: OffenseDetailedType|
        v1.code_spec() == v2.code_spec() implies v1 == v2 by {
        assert(code_num(v1.code_spec()) == Some(v1.num_spec()));
        assert(code_num(v2.code_spec()) == Some(v2.num_spec()));
        assert(OffenseDetailedType::decode_spec(v1.code_spec()) == Some(v1));
        assert(OffenseDetailedType::decode_spec(v2.code_spec()) == Some(v2));
    }
}

/// See [`lemma_sex_codes`]: the same law for `Education`.
pub proof fn lemma_education_codes()
    ensures
        forall|v: Education| #[trigger] Education::decode_spec(v.code_spec()) == Some(v),
        forall|v1: Education, v2: Education|
            #![trigger v1.code_spec(), v2.code_spec()]
            v1.code_spec() == v2.code_spec() ==> v1 == v2,
{
    assert forall|v: Education| #[trigger] Education::decode_spec(v.code_spec()) == Some(v) by {
    }
    assert forall|v1: Education, v2: Education|
        v1.code_spec() == v2.code_spec() implies v1 == v2 by {
        assert(Education::decode_spec(v1.code_spec()) == Some(v1));
        assert(Education::decode_spec(v2.code_spec()) == Some(v2));
    }
}

/// See [`lemma_sex_codes`]: the same law for `Race`.
pub proof fn lemma_race_codes()
    ensures
        forall|v: Race| #[trigger] Race::decode_spec(v.code_spec()) == Some(v),
        forall|v1: Race, v2: Race|
            #![trigger v1.code_spec(), v2.code_spec()]
            v1.code_spec() == v2.code_spec() ==> v1 == v2,
{
    assert forall|v: Race| #[trigger] Race::decode_spec(v.code_spec()) == Some(v) by {
    }
    assert forall|v1: Race, v2: Race|
        v1.code_spec() == v2.code_spec() implies v1 == v2 by {
        assert(Race::decode_spec(v1.code_spec()) == Some(v1));
        assert(Race::decode_spec(v2.code_spec()) == Some(v2));
    }
}

/// See [`lemma_sex_codes`]: the same law for `Age`.
pub proof fn lemma_age_codes()
    ensures
        forall|v: Age| #[trigger] Age::decode_spec(v.code_spec()) == Some(v),
        forall|v1: Age, v2: Age|
            #![trigger v1.code_spec(), v2.code_spec()]
            v1.code_spec() == v2.code_spec() ==> v1 == v2,
{
    assert forall|v: Age| #[trigger] Age::decode_spec(v.code_spec()) == Some(v) by {
    }
    assert forall|v1: Age, v2: Age|
        v1.code_spec() == v2.code_spec() implies v1 == v2 by {
        assert(Age::decode_spec(v1.code_spec()) == Some(v1));
        assert(Age::decode_spec(v2.code_spec()) == Some(v2));
    }
}

/// See [`lemma_sex_codes`]: the same law for `TimeServed`.
pub proof fn lemma_time_served_codes()
    ensures
        forall|v: TimeServed| #[trigger] TimeServed::decode_spec(v.code_spec()) == Some(v),
        forall|v1: TimeServed, v2: TimeServed|
            #![trigger v1.code_spec(), v2.code_spec()]
            v1.code_spec() == v2.code_spec() ==> v1 == v2,
{
    assert forall|v: TimeServed| #[trigger] TimeServed::decode_spec(v.code_spec()) == Some(v) by {
    }
    assert forall|v1: TimeServed, v2: TimeServed|
        v1.code_spec() == v2.code_spec() implies v1 == v2 by {
        assert(TimeServed::decode_spec(v1.code_spec()) == Some(v1));
        assert(TimeServed::decode_spec(v2.code_spec()) == Some(v2));
    }
}

/// See [`lemma_sex_codes`]: the same law for `Sentence`.
pub proof fn lemma_sentence_codes()
    ensures
        forall|v: Sentence| #[trigger] Sentence::decode_spec(v.code_spec()) == Some(v),
        forall|v1: Sentence, v2: Sentence|
            #![trigger v1.code_spec(), v2.code_spec()]
            v1.code_spec() == v2.code_spec() ==> v1 == v2,
{
    assert forall|v: Sentence| #[trigger] Sentence::decode_spec(v.code_spec()) == Some(v) by {
    }
    assert forall|v1: Sentence, v2: Sentence|
        v1.code_spec() == v2.code_spec() implies v1 == v2 by {
        assert(Sentence::decode_spec(v1.code_spec()) == Some(v1));
        assert(Sentence::decode_spec(v2.code_spec()) == Some(v2));
    }
}

/// See [`lemma_sex_codes`]: the same law for `ReleaseType`.
pub proof fn lemma_release_type_codes()
    ensures
        forall|v: ReleaseType| #[trigger] ReleaseType::decode_spec(v.code_spec()) == Some(v),
        forall|v1: ReleaseType, v2: ReleaseType|
            #![trigger v1.code_spec(), v2.code_spec()]
            v1.code_spec() == v2.code_spec() ==> v1 == v2,
{
    assert forall|v: ReleaseType| #[trigger] ReleaseType::decode_spec(v.code_spec()) == Some(v) by {
    }
    assert forall|v1: ReleaseType, v2: ReleaseType|
        v1.code_spec() == v2.code_spec() implies v1 == v2 by {
        assert(ReleaseType::decode_spec(v1.code_spec()) == Some(v1));
        assert(ReleaseType::decode_spec(v2.code_spec()) == Some(v2));
    }
}

/// See [`lemma_sex_codes`]: the same law for `State`.
pub proof fn lemma_state_codes()
    ensures
        forall|v: State| #[trigger] State::decode_spec(v.code_spec()) == Some(v),
        forall|v1: State, v2: State|
            #![trigger v1.code_spec(), v2.code_spec()]
            v1.code_spec() == v2.code_spec() ==> v1 == v2,
{
    assert forall|v: State| #[trigger] State::decode_spec(v.code_spec()) == Some(v) by {
        assert(code_num(v.code_spec()) == Some(v.num_spec()));
    }
    assert forall|v1: State, v2: State|
        v1.code_spec() == v2.code_spec() implies v1 == v2 by {
        assert(code_num(v1.code_spec()) == Some(v1.num_spec()));
        assert(code_num(v2.code_spec()) == Some(v2.num_spec()));
        assert(State::decode_spec(v1.code_spec()) == Some(v1));
        assert(State::decode_spec(v2.code_spec()) == Some(v2));
    }
}

} // verus!
