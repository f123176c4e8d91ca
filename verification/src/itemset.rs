//! The one-hot encoding of a record: a fixed-width bit vector (an item
//! set), one bit range per participating field, one bit per non-missing
//! variant.  Bit position is the field's base offset (sum of the widths of
//! the preceding encoded fields, in record field-declaration order) plus
//! the variant's ordinal.  A missing value in a participating field sets no
//! bit; fields excluded from encoding contribute no bits at all.

use vstd::prelude::*;

use crate::record::Record;
use crate::schema::{AdmissionType, Age, OffenseType, Race, ReleaseType, Sentence,
    TimeServed};

verus! {

/// Total one-hot width: the sum of the widths of the eight encoded fields.
pub const ONEHOT_WIDTH: usize = 34;

/// Number of fields that participate in the encoding.
pub const ENCODED_FIELD_COUNT: usize = 8;

/// Base offset of encoded field `f`, in record field-declaration order:
/// sex, admission type, offense type, sentence, race, admission age, time
/// served, release type.
pub open spec fn field_base(f: int) -> int {
    if f == 0 {
        0  // sex
    } else if f == 1 {
        2  // admission type
    } else if f == 2 {
        5  // offense type
    } else if f == 3 {
        10  // sentence
    } else if f == 4 {
        17  // race
    } else if f == 5 {
        21  // admission age
    } else if f == 6 {
        26  // time served
    } else {
        31  // release type
    }
}

/// One-hot width of encoded field `f`: its variant count without the
/// missing sentinel.
pub open spec fn field_width(f: int) -> int {
    if f == 0 {
        2
    } else if f == 1 {
        3
    } else if f == 2 {
        5
    } else if f == 3 {
        7
    } else if f == 4 {
        4
    } else if f == 5 {
        5
    } else if f == 6 {
        5
    } else {
        3
    }
}

/// The ordinal of record `r`'s value in encoded field `f`; the width of
/// the field when the value is the missing sentinel (and so sets no bit).
pub open spec fn field_ord(r: Record, f: int) -> int {
    if f == 0 {
        r.sex.index_spec()
    } else if f == 1 {
        r.admission_type.index_spec()
    } else if f == 2 {
        r.offense_type.index_spec()
    } else if f == 3 {
        r.sentence.index_spec()
    } else if f == 4 {
        r.race.index_spec()
    } else if f == 5 {
        r.age_admission.index_spec()
    } else if f == 6 {
        r.time_served.index_spec()
    } else {
        r.release_type.index_spec()
    }
}

/// Whether bit `i` is set in the one-hot encoding of record `r`: `i` is
/// some encoded field's base plus the ordinal of a non-missing value.
pub open spec fn record_bit(r: Record, i: int) -> bool {
    exists|f: int|
        #![trigger field_ord(r, f)]
        0 <= f < ENCODED_FIELD_COUNT && field_ord(r, f) < field_width(f) && i == field_base(f)
            + field_ord(r, f)
}

/// A fixed-width bit vector over the one-hot item vocabulary, also the
/// shape of a mined pattern.  Bits at and above [`ONEHOT_WIDTH`] are never
/// set.
#[derive(Copy, Clone, Debug, PartialEq, Eq, Hash, Structural)]
pub struct ItemSet {
    pub bits: u64,
}

proof fn lemma_bit_zero(j: u64)
    by (bit_vector)
    requires
        j < 64,
    ensures
        (0u64 >> j) & 1 == 0,
{
}

proof fn lemma_bit_or_set(b: u64, k: u64, j: u64)
    by (bit_vector)
    requires
        k < 64,
        j < 64,
    ensures
        ((b | (1u64 << k)) >> j) & 1 == (if j == k {
            1u64
        } else {
            (b >> j) & 1
        }),
{
}

proof fn lemma_or_preserves_bound(b: u64, k: u64)
    by (bit_vector)
    requires
        b < (1u64 << 34),
        k < 34,
    ensures
        (b | (1u64 << k)) < (1u64 << 34),
{
}

proof fn lemma_bound_high_bit(b: u64, j: u64)
    by (bit_vector)
    requires
        b < (1u64 << 34),
        34 <= j < 64,
    ensures
        (b >> j) & 1 == 0,
{
}

proof fn lemma_full_bit(j: u64)
    by (bit_vector)
    requires
        j < 64,
    ensures
        (0x3_FFFF_FFFFu64 >> j) & 1 == (if j < 34 {
            1u64
        } else {
            0u64
        }),
{
}

/// The ascending sequence of the set bits of `s` below `n`.
pub open spec fn items_upto(s: ItemSet, n: int) -> Seq<usize>
    decreases n,
{
    if n <= 0 {
        Seq::empty()
    } else if s.has(n - 1) {
        items_upto(s, n - 1).push((n - 1) as usize)
    } else {
        items_upto(s, n - 1)
    }
}

/// The ascending sequence of all set bits of a well-formed item set.
pub open spec fn item_seq(s: ItemSet) -> Seq<usize> {
    items_upto(s, ONEHOT_WIDTH as int)
}

proof fn lemma_items_upto_props(s: ItemSet, n: int)
    requires
        0 <= n <= 64,
    ensures
        forall|k: int|
            0 <= k < items_upto(s, n).len() ==> (#[trigger] items_upto(s, n)[k]) < n && s.has(
                items_upto(s, n)[k] as int,
            ),
        forall|k1: int, k2: int|
            0 <= k1 < k2 < items_upto(s, n).len() ==> items_upto(s, n)[k1] < items_upto(
                s,
                n,
            )[k2],
        forall|i: int| 0 <= i < n && s.has(i) ==> items_upto(s, n).contains(i as usize),
    decreases n,
{
    if n > 0 {
        lemma_items_upto_props(s, n - 1);
        let prev = items_upto(s, n - 1);
        let cur = items_upto(s, n);
        assert forall|i: int| 0 <= i < n && s.has(i) implies cur.contains(i as usize) by {
            if i < n - 1 {
                let k = choose|k: int| 0 <= k < prev.len() && prev[k] == i as usize;
                assert(cur[k] == i as usize);
            } else {
                assert(s.has(n - 1));
                assert(cur[cur.len() - 1] == (n - 1) as usize);
            }
        }
    }
}

impl ItemSet {
    /// Whether bit `i` of this item set is set.
    pub open spec fn has(self, i: int) -> bool {
        0 <= i < 64 && (self.bits >> (i as u64)) & 1u64 == 1u64
    }

    /// Well-formed: no bit at or above the one-hot width is set.
    pub open spec fn wf(self) -> bool {
        self.bits < (1u64 << 34)
    }

    /// A well-formed item set has no high bit set.
    pub proof fn lemma_wf_bits(self)
        requires
            self.wf(),
        ensures
            forall|i: int| #[trigger] self.has(i) ==> 0 <= i < ONEHOT_WIDTH,
    {
        assert forall|i: int| #[trigger] self.has(i) implies 0 <= i < ONEHOT_WIDTH by {
            if 34 <= i < 64 {
                lemma_bound_high_bit(self.bits, i as u64);
            }
        }
    }

    /// The item set with no bit set.
    pub fn empty() -> (r: ItemSet)
        ensures
            forall|i: int| !r.has(i),
            r.wf(),
    {
        let r = ItemSet { bits: 0 };
        proof {
            assert forall|i: int| !r.has(i) by {
                if 0 <= i < 64 {
                    lemma_bit_zero(i as u64);
                }
            }
            assert(0u64 < (1u64 << 34)) by (bit_vector);
        }
        r
    }

    /// The item set with exactly the whole vocabulary set: the first
    /// [`ONEHOT_WIDTH`] bits.  Used to enumerate and display the item
    /// vocabulary, not as a record encoding.
    pub fn full() -> (r: ItemSet)
        ensures
            forall|i: int| #[trigger] r.has(i) <==> 0 <= i < ONEHOT_WIDTH,
            r.wf(),
    {
        let r = ItemSet { bits: 0x3_FFFF_FFFF };
        proof {
            assert forall|i: int| #[trigger] r.has(i) <==> 0 <= i < ONEHOT_WIDTH by {
                if 0 <= i < 64 {
                    lemma_full_bit(i as u64);
                }
            }
            assert(0x3_FFFF_FFFFu64 < (1u64 << 34)) by (bit_vector);
        }
        r
    }

    /// Set bit `item`.
    pub fn add(&mut self, item: usize)
        requires
            item < ONEHOT_WIDTH,
            old(self).wf(),
        ensures
            final(self).wf(),
            forall|i: int| #[trigger] final(self).has(i) <==> (old(self).has(i) || i == item),
    {
        let ghost pre = *self;
        self.bits = self.bits | (1u64 << (item as u64));
        proof {
            lemma_or_preserves_bound(pre.bits, item as u64);
            assert forall|i: int| #[trigger] self.has(i) <==> (pre.has(i) || i == item) by {
                if 0 <= i < 64 {
                    lemma_bit_or_set(pre.bits, item as u64, i as u64);
                }
            }
        }
    }

    /// Whether bit `item` is set.
    pub fn contains(&self, item: usize) -> (b: bool)
        requires
            item < 64,
        ensures
            b == self.has(item as int),
    {
        (self.bits >> (item as u64)) & 1 == 1
    }

    /// The set bits, in ascending order.
    pub fn items(&self) -> (r: Vec<usize>)
        requires
            self.wf(),
        ensures
            r@ == item_seq(*self),
            forall|k: int| 0 <= k < r@.len() ==> (#[trigger] r@[k]) < ONEHOT_WIDTH
                && self.has(r@[k] as int),
            forall|k1: int, k2: int| 0 <= k1 < k2 < r@.len() ==> r@[k1] < r@[k2],
            forall|i: int| #[trigger] self.has(i) ==> r@.contains(i as usize),
    {
        let mut r: Vec<usize> = Vec::new();
        let mut i: usize = 0;
        while i < ONEHOT_WIDTH
            invariant
                i <= ONEHOT_WIDTH,
                r@ == items_upto(*self, i as int),
            decreases ONEHOT_WIDTH - i,
        {
            if self.contains(i) {
                r.push(i);
            }
            i = i + 1;
        }
        proof {
            lemma_items_upto_props(*self, ONEHOT_WIDTH as int);
            self.lemma_wf_bits();
        }
        r
    }
}

/// One-hot encode a record: one bit per participating field whose value is
/// not the missing sentinel, at the field's base plus the value's ordinal.
#[verifier::rlimit(60)]
pub fn encode(r: &Record) -> (s: ItemSet)
    ensures
        s.wf(),
        forall|i: int| #[trigger] s.has(i) <==> record_bit(*r, i),
{
    let mut s = ItemSet::empty();
    s.add(r.sex.index());
    if r.admission_type != AdmissionType::Missing {
        s.add(2 + r.admission_type.index());
    }
    if r.offense_type != OffenseType::Missing {
        s.add(5 + r.offense_type.index());
    }
    if r.sentence != Sentence::Missing {
        s.add(10 + r.sentence.index());
    }
    if r.race != Race::Missing {
        s.add(17 + r.race.index());
    }
    if r.age_admission != Age::Missing {
        s.add(21 + r.age_admission.index());
    }
    if r.time_served != TimeServed::Missing {
        s.add(26 + r.time_served.index());
    }
    if r.release_type != ReleaseType::Missing {
        s.add(31 + r.release_type.index());
    }
    proof {
        assert(field_ord(*r, 0) == r.sex.index_spec());
        assert(field_ord(*r, 1) == r.admission_type.index_spec());
        assert(field_ord(*r, 2) == r.offense_type.index_spec());
        assert(field_ord(*r, 3) == r.sentence.index_spec());
        assert(field_ord(*r, 4) == r.race.index_spec());
        assert(field_ord(*r, 5) == r.age_admission.index_spec());
        assert(field_ord(*r, 6) == r.time_served.index_spec());
        assert(field_ord(*r, 7) == r.release_type.index_spec());
        assert forall|i: int| #[trigger] s.has(i) <==> record_bit(*r, i) by {
            if s.has(i) {
            } else {
                if record_bit(*r, i) {
                    let f = choose|f: int|
                        0 <= f < ENCODED_FIELD_COUNT && field_ord(*r, f) < field_width(f)
                            && i == field_base(f) + field_ord(*r, f);
                    assert(s.has(field_base(f) + field_ord(*r, f)));
                }
            }
        }
    }
    s
}

/// The human-readable name of bit position `i`: the field name and the
/// variant name, in the same order the offsets were assigned.
pub open spec fn label_spec(i: int) -> Seq<char> {
    if i == 0 {
        "sex=Male"@
    } else if i == 1 {
        "sex=Female"@
    } else if i == 2 {
        "admission_type=New"@
    } else if i == 3 {
        "admission_type=Parole"@
    } else if i == 4 {
        "admission_type=Other"@
    } else if i == 5 {
        "offense_type=Violent"@
    } else if i == 6 {
        "offense_type=Property"@
    } else if i == 7 {
        "offense_type=Drugs"@
    } else if i == 8 {
        "offense_type=PublicOrder"@
    } else if i == 9 {
        "offense_type=Other"@
    } else if i == 10 {
        "sentence=Years0To1"@
    } else if i == 11 {
        "sentence=Years1To2"@
    } else if i == 12 {
        "sentence=Years2To5"@
    } else if i == 13 {
        "sentence=Years5To10"@
    } else if i == 14 {
        "sentence=Years10To25"@
    } else if i == 15 {
        "sentence=Years25Plus"@
    } else if i == 16 {
        "sentence=YearsLife"@
    } else if i == 17 {
        "race=White"@
    } else if i == 18 {
        "race=Black"@
    } else if i == 19 {
        "race=Hispanic"@
    } else if i == 20 {
        "race=Other"@
    } else if i == 21 {
        "age_admission=Age18To24"@
    } else if i == 22 {
        "age_admission=Age25To34"@
    } else if i == 23 {
        "age_admission=Age35To44"@
    } else if i == 24 {
        "age_admission=Age45To54"@
    } else if i == 25 {
        "age_admission=Age55Plus"@
    } else if i == 26 {
        "time_served=Years0To1"@
    } else if i == 27 {
        "time_served=Years1To2"@
    } else if i == 28 {
        "time_served=Years2To5"@
    } else if i == 29 {
        "time_served=Years5To10"@
    } else if i == 30 {
        "time_served=Years10Plus"@
    } else if i == 31 {
        "release_type=Conditional"@
    } else if i == 32 {
        "release_type=Unconditional"@
    } else {
        "release_type=Other"@
    }
}

/// Build the label table of the whole vocabulary, one name per bit
/// position, in offset order.
pub fn labels() -> (r: Vec<String>)
    ensures
        r@.len() == ONEHOT_WIDTH,
        forall|i: int| 0 <= i < ONEHOT_WIDTH ==> (#[trigger] r@[i])@ == label_spec(i),
{
    let mut r: Vec<String> = Vec::new();
    r.push(String::from_str("sex=Male"));
    r.push(String::from_str("sex=Female"));
    r.push(String::from_str("admission_type=New"));
    r.push(String::from_str("admission_type=Parole"));
    r.push(String::from_str("admission_type=Other"));
    r.push(String::from_str("offense_type=Violent"));
    r.push(String::from_str("offense_type=Property"));
    r.push(String::from_str("offense_type=Drugs"));
    r.push(String::from_str("offense_type=PublicOrder"));
    r.push(String::from_str("offense_type=Other"));
    r.push(String::from_str("sentence=Years0To1"));
    r.push(String::from_str("sentence=Years1To2"));
    r.push(String::from_str("sentence=Years2To5"));
    r.push(String::from_str("sentence=Years5To10"));
    r.push(String::from_str("sentence=Years10To25"));
    r.push(String::from_str("sentence=Years25Plus"));
    r.push(String::from_str("sentence=YearsLife"));
    r.push(String::from_str("race=White"));
    r.push(String::from_str("race=Black"));
    r.push(String::from_str("race=Hispanic"));
    r.push(String::from_str("race=Other"));
    r.push(String::from_str("age_admission=Age18To24"));
    r.push(String::from_str("age_admission=Age25To34"));
    r.push(String::from_str("age_admission=Age35To44"));
    r.push(String::from_str("age_admission=Age45To54"));
    r.push(String::from_str("age_admission=Age55Plus"));
    r.push(String::from_str("time_served=Years0To1"));
    r.push(String::from_str("time_served=Years1To2"));
    r.push(String::from_str("time_served=Years2To5"));
    r.push(String::from_str("time_served=Years5To10"));
    r.push(String::from_str("time_served=Years10Plus"));
    r.push(String::from_str("release_type=Conditional"));
    r.push(String::from_str("release_type=Unconditional"));
    r.push(String::from_str("release_type=Other"));
    r
}

/// The names of the first `k` items of `items`, joined by a comma and a
/// space.
pub open spec fn join_upto(items: Seq<usize>, labs: Seq<Seq<char>>, k: int) -> Seq<char>
    decreases k,
{
    if k <= 0 {
        Seq::empty()
    } else if k == 1 {
        labs[items[0] as int]
    } else {
        join_upto(items, labs, k - 1) + ", "@ + labs[items[k - 1] as int]
    }
}

/// The display form of an item set under a label table: the labels of its
/// set bits in ascending bit order, joined by a comma and a space, between
/// braces, with no trailing separator.
pub open spec fn display_spec(items: Seq<usize>, labs: Seq<Seq<char>>) -> Seq<char> {
    "{"@ + join_upto(items, labs, items.len() as int) + "}"@
}

impl ItemSet {
    /// Render this item set under a label table, one label per set bit in
    /// ascending bit order.
    pub fn display(&self, labels: &Vec<String>) -> (out: String)
        requires
            self.wf(),
            labels@.len() == ONEHOT_WIDTH,
        ensures
            out@ == display_spec(item_seq(*self), labels@.map_values(|s: String| s@)),
    {
        let ghost labs = labels@.map_values(|s: String| s@);
        let items = self.items();
        let mut out = String::from_str("{");
        if items.len() > 0 {
            out.append(labels[items[0]].as_str());
            proof {
                assert(labs[items@[0] as int] == labels@[items@[0] as int]@);
                assert(out@ =~= "{"@ + join_upto(items@, labs, 1));
            }
            let mut k: usize = 1;
            while k < items.len()
                invariant
                    1 <= k <= items@.len(),
                    labels@.len() == ONEHOT_WIDTH,
                    labs == labels@.map_values(|s: String| s@),
                    forall|j: int| 0 <= j < items@.len() ==> (#[trigger] items@[j])
                        < ONEHOT_WIDTH,
                    out@ == "{"@ + join_upto(items@, labs, k as int),
                decreases items@.len() - k,
            {
                out.append(", ");
                out.append(labels[items[k]].as_str());
                proof {
                    assert(labs[items@[k as int] as int] == labels@[items@[k as int] as int]@);
                    assert(out@ =~= "{"@ + join_upto(items@, labs, k as int + 1));
                }
                k = k + 1;
            }
        }
        out.append("}");
        proof {
            assert(out@ =~= display_spec(item_seq(*self), labs));
        }
        out
    }
}

/// Every set bit of an encoding lies below the one-hot width, and for each
/// participating field whose value is not missing the encoding has exactly
/// one bit in that field's range; a missing value leaves its whole range
/// clear.
pub proof fn lemma_one_hot(r: Record)
    ensures
        forall|i: int| #[trigger] record_bit(r, i) ==> 0 <= i < ONEHOT_WIDTH,
        forall|f: int, i: int|
            #![trigger field_base(f), record_bit(r, i)]
            0 <= f < ENCODED_FIELD_COUNT && field_base(f) <= i < field_base(f) + field_width(f)
                ==> (record_bit(r, i) <==> (field_ord(r, f) < field_width(f) && i == field_base(f)
                + field_ord(r, f))),
{
    assert forall|f: int, i: int|
        0 <= f < ENCODED_FIELD_COUNT && field_base(f) <= i < field_base(f) + field_width(
            f,
        ) implies (record_bit(r, i) <==> (field_ord(r, f) < field_width(f) && i == field_base(f)
        + field_ord(r, f))) by {
        if record_bit(r, i) {
            let g = choose|g: int|
                0 <= g < ENCODED_FIELD_COUNT && field_ord(r, g) < field_width(g) && i
                    == field_base(g) + field_ord(r, g);
            assert(g == f);
        }
    }
}

} // verus!
