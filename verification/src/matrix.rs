//! The transposed (vertical) bit matrix: items by transactions, cell
//! `(i, j)` set exactly when transaction `j`'s record has item `i`.  Each
//! row is one item's full occurrence set across transactions, the layout
//! the mining engine intersects row by row.  Built once from the accepted
//! record collection, immutable afterwards.

use vstd::prelude::*;

use crate::itemset::{encode, record_bit, ItemSet, ONEHOT_WIDTH};
use crate::record::Record;

verus! {

/// The mathematical shape of a bit matrix: its two dimensions and its
/// rows as sequences of bits.
#[verifier::ext_equal]
pub ghost struct MatrixModel {
    pub items: nat,
    pub transactions: nat,
    pub rows: Seq<Seq<bool>>,
}

impl MatrixModel {
    /// Well-formed: exactly `items` rows of `transactions` bits each.
    pub open spec fn wf(self) -> bool {
        &&& self.rows.len() == self.items
        &&& forall|i: int| 0 <= i < self.items ==> (#[trigger] self.rows[i]).len()
            == self.transactions
    }
}

/// An items-by-transactions bit matrix, row-major over items.
#[derive(Clone, Debug, PartialEq, Eq)]
pub struct BitMatrix {
    /// Number of rows: one per item.
    pub items: usize,
    /// Number of columns: one per transaction.
    pub transactions: usize,
    /// The rows; each row holds one bit per transaction.
    pub rows: Vec<Vec<bool>>,
}

impl View for BitMatrix {
    type V = MatrixModel;

    open spec fn view(&self) -> MatrixModel {
        MatrixModel {
            items: self.items as nat,
            transactions: self.transactions as nat,
            rows: self.rows@.map_values(|r: Vec<bool>| r@),
        }
    }
}

impl BitMatrix {
    /// Well-formed: exactly `items` rows of `transactions` bits each.
    pub open spec fn wf(self) -> bool {
        &&& self.rows@.len() == self.items
        &&& forall|i: int| 0 <= i < self.items ==> (#[trigger] self.rows@[i])@.len()
            == self.transactions
    }

    /// Cell `(i, j)`: whether transaction `j` has item `i`.
    pub open spec fn bit(self, i: int, j: int) -> bool {
        self.rows@[i]@[j]
    }

    /// Read cell `(i, j)`.
    pub fn get(&self, i: usize, j: usize) -> (b: bool)
        requires
            self.wf(),
            i < self.items,
            j < self.transactions,
        ensures
            b == self.bit(i as int, j as int),
    {
        self.rows[i][j]
    }
}

/// Whether `s` is the one-hot encoding of `r`.
pub open spec fn encodes(s: ItemSet, r: Record) -> bool {
    s.wf() && forall|i: int| #[trigger] s.has(i) <==> record_bit(r, i)
}

/// Assemble the transposed matrix of a record collection: one row per item
/// of the one-hot vocabulary, one column per record, cell `(i, j)` set
/// exactly when record `j`'s encoding has bit `i`.
pub fn encode_records(records: &Vec<Record>) -> (m: BitMatrix)
    ensures
        m.wf(),
        m.items == ONEHOT_WIDTH,
        m.transactions == records@.len(),
        forall|i: int, j: int|
            0 <= i < ONEHOT_WIDTH && 0 <= j < records@.len() ==> (#[trigger] m.bit(i, j))
                == record_bit(records@[j], i),
{
    let n = records.len();
    let mut codes: Vec<ItemSet> = Vec::new();
    let mut j: usize = 0;
    while j < n
        invariant
            j <= n,
            n == records@.len(),
            codes@.len() == j,
            forall|k: int| 0 <= k < j ==> encodes(#[trigger] codes@[k], records@[k]),
        decreases n - j,
    {
        codes.push(encode(&records[j]));
        j = j + 1;
    }
    let mut rows: Vec<Vec<bool>> = Vec::new();
    let mut i: usize = 0;
    while i < ONEHOT_WIDTH
        invariant
            i <= ONEHOT_WIDTH,
            n == records@.len(),
            codes@.len() == n,
            forall|k: int| 0 <= k < n ==> encodes(#[trigger] codes@[k], records@[k]),
            rows@.len() == i,
            forall|k: int| 0 <= k < i ==> (#[trigger] rows@[k])@.len() == n,
            forall|k: int, j2: int|
                0 <= k < i && 0 <= j2 < n ==> (#[trigger] rows@[k]@[j2]) == record_bit(
                    records@[j2],
                    k,
                ),
        decreases ONEHOT_WIDTH - i,
    {
        let mut row: Vec<bool> = Vec::new();
        let mut c: usize = 0;
        while c < n
            invariant
                c <= n,
                i < ONEHOT_WIDTH,
                n == records@.len(),
                codes@.len() == n,
                forall|k: int| 0 <= k < n ==> encodes(#[trigger] codes@[k], records@[k]),
                row@.len() == c,
                forall|j2: int|
                    0 <= j2 < c ==> (#[trigger] row@[j2]) == record_bit(records@[j2], i as int),
            decreases n - c,
        {
            row.push(codes[c].contains(i));
            c = c + 1;
        }
        rows.push(row);
        i = i + 1;
    }
    BitMatrix { items: ONEHOT_WIDTH, transactions: n, rows }
}

} // verus!
