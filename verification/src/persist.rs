//! Matrix persistence: a self-describing byte encoding of the transposed
//! bit matrix — both dimensions, little endian, then each row packed eight
//! bits to a byte — with a proved round trip: loading what was saved gives
//! back exactly the saved matrix.  Reading and writing the bytes is the
//! caller's concern.

use vstd::prelude::*;
use vstd::arithmetic::div_mod::lemma_fundamental_div_mod_converse;

use crate::matrix::{BitMatrix, MatrixModel};

verus! {

/// Why a persisted matrix failed to load.
#[derive(Copy, Clone, Debug, PartialEq, Eq, Structural)]
pub enum PersistenceError {
    /// Fewer bytes than the dimension header.
    Truncated,
    /// A dimension exceeds what this machine can address.
    DimensionsTooLarge,
    /// The byte count does not match the dimensions: truncated or trailing
    /// bytes.
    LengthMismatch,
}

/// The number read from eight little-endian bytes.
pub open spec fn le64(b: Seq<u8>) -> u64 {
    (b[0] as u64) | ((b[1] as u64) << 8) | ((b[2] as u64) << 16) | ((b[3] as u64) << 24) | ((
    b[4] as u64) << 32) | ((b[5] as u64) << 40) | ((b[6] as u64) << 48) | ((b[7] as u64) << 56)
}

/// The eight little-endian bytes of `x`.
pub open spec fn u64_bytes(x: u64) -> Seq<u8> {
    seq![
        (x & 0xff) as u8,
        ((x >> 8) & 0xff) as u8,
        ((x >> 16) & 0xff) as u8,
        ((x >> 24) & 0xff) as u8,
        ((x >> 32) & 0xff) as u8,
        ((x >> 40) & 0xff) as u8,
        ((x >> 48) & 0xff) as u8,
        ((x >> 56) & 0xff) as u8,
    ]
}

/// Reading back the little-endian bytes of `x` gives `x`.
proof fn lemma_le64_bytes(x: u64)
    ensures
        le64(u64_bytes(x)) == x,
{
    assert((((x & 0xff) as u8) as u64) | ((((x >> 8) & 0xff) as u8 as u64) << 8) | ((((x >> 16)
        & 0xff) as u8 as u64) << 16) | ((((x >> 24) & 0xff) as u8 as u64) << 24) | ((((x >> 32)
        & 0xff) as u8 as u64) << 32) | ((((x >> 40) & 0xff) as u8 as u64) << 40) | ((((x >> 48)
        & 0xff) as u8 as u64) << 48) | ((((x >> 56) & 0xff) as u8 as u64) << 56) == x)
        by (bit_vector);
}

/// Bit `j` of a row, clear beyond the row's end.
pub open spec fn bit_at(row: Seq<bool>, j: int) -> bool {
    0 <= j < row.len() && row[j]
}

/// Bit `j` of a row as a numeric bit.
pub open spec fn bit01(row: Seq<bool>, j: int) -> u8 {
    if bit_at(row, j) {
        1u8
    } else {
        0u8
    }
}

/// Byte `b` of a packed row: bits `8 b` through `8 b + 7`, least
/// significant first.
pub open spec fn pack_byte(row: Seq<bool>, b: int) -> u8 {
    bit01(row, 8 * b) | (bit01(row, 8 * b + 1) << 1) | (bit01(row, 8 * b + 2) << 2) | (bit01(
        row,
        8 * b + 3,
    ) << 3) | (bit01(row, 8 * b + 4) << 4) | (bit01(row, 8 * b + 5) << 5) | (bit01(row, 8 * b + 6)
        << 6) | (bit01(row, 8 * b + 7) << 7)
}

/// Whether bit `t` of byte `c` is set.
pub open spec fn byte_bit(c: u8, t: int) -> bool {
    (c >> (t as u8)) & 1 == 1
}

proof fn lemma_byte_of_bits(c: u8, x0: u8, x1: u8, x2: u8, x3: u8, x4: u8, x5: u8, x6: u8, x7: u8, t: u8)
    by (bit_vector)
    requires
        x0 <= 1,
        x1 <= 1,
        x2 <= 1,
        x3 <= 1,
        x4 <= 1,
        x5 <= 1,
        x6 <= 1,
        x7 <= 1,
        t < 8,
        c == x0 | (x1 << 1) | (x2 << 2) | (x3 << 3) | (x4 << 4) | (x5 << 5) | (x6 << 6) | (x7
            << 7),
    ensures
        ((c >> t) & 1 == 1) == (if t == 0 {
            x0 == 1
        } else if t == 1 {
            x1 == 1
        } else if t == 2 {
            x2 == 1
        } else if t == 3 {
            x3 == 1
        } else if t == 4 {
            x4 == 1
        } else if t == 5 {
            x5 == 1
        } else if t == 6 {
            x6 == 1
        } else {
            x7 == 1
        }),
{
}

/// Bit `t` of packed byte `b` is bit `8 b + t` of the row.
proof fn lemma_pack_byte_bit(row: Seq<bool>, b: int, t: int)
    requires
        0 <= t < 8,
    ensures
        byte_bit(pack_byte(row, b), t) == bit_at(row, 8 * b + t),
{
    lemma_byte_of_bits(
        pack_byte(row, b),
        bit01(row, 8 * b),
        bit01(row, 8 * b + 1),
        bit01(row, 8 * b + 2),
        bit01(row, 8 * b + 3),
        bit01(row, 8 * b + 4),
        bit01(row, 8 * b + 5),
        bit01(row, 8 * b + 6),
        bit01(row, 8 * b + 7),
        t as u8,
    );
}

/// Number of bytes a packed row of `t` bits occupies.
pub open spec fn row_bytes(t: int) -> int {
    (t + 7) / 8
}

/// The saved byte form of a matrix: both dimensions little endian, then
/// the rows, each packed to [`row_bytes`] bytes.
pub open spec fn save_spec(v: MatrixModel) -> Seq<u8> {
    let rb = row_bytes(v.transactions as int);
    u64_bytes(v.items as u64) + u64_bytes(v.transactions as u64) + Seq::new(
        (v.items * rb) as nat,
        |k: int| pack_byte(v.rows[k / rb], k % rb),
    )
}

/// The row of `t` bits unpacked from the bytes starting at `start`.
pub open spec fn unpack_row(bytes: Seq<u8>, start: int, t: int) -> Seq<bool> {
    Seq::new(t as nat, |j: int| byte_bit(bytes[start + j / 8], j % 8))
}

/// The matrix a byte string decodes to, if any: the header must be whole,
/// the dimensions addressable, and the byte count exactly what the
/// dimensions demand.
pub open spec fn load_spec(bytes: Seq<u8>) -> Option<MatrixModel> {
    if bytes.len() < 16 {
        None
    } else {
        let wi = le64(bytes.subrange(0, 8));
        let wt = le64(bytes.subrange(8, 16));
        if wi > usize::MAX as u64 || wt > usize::MAX as u64 {
            None
        } else {
            let items = wi as int;
            let t = wt as int;
            let rb = row_bytes(t);
            if bytes.len() != 16 + items * rb {
                None
            } else {
                Some(
                    MatrixModel {
                        items: items as nat,
                        transactions: t as nat,
                        rows: Seq::new(items as nat, |i: int| unpack_row(bytes, 16 + i * rb, t)),
                    },
                )
            }
        }
    }
}

/// The error a failing load reports, by the first condition that fails.
pub open spec fn load_err_spec(bytes: Seq<u8>) -> PersistenceError {
    if bytes.len() < 16 {
        PersistenceError::Truncated
    } else if le64(bytes.subrange(0, 8)) > usize::MAX as u64 || le64(bytes.subrange(8, 16))
        > usize::MAX as u64 {
        PersistenceError::DimensionsTooLarge
    } else {
        PersistenceError::LengthMismatch
    }
}

/// Append the eight little-endian bytes of `x`.
fn push_u64_le(out: &mut Vec<u8>, x: u64)
    ensures
        final(out)@ == old(out)@ + u64_bytes(x),
{
    out.push((x & 0xff) as u8);
    out.push(((x >> 8) & 0xff) as u8);
    out.push(((x >> 16) & 0xff) as u8);
    out.push(((x >> 24) & 0xff) as u8);
    out.push(((x >> 32) & 0xff) as u8);
    out.push(((x >> 40) & 0xff) as u8);
    out.push(((x >> 48) & 0xff) as u8);
    out.push(((x >> 56) & 0xff) as u8);
    proof {
        assert(out@ =~= old(out)@ + u64_bytes(x));
    }
}

/// Read the eight little-endian bytes at `o`.
fn read_u64_le(bytes: &Vec<u8>, o: usize) -> (r: u64)
    requires
        o + 8 <= bytes@.len(),
        bytes@.len() <= usize::MAX,
    ensures
        r == le64(bytes@.subrange(o as int, o as int + 8)),
{
    let r = (bytes[o] as u64) | ((bytes[o + 1] as u64) << 8) | ((bytes[o + 2] as u64) << 16) | ((
    bytes[o + 3] as u64) << 24) | ((bytes[o + 4] as u64) << 32) | ((bytes[o + 5] as u64) << 40) | ((
    bytes[o + 6] as u64) << 48) | ((bytes[o + 7] as u64) << 56);
    proof {
        let b = bytes@.subrange(o as int, o as int + 8);
        assert(b[0] == bytes@[o as int]);
        assert(b[1] == bytes@[o as int + 1]);
        assert(b[2] == bytes@[o as int + 2]);
        assert(b[3] == bytes@[o as int + 3]);
        assert(b[4] == bytes@[o as int + 4]);
        assert(b[5] == bytes@[o as int + 5]);
        assert(b[6] == bytes@[o as int + 6]);
        assert(b[7] == bytes@[o as int + 7]);
    }
    r
}

/// Serialize a matrix to its saved byte form.
pub fn save_matrix(m: &BitMatrix) -> (out: Vec<u8>)
    requires
        m.wf(),
    ensures
        out@ == save_spec(m@),
{
    let ghost v = m@;
    let ghost rb_g = row_bytes(v.transactions as int);
    let t = m.transactions;
    let rb = t / 8 + (if t % 8 != 0 {
        1
    } else {
        0
    });
    proof {
        assert(rb == rb_g);
    }
    let mut out: Vec<u8> = Vec::new();
    push_u64_le(&mut out, m.items as u64);
    push_u64_le(&mut out, m.transactions as u64);
    let ghost hdr = u64_bytes(v.items as u64) + u64_bytes(v.transactions as u64);
    proof {
        assert(out@ =~= hdr);
    }
    let mut i: usize = 0;
    while i < m.items
        invariant
            m.wf(),
            v == m@,
            i <= m.items,
            rb == row_bytes(v.transactions as int),
            out@.len() == 16 + i * rb,
            out@.subrange(0, 16) =~= hdr,
            forall|k: int|
                16 <= k < 16 + i * rb ==> (#[trigger] out@[k]) == pack_byte(
                    v.rows[(k - 16) / rb as int],
                    (k - 16) % rb as int,
                ),
        decreases m.items - i,
    {
        let row = &m.rows[i];
        let tlen = row.len();
        proof {
            assert(v.rows[i as int] == m.rows@[i as int]@);
            assert(tlen == v.transactions);
        }
        let mut bb: usize = 0;
        while bb < rb
            invariant
                m.wf(),
                v == m@,
                i < m.items,
                bb <= rb,
                rb == row_bytes(v.transactions as int),
                tlen == v.transactions,
                row@ == v.rows[i as int],
                out@.len() == 16 + i * rb + bb,
                out@.subrange(0, 16) =~= hdr,
                forall|k: int|
                    16 <= k < 16 + i * rb + bb ==> (#[trigger] out@[k]) == pack_byte(
                        v.rows[(k - 16) / rb as int],
                        (k - 16) % rb as int,
                    ),
            decreases rb - bb,
        {
            let base = bb * 8;
            proof {
                assert(8 * bb < 8 * rb) by (nonlinear_arith)
                    requires
                        bb < rb,
                ;
                assert(8 * rb <= tlen + 7);
            }
            let x0: u8 = if 0 < tlen - base && row[base] {
                1
            } else {
                0
            };
            let x1: u8 = if 1 < tlen - base && row[base + 1] {
                1
            } else {
                0
            };
            let x2: u8 = if 2 < tlen - base && row[base + 2] {
                1
            } else {
                0
            };
            let x3: u8 = if 3 < tlen - base && row[base + 3] {
                1
            } else {
                0
            };
            let x4: u8 = if 4 < tlen - base && row[base + 4] {
                1
            } else {
                0
            };
            let x5: u8 = if 5 < tlen - base && row[base + 5] {
                1
            } else {
                0
            };
            let x6: u8 = if 6 < tlen - base && row[base + 6] {
                1
            } else {
                0
            };
            let x7: u8 = if 7 < tlen - base && row[base + 7] {
                1
            } else {
                0
            };
            let c: u8 = x0 | (x1 << 1u8) | (x2 << 2u8) | (x3 << 3u8) | (x4 << 4u8) | (x5 << 5u8)
                | (x6 << 6u8) | (x7 << 7u8);
            proof {
                assert(x0 == bit01(row@, 8 * bb));
                assert(x1 == bit01(row@, 8 * bb + 1));
                assert(x2 == bit01(row@, 8 * bb + 2));
                assert(x3 == bit01(row@, 8 * bb + 3));
                assert(x4 == bit01(row@, 8 * bb + 4));
                assert(x5 == bit01(row@, 8 * bb + 5));
                assert(x6 == bit01(row@, 8 * bb + 6));
                assert(x7 == bit01(row@, 8 * bb + 7));
                assert(c == pack_byte(row@, bb as int));
            }
            out.push(c);
            proof {
                let k0 = i as int * rb as int + bb as int;
                lemma_fundamental_div_mod_converse(k0, rb as int, i as int, bb as int);
                assert(out@[16 + k0] == pack_byte(v.rows[k0 / rb as int], k0 % rb as int));
                assert(out@.subrange(0, 16) =~= hdr);
            }
            bb = bb + 1;
        }
        i = i + 1;
        proof {
            assert(i as int * rb as int == (i - 1) * rb + rb) by (nonlinear_arith);
        }
    }
    proof {
        assert(out@ =~= save_spec(v));
    }
    out
}

/// Deserialize a matrix from its saved byte form, or say why the bytes are
/// not one.
pub fn load_matrix(bytes: &Vec<u8>) -> (r: Result<BitMatrix, PersistenceError>)
    ensures
        r matches Ok(m) ==> m.wf() && load_spec(bytes@) == Some(m@),
        r matches Err(e) ==> load_spec(bytes@) is None && e == load_err_spec(bytes@),
{
    let n = bytes.len();
    if n < 16 {
        return Err(PersistenceError::Truncated);
    }
    let wi = read_u64_le(bytes, 0);
    let wt = read_u64_le(bytes, 8);
    if wi > usize::MAX as u64 || wt > usize::MAX as u64 {
        return Err(PersistenceError::DimensionsTooLarge);
    }
    let items = wi as usize;
    let t = wt as usize;
    let rb = t / 8 + (if t % 8 != 0 {
        1
    } else {
        0
    });
    proof {
        assert(rb == row_bytes(t as int));
    }
    let total = match items.checked_mul(rb) {
        Some(total) => total,
        None => {
            proof {
                assert(items * rb > usize::MAX);
            }
            return Err(PersistenceError::LengthMismatch);
        },
    };
    if total != n - 16 {
        return Err(PersistenceError::LengthMismatch);
    }
    let mut rows: Vec<Vec<bool>> = Vec::new();
    let mut i: usize = 0;
    while i < items
        invariant
            i <= items,
            n == bytes@.len(),
            n == 16 + total,
            total == items * rb,
            rb == row_bytes(t as int),
            rows@.len() == i,
            forall|k: int|
                0 <= k < i ==> (#[trigger] rows@[k])@ == unpack_row(
                    bytes@,
                    16 + k * rb as int,
                    t as int,
                ),
        decreases items - i,
    {
        proof {
            assert(i * rb + rb <= items * rb) by (nonlinear_arith)
                requires
                    i < items,
                    rb >= 0,
            ;
        }
        let base = 16 + i * rb;
        let mut row: Vec<bool> = Vec::new();
        let mut j: usize = 0;
        while j < t
            invariant
                j <= t,
                i < items,
                n == bytes@.len(),
                n == 16 + total,
                total == items * rb,
                rb == row_bytes(t as int),
                base == 16 + i * rb,
                i * rb + rb <= total,
                row@.len() == j,
                forall|jj: int|
                    0 <= jj < j ==> (#[trigger] row@[jj]) == byte_bit(
                        bytes@[16 + i * rb as int + jj / 8],
                        jj % 8,
                    ),
            decreases t - j,
        {
            proof {
                assert(j / 8 < rb);
            }
            let pos = base + j / 8;
            let c = bytes[pos];
            row.push((c >> ((j % 8) as u8)) & 1 == 1);
            j = j + 1;
        }
        proof {
            assert(row@ =~= unpack_row(bytes@, 16 + i * rb as int, t as int));
        }
        rows.push(row);
        i = i + 1;
    }
    let m = BitMatrix { items, transactions: t, rows };
    proof {
        assert(m.wf());
        let loaded = load_spec(bytes@).unwrap();
        assert(loaded.rows =~= m@.rows);
        assert(loaded =~~= m@);
    }
    Ok(m)
}

/// Loading what was saved gives back exactly the saved matrix, for every
/// well-formed matrix whose dimensions this machine can address — the
/// all-zero and all-one matrices included.
pub proof fn lemma_save_load_round_trip(v: MatrixModel)
    requires
        v.wf(),
        v.items <= usize::MAX,
        v.transactions <= usize::MAX,
    ensures
        load_spec(save_spec(v)) == Some(v),
{
    let bytes = save_spec(v);
    let rb = row_bytes(v.transactions as int);
    lemma_le64_bytes(v.items as u64);
    lemma_le64_bytes(v.transactions as u64);
    assert(bytes.subrange(0, 8) =~= u64_bytes(v.items as u64));
    assert(bytes.subrange(8, 16) =~= u64_bytes(v.transactions as u64));
    assert(bytes.len() == 16 + v.items * rb);
    let loaded = load_spec(bytes).unwrap();
    assert forall|i: int| 0 <= i < v.items implies loaded.rows[i] =~= v.rows[i] by {
        assert forall|j: int| 0 <= j < v.transactions implies unpack_row(
            bytes,
            16 + i * rb,
            v.transactions as int,
        )[j] == v.rows[i][j] by {
            assert(j / 8 < rb);
            let k = i * rb + j / 8;
            lemma_fundamental_div_mod_converse(k, rb, i, j / 8);
            assert(k + rb <= v.items * rb ==> k < v.items * rb);
            assert(i * rb + rb <= v.items * rb) by (nonlinear_arith)
                requires
                    i < v.items,
                    rb >= 0,
            ;
            assert(0 <= k < v.items * rb);
            assert(bytes[16 + k] == pack_byte(v.rows[i], j / 8));
            lemma_pack_byte_bit(v.rows[i], j / 8, j % 8);
            assert(8 * (j / 8) + j % 8 == j);
        }
    }
    assert(loaded =~~= v);
}

} // verus!
