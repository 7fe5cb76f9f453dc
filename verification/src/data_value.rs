//! Tagged values exchanged between control scripts and host-side storages.
//!
//! A total order is defined over values so they can serve as table keys.
//! Values of different kinds order by kind; numbers carry the bit pattern
//! of their 32-bit binary encoding and order by the bit-stable key below —
//! not by the encoding's own partial comparison — so every number, however
//! exotic, has one place in the order; strings are byte strings, as script
//! runtimes treat them, and compare bytewise; sequences and tables compare
//! lexicographically.

use vstd::prelude::*;

verus! {

/// One tagged value.
#[derive(Debug)]
pub enum DataValue {
    Nil,
    Boolean(bool),
    Integer(i64),
    /// The bit pattern of the number's 32-bit binary encoding.
    Number(u32),
    String(Vec<u8>),
    Sequence(Vec<DataValue>),
    /// Key–value pairs; the order over values keeps them usable as keys.
    Table(Vec<(DataValue, DataValue)>),
}

impl Default for DataValue {
    fn default() -> (r: Self)
        ensures
            r == DataValue::Nil,
    {
        DataValue::Nil
    }
}

/// The rank of a value's kind; values of different kinds order by rank.
pub open spec fn rank(v: DataValue) -> int {
    match v {
        DataValue::Nil => 0,
        DataValue::Boolean(_) => 1,
        DataValue::Integer(_) => 2,
        DataValue::Number(_) => 3,
        DataValue::String(_) => 4,
        DataValue::Sequence(_) => 5,
        DataValue::Table(_) => 6,
    }
}

/// The bit-stable ordering key of a number's 32-bit encoding: encodings
/// with the sign bit set are reversed and placed below the rest, so the
/// key is monotone in the encoded value wherever the encoding itself is
/// ordered, and total everywhere.
pub open spec fn num_key(bits: u32) -> int {
    if bits >= 0x8000_0000 {
        0xFFFF_FFFFu32 - bits
    } else {
        bits + 0x8000_0000
    }
}

/// Three-way comparison of two integers, as a sign.
pub open spec fn sign_cmp(a: int, b: int) -> int {
    if a < b {
        -1
    } else if a > b {
        1
    } else {
        0
    }
}

/// Bytewise lexicographic comparison; a strict prefix orders first.
pub open spec fn cmp_bytes(s: Seq<u8>, t: Seq<u8>) -> int
    decreases s.len(),
{
    if s.len() == 0 && t.len() == 0 {
        0
    } else if s.len() == 0 {
        -1
    } else if t.len() == 0 {
        1
    } else if s[0] != t[0] {
        sign_cmp(s[0] as int, t[0] as int)
    } else {
        cmp_bytes(s.skip(1), t.skip(1))
    }
}

/// The total order over values, as a sign.
pub open spec fn cmp_value(a: DataValue, b: DataValue) -> int
    decreases a,
{
    match (a, b) {
        (DataValue::Nil, DataValue::Nil) => 0,
        (DataValue::Boolean(x), DataValue::Boolean(y)) => if x == y {
            0
        } else if !x {
            -1
        } else {
            1
        },
        (DataValue::Integer(x), DataValue::Integer(y)) => sign_cmp(x as int, y as int),
        (DataValue::Number(x), DataValue::Number(y)) => sign_cmp(num_key(x), num_key(y)),
        (DataValue::String(x), DataValue::String(y)) => cmp_bytes(x@, y@),
        (DataValue::Sequence(x), DataValue::Sequence(y)) => cmp_seq(x@, y@),
        (DataValue::Table(x), DataValue::Table(y)) => cmp_pairs(x@, y@),
        _ => sign_cmp(rank(a), rank(b)),
    }
}

/// Lexicographic comparison of value sequences; a strict prefix orders
/// first.
pub open spec fn cmp_seq(s: Seq<DataValue>, t: Seq<DataValue>) -> int
    decreases s,
{
    if s.len() == 0 && t.len() == 0 {
        0
    } else if s.len() == 0 {
        -1
    } else if t.len() == 0 {
        1
    } else {
        let c = cmp_value(s[0], t[0]);
        if c != 0 {
            c
        } else {
            cmp_seq(s.subrange(1, s.len() as int), t.skip(1))
        }
    }
}

/// Lexicographic comparison of pair sequences, keys before values.
pub open spec fn cmp_pairs(s: Seq<(DataValue, DataValue)>, t: Seq<(DataValue, DataValue)>) -> int
    decreases s,
{
    if s.len() == 0 && t.len() == 0 {
        0
    } else if s.len() == 0 {
        -1
    } else if t.len() == 0 {
        1
    } else {
        let ck = cmp_value(s[0].0, t[0].0);
        if ck != 0 {
            ck
        } else {
            let cv = cmp_value(s[0].1, t[0].1);
            if cv != 0 {
                cv
            } else {
                cmp_pairs(s.subrange(1, s.len() as int), t.skip(1))
            }
        }
    }
}

/// Structural equivalence of two values: same kind, same content.
pub open spec fn same_value(a: DataValue, b: DataValue) -> bool
    decreases a,
{
    match (a, b) {
        (DataValue::Nil, DataValue::Nil) => true,
        (DataValue::Boolean(x), DataValue::Boolean(y)) => x == y,
        (DataValue::Integer(x), DataValue::Integer(y)) => x == y,
        (DataValue::Number(x), DataValue::Number(y)) => x == y,
        (DataValue::String(x), DataValue::String(y)) => x@ == y@,
        (DataValue::Sequence(x), DataValue::Sequence(y)) => same_seq(x@, y@),
        (DataValue::Table(x), DataValue::Table(y)) => same_pairs(x@, y@),
        _ => false,
    }
}

pub open spec fn same_seq(s: Seq<DataValue>, t: Seq<DataValue>) -> bool
    decreases s,
{
    if s.len() != t.len() {
        false
    } else if s.len() == 0 {
        true
    } else {
        same_value(s[0], t[0]) && same_seq(s.subrange(1, s.len() as int), t.skip(1))
    }
}

pub open spec fn same_pairs(
    s: Seq<(DataValue, DataValue)>,
    t: Seq<(DataValue, DataValue)>,
) -> bool
    decreases s,
{
    if s.len() != t.len() {
        false
    } else if s.len() == 0 {
        true
    } else {
        same_value(s[0].0, t[0].0) && same_value(s[0].1, t[0].1) && same_pairs(
            s.subrange(1, s.len() as int),
            t.skip(1),
        )
    }
}

/// Comparison of a value with itself is zero.
pub proof fn lemma_cmp_refl(a: DataValue)
    ensures
        cmp_value(a, a) == 0,
    decreases a,
{
    match a {
        DataValue::String(x) => lemma_cmp_bytes_refl(x@),
        DataValue::Sequence(x) => lemma_cmp_seq_refl(x@),
        DataValue::Table(x) => lemma_cmp_pairs_refl(x@),
        _ => {},
    }
}

pub proof fn lemma_cmp_bytes_refl(s: Seq<u8>)
    ensures
        cmp_bytes(s, s) == 0,
    decreases s.len(),
{
    if s.len() > 0 {
        lemma_cmp_bytes_refl(s.skip(1));
    }
}

pub proof fn lemma_cmp_seq_refl(s: Seq<DataValue>)
    ensures
        cmp_seq(s, s) == 0,
    decreases s,
{
    if s.len() > 0 {
        lemma_cmp_refl(s[0]);
        assert(s.subrange(1, s.len() as int) =~= s.skip(1));
        lemma_cmp_seq_refl(s.subrange(1, s.len() as int));
    }
}

pub proof fn lemma_cmp_pairs_refl(s: Seq<(DataValue, DataValue)>)
    ensures
        cmp_pairs(s, s) == 0,
    decreases s,
{
    if s.len() > 0 {
        lemma_cmp_refl(s[0].0);
        lemma_cmp_refl(s[0].1);
        assert(s.subrange(1, s.len() as int) =~= s.skip(1));
        lemma_cmp_pairs_refl(s.subrange(1, s.len() as int));
    }
}

/// Swapping the operands flips the sign of the comparison.
pub proof fn lemma_cmp_antisym(a: DataValue, b: DataValue)
    ensures
        cmp_value(a, b) == -cmp_value(b, a),
    decreases a,
{
    match (a, b) {
        (DataValue::String(x), DataValue::String(y)) => lemma_cmp_bytes_antisym(x@, y@),
        (DataValue::Sequence(x), DataValue::Sequence(y)) => lemma_cmp_seq_antisym(x@, y@),
        (DataValue::Table(x), DataValue::Table(y)) => lemma_cmp_pairs_antisym(x@, y@),
        _ => {},
    }
}

pub proof fn lemma_cmp_bytes_antisym(s: Seq<u8>, t: Seq<u8>)
    ensures
        cmp_bytes(s, t) == -cmp_bytes(t, s),
    decreases s.len(),
{
    if s.len() > 0 && t.len() > 0 && s[0] == t[0] {
        lemma_cmp_bytes_antisym(s.skip(1), t.skip(1));
    }
}

pub proof fn lemma_cmp_seq_antisym(s: Seq<DataValue>, t: Seq<DataValue>)
    ensures
        cmp_seq(s, t) == -cmp_seq(t, s),
    decreases s,
{
    if s.len() > 0 && t.len() > 0 {
        lemma_cmp_antisym(s[0], t[0]);
        if cmp_value(s[0], t[0]) == 0 {
            assert(s.subrange(1, s.len() as int) =~= s.skip(1));
            assert(t.subrange(1, t.len() as int) =~= t.skip(1));
            lemma_cmp_seq_antisym(s.subrange(1, s.len() as int), t.skip(1));
        }
    }
}

pub proof fn lemma_cmp_pairs_antisym(s: Seq<(DataValue, DataValue)>, t: Seq<(DataValue, DataValue)>)
    ensures
        cmp_pairs(s, t) == -cmp_pairs(t, s),
    decreases s,
{
    if s.len() > 0 && t.len() > 0 {
        lemma_cmp_antisym(s[0].0, t[0].0);
        if cmp_value(s[0].0, t[0].0) == 0 {
            lemma_cmp_antisym(s[0].1, t[0].1);
            if cmp_value(s[0].1, t[0].1) == 0 {
                assert(s.subrange(1, s.len() as int) =~= s.skip(1));
                assert(t.subrange(1, t.len() as int) =~= t.skip(1));
                lemma_cmp_pairs_antisym(s.subrange(1, s.len() as int), t.skip(1));
            }
        }
    }
}

/// The comparison is zero exactly on structurally equal values.
pub proof fn lemma_cmp_zero_iff_same(a: DataValue, b: DataValue)
    ensures
        cmp_value(a, b) == 0 <==> same_value(a, b),
    decreases a,
{
    match (a, b) {
        (DataValue::String(x), DataValue::String(y)) => lemma_cmp_bytes_zero(x@, y@),
        (DataValue::Sequence(x), DataValue::Sequence(y)) => lemma_cmp_seq_zero(x@, y@),
        (DataValue::Table(x), DataValue::Table(y)) => lemma_cmp_pairs_zero(x@, y@),
        _ => {},
    }
}

pub proof fn lemma_cmp_bytes_zero(s: Seq<u8>, t: Seq<u8>)
    ensures
        cmp_bytes(s, t) == 0 <==> s == t,
    decreases s.len(),
{
    if s.len() == 0 && t.len() == 0 {
        assert(s =~= t);
    } else if s.len() > 0 && t.len() > 0 && s[0] == t[0] {
        lemma_cmp_bytes_zero(s.skip(1), t.skip(1));
        if cmp_bytes(s.skip(1), t.skip(1)) == 0 {
            assert(s =~= t) by {
                assert(s.len() == t.len());
                assert forall|i: int| 0 <= i < s.len() implies s[i] == t[i] by {
                    if i > 0 {
                        assert(s[i] == s.skip(1)[i - 1]);
                        assert(t[i] == t.skip(1)[i - 1]);
                    }
                }
            }
        }
    }
}

pub proof fn lemma_cmp_seq_zero(s: Seq<DataValue>, t: Seq<DataValue>)
    ensures
        cmp_seq(s, t) == 0 <==> same_seq(s, t),
    decreases s,
{
    if s.len() > 0 && t.len() > 0 {
        lemma_cmp_zero_iff_same(s[0], t[0]);
        if cmp_value(s[0], t[0]) == 0 {
            assert(s.subrange(1, s.len() as int) =~= s.skip(1));
            assert(t.subrange(1, t.len() as int) =~= t.skip(1));
            lemma_cmp_seq_zero(s.subrange(1, s.len() as int), t.skip(1));
        }
    }
}

pub proof fn lemma_cmp_pairs_zero(s: Seq<(DataValue, DataValue)>, t: Seq<(DataValue, DataValue)>)
    ensures
        cmp_pairs(s, t) == 0 <==> same_pairs(s, t),
    decreases s,
{
    if s.len() > 0 && t.len() > 0 {
        lemma_cmp_zero_iff_same(s[0].0, t[0].0);
        if cmp_value(s[0].0, t[0].0) == 0 {
            lemma_cmp_zero_iff_same(s[0].1, t[0].1);
            if cmp_value(s[0].1, t[0].1) == 0 {
                assert(s.subrange(1, s.len() as int) =~= s.skip(1));
                assert(t.subrange(1, t.len() as int) =~= t.skip(1));
                lemma_cmp_pairs_zero(s.subrange(1, s.len() as int), t.skip(1));
            }
        }
    }
}

pub proof fn lemma_cmp_bytes_trans(s: Seq<u8>, t: Seq<u8>, u: Seq<u8>)
    requires
        cmp_bytes(s, t) <= 0,
        cmp_bytes(t, u) <= 0,
    ensures
        cmp_bytes(s, u) <= 0,
        cmp_bytes(s, t) < 0 || cmp_bytes(t, u) < 0 ==> cmp_bytes(s, u) < 0,
    decreases s.len(),
{
    if s.len() > 0 && t.len() > 0 && u.len() > 0 && s[0] == t[0] && t[0] == u[0] {
        lemma_cmp_bytes_trans(s.skip(1), t.skip(1), u.skip(1));
    }
}

/// A value equivalent to another compares the same way against everything.
pub proof fn lemma_cmp_congr_right(a: DataValue, b: DataValue, b2: DataValue)
    requires
        cmp_value(b, b2) == 0,
    ensures
        cmp_value(a, b) == cmp_value(a, b2),
    decreases b,
{
    match (b, b2) {
        (DataValue::String(x), DataValue::String(y)) => {
            lemma_cmp_bytes_zero(x@, y@);
        },
        (DataValue::Sequence(x), DataValue::Sequence(y)) => {
            match a {
                DataValue::Sequence(s) => lemma_cmp_seq_congr_right(s@, x@, y@),
                _ => {},
            }
        },
        (DataValue::Table(x), DataValue::Table(y)) => {
            match a {
                DataValue::Table(s) => lemma_cmp_pairs_congr_right(s@, x@, y@),
                _ => {},
            }
        },
        _ => {},
    }
}

pub proof fn lemma_cmp_seq_congr_right(s: Seq<DataValue>, t: Seq<DataValue>, t2: Seq<DataValue>)
    requires
        cmp_seq(t, t2) == 0,
    ensures
        cmp_seq(s, t) == cmp_seq(s, t2),
    decreases t,
{
    if t.len() > 0 && t2.len() > 0 {
        assert(t.subrange(1, t.len() as int) =~= t.skip(1));
        if s.len() > 0 {
            lemma_cmp_congr_right(s[0], t[0], t2[0]);
            if cmp_value(s[0], t[0]) == 0 {
                lemma_cmp_seq_congr_right(s.subrange(1, s.len() as int), t.skip(1), t2.skip(1));
            }
        }
    }
}

pub proof fn lemma_cmp_pairs_congr_right(
    s: Seq<(DataValue, DataValue)>,
    t: Seq<(DataValue, DataValue)>,
    t2: Seq<(DataValue, DataValue)>,
)
    requires
        cmp_pairs(t, t2) == 0,
    ensures
        cmp_pairs(s, t) == cmp_pairs(s, t2),
    decreases t,
{
    if t.len() > 0 && t2.len() > 0 {
        assert(t.subrange(1, t.len() as int) =~= t.skip(1));
        if s.len() > 0 {
            lemma_cmp_congr_right(s[0].0, t[0].0, t2[0].0);
            if cmp_value(s[0].0, t[0].0) == 0 {
                lemma_cmp_congr_right(s[0].1, t[0].1, t2[0].1);
                if cmp_value(s[0].1, t[0].1) == 0 {
                    lemma_cmp_pairs_congr_right(
                        s.subrange(1, s.len() as int),
                        t.skip(1),
                        t2.skip(1),
                    );
                }
            }
        }
    }
}

/// The mirrored congruence, by antisymmetry.
pub proof fn lemma_cmp_congr_left(a: DataValue, a2: DataValue, b: DataValue)
    requires
        cmp_value(a, a2) == 0,
    ensures
        cmp_value(a, b) == cmp_value(a2, b),
{
    lemma_cmp_antisym(a, b);
    lemma_cmp_antisym(a2, b);
    lemma_cmp_congr_right(b, a, a2);
}

/// The order is transitive: chained non-positive comparisons stay
/// non-positive, and strictly so where either link is strict. Together with
/// reflexivity and antisymmetry this makes the comparison a total order up
/// to structural equivalence.
pub proof fn lemma_cmp_trans(a: DataValue, b: DataValue, c: DataValue)
    requires
        cmp_value(a, b) <= 0,
        cmp_value(b, c) <= 0,
    ensures
        cmp_value(a, c) <= 0,
        cmp_value(a, b) < 0 || cmp_value(b, c) < 0 ==> cmp_value(a, c) < 0,
    decreases a,
{
    match (a, b, c) {
        (DataValue::String(x), DataValue::String(y), DataValue::String(z)) => {
            lemma_cmp_bytes_trans(x@, y@, z@);
        },
        (DataValue::Sequence(x), DataValue::Sequence(y), DataValue::Sequence(z)) => {
            lemma_cmp_seq_trans(x@, y@, z@);
        },
        (DataValue::Table(x), DataValue::Table(y), DataValue::Table(z)) => {
            lemma_cmp_pairs_trans(x@, y@, z@);
        },
        _ => {},
    }
}

pub proof fn lemma_cmp_seq_trans(s: Seq<DataValue>, t: Seq<DataValue>, u: Seq<DataValue>)
    requires
        cmp_seq(s, t) <= 0,
        cmp_seq(t, u) <= 0,
    ensures
        cmp_seq(s, u) <= 0,
        cmp_seq(s, t) < 0 || cmp_seq(t, u) < 0 ==> cmp_seq(s, u) < 0,
    decreases s,
{
    if s.len() > 0 && t.len() > 0 && u.len() > 0 {
        let c1 = cmp_value(s[0], t[0]);
        let c2 = cmp_value(t[0], u[0]);
        assert(s.subrange(1, s.len() as int) =~= s.skip(1));
        assert(t.subrange(1, t.len() as int) =~= t.skip(1));
        if c1 == 0 && c2 == 0 {
            lemma_cmp_congr_right(s[0], t[0], u[0]);
            lemma_cmp_seq_trans(s.subrange(1, s.len() as int), t.skip(1), u.skip(1));
        } else if c1 < 0 {
            if c2 == 0 {
                lemma_cmp_congr_right(s[0], t[0], u[0]);
            } else {
                lemma_cmp_trans(s[0], t[0], u[0]);
            }
        } else {
            lemma_cmp_congr_left(s[0], t[0], u[0]);
        }
    }
}

pub proof fn lemma_cmp_pairs_trans(
    s: Seq<(DataValue, DataValue)>,
    t: Seq<(DataValue, DataValue)>,
    u: Seq<(DataValue, DataValue)>,
)
    requires
        cmp_pairs(s, t) <= 0,
        cmp_pairs(t, u) <= 0,
    ensures
        cmp_pairs(s, u) <= 0,
        cmp_pairs(s, t) < 0 || cmp_pairs(t, u) < 0 ==> cmp_pairs(s, u) < 0,
    decreases s,
{
    if s.len() > 0 && t.len() > 0 && u.len() > 0 {
        let c1k = cmp_value(s[0].0, t[0].0);
        let c2k = cmp_value(t[0].0, u[0].0);
        assert(s.subrange(1, s.len() as int) =~= s.skip(1));
        assert(t.subrange(1, t.len() as int) =~= t.skip(1));
        if c1k == 0 && c2k == 0 {
            lemma_cmp_congr_right(s[0].0, t[0].0, u[0].0);
            let c1v = cmp_value(s[0].1, t[0].1);
            let c2v = cmp_value(t[0].1, u[0].1);
            if c1v == 0 && c2v == 0 {
                lemma_cmp_congr_right(s[0].1, t[0].1, u[0].1);
                lemma_cmp_pairs_trans(s.subrange(1, s.len() as int), t.skip(1), u.skip(1));
            } else if c1v < 0 {
                if c2v == 0 {
                    lemma_cmp_congr_right(s[0].1, t[0].1, u[0].1);
                } else {
                    lemma_cmp_trans(s[0].1, t[0].1, u[0].1);
                }
            } else {
                lemma_cmp_congr_left(s[0].1, t[0].1, u[0].1);
            }
        } else if c1k < 0 {
            if c2k == 0 {
                lemma_cmp_congr_right(s[0].0, t[0].0, u[0].0);
            } else {
                lemma_cmp_trans(s[0].0, t[0].0, u[0].0);
            }
        } else {
            lemma_cmp_congr_left(s[0].0, t[0].0, u[0].0);
        }
    }
}

/// The rank of a value's kind.
fn rank_of(v: &DataValue) -> (r: i8)
    ensures
        r as int == rank(*v),
{
    match v {
        DataValue::Nil => 0,
        DataValue::Boolean(_) => 1,
        DataValue::Integer(_) => 2,
        DataValue::Number(_) => 3,
        DataValue::String(_) => 4,
        DataValue::Sequence(_) => 5,
        DataValue::Table(_) => 6,
    }
}

/// Bytewise lexicographic comparison of two byte strings.
fn bytes_cmp(x: &Vec<u8>, y: &Vec<u8>) -> (o: i8)
    ensures
        o as int == cmp_bytes(x@, y@),
{
    let xn = x.len();
    let yn = y.len();
    let n: usize = if xn < yn {
        xn
    } else {
        yn
    };
    proof {
        assert(x@.skip(0) =~= x@);
        assert(y@.skip(0) =~= y@);
    }
    let mut i: usize = 0;
    while i < n
        invariant
            i <= n,
            n <= xn == x@.len(),
            n <= yn == y@.len(),
            n == xn || n == yn,
            cmp_bytes(x@, y@) == cmp_bytes(x@.skip(i as int), y@.skip(i as int)),
        decreases n - i,
    {
        proof {
            assert(x@.skip(i as int)[0] == x@[i as int]);
            assert(y@.skip(i as int)[0] == y@[i as int]);
            assert(x@.skip(i as int).skip(1) =~= x@.skip(i + 1));
            assert(y@.skip(i as int).skip(1) =~= y@.skip(i + 1));
        }
        if x[i] < y[i] {
            return -1;
        }
        if x[i] > y[i] {
            return 1;
        }
        i = i + 1;
    }
    if xn == yn {
        0
    } else if xn < yn {
        -1
    } else {
        1
    }
}

/// Total three-way comparison of two values: negative, zero or positive as
/// the first orders before, with, or after the second.
pub fn data_cmp(a: &DataValue, b: &DataValue) -> (o: i8)
    ensures
        o as int == cmp_value(*a, *b),
    decreases *a,
{
    match (a, b) {
        (DataValue::Nil, DataValue::Nil) => 0,
        (DataValue::Boolean(x), DataValue::Boolean(y)) => {
            if x == y {
                0
            } else if !*x {
                -1
            } else {
                1
            }
        },
        (DataValue::Integer(x), DataValue::Integer(y)) => {
            if x < y {
                -1
            } else if x > y {
                1
            } else {
                0
            }
        },
        (DataValue::Number(x), DataValue::Number(y)) => {
            let kx: u32 = if *x >= 0x8000_0000 {
                0xFFFF_FFFFu32 - *x
            } else {
                *x + 0x8000_0000
            };
            let ky: u32 = if *y >= 0x8000_0000 {
                0xFFFF_FFFFu32 - *y
            } else {
                *y + 0x8000_0000
            };
            if kx < ky {
                -1
            } else if kx > ky {
                1
            } else {
                0
            }
        },
        (DataValue::String(x), DataValue::String(y)) => bytes_cmp(x, y),
        (DataValue::Sequence(x), DataValue::Sequence(y)) => {
            let xn = x.len();
            let yn = y.len();
            let n: usize = if xn < yn {
                xn
            } else {
                yn
            };
            proof {
                assert(x@.skip(0) =~= x@);
                assert(y@.skip(0) =~= y@);
            }
            let mut i: usize = 0;
            while i < n
                invariant
                    i <= n,
                    n <= xn == x@.len(),
                    n <= yn == y@.len(),
                    n == xn || n == yn,
                    *a == DataValue::Sequence(*x),
                    *b == DataValue::Sequence(*y),
                    cmp_seq(x@, y@) == cmp_seq(x@.skip(i as int), y@.skip(i as int)),
                decreases n - i,
            {
                proof {
                    assert(x@.skip(i as int)[0] == x@[i as int]);
                    assert(y@.skip(i as int)[0] == y@[i as int]);
                    assert(x@.skip(i as int).subrange(
                        1,
                        x@.skip(i as int).len() as int,
                    ) =~= x@.skip(i + 1));
                    assert(y@.skip(i as int).skip(1) =~= y@.skip(i + 1));
                    assert(decreases_to!(*a => a->Sequence_0));
                    assert(decreases_to!(a->Sequence_0 => x@));
                    assert(decreases_to!(x@ => x@[i as int]));
                }
                let c = data_cmp(&x[i], &y[i]);
                if c != 0 {
                    return c;
                }
                i = i + 1;
            }
            if xn == yn {
                0
            } else if xn < yn {
                -1
            } else {
                1
            }
        },
        (DataValue::Table(x), DataValue::Table(y)) => {
            let xn = x.len();
            let yn = y.len();
            let n: usize = if xn < yn {
                xn
            } else {
                yn
            };
            proof {
                assert(x@.skip(0) =~= x@);
                assert(y@.skip(0) =~= y@);
            }
            let mut i: usize = 0;
            while i < n
                invariant
                    i <= n,
                    n <= xn == x@.len(),
                    n <= yn == y@.len(),
                    n == xn || n == yn,
                    *a == DataValue::Table(*x),
                    *b == DataValue::Table(*y),
                    cmp_pairs(x@, y@) == cmp_pairs(x@.skip(i as int), y@.skip(i as int)),
                decreases n - i,
            {
                proof {
                    assert(x@.skip(i as int)[0] == x@[i as int]);
                    assert(y@.skip(i as int)[0] == y@[i as int]);
                    assert(x@.skip(i as int).subrange(
                        1,
                        x@.skip(i as int).len() as int,
                    ) =~= x@.skip(i + 1));
                    assert(y@.skip(i as int).skip(1) =~= y@.skip(i + 1));
                    assert(decreases_to!(*a => a->Table_0));
                    assert(decreases_to!(a->Table_0 => x@));
                    assert(decreases_to!(x@ => x@[i as int]));
                    assert(decreases_to!(x@[i as int] => x@[i as int].0));
                    assert(decreases_to!(x@[i as int] => x@[i as int].1));
                }
                let px = &x[i];
                let py = &y[i];
                let ck = data_cmp(&px.0, &py.0);
                if ck != 0 {
                    return ck;
                }
                let cv = data_cmp(&px.1, &py.1);
                if cv != 0 {
                    return cv;
                }
                i = i + 1;
            }
            if xn == yn {
                0
            } else if xn < yn {
                -1
            } else {
                1
            }
        },
        _ => {
            let ra = rank_of(a);
            let rb = rank_of(b);
            if ra < rb {
                -1
            } else if ra > rb {
                1
            } else {
                0
            }
        },
    }
}

/// Whether two values are structurally equal, decided by the total order.
pub fn data_eq(a: &DataValue, b: &DataValue) -> (r: bool)
    ensures
        r == same_value(*a, *b),
{
    proof {
        lemma_cmp_zero_iff_same(*a, *b);
    }
    let c = data_cmp(a, b);
    c == 0
}

} // verus!
