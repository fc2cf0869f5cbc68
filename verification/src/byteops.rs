//! Helpers over fixed-width byte arrays: equality and lexicographic order.
//!
//! Public keys, block hashes and signatures are fixed-width byte arrays, so
//! every comparison in the ledger bottoms out here.

use vstd::prelude::*;

verus! {

/// Pointwise equality of two 32-byte arrays.
pub fn bytes32_eq(a: &[u8; 32], b: &[u8; 32]) -> (r: bool)
    ensures
        r == (a@ == b@),
{
    let mut i: usize = 0;
    while i < 32
        invariant
            0 <= i <= 32,
            forall|j: int| 0 <= j < i ==> a@[j] == b@[j],
        decreases 32 - i,
    {
        if a[i] != b[i] {
            return false;
        }
        i += 1;
    }
    proof {
        assert(a@ =~= b@);
    }
    true
}

/// Pointwise equality of two 64-byte arrays.
pub fn bytes64_eq(a: &[u8; 64], b: &[u8; 64]) -> (r: bool)
    ensures
        r == (a@ == b@),
{
    let mut i: usize = 0;
    while i < 64
        invariant
            0 <= i <= 64,
            forall|j: int| 0 <= j < i ==> a@[j] == b@[j],
        decreases 64 - i,
    {
        if a[i] != b[i] {
            return false;
        }
        i += 1;
    }
    proof {
        assert(a@ =~= b@);
    }
    true
}

/// `a` is strictly below `b` in lexicographic order: at the first index where
/// the two sequences differ, `a` holds the smaller byte.
pub open spec fn lex_lt(a: Seq<u8>, b: Seq<u8>) -> bool {
    exists|i: int|
        0 <= i < a.len() && i < b.len() && #[trigger] a[i] < b[i] && (forall|j: int|
            0 <= j < i ==> a[j] == b[j])
}

/// Lexicographic order, allowing equality.
pub open spec fn lex_le(a: Seq<u8>, b: Seq<u8>) -> bool {
    a == b || lex_lt(a, b)
}

/// Outcome of a three-way comparison of two keys.
#[derive(Clone, Copy, Debug, PartialEq, Eq, Structural)]
pub enum KeyOrder {
    Less,
    Equal,
    Greater,
}

/// Three-way lexicographic comparison of two 32-byte keys.
pub fn lex_cmp32(a: &[u8; 32], b: &[u8; 32]) -> (r: KeyOrder)
    ensures
        r == KeyOrder::Less <==> lex_lt(a@, b@),
        r == KeyOrder::Equal <==> a@ == b@,
        r == KeyOrder::Greater <==> lex_lt(b@, a@),
{
    let mut i: usize = 0;
    while i < 32
        invariant
            0 <= i <= 32,
            forall|j: int| 0 <= j < i ==> a@[j] == b@[j],
        decreases 32 - i,
    {
        if a[i] < b[i] {
            proof {
                assert(lex_lt(a@, b@)) by {
                    assert(a@[i as int] < b@[i as int]);
                };
                lemma_lex_lt_asymmetric(a@, b@);
            }
            return KeyOrder::Less;
        }
        if a[i] > b[i] {
            proof {
                assert(lex_lt(b@, a@)) by {
                    assert(b@[i as int] < a@[i as int]);
                };
                lemma_lex_lt_asymmetric(b@, a@);
            }
            return KeyOrder::Greater;
        }
        i += 1;
    }
    proof {
        assert(a@ =~= b@);
        assert(!lex_lt(a@, b@));
        assert(!lex_lt(b@, a@));
    }
    KeyOrder::Equal
}

/// At most one of `lex_lt(a, b)` and `lex_lt(b, a)` holds, and a sequence
/// strictly below another cannot equal it.
pub proof fn lemma_lex_lt_asymmetric(a: Seq<u8>, b: Seq<u8>)
    requires
        lex_lt(a, b),
    ensures
        !lex_lt(b, a),
        a != b,
{
    let i1 = choose|i: int|
        0 <= i < a.len() && i < b.len() && #[trigger] a[i] < b[i] && (forall|j: int|
            0 <= j < i ==> a[j] == b[j]);
    assert(a[i1] != b[i1]);
    if lex_lt(b, a) {
        let i2 = choose|i: int|
            0 <= i < b.len() && i < a.len() && #[trigger] b[i] < a[i] && (forall|j: int|
                0 <= j < i ==> b[j] == a[j]);
        if i1 < i2 {
            assert(b[i1] == a[i1]);
        } else if i2 < i1 {
            assert(a[i2] == b[i2]);
        }
    }
}

/// What a one-longer prefix of a sequence contains.
pub proof fn lemma_take_contains<T>(s: Seq<T>, i: int, x: T)
    requires
        0 <= i < s.len(),
    ensures
        s.take(i + 1).contains(x) <==> (s.take(i).contains(x) || x == s[i]),
{
    if s.take(i + 1).contains(x) {
        let j = choose|j: int| 0 <= j < s.take(i + 1).len() && (#[trigger] s.take(i + 1)[j]) == x;
        if j < i {
            assert(s.take(i)[j] == x);
        }
    }
    if s.take(i).contains(x) {
        let j = choose|j: int| 0 <= j < s.take(i).len() && (#[trigger] s.take(i)[j]) == x;
        assert(s.take(i + 1)[j] == x);
    }
    if x == s[i] {
        assert(s.take(i + 1)[i] == x);
    }
}

/// Lexicographic order below is transitive.
pub proof fn lemma_lex_lt_transitive(a: Seq<u8>, b: Seq<u8>, c: Seq<u8>)
    requires
        a.len() == b.len(),
        b.len() == c.len(),
        lex_lt(a, b),
        lex_lt(b, c),
    ensures
        lex_lt(a, c),
{
    let i1 = choose|i: int|
        0 <= i < a.len() && i < b.len() && #[trigger] a[i] < b[i] && (forall|j: int|
            0 <= j < i ==> a[j] == b[j]);
    let i2 = choose|i: int|
        0 <= i < b.len() && i < c.len() && #[trigger] b[i] < c[i] && (forall|j: int|
            0 <= j < i ==> b[j] == c[j]);
    if i1 < i2 {
        assert(a[i1] < b[i1] && b[i1] == c[i1]);
        assert(forall|j: int| 0 <= j < i1 ==> a[j] == b[j] && b[j] == c[j]);
        assert(a[i1] < c[i1]);
    } else if i2 < i1 {
        assert(a[i2] == b[i2] && b[i2] < c[i2]);
        assert(forall|j: int| 0 <= j < i2 ==> a[j] == b[j] && b[j] == c[j]);
        assert(a[i2] < c[i2]);
    } else {
        assert(a[i1] < b[i1] && b[i1] < c[i1]);
        assert(forall|j: int| 0 <= j < i1 ==> a[j] == b[j] && b[j] == c[j]);
        assert(a[i1] < c[i1]);
    }
}

} // verus!
