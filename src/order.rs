//! The order in which monitor ids are listed: byte-wise lexicographic order
//! of their UTF-8 encoding, which is the order of `str`'s `Ord`.
use vstd::prelude::*;
use vstd::utf8::encode_utf8;

verus! {

/// The bytes by which an id is ordered.
pub open spec fn id_bytes(s: Seq<char>) -> Seq<u8> {
    encode_utf8(s)
}

/// Strict lexicographic order on byte strings: a proper prefix comes first.
pub open spec fn bytes_lt(a: Seq<u8>, b: Seq<u8>) -> bool
    decreases a.len(),
{
    if a.len() == 0 {
        b.len() > 0
    } else if b.len() == 0 {
        false
    } else if a[0] != b[0] {
        a[0] < b[0]
    } else {
        bytes_lt(a.drop_first(), b.drop_first())
    }
}

/// `a` strictly precedes `b` in listing order.
pub open spec fn id_lt(a: Seq<char>, b: Seq<char>) -> bool {
    bytes_lt(id_bytes(a), id_bytes(b))
}

pub proof fn lemma_bytes_lt_irreflexive(a: Seq<u8>)
    ensures
        !bytes_lt(a, a),
    decreases a.len(),
{
    if a.len() > 0 {
        lemma_bytes_lt_irreflexive(a.drop_first());
    }
}

pub proof fn lemma_bytes_lt_total(a: Seq<u8>, b: Seq<u8>)
    ensures
        a == b || bytes_lt(a, b) || bytes_lt(b, a),
        !(bytes_lt(a, b) && bytes_lt(b, a)),
    decreases a.len(),
{
    if a.len() > 0 && b.len() > 0 && a[0] == b[0] {
        lemma_bytes_lt_total(a.drop_first(), b.drop_first());
        if a.drop_first() == b.drop_first() {
            assert(a =~= seq![a[0]] + a.drop_first());
            assert(b =~= seq![b[0]] + b.drop_first());
        }
    } else if a.len() == 0 && b.len() == 0 {
        assert(a =~= b);
    }
}

pub proof fn lemma_bytes_lt_transitive(a: Seq<u8>, b: Seq<u8>, c: Seq<u8>)
    requires
        bytes_lt(a, b),
        bytes_lt(b, c),
    ensures
        bytes_lt(a, c),
    decreases a.len(),
{
    if a.len() > 0 && b.len() > 0 && c.len() > 0 && a[0] == b[0] && b[0] == c[0] {
        lemma_bytes_lt_transitive(a.drop_first(), b.drop_first(), c.drop_first());
    }
}

/// Listing order is transitive.
pub proof fn lemma_id_lt_transitive(a: Seq<char>, b: Seq<char>, c: Seq<char>)
    requires
        id_lt(a, b),
        id_lt(b, c),
    ensures
        id_lt(a, c),
{
    lemma_bytes_lt_transitive(id_bytes(a), id_bytes(b), id_bytes(c));
}

/// Two ids are equal exactly when their encodings are.
pub proof fn lemma_id_bytes_injective(a: Seq<char>, b: Seq<char>)
    ensures
        (id_bytes(a) == id_bytes(b)) == (a == b),
{
    vstd::utf8::encode_utf8_decode_utf8(a);
    vstd::utf8::encode_utf8_decode_utf8(b);
}

/// Any two ids are equal or one of them precedes the other, never both.
pub proof fn lemma_id_lt_total(a: Seq<char>, b: Seq<char>)
    ensures
        a == b || id_lt(a, b) || id_lt(b, a),
        !(id_lt(a, b) && id_lt(b, a)),
        !id_lt(a, a),
{
    lemma_bytes_lt_total(id_bytes(a), id_bytes(b));
    lemma_id_bytes_injective(a, b);
    lemma_bytes_lt_irreflexive(id_bytes(a));
}

/// Whether id `a` strictly precedes id `b`.
pub fn id_precedes(a: &String, b: &String) -> (r: bool)
    ensures
        r == id_lt(a@, b@),
{
    let x = a.as_str().as_bytes();
    let y = b.as_str().as_bytes();
    let n = x.len();
    let m = y.len();
    let mut i: usize = 0;
    assert(x@.skip(0) =~= x@);
    assert(y@.skip(0) =~= y@);
    while i < n && i < m
        invariant
            x@ == id_bytes(a@),
            y@ == id_bytes(b@),
            n == x@.len(),
            m == y@.len(),
            i <= n,
            i <= m,
            bytes_lt(x@, y@) == bytes_lt(x@.skip(i as int), y@.skip(i as int)),
        decreases n - i,
    {
        if x[i] != y[i] {
            return x[i] < y[i];
        }
        assert(x@.skip(i as int).drop_first() =~= x@.skip(i + 1));
        assert(y@.skip(i as int).drop_first() =~= y@.skip(i + 1));
        i = i + 1;
    }
    i == n && i < m
}

} // verus!
