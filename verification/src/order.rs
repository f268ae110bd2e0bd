//! The order of token ids: lexicographic on the bytes of their UTF-8 encoding.

use vstd::prelude::*;
use vstd::string::*;

verus! {

/// Whether `a` comes before `b` when the two are compared byte by byte from
/// position `i` on. A proper prefix comes before the longer sequence.
pub open spec fn lex_lt_from(a: Seq<u8>, b: Seq<u8>, i: int) -> bool
    decreases a.len() - i,
{
    if i < 0 || i >= b.len() {
        false
    } else if i >= a.len() {
        true
    } else if a[i] != b[i] {
        a[i] < b[i]
    } else {
        lex_lt_from(a, b, i + 1)
    }
}

/// Strict lexicographic order on byte sequences.
pub open spec fn lex_lt(a: Seq<u8>, b: Seq<u8>) -> bool {
    lex_lt_from(a, b, 0)
}

/// The key under which a token id is filed: its UTF-8 encoding.
pub open spec fn key_of(id: Seq<char>) -> Seq<u8> {
    vstd::utf8::encode_utf8(id)
}

/// Strict order of token ids.
pub open spec fn id_lt(a: Seq<char>, b: Seq<char>) -> bool {
    lex_lt(key_of(a), key_of(b))
}

/// `a` is `b` or comes before it.
pub open spec fn id_le(a: Seq<char>, b: Seq<char>) -> bool {
    a == b || id_lt(a, b)
}

/// No sequence comes before itself, from whatever position on.
proof fn lemma_lex_irreflexive_from(a: Seq<u8>, i: int)
    ensures
        !lex_lt_from(a, a, i),
    decreases a.len() - i,
{
    if 0 <= i < a.len() {
        lemma_lex_irreflexive_from(a, i + 1);
    }
}

/// Coming before, from one position on, is transitive.
proof fn lemma_lex_transitive_from(a: Seq<u8>, b: Seq<u8>, c: Seq<u8>, i: int)
    requires
        lex_lt_from(a, b, i),
        lex_lt_from(b, c, i),
    ensures
        lex_lt_from(a, c, i),
    decreases a.len() - i,
{
    if i < a.len() && a[i] == b[i] && b[i] == c[i] {
        lemma_lex_transitive_from(a, b, c, i + 1);
    }
}

/// Two sequences that agree up to position `i` are equal, or one comes
/// before the other from that position on.
proof fn lemma_lex_total_from(a: Seq<u8>, b: Seq<u8>, i: int)
    requires
        0 <= i,
        i <= a.len(),
        i <= b.len(),
        a.subrange(0, i) == b.subrange(0, i),
    ensures
        lex_lt_from(a, b, i) || lex_lt_from(b, a, i) || a == b,
    decreases a.len() - i,
{
    if i < a.len() && i < b.len() {
        if a[i] == b[i] {
            assert(a.subrange(0, i + 1) == b.subrange(0, i + 1)) by {
                assert(a.subrange(0, i + 1) =~= a.subrange(0, i).push(a[i]));
                assert(b.subrange(0, i + 1) =~= b.subrange(0, i).push(b[i]));
            }
            lemma_lex_total_from(a, b, i + 1);
        }
    } else if i == a.len() && i == b.len() {
        assert(a =~= a.subrange(0, i));
        assert(b =~= b.subrange(0, i));
    }
}

/// No id comes before itself.
pub proof fn lemma_id_lt_irreflexive(a: Seq<char>)
    ensures
        !id_lt(a, a),
{
    lemma_lex_irreflexive_from(key_of(a), 0);
}

/// The order of ids is transitive.
pub proof fn lemma_id_lt_transitive(a: Seq<char>, b: Seq<char>, c: Seq<char>)
    requires
        id_lt(a, b),
        id_lt(b, c),
    ensures
        id_lt(a, c),
{
    lemma_lex_transitive_from(key_of(a), key_of(b), key_of(c), 0);
}

/// Two ids never come before each other.
pub proof fn lemma_id_lt_asymmetric(a: Seq<char>, b: Seq<char>)
    requires
        id_lt(a, b),
    ensures
        !id_lt(b, a),
{
    if id_lt(b, a) {
        lemma_id_lt_transitive(a, b, a);
        lemma_id_lt_irreflexive(a);
    }
}

/// Of two different ids one comes before the other.
pub proof fn lemma_id_lt_total(a: Seq<char>, b: Seq<char>)
    ensures
        id_lt(a, b) || id_lt(b, a) || a == b,
{
    let ka = key_of(a);
    let kb = key_of(b);
    assert(ka.subrange(0, 0) =~= kb.subrange(0, 0));
    lemma_lex_total_from(ka, kb, 0);
    if ka == kb {
        vstd::utf8::encode_utf8_decode_utf8(a);
        vstd::utf8::encode_utf8_decode_utf8(b);
    }
}

/// Compares two ids: `true` exactly when `a` comes strictly before `b`.
pub fn id_before(a: &str, b: &str) -> (r: bool)
    ensures
        r == id_lt(a@, b@),
{
    let x = a.as_bytes();
    let y = b.as_bytes();
    let mut i: usize = 0;
    while i < x.len() && i < y.len()
        invariant
            x@ == key_of(a@),
            y@ == key_of(b@),
            i <= x.len(),
            i <= y.len(),
            lex_lt(x@, y@) == lex_lt_from(x@, y@, i as int),
        decreases x.len() - i,
    {
        if x[i] != y[i] {
            return x[i] < y[i];
        }
        i = i + 1;
    }
    x.len() < y.len()
}

/// Tells whether two ids are the same.
pub fn same_id(a: &str, b: &str) -> (r: bool)
    ensures
        r == (a@ == b@),
{
    let x = a.as_bytes();
    let y = b.as_bytes();
    proof {
        vstd::utf8::encode_utf8_decode_utf8(a@);
        vstd::utf8::encode_utf8_decode_utf8(b@);
    }
    if x.len() != y.len() {
        return false;
    }
    let mut i: usize = 0;
    while i < x.len()
        invariant
            x@ == key_of(a@),
            y@ == key_of(b@),
            x.len() == y.len(),
            i <= x.len(),
            forall|j: int| 0 <= j < i ==> x@[j] == y@[j],
        decreases x.len() - i,
    {
        if x[i] != y[i] {
            return false;
        }
        i = i + 1;
    }
    assert(x@ =~= y@);
    true
}

} // verus!
