//! Text as the library compares and builds it: the order of strings by the
//! bytes of their UTF-8 form, which is the order that `str` has in Rust, and
//! the joining of pieces into a label.

use vstd::prelude::*;
use vstd::string::*;
use vstd::utf8::*;

verus! {

/// Where one text stands relative to another in byte order.
#[derive(Clone, Copy, Debug, PartialEq, Eq, Structural)]
pub enum Place {
    Before,
    Same,
    After,
}

/// `a` comes before `b` in lexicographic order: at the first position where
/// they differ `a` has the smaller item, or `a` ends there and `b` goes on.
pub open spec fn lex_lt(a: Seq<u8>, b: Seq<u8>) -> bool {
    exists|k: int| #[trigger] lex_lt_at(a, b, k)
}

/// `k` is the position that shows `a` to come before `b`.
pub open spec fn lex_lt_at(a: Seq<u8>, b: Seq<u8>, k: int) -> bool {
    &&& 0 <= k <= a.len()
    &&& k < b.len()
    &&& forall|i: int| 0 <= i < k ==> a[i] == b[i]
    &&& k < a.len() ==> a[k] < b[k]
}

/// The order of texts: that of their UTF-8 bytes.
pub open spec fn text_lt(a: Seq<char>, b: Seq<char>) -> bool {
    lex_lt(encode_utf8(a), encode_utf8(b))
}

/// Nothing comes before itself.
pub proof fn lemma_lex_lt_irreflexive(a: Seq<u8>)
    ensures
        !lex_lt(a, a),
{
    assert forall|k: int| !#[trigger] lex_lt_at(a, a, k) by {}
}

/// The order is transitive.
pub proof fn lemma_lex_lt_transitive(a: Seq<u8>, b: Seq<u8>, c: Seq<u8>)
    requires
        lex_lt(a, b),
        lex_lt(b, c),
    ensures
        lex_lt(a, c),
{
    let k1 = choose|k: int| #[trigger] lex_lt_at(a, b, k);
    let k2 = choose|k: int| #[trigger] lex_lt_at(b, c, k);
    let k = if k1 <= k2 { k1 } else { k2 };
    assert(lex_lt_at(a, c, k));
}

/// Texts with the same UTF-8 bytes are the same text.
pub proof fn lemma_same_bytes_same_text(a: Seq<char>, b: Seq<char>)
    requires
        encode_utf8(a) == encode_utf8(b),
    ensures
        a == b,
{
    encode_utf8_decode_utf8(a);
    encode_utf8_decode_utf8(b);
}

/// Of two texts one comes before the other or they are the same, and only one
/// of the three holds.
pub proof fn lemma_text_order_exclusive(a: Seq<char>, b: Seq<char>)
    ensures
        !(text_lt(a, b) && text_lt(b, a)),
        !(text_lt(a, b) && a == b),
{
    lemma_lex_lt_irreflexive(encode_utf8(a));
    if text_lt(a, b) && text_lt(b, a) {
        lemma_lex_lt_transitive(encode_utf8(a), encode_utf8(b), encode_utf8(a));
    }
}

/// The order of texts is transitive.
pub proof fn lemma_text_lt_transitive(a: Seq<char>, b: Seq<char>, c: Seq<char>)
    requires
        text_lt(a, b),
        text_lt(b, c),
    ensures
        text_lt(a, c),
{
    lemma_lex_lt_transitive(encode_utf8(a), encode_utf8(b), encode_utf8(c));
}

/// Where `a` stands relative to `b` in the order of texts.
pub open spec fn place_of(a: Seq<char>, b: Seq<char>) -> Place {
    if a == b {
        Place::Same
    } else if text_lt(a, b) {
        Place::Before
    } else {
        Place::After
    }
}

/// A text that is neither before another nor the same comes after it.
pub proof fn lemma_place_after(a: Seq<char>, b: Seq<char>)
    ensures
        place_of(a, b) == Place::After <==> text_lt(b, a),
{
    lemma_text_order_exclusive(a, b);
    let x = encode_utf8(a);
    let y = encode_utf8(b);
    if a != b && !text_lt(a, b) {
        lemma_first_difference(x, y, 0);
        if x == y {
            lemma_same_bytes_same_text(a, b);
        }
    }
}

/// Two sequences that agree on their first `i` items are equal, or one of them
/// comes before the other.
proof fn lemma_first_difference(x: Seq<u8>, y: Seq<u8>, i: int)
    requires
        0 <= i <= x.len(),
        i <= y.len(),
        forall|j: int| 0 <= j < i ==> x[j] == y[j],
    ensures
        x == y || lex_lt(x, y) || lex_lt(y, x),
    decreases x.len() - i,
{
    if i == x.len() {
        if i == y.len() {
            assert(x =~= y);
        } else {
            assert(lex_lt_at(x, y, i));
        }
    } else if i == y.len() {
        assert(lex_lt_at(y, x, i));
    } else if x[i] < y[i] {
        assert(lex_lt_at(x, y, i));
    } else if y[i] < x[i] {
        assert(lex_lt_at(y, x, i));
    } else {
        lemma_first_difference(x, y, i + 1);
    }
}

/// Compares two strings as Rust orders them, byte by byte.
pub fn place(a: &str, b: &str) -> (r: Place)
    ensures
        r == place_of(a@, b@),
{
    let x = a.as_bytes();
    let y = b.as_bytes();
    let n: usize = x.len();
    let m: usize = y.len();
    let mut i: usize = 0;
    while i < n && i < m
        invariant
            n == x@.len(),
            m == y@.len(),
            i <= n,
            i <= m,
            x@ == encode_utf8(a@),
            y@ == encode_utf8(b@),
            forall|j: int| 0 <= j < i ==> x@[j] == y@[j],
        decreases n - i,
    {
        if x[i] < y[i] {
            proof {
                assert(lex_lt_at(x@, y@, i as int));
                lemma_text_order_exclusive(a@, b@);
            }
            return Place::Before;
        }
        if x[i] > y[i] {
            proof {
                assert(lex_lt_at(y@, x@, i as int));
                lemma_text_order_exclusive(b@, a@);
            }
            return Place::After;
        }
        i = i + 1;
    }
    if i < m {
        proof {
            assert(lex_lt_at(x@, y@, i as int));
            lemma_text_order_exclusive(a@, b@);
        }
        Place::Before
    } else if i < n {
        proof {
            assert(lex_lt_at(y@, x@, i as int));
            lemma_text_order_exclusive(b@, a@);
        }
        Place::After
    } else {
        proof {
            assert(x@ =~= y@);
            lemma_same_bytes_same_text(a@, b@);
        }
        Place::Same
    }
}

/// Whether two strings are the same text.
pub fn same_text(a: &str, b: &str) -> (r: bool)
    ensures
        r == (a@ == b@),
{
    place(a, b) == Place::Same
}

/// The texts of a sequence of strings.
pub open spec fn texts_of(v: Seq<String>) -> Seq<Seq<char>> {
    v.map_values(|s: String| s@)
}

/// `s` ascends in the order of texts, equal neighbours allowed.
pub open spec fn texts_ascending(s: Seq<Seq<char>>) -> bool {
    forall|i: int, j: int| 0 <= i < j < s.len() ==> !#[trigger] text_lt(s[j], s[i])
}

/// Sorting strings by `<[String]>::sort`, which orders them by their bytes:
/// afterwards the texts ascend, and they are the texts from before, each as
/// often as before.
#[verifier::external_body]
pub(crate) fn sort_texts(v: &mut Vec<String>)
    ensures
        texts_ascending(texts_of(final(v)@)),
        texts_of(final(v)@).to_multiset() == texts_of(old(v)@).to_multiset(),
{
    v.sort();
}

} // verus!
