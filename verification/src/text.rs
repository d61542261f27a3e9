//! Comparing names: equality of texts and the order in which names are kept.
//!
//! Names are ordered as Rust orders strings, by their UTF-8 bytes.

use vstd::prelude::*;
use vstd::string::StringSliceAdditionalSpecFns;
use vstd::utf8::{encode_utf8, encode_utf8_decode_utf8};

verus! {

/// Whether `a` comes before `b` when both are compared byte by byte from
/// index `i` on: at the first index where they differ the smaller byte
/// decides, and a text that ends first comes first.
pub open spec fn bytes_before_from(a: Seq<u8>, b: Seq<u8>, i: int) -> bool
    decreases a.len() - i,
{
    if i < 0 || i >= b.len() {
        false
    } else if i >= a.len() {
        true
    } else if a[i] != b[i] {
        a[i] < b[i]
    } else {
        bytes_before_from(a, b, i + 1)
    }
}

/// Whether the byte sequence `a` comes strictly before `b`.
pub open spec fn bytes_before(a: Seq<u8>, b: Seq<u8>) -> bool {
    bytes_before_from(a, b, 0)
}

/// Whether the name `a` comes strictly before the name `b`.
pub open spec fn name_before(a: Seq<char>, b: Seq<char>) -> bool {
    bytes_before(encode_utf8(a), encode_utf8(b))
}

proof fn lemma_bytes_before_transitive_from(a: Seq<u8>, b: Seq<u8>, c: Seq<u8>, i: int)
    requires
        0 <= i,
        bytes_before_from(a, b, i),
        bytes_before_from(b, c, i),
    ensures
        bytes_before_from(a, c, i),
    decreases a.len() - i,
{
    if i < a.len() && i < b.len() && i < c.len() && a[i] == b[i] && b[i] == c[i] {
        lemma_bytes_before_transitive_from(a, b, c, i + 1);
    }
}

proof fn lemma_bytes_total_from(a: Seq<u8>, b: Seq<u8>, i: int)
    requires
        0 <= i <= a.len(),
        i <= b.len(),
        forall|j: int| 0 <= j < i ==> a[j] == b[j],
        !bytes_before_from(a, b, i),
        !bytes_before_from(b, a, i),
    ensures
        a == b,
    decreases a.len() - i,
{
    if i < a.len() && i < b.len() {
        lemma_bytes_total_from(a, b, i + 1);
    } else {
        assert(a =~= b);
    }
}

proof fn lemma_bytes_irreflexive_from(a: Seq<u8>, i: int)
    requires
        0 <= i,
    ensures
        !bytes_before_from(a, a, i),
    decreases a.len() - i,
{
    if i < a.len() {
        lemma_bytes_irreflexive_from(a, i + 1);
    }
}

/// Two names with the same UTF-8 bytes are the same name.
pub proof fn lemma_encoding_injective(a: Seq<char>, b: Seq<char>)
    requires
        encode_utf8(a) == encode_utf8(b),
    ensures
        a == b,
{
    encode_utf8_decode_utf8(a);
    encode_utf8_decode_utf8(b);
}

/// The order of names is transitive.
pub proof fn lemma_name_before_transitive(a: Seq<char>, b: Seq<char>, c: Seq<char>)
    requires
        name_before(a, b),
        name_before(b, c),
    ensures
        name_before(a, c),
{
    lemma_bytes_before_transitive_from(encode_utf8(a), encode_utf8(b), encode_utf8(c), 0);
}

/// No name comes before itself.
pub proof fn lemma_name_before_irreflexive(a: Seq<char>)
    ensures
        !name_before(a, a),
{
    lemma_bytes_irreflexive_from(encode_utf8(a), 0);
}

/// Of two different names one comes before the other.
pub proof fn lemma_name_before_total(a: Seq<char>, b: Seq<char>)
    requires
        !name_before(a, b),
        !name_before(b, a),
    ensures
        a == b,
{
    lemma_bytes_total_from(encode_utf8(a), encode_utf8(b), 0);
    lemma_encoding_injective(a, b);
}

/// How two names stand to each other in the order of names.
#[derive(Clone, Copy, Debug, PartialEq, Eq, Structural)]
pub enum NameOrder {
    /// The first name comes before the second.
    Before,
    /// Both are the same name.
    Same,
    /// The first name comes after the second.
    After,
}

/// Compares two names by their UTF-8 bytes.
pub fn compare_names(a: &str, b: &str) -> (order: NameOrder)
    ensures
        order == NameOrder::Before <==> name_before(a@, b@),
        order == NameOrder::Same <==> a@ == b@,
        order == NameOrder::After <==> name_before(b@, a@),
{
    let x = a.as_bytes();
    let y = b.as_bytes();
    let mut i: usize = 0;
    proof {
        lemma_name_before_irreflexive(a@);
    }
    while i < x.len() && i < y.len()
        invariant
            i <= x@.len(),
            i <= y@.len(),
            x@ == encode_utf8(a@),
            y@ == encode_utf8(b@),
            forall|j: int| 0 <= j < i ==> x@[j] == y@[j],
            bytes_before(x@, y@) == bytes_before_from(x@, y@, i as int),
            bytes_before(y@, x@) == bytes_before_from(y@, x@, i as int),
        decreases x.len() - i,
    {
        if x[i] < y[i] {
            proof {
                if a@ == b@ {
                    assert(x@[i as int] == y@[i as int]);
                }
            }
            return NameOrder::Before;
        }
        if x[i] > y[i] {
            proof {
                if a@ == b@ {
                    assert(x@[i as int] == y@[i as int]);
                }
            }
            return NameOrder::After;
        }
        i += 1;
    }
    if i < y.len() {
        proof {
            if a@ == b@ {
                assert(x@.len() == y@.len());
            }
        }
        NameOrder::Before
    } else if i < x.len() {
        proof {
            if a@ == b@ {
                assert(x@.len() == y@.len());
            }
        }
        NameOrder::After
    } else {
        proof {
            lemma_bytes_total_from(x@, y@, i as int);
            lemma_encoding_injective(a@, b@);
        }
        NameOrder::Same
    }
}

/// Whether two texts are the same.
pub fn same_text(a: &str, b: &str) -> (same: bool)
    ensures
        same == (a@ == b@),
{
    compare_names(a, b) == NameOrder::Same
}

} // verus!
