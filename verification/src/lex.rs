//! Lexicographic order on character sequences.
//!
//! Token identifiers and owner identities are strings; the stores keep them
//! in ascending lexicographic order of code points, and paginated reads rely
//! on that order. This module defines the order on `Seq<char>`, proves that
//! it is a strict total order, and provides an executable three-way
//! comparison on `&str`.

use vstd::prelude::*;

verus! {

use vstd::string::StrSliceExecFns;
use vstd::utf8::char_u32_cast;

/// Result of a three-way comparison: the left operand is smaller.
pub const CMP_LT: u8 = 0;

/// Result of a three-way comparison: both operands are equal.
pub const CMP_EQ: u8 = 1;

/// Result of a three-way comparison: the left operand is greater.
pub const CMP_GT: u8 = 2;

/// Strict lexicographic order on character sequences, by code point.
pub open spec fn lex_lt(a: Seq<char>, b: Seq<char>) -> bool
    decreases a.len(),
{
    if b.len() == 0 {
        false
    } else if a.len() == 0 {
        true
    } else if (a[0] as u32) < (b[0] as u32) {
        true
    } else if (b[0] as u32) < (a[0] as u32) {
        false
    } else {
        lex_lt(a.drop_first(), b.drop_first())
    }
}

/// The order is irreflexive.
pub proof fn lex_lt_irrefl(a: Seq<char>)
    ensures
        !lex_lt(a, a),
    decreases a.len(),
{
    if a.len() > 0 {
        lex_lt_irrefl(a.drop_first());
    }
}

/// Any two sequences are ordered one way or the other, or are equal.
pub proof fn lex_lt_trichotomy(a: Seq<char>, b: Seq<char>)
    ensures
        lex_lt(a, b) || lex_lt(b, a) || a == b,
    decreases a.len(),
{
    if a.len() == 0 && b.len() == 0 {
        assert(a =~= b);
    } else if a.len() > 0 && b.len() > 0 {
        if (a[0] as u32) == (b[0] as u32) {
            assert(a[0] == b[0]) by {
                char_u32_cast(a[0], a[0] as u32);
                char_u32_cast(b[0], b[0] as u32);
            }
            lex_lt_trichotomy(a.drop_first(), b.drop_first());
            if a.drop_first() == b.drop_first() {
                assert(a.drop_first().len() == b.drop_first().len());
                assert(a.len() == b.len());
                assert forall|i: int| 0 <= i < a.len() implies a[i] == b[i] by {
                    if i >= 1 {
                        assert(a[i] == a.drop_first()[i - 1]);
                        assert(b[i] == b.drop_first()[i - 1]);
                    }
                }
                assert(a =~= b);
            }
        }
    }
}

/// The order is asymmetric: both directions never hold at once.
pub proof fn lex_lt_asymmetry(a: Seq<char>, b: Seq<char>)
    ensures
        !(lex_lt(a, b) && lex_lt(b, a)),
    decreases a.len(),
{
    if a.len() > 0 && b.len() > 0 && (a[0] as u32) == (b[0] as u32) {
        lex_lt_asymmetry(a.drop_first(), b.drop_first());
    }
}

/// The order is transitive.
pub proof fn lex_lt_transitive(a: Seq<char>, b: Seq<char>, c: Seq<char>)
    requires
        lex_lt(a, b),
        lex_lt(b, c),
    ensures
        lex_lt(a, c),
    decreases a.len(),
{
    if a.len() > 0 && b.len() > 0 && c.len() > 0 {
        if (a[0] as u32) == (b[0] as u32) && (b[0] as u32) == (c[0] as u32) {
            lex_lt_transitive(a.drop_first(), b.drop_first(), c.drop_first());
        }
    }
}

/// Sequences that differ first at position `i` are ordered by that position.
proof fn lex_lt_from_difference(a: Seq<char>, b: Seq<char>, i: int)
    requires
        0 <= i < a.len(),
        i < b.len(),
        forall|j: int| 0 <= j < i ==> a[j] == b[j],
        (a[i] as u32) < (b[i] as u32),
    ensures
        lex_lt(a, b),
    decreases i,
{
    if i > 0 {
        lex_lt_from_difference(a.drop_first(), b.drop_first(), i - 1);
    }
}

/// A strict prefix precedes every sequence it is a prefix of.
proof fn lex_lt_from_prefix(a: Seq<char>, b: Seq<char>)
    requires
        a.len() < b.len(),
        forall|j: int| 0 <= j < a.len() ==> a[j] == b[j],
    ensures
        lex_lt(a, b),
    decreases a.len(),
{
    if a.len() > 0 {
        lex_lt_from_prefix(a.drop_first(), b.drop_first());
    }
}

/// Three-way comparison of two strings in lexicographic order of code points.
pub fn str_cmp(a: &str, b: &str) -> (r: u8)
    ensures
        (r == CMP_LT) <==> lex_lt(a@, b@),
        (r == CMP_EQ) <==> (a@ == b@),
        (r == CMP_GT) <==> lex_lt(b@, a@),
        r == CMP_LT || r == CMP_EQ || r == CMP_GT,
{
    let a_len = a.unicode_len();
    let b_len = b.unicode_len();
    let n = if a_len < b_len {
        a_len
    } else {
        b_len
    };
    let mut i: usize = 0;
    while i < n
        invariant
            i <= n,
            n <= a@.len(),
            n <= b@.len(),
            a_len == a@.len(),
            b_len == b@.len(),
            n == if a_len < b_len {
                a_len
            } else {
                b_len
            },
            forall|j: int| 0 <= j < i ==> a@[j] == b@[j],
        decreases n - i,
    {
        let ca = a.get_char(i) as u32;
        let cb = b.get_char(i) as u32;
        if ca < cb {
            proof {
                lex_lt_from_difference(a@, b@, i as int);
                lex_lt_asymmetry(a@, b@);
                lex_lt_irrefl(a@);
            }
            return CMP_LT;
        }
        if cb < ca {
            proof {
                lex_lt_from_difference(b@, a@, i as int);
                lex_lt_asymmetry(a@, b@);
                lex_lt_irrefl(b@);
            }
            return CMP_GT;
        }
        proof {
            assert(a@[i as int] == b@[i as int]);
        }
        i = i + 1;
    }
    if a_len < b_len {
        proof {
            lex_lt_from_prefix(a@, b@);
            lex_lt_asymmetry(a@, b@);
            lex_lt_irrefl(a@);
        }
        CMP_LT
    } else if b_len < a_len {
        proof {
            lex_lt_from_prefix(b@, a@);
            lex_lt_asymmetry(a@, b@);
            lex_lt_irrefl(b@);
        }
        CMP_GT
    } else {
        proof {
            assert(a@ =~= b@);
            lex_lt_irrefl(a@);
        }
        CMP_EQ
    }
}

} // verus!
