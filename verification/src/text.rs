//! Orderings and searches over plain text: the lexicographic order used to
//! tie-break records, and the substring test used by message filtering.

use vstd::prelude::*;

verus! {

/// Distinct characters have distinct scalar values.
proof fn lemma_char_scalar_injective(c1: char, c2: char)
    requires
        c1 != c2,
    ensures
        c1 as u32 != c2 as u32,
{
    vstd::utf8::char_u32_cast(c1, c1 as u32);
    vstd::utf8::char_u32_cast(c2, c2 as u32);
}

/// Lexicographic "less than or equal" over character sequences, comparing
/// characters by scalar value. For valid text this agrees with the byte-wise
/// order of the UTF-8 encodings, so it orders strings as `str`'s own order does.
pub open spec fn lex_le(a: Seq<char>, b: Seq<char>) -> bool
    decreases a.len(),
{
    if a.len() == 0 {
        true
    } else if b.len() == 0 {
        false
    } else if a[0] != b[0] {
        (a[0] as u32) < (b[0] as u32)
    } else {
        lex_le(a.skip(1), b.skip(1))
    }
}

/// Strict lexicographic order.
pub open spec fn lex_lt(a: Seq<char>, b: Seq<char>) -> bool {
    lex_le(a, b) && a != b
}

pub proof fn lemma_lex_le_refl(a: Seq<char>)
    ensures
        lex_le(a, a),
    decreases a.len(),
{
    if a.len() > 0 {
        lemma_lex_le_refl(a.skip(1));
    }
}

pub proof fn lemma_lex_le_total(a: Seq<char>, b: Seq<char>)
    ensures
        lex_le(a, b) || lex_le(b, a),
    decreases a.len(),
{
    if a.len() > 0 && b.len() > 0 {
        if a[0] == b[0] {
            lemma_lex_le_total(a.skip(1), b.skip(1));
        } else {
            lemma_char_scalar_injective(a[0], b[0]);
        }
    }
}

pub proof fn lemma_lex_le_antisymmetric(a: Seq<char>, b: Seq<char>)
    requires
        lex_le(a, b),
        lex_le(b, a),
    ensures
        a == b,
    decreases a.len(),
{
    if a.len() == 0 {
        assert(b.len() == 0);
        assert(a =~= b);
    } else {
        assert(b.len() > 0);
        assert(a[0] == b[0]);
        lemma_lex_le_antisymmetric(a.skip(1), b.skip(1));
        assert(a.len() == b.len());
        assert forall|i: int| 0 <= i < a.len() implies a[i] == b[i] by {
            if i > 0 {
                assert(a.skip(1)[i - 1] == b.skip(1)[i - 1]);
            }
        }
        assert(a =~= b);
    }
}

pub proof fn lemma_lex_le_transitive(a: Seq<char>, b: Seq<char>, c: Seq<char>)
    requires
        lex_le(a, b),
        lex_le(b, c),
    ensures
        lex_le(a, c),
    decreases a.len(),
{
    if a.len() > 0 {
        assert(b.len() > 0);
        assert(c.len() > 0);
        if a[0] == b[0] && b[0] == c[0] {
            lemma_lex_le_transitive(a.skip(1), b.skip(1), c.skip(1));
        }
    }
}

/// Comparing two sequences that agree on their first `i` characters comes down
/// to comparing what remains.
pub proof fn lemma_lex_le_common_prefix(a: Seq<char>, b: Seq<char>, i: int)
    requires
        0 <= i <= a.len(),
        i <= b.len(),
        forall|j: int| 0 <= j < i ==> a[j] == b[j],
    ensures
        lex_le(a, b) == lex_le(a.skip(i), b.skip(i)),
    decreases i,
{
    if i == 0 {
        assert(a.skip(0) =~= a);
        assert(b.skip(0) =~= b);
    } else {
        assert(a.len() > 0 && b.len() > 0 && a[0] == b[0]);
        assert(lex_le(a, b) == lex_le(a.skip(1), b.skip(1)));
        assert(forall|j: int| 0 <= j < i - 1 ==> a.skip(1)[j] == b.skip(1)[j]);
        lemma_lex_le_common_prefix(a.skip(1), b.skip(1), i - 1);
        assert(a.skip(1).skip(i - 1) =~= a.skip(i));
        assert(b.skip(1).skip(i - 1) =~= b.skip(i));
    }
}

/// Executable lexicographic comparison of two string slices.
pub fn str_le(a: &str, b: &str) -> (r: bool)
    ensures
        r == lex_le(a@, b@),
{
    let an = a.unicode_len();
    let bn = b.unicode_len();
    let mut i: usize = 0;
    while i < an && i < bn && a.get_char(i) == b.get_char(i)
        invariant
            an == a@.len(),
            bn == b@.len(),
            i <= an,
            i <= bn,
            forall|j: int| 0 <= j < i ==> a@[j] == b@[j],
        decreases an - i,
    {
        i = i + 1;
    }
    proof {
        lemma_lex_le_common_prefix(a@, b@, i as int);
    }
    if i == an {
        true
    } else if i == bn {
        false
    } else {
        (a.get_char(i) as u32) < (b.get_char(i) as u32)
    }
}

/// `w` occurs contiguously somewhere in `hay` (the empty sequence occurs in
/// every text).
pub open spec fn is_substring(hay: Seq<char>, w: Seq<char>) -> bool {
    exists|i: int| 0 <= i && i + w.len() <= hay.len() && #[trigger] hay.subrange(i, i + w.len())
        == w
}

/// Executable substring test.
pub fn contains_str(hay: &str, w: &str) -> (r: bool)
    ensures
        r == is_substring(hay@, w@),
{
    let hn = hay.unicode_len();
    let wn = w.unicode_len();
    if wn > hn {
        return false;
    }
    let mut i: usize = 0;
    while i <= hn - wn
        invariant
            hn == hay@.len(),
            wn == w@.len(),
            wn <= hn,
            i <= hn,
            forall|k: int| 0 <= k < i ==> #[trigger] hay@.subrange(k, k + w@.len()) != w@,
        decreases hn - i,
    {
        let mut j: usize = 0;
        while j < wn && hay.get_char(i + j) == w.get_char(j)
            invariant
                hn == hay@.len(),
                wn == w@.len(),
                i + wn <= hn,
                j <= wn,
                forall|t: int| 0 <= t < j ==> hay@[i + t] == w@[t],
            decreases wn - j,
        {
            j = j + 1;
        }
        if j == wn {
            proof {
                assert(hay@.subrange(i as int, i + w@.len()) =~= w@);
            }
            return true;
        }
        proof {
            assert(hay@.subrange(i as int, i + w@.len())[j as int] == hay@[i + j]);
        }
        i = i + 1;
    }
    proof {
        assert forall|k: int| 0 <= k && k + w@.len() <= hay@.len() implies #[trigger] hay@.subrange(
            k,
            k + w@.len(),
        ) != w@ by {
            assert(k < i);
        }
    }
    false
}

} // verus!
