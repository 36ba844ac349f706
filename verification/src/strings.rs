//! Character-level string utilities: lexicographic order (for the
//! deterministic listing of supported languages), verified equality, and
//! whitespace trimming (for self-test validation).

use vstd::prelude::*;

verus! {

/// Strict lexicographic order on character sequences, by code point.
pub open spec fn lex_lt(a: Seq<char>, b: Seq<char>) -> bool
    decreases a.len(),
{
    if b.len() == 0 {
        false
    } else if a.len() == 0 {
        true
    } else if a[0] != b[0] {
        a[0] < b[0]
    } else {
        lex_lt(a.drop_first(), b.drop_first())
    }
}

/// Any two distinct sequences are ordered one way or the other.
pub proof fn lemma_lex_lt_connected(a: Seq<char>, b: Seq<char>)
    requires
        a != b,
    ensures
        lex_lt(a, b) || lex_lt(b, a),
    decreases a.len(),
{
    if a.len() == 0 {
        assert(b.len() > 0) by {
            if b.len() == 0 {
                assert(a =~= b);
            }
        }
    } else if b.len() > 0 && a[0] == b[0] {
        assert(a.drop_first() != b.drop_first()) by {
            if a.drop_first() == b.drop_first() {
                assert(a.drop_first().len() == b.drop_first().len());
                assert(a.len() == b.len());
                assert forall|i: int| 0 <= i < a.len() implies a[i] == b[i] by {
                    if i > 0 {
                        assert(a.drop_first()[i - 1] == b.drop_first()[i - 1]);
                        assert(a.drop_first()[i - 1] == a[i]);
                        assert(b.drop_first()[i - 1] == b[i]);
                    }
                }
                assert(a =~= b);
            }
        }
        lemma_lex_lt_connected(a.drop_first(), b.drop_first());
    }
}

/// Lexicographic order is transitive.
pub proof fn lemma_lex_lt_trans(a: Seq<char>, b: Seq<char>, c: Seq<char>)
    requires
        lex_lt(a, b),
        lex_lt(b, c),
    ensures
        lex_lt(a, c),
    decreases a.len(),
{
    if a.len() > 0 && b.len() > 0 && c.len() > 0 && a[0] == b[0] && b[0] == c[0] {
        lemma_lex_lt_trans(a.drop_first(), b.drop_first(), c.drop_first());
    }
}

/// Decide `lex_lt` on two string slices.
#[verifier::loop_isolation(false)]
pub fn str_lt(a: &str, b: &str) -> (r: bool)
    ensures
        r == lex_lt(a@, b@),
{
    let a_len = a.unicode_len();
    let b_len = b.unicode_len();
    assert(a@.skip(0) =~= a@);
    assert(b@.skip(0) =~= b@);
    let mut idx: usize = 0;
    loop
        invariant
            idx <= a_len,
            idx <= b_len,
            lex_lt(a@, b@) == lex_lt(a@.skip(idx as int), b@.skip(idx as int)),
        decreases a_len - idx,
    {
        if idx >= b_len {
            return false;
        }
        if idx >= a_len {
            return true;
        }
        let ca = a.get_char(idx);
        let cb = b.get_char(idx);
        if ca != cb {
            assert(a@.skip(idx as int)[0] == ca && b@.skip(idx as int)[0] == cb);
            return (ca as u32) < (cb as u32);
        }
        assert(a@.skip(idx as int).drop_first() =~= a@.skip(idx as int + 1));
        assert(b@.skip(idx as int).drop_first() =~= b@.skip(idx as int + 1));
        idx = idx + 1;
    }
}

/// Decide equality of two string slices' character sequences.
#[verifier::loop_isolation(false)]
pub fn str_eq(a: &str, b: &str) -> (r: bool)
    ensures
        r == (a@ == b@),
{
    let a_len = a.unicode_len();
    let b_len = b.unicode_len();
    if a_len != b_len {
        return false;
    }
    let mut idx: usize = 0;
    while idx < a_len
        invariant
            idx <= a_len,
            forall|m: int| 0 <= m < idx ==> a@[m] == b@[m],
        decreases a_len - idx,
    {
        if a.get_char(idx) != b.get_char(idx) {
            return false;
        }
        idx = idx + 1;
    }
    assert(a@ =~= b@);
    true
}

/// The whitespace characters recognized when trimming captured output.
pub open spec fn is_space_char(c: char) -> bool {
    c == ' ' || c == '\n' || c == '\t' || c == '\r'
}

/// The first index at or after `i` that does not hold whitespace.
pub open spec fn trim_start_idx(s: Seq<char>, i: int) -> int
    decreases s.len() - i
        when 0 <= i <= s.len()
{
    if i < s.len() && is_space_char(s[i]) {
        trim_start_idx(s, i + 1)
    } else {
        i
    }
}

/// The last index at most `i` such that no whitespace stands just before it.
pub open spec fn trim_end_idx(s: Seq<char>, i: int) -> int
    decreases i
        when 0 <= i <= s.len()
{
    if i > 0 && is_space_char(s[i - 1]) {
        trim_end_idx(s, i - 1)
    } else {
        i
    }
}

/// `s` with leading and trailing whitespace removed.
pub open spec fn trim_of(s: Seq<char>) -> Seq<char> {
    let lo = trim_start_idx(s, 0);
    let hi = trim_end_idx(s, s.len() as int);
    if lo <= hi {
        s.subrange(lo, hi)
    } else {
        Seq::empty()
    }
}

fn is_space(c: char) -> (r: bool)
    ensures
        r == is_space_char(c),
{
    c == ' ' || c == '\n' || c == '\t' || c == '\r'
}

/// Remove leading and trailing whitespace from a string slice.
#[verifier::loop_isolation(false)]
pub fn trim_str<'a>(s: &'a str) -> (r: &'a str)
    ensures
        r@ == trim_of(s@),
{
    let n = s.unicode_len();
    let mut lo: usize = 0;
    while lo < n && is_space(s.get_char(lo))
        invariant
            lo <= n,
            trim_start_idx(s@, 0) == trim_start_idx(s@, lo as int),
        decreases n - lo,
    {
        assert(trim_start_idx(s@, lo as int) == trim_start_idx(s@, lo as int + 1));
        lo = lo + 1;
    }
    assert(trim_start_idx(s@, lo as int) == lo as int);
    let mut hi: usize = n;
    while hi > 0 && is_space(s.get_char(hi - 1))
        invariant
            hi <= n,
            trim_end_idx(s@, n as int) == trim_end_idx(s@, hi as int),
        decreases hi,
    {
        assert(trim_end_idx(s@, hi as int) == trim_end_idx(s@, hi as int - 1));
        hi = hi - 1;
    }
    assert(trim_end_idx(s@, hi as int) == hi as int);
    if lo <= hi {
        s.substring_char(lo, hi)
    } else {
        s.substring_char(0, 0)
    }
}

} // verus!
