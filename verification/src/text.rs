//! Verified text utilities: lexicographic ordering of character sequences
//! (the catalog's key order), substring search, ASCII-whitespace trimming,
//! and UTF-8 decoding of stored credential bytes.

use vstd::prelude::*;

verus! {

/// Strict lexicographic order on character sequences: `a` comes before `b`
/// when `a` is a proper prefix of `b`, or when at the first differing
/// position `a` holds the smaller character.
pub open spec fn lex_lt(a: Seq<char>, b: Seq<char>) -> bool
    decreases a.len(),
{
    if b.len() == 0 {
        false
    } else if a.len() == 0 {
        true
    } else if a[0] != b[0] {
        a[0] < b[0]
    } else {
        lex_lt(a.drop_first(), b.drop_first())
    }
}

pub proof fn lemma_lex_irrefl(a: Seq<char>)
    ensures
        !lex_lt(a, a),
    decreases a.len(),
{
    if a.len() > 0 {
        lemma_lex_irrefl(a.drop_first());
    }
}

pub proof fn lemma_lex_total(a: Seq<char>, b: Seq<char>)
    ensures
        lex_lt(a, b) || lex_lt(b, a) || a =~= b,
    decreases a.len(),
{
    if a.len() > 0 && b.len() > 0 && a[0] == b[0] {
        lemma_lex_total(a.drop_first(), b.drop_first());
        if a.drop_first() =~= b.drop_first() {
            assert(a =~= b) by {
                assert(forall|j: int| 1 <= j < a.len() ==> a[j] == a.drop_first()[j - 1]);
                assert(forall|j: int| 1 <= j < b.len() ==> b[j] == b.drop_first()[j - 1]);
            }
        }
    }
}

pub proof fn lemma_lex_trans(a: Seq<char>, b: Seq<char>, c: Seq<char>)
    requires
        lex_lt(a, b),
        lex_lt(b, c),
    ensures
        lex_lt(a, c),
    decreases a.len(),
{
    if a.len() > 0 && b.len() > 0 && c.len() > 0 && a[0] == b[0] && b[0] == c[0] {
        lemma_lex_trans(a.drop_first(), b.drop_first(), c.drop_first());
    }
}

/// Two ordered sequences that agree on their first `i` characters compare
/// exactly as their remainders from position `i` do.
proof fn lemma_lex_skip(a: Seq<char>, b: Seq<char>, i: int)
    requires
        0 <= i <= a.len(),
        i <= b.len(),
        forall|j: int| 0 <= j < i ==> a[j] == b[j],
    ensures
        lex_lt(a, b) == lex_lt(a.skip(i), b.skip(i)),
    decreases i,
{
    if i > 0 {
        assert(a.len() > 0 && b.len() > 0 && a[0] == b[0]);
        lemma_lex_skip(a.drop_first(), b.drop_first(), i - 1);
        assert(a.drop_first().skip(i - 1) =~= a.skip(i));
        assert(b.drop_first().skip(i - 1) =~= b.skip(i));
    } else {
        assert(a.skip(0) =~= a);
        assert(b.skip(0) =~= b);
    }
}

/// Compares two strings in the order of `lex_lt` over their characters.
pub fn str_lt(a: &str, b: &str) -> (r: bool)
    ensures
        r == lex_lt(a@, b@),
{
    let la = a.unicode_len();
    let lb = b.unicode_len();
    let mut i: usize = 0;
    loop
        invariant
            i <= la,
            i <= lb,
            la == a@.len(),
            lb == b@.len(),
            forall|j: int| 0 <= j < i ==> a@[j] == b@[j],
        decreases la - i,
    {
        if i >= la || i >= lb {
            proof {
                lemma_lex_skip(a@, b@, i as int);
            }
            return la < lb;
        }
        let ca = a.get_char(i);
        let cb = b.get_char(i);
        if ca != cb {
            proof {
                lemma_lex_skip(a@, b@, i as int);
            }
            return ca < cb;
        }
        i = i + 1;
    }
}

/// Whether `pat` occurs in `hay` starting at position `at`.
pub open spec fn matches_at(hay: Seq<char>, pat: Seq<char>, at: int) -> bool {
    &&& 0 <= at
    &&& at + pat.len() <= hay.len()
    &&& forall|j: int| 0 <= j < pat.len() ==> hay[at + j] == pat[j]
}

/// Whether `pat` occurs anywhere in `hay` as a contiguous run.
pub open spec fn contains_seq(hay: Seq<char>, pat: Seq<char>) -> bool {
    exists|at: int| matches_at(hay, pat, at)
}

/// ASCII whitespace, the characters stripped from a pasted key.
pub open spec fn is_space_char(c: char) -> bool {
    c == ' ' || c == '\t' || c == '\n' || c == '\r'
}

/// `s` without its leading whitespace.
pub open spec fn trim_front(s: Seq<char>) -> Seq<char>
    decreases s.len(),
{
    if s.len() > 0 && is_space_char(s[0]) {
        trim_front(s.drop_first())
    } else {
        s
    }
}

/// `s` without its trailing whitespace.
pub open spec fn trim_back(s: Seq<char>) -> Seq<char>
    decreases s.len(),
{
    if s.len() > 0 && is_space_char(s.last()) {
        trim_back(s.drop_last())
    } else {
        s
    }
}

/// `s` without leading and trailing whitespace.
pub open spec fn trimmed(s: Seq<char>) -> Seq<char> {
    trim_back(trim_front(s))
}

proof fn lemma_trim_front_skip(s: Seq<char>, k: int)
    requires
        0 <= k <= s.len(),
        forall|j: int| 0 <= j < k ==> is_space_char(s[j]),
        k == s.len() || !is_space_char(s[k]),
    ensures
        trim_front(s) =~= s.skip(k),
    decreases k,
{
    if k == 0 {
        assert(s.skip(0) =~= s);
    } else {
        lemma_trim_front_skip(s.drop_first(), k - 1);
        assert(s.drop_first().skip(k - 1) =~= s.skip(k));
    }
}

proof fn lemma_trim_back_take(s: Seq<char>, m: int)
    requires
        0 <= m <= s.len(),
        forall|j: int| m <= j < s.len() ==> is_space_char(s[j]),
        m == 0 || !is_space_char(s[m - 1]),
    ensures
        trim_back(s) =~= s.take(m),
    decreases s.len(),
{
    if m == s.len() {
        assert(s.take(m) =~= s);
    } else {
        lemma_trim_back_take(s.drop_last(), m);
        assert(s.drop_last().take(m) =~= s.take(m));
    }
}

/// Checks one character against `is_space_char`.
fn is_space(c: char) -> (r: bool)
    ensures
        r == is_space_char(c),
{
    c == ' ' || c == '\t' || c == '\n' || c == '\r'
}

/// Strips leading and trailing ASCII whitespace.
pub fn trim_str(s: &str) -> (r: String)
    ensures
        r@ == trimmed(s@),
{
    let n = s.unicode_len();
    let mut start: usize = 0;
    while start < n && is_space(s.get_char(start))
        invariant
            start <= n,
            n == s@.len(),
            forall|j: int| 0 <= j < start ==> is_space_char(s@[j]),
        decreases n - start,
    {
        start = start + 1;
    }
    let mut end: usize = n;
    while end > start && is_space(s.get_char(end - 1))
        invariant
            start <= end <= n,
            n == s@.len(),
            forall|j: int| end <= j < n ==> is_space_char(s@[j]),
        decreases end,
    {
        end = end - 1;
    }
    proof {
        lemma_trim_front_skip(s@, start as int);
        let t = s@.skip(start as int);
        lemma_trim_back_take(t, end - start);
        assert(t.take(end - start) =~= s@.subrange(start as int, end as int));
    }
    s.substring_char(start, end).to_owned()
}

/// Relies on `String::from_utf8`: succeeds exactly on valid UTF-8 input
/// and decodes it.
#[verifier::external_body]
pub fn string_from_utf8(bytes: Vec<u8>) -> (r: Option<String>)
    ensures
        r is Some <==> vstd::utf8::valid_utf8(bytes@),
        r matches Some(s) ==> s@ == vstd::utf8::decode_utf8(bytes@),
{
    String::from_utf8(bytes).ok()
}

/// Naive substring search over characters.
pub fn str_contains(hay: &str, pat: &str) -> (r: bool)
    ensures
        r == contains_seq(hay@, pat@),
{
    let lh = hay.unicode_len();
    let lp = pat.unicode_len();
    if lp > lh {
        return false;
    }
    let mut at: usize = 0;
    loop
        invariant
            lh == hay@.len(),
            lp == pat@.len(),
            lp <= lh,
            at <= lh - lp + 1,
            forall|s: int| 0 <= s < at ==> !matches_at(hay@, pat@, s),
        decreases lh - lp + 1 - at,
    {
        if at > lh - lp {
            assert(forall|s: int| matches_at(hay@, pat@, s) ==> 0 <= s <= lh - lp);
            return false;
        }
        let mut j: usize = 0;
        let mut hit = true;
        while j < lp
            invariant
                lh == hay@.len(),
                lp == pat@.len(),
                at + lp <= lh,
                j <= lp,
                hit == forall|k: int| 0 <= k < j ==> hay@[at + k] == pat@[k],
            decreases lp - j,
        {
            let hc = hay.get_char(at + j);
            let pc = pat.get_char(j);
            if hc != pc {
                hit = false;
                assert(!(forall|k: int| 0 <= k < j + 1 ==> hay@[at as int + k] == pat@[k]));
            }
            j = j + 1;
        }
        if hit {
            assert(matches_at(hay@, pat@, at as int));
            return true;
        }
        at = at + 1;
    }
}

} // verus!
