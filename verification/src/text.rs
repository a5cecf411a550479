//! Verified text utilities for the filter and sort pipeline: separator
//! search, literal substring tests, sort keys and their lexicographic order.

use vstd::prelude::*;

verus! {

/// Whether `s` contains the path separator.
pub open spec fn has_sep(s: Seq<char>) -> bool {
    exists|i: int| 0 <= i < s.len() && s[i] == '/'
}

/// Index of the last path separator in `s`, or -1 if there is none.
pub open spec fn last_sep(s: Seq<char>) -> int
    decreases s.len(),
{
    if s.len() == 0 {
        -1
    } else if s[s.len() - 1] == '/' {
        s.len() - 1
    } else {
        last_sep(s.drop_last())
    }
}

pub proof fn lemma_last_sep(s: Seq<char>)
    ensures
        has_sep(s) ==> {
            &&& 0 <= last_sep(s) < s.len()
            &&& s[last_sep(s)] == '/'
            &&& forall|j: int| last_sep(s) < j < s.len() ==> s[j] != '/'
        },
        !has_sep(s) ==> last_sep(s) == -1,
    decreases s.len(),
{
    if s.len() == 0 {
    } else if s[s.len() - 1] == '/' {
        assert(has_sep(s));
    } else {
        lemma_last_sep(s.drop_last());
        if has_sep(s) {
            let i = choose|i: int| 0 <= i < s.len() && s[i] == '/';
            assert(s.drop_last()[i] == '/');
            assert(has_sep(s.drop_last()));
        }
        if has_sep(s.drop_last()) {
            let i = choose|i: int| 0 <= i < s.drop_last().len() && s.drop_last()[i] == '/';
            assert(s[i] == '/');
            assert(has_sep(s));
            assert(s[last_sep(s)] == s.drop_last()[last_sep(s.drop_last())]);
            assert forall|j: int| last_sep(s) < j < s.len() implies s[j] != '/' by {
                if j < s.len() - 1 {
                    assert(s[j] == s.drop_last()[j]);
                }
            }
        }
    }
}

/// A separator with nothing but non-separators after it is the last one.
pub proof fn lemma_last_sep_unique(s: Seq<char>, i: int)
    requires
        0 <= i < s.len(),
        s[i] == '/',
        forall|j: int| i < j < s.len() ==> s[j] != '/',
    ensures
        last_sep(s) == i,
    decreases s.len(),
{
    if i == s.len() - 1 {
    } else {
        lemma_last_sep_unique(s.drop_last(), i);
    }
}

/// Position of the last path separator of `s`, if any.
pub fn find_last_sep(s: &str) -> (r: Option<usize>)
    ensures
        match r {
            Some(i) => has_sep(s@) && i == last_sep(s@),
            None => !has_sep(s@),
        },
{
    let n = s.unicode_len();
    let mut k = n;
    while k > 0
        invariant
            k <= n == s@.len(),
            forall|j: int| k <= j < s@.len() ==> s@[j] != '/',
        decreases k,
    {
        let c = s.get_char(k - 1);
        if c == '/' {
            proof {
                lemma_last_sep_unique(s@, k - 1);
            }
            return Some(k - 1);
        }
        k = k - 1;
    }
    None
}

/// Whether `needle` occurs in `hay` as a contiguous run of characters.
pub open spec fn contains_seq(hay: Seq<char>, needle: Seq<char>) -> bool {
    exists|i: int|
        0 <= i <= hay.len() - needle.len() && #[trigger] hay.subrange(i, i + needle.len())
            == needle
}

/// Literal substring test; the empty needle is found in every string.
pub fn str_contains(hay: &str, needle: &str) -> (r: bool)
    ensures
        r == contains_seq(hay@, needle@),
{
    let n = hay.unicode_len();
    let m = needle.unicode_len();
    if m > n {
        return false;
    }
    let mut i: usize = 0;
    while i <= n - m
        invariant
            m <= n,
            n == hay@.len(),
            m == needle@.len(),
            i <= n - m + 1,
            forall|k: int| 0 <= k < i ==> #[trigger] hay@.subrange(k, k + m as int) != needle@,
        decreases n - m - i + 1,
    {
        let mut j: usize = 0;
        let mut all_eq = true;
        while j < m && all_eq
            invariant
                m <= n,
                n == hay@.len(),
                m == needle@.len(),
                i <= n - m,
                j <= m,
                all_eq ==> forall|l: int| 0 <= l < j ==> hay@[i + l] == needle@[l],
                !all_eq ==> exists|l: int| 0 <= l < m && hay@[i + l] != needle@[l],
            decreases m - j + (if all_eq {
                1int
            } else {
                0int
            }),
        {
            if hay.get_char(i + j) != needle.get_char(j) {
                all_eq = false;
            } else {
                j = j + 1;
            }
        }
        if all_eq {
            proof {
                assert forall|l: int| 0 <= l < m implies hay@.subrange(i as int, i + m as int)[l]
                    == needle@[l] by {
                    assert(hay@.subrange(i as int, i + m as int)[l] == hay@[i + l]);
                }
                assert(hay@.subrange(i as int, i + m as int) =~= needle@);
            }
            return true;
        }
        proof {
            let l = choose|l: int| 0 <= l < m && hay@[i + l] != needle@[l];
            assert(hay@.subrange(i as int, i + m as int)[l] == hay@[i + l]);
            assert(hay@.subrange(i as int, i + m as int) != needle@);
        }
        i = i + 1;
    }
    false
}

/// Folds an ASCII upper-case letter to lower case, as a code point.
pub open spec fn fold_char(c: char) -> u32 {
    if 65 <= c as u32 <= 90 {
        (c as u32 + 32) as u32
    } else {
        c as u32
    }
}

/// The ordering key of a rendered string: its code points, folded to ASCII
/// lower case when `fold` is set.
pub open spec fn key_of(s: Seq<char>, fold: bool) -> Seq<u32> {
    s.map(
        |i: int, c: char|
            if fold {
                fold_char(c)
            } else {
                c as u32
            },
    )
}

/// Builds the ordering key of `s`.
pub fn sort_key(s: &str, fold: bool) -> (k: Vec<u32>)
    ensures
        k@ == key_of(s@, fold),
{
    let n = s.unicode_len();
    let mut k: Vec<u32> = Vec::new();
    let mut i: usize = 0;
    while i < n
        invariant
            n == s@.len(),
            i <= n,
            k@.len() == i,
            forall|l: int| 0 <= l < i ==> k@[l] == key_of(s@, fold)[l],
        decreases n - i,
    {
        let c = s.get_char(i);
        let u = c as u32;
        let f = if fold && 65 <= u && u <= 90 {
            u + 32
        } else {
            u
        };
        k.push(f);
        i = i + 1;
    }
    proof {
        assert(k@ =~= key_of(s@, fold));
    }
    k
}

/// Strict lexicographic order on ordering keys.
pub open spec fn lex_lt(a: Seq<u32>, b: Seq<u32>) -> bool
    decreases a.len(),
{
    if b.len() == 0 {
        false
    } else if a.len() == 0 {
        true
    } else if a[0] < b[0] {
        true
    } else if a[0] > b[0] {
        false
    } else {
        lex_lt(a.drop_first(), b.drop_first())
    }
}

pub proof fn lemma_lex_irrefl(a: Seq<u32>)
    ensures
        !lex_lt(a, a),
    decreases a.len(),
{
    if a.len() > 0 {
        lemma_lex_irrefl(a.drop_first());
    }
}

pub proof fn lemma_lex_asym(a: Seq<u32>, b: Seq<u32>)
    requires
        lex_lt(a, b),
    ensures
        !lex_lt(b, a),
    decreases a.len(),
{
    if a.len() > 0 && b.len() > 0 && a[0] == b[0] {
        lemma_lex_asym(a.drop_first(), b.drop_first());
    }
}

pub proof fn lemma_lex_trans(a: Seq<u32>, b: Seq<u32>, c: Seq<u32>)
    requires
        lex_lt(a, b),
        lex_lt(b, c),
    ensures
        lex_lt(a, c),
    decreases a.len(),
{
    if a.len() > 0 && b.len() > 0 && c.len() > 0 && a[0] == b[0] && b[0] == c[0] {
        lemma_lex_trans(a.drop_first(), b.drop_first(), c.drop_first());
    }
}

/// Two keys are equal or one is strictly below the other.
pub proof fn lemma_lex_total(a: Seq<u32>, b: Seq<u32>)
    ensures
        lex_lt(a, b) || lex_lt(b, a) || a =~= b,
    decreases a.len(),
{
    if a.len() > 0 && b.len() > 0 && a[0] == b[0] {
        lemma_lex_total(a.drop_first(), b.drop_first());
        if a.drop_first() =~= b.drop_first() {
            assert forall|i: int| 0 <= i < a.len() implies a[i] == b[i] by {
                if i > 0 {
                    assert(a[i] == a.drop_first()[i - 1]);
                    assert(b[i] == b.drop_first()[i - 1]);
                }
            }
            assert(a =~= b);
        }
    }
}

/// Result of comparing two ordering keys.
#[derive(Debug, Copy, Clone, PartialEq, Eq, Structural)]
pub enum KeyCmp {
    Lower,
    Equal,
    Higher,
}

proof fn lemma_lex_from_prefix(a: Seq<u32>, b: Seq<u32>, i: int)
    requires
        0 <= i <= a.len(),
        i <= b.len(),
        forall|k: int| 0 <= k < i ==> a[k] == b[k],
        (i < a.len() && i < b.len() && a[i] < b[i]) || (i == a.len() && i < b.len()),
    ensures
        lex_lt(a, b),
    decreases i,
{
    if i > 0 {
        lemma_lex_from_prefix(a.drop_first(), b.drop_first(), i - 1);
    }
}

/// Compares two ordering keys lexicographically.
pub fn compare_keys(a: &Vec<u32>, b: &Vec<u32>) -> (r: KeyCmp)
    ensures
        r == KeyCmp::Lower <==> lex_lt(a@, b@),
        r == KeyCmp::Higher <==> lex_lt(b@, a@),
        r == KeyCmp::Equal <==> a@ == b@,
{
    let na = a.len();
    let nb = b.len();
    let mut i: usize = 0;
    loop
        invariant
            na == a@.len(),
            nb == b@.len(),
            i <= na,
            i <= nb,
            forall|k: int| 0 <= k < i ==> a@[k] == b@[k],
        decreases na - i,
    {
        if i == na && i == nb {
            proof {
                assert(a@ =~= b@);
                lemma_lex_irrefl(a@);
            }
            return KeyCmp::Equal;
        }
        if i == na {
            proof {
                lemma_lex_from_prefix(a@, b@, i as int);
                lemma_lex_asym(a@, b@);
            }
            return KeyCmp::Lower;
        }
        if i == nb {
            proof {
                lemma_lex_from_prefix(b@, a@, i as int);
                lemma_lex_asym(b@, a@);
            }
            return KeyCmp::Higher;
        }
        let x = a[i];
        let y = b[i];
        if x < y {
            proof {
                lemma_lex_from_prefix(a@, b@, i as int);
                lemma_lex_asym(a@, b@);
            }
            return KeyCmp::Lower;
        }
        if y < x {
            proof {
                lemma_lex_from_prefix(b@, a@, i as int);
                lemma_lex_asym(b@, a@);
            }
            return KeyCmp::Higher;
        }
        i = i + 1;
    }
}

/// Relies on String::push: appends one character at the end of the string.
#[verifier::external_body]
pub(crate) fn push_char(s: &mut String, c: char)
    ensures
        final(s)@ == old(s)@.push(c),
{
    s.push(c);
}

} // verus!
