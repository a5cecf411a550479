//! The sort-and-format pipeline: selects the visible entries in scan order,
//! renders each path, orders the rendered lines stably, and joins them into
//! the displayed text with a line-to-entry map.

use crate::bit_set::BitSet;
use crate::entry::FileSystemEntry;
use crate::options::DisplayType;
use crate::text::{
    compare_keys, find_last_sep, key_of, last_sep, lemma_lex_asym, lemma_lex_total,
    lemma_lex_trans, lex_lt, push_char, sort_key, KeyCmp,
};
use vstd::prelude::*;
use vstd::seq_lib::group_to_multiset_ensures;

verus! {

/// What an entry's stored path renders to under a display form.
/// A path without separator renders under `JustName` as itself.
pub open spec fn spec_format(display: DisplayType, prefix: Seq<char>, path: Seq<char>) -> Seq<
    char,
> {
    match display {
        DisplayType::AbsolutePath => prefix + path,
        DisplayType::RelativePath => path,
        DisplayType::JustName => path.subrange(last_sep(path) + 1, path.len() as int),
    }
}

/// Renders one entry: the open-folder prefix plus the stored path, the
/// stored path alone, or the part after its last separator.
pub fn format_entry(entry: &FileSystemEntry, display: DisplayType, prefix: &str) -> (r: String)
    ensures
        r@ == spec_format(display, prefix@, entry.path@),
{
    match display {
        DisplayType::AbsolutePath => {
            let mut s = String::from_str(prefix);
            s.append(entry.path.as_str());
            s
        },
        DisplayType::RelativePath => entry.path.clone(),
        DisplayType::JustName => {
            let path = entry.path.as_str();
            match find_last_sep(path) {
                Some(i) => {
                    let n = path.unicode_len();
                    proof {
                        crate::text::lemma_last_sep(entry.path@);
                    }
                    String::from_str(path.substring_char(i + 1, n))
                },
                None => {
                    proof {
                        crate::text::lemma_last_sep(entry.path@);
                        assert(entry.path@.subrange(0, entry.path@.len() as int) =~= entry.path@);
                    }
                    entry.path.clone()
                },
            }
        },
    }
}

/// For a path with a separator, the name-only rendering is exactly the part
/// of the relative rendering strictly after its last separator.
pub proof fn lemma_just_name_is_relative_suffix(
    prefix: Seq<char>,
    path: Seq<char>,
)
    requires
        crate::text::has_sep(path),
    ensures
        ({
            let rel = spec_format(DisplayType::RelativePath, prefix, path);
            &&& 0 <= last_sep(rel) < rel.len()
            &&& rel[last_sep(rel)] == '/'
            &&& spec_format(DisplayType::JustName, prefix, path) == rel.subrange(
                last_sep(rel) + 1,
                rel.len() as int,
            )
        }),
{
    crate::text::lemma_last_sep(path);
}

/// One visible entry prepared for output: its ordering key, its rendered
/// text, and the index of the entry it came from.
#[derive(Debug)]
pub struct RenderedLine {
    pub key: Vec<u32>,
    pub text: String,
    pub orig: usize,
}

/// The strict output order on (key, scan position) pairs: by key, reversed
/// when descending, with equal keys kept in scan order; without a key the
/// scan order alone decides.
pub open spec fn ordered_pair(
    key_a: Seq<u32>,
    orig_a: int,
    key_b: Seq<u32>,
    orig_b: int,
    descending: bool,
    by_key: bool,
) -> bool {
    if by_key && key_a != key_b {
        if descending {
            lex_lt(key_b, key_a)
        } else {
            lex_lt(key_a, key_b)
        }
    } else {
        orig_a < orig_b
    }
}

/// The strict output order on rendered lines.
pub open spec fn line_before(
    a: RenderedLine,
    b: RenderedLine,
    descending: bool,
    by_key: bool,
) -> bool {
    ordered_pair(a.key@, a.orig as int, b.key@, b.orig as int, descending, by_key)
}

/// Two lines from different scan positions are ordered one way or the
/// other.
pub proof fn lemma_line_before_total(a: RenderedLine, b: RenderedLine, descending: bool, by_key: bool)
    requires
        a.orig != b.orig,
    ensures
        line_before(a, b, descending, by_key) || line_before(b, a, descending, by_key),
{
    lemma_lex_total(a.key@, b.key@);
}

pub proof fn lemma_line_before_trans(
    a: RenderedLine,
    b: RenderedLine,
    c: RenderedLine,
    descending: bool,
    by_key: bool,
)
    requires
        line_before(a, b, descending, by_key),
        line_before(b, c, descending, by_key),
    ensures
        line_before(a, c, descending, by_key),
{
    if by_key {
        let ka = a.key@;
        let kb = b.key@;
        let kc = c.key@;
        if ka != kb && kb != kc {
            if descending {
                lemma_lex_trans(kc, kb, ka);
                if ka == kc {
                    lemma_lex_asym(kb, ka);
                }
            } else {
                lemma_lex_trans(ka, kb, kc);
                if ka == kc {
                    lemma_lex_asym(ka, kb);
                }
            }
        }
    }
}

/// No two positions of `s` hold the same scan index.
pub open spec fn distinct_origs(s: Seq<RenderedLine>) -> bool {
    forall|a: int, b: int| 0 <= a < b < s.len() ==> s[a].orig != s[b].orig
}

/// Every adjacent-or-not pair of `s` stands in the output order.
pub open spec fn sorted_lines(s: Seq<RenderedLine>, descending: bool, by_key: bool) -> bool {
    forall|a: int, b: int|
        0 <= a < b < s.len() ==> #[trigger] line_before(s[a], s[b], descending, by_key)
}

/// Sorting is stable: in a sorted line sequence, two lines whose keys
/// compare equal stand in their scan order.
pub proof fn lemma_sort_stable(
    s: Seq<RenderedLine>,
    descending: bool,
    by_key: bool,
    a: int,
    b: int,
)
    requires
        sorted_lines(s, descending, by_key),
        0 <= a < b < s.len(),
        s[a].key@ == s[b].key@,
    ensures
        s[a].orig < s[b].orig,
{
    assert(line_before(s[a], s[b], descending, by_key));
}

/// Sorts the rendered lines into the chosen output order. The order breaks
/// key ties by scan position, so the sort is stable: lines with equal keys
/// keep their scan order, and the output is uniquely determined.
pub fn sort_lines(lines: &mut Vec<RenderedLine>, descending: bool, by_key: bool)
    requires
        distinct_origs(old(lines)@),
    ensures
        final(lines)@.len() == old(lines)@.len(),
        final(lines)@.to_multiset() == old(lines)@.to_multiset(),
        distinct_origs(final(lines)@),
        sorted_lines(final(lines)@, descending, by_key),
{
    broadcast use group_to_multiset_ensures;
    broadcast use vstd::multiset::group_multiset_axioms;

    if lines.len() <= 1 {
        return ;
    }
    let ghost orig_seq = lines@;
    let mut i: usize = 1;
    while i < lines.len()
        invariant
            1 <= i <= lines@.len(),
            lines@.len() == orig_seq.len(),
            lines@.to_multiset() == orig_seq.to_multiset(),
            distinct_origs(lines@),
            forall|a: int, b: int|
                0 <= a < b < i ==> #[trigger] line_before(lines@[a], lines@[b], descending, by_key),
        decreases lines@.len() - i,
    {
        let ghost v = lines@;
        // Find the first position whose line must come after the new one;
        // inserting there keeps equal keys in scan order.
        let mut p: usize = 0;
        while p < i
            invariant
                p <= i < v.len(),
                v == lines@,
                forall|k: int| 0 <= k < p ==> !line_before(v[i as int], v[k], descending, by_key),
            ensures
                p <= i,
                v == lines@,
                forall|k: int| 0 <= k < p ==> !line_before(v[i as int], v[k], descending, by_key),
                p < i ==> line_before(v[i as int], v[p as int], descending, by_key),
            decreases i - p,
        {
            if exec_line_before(&lines[i], &lines[p], descending, by_key) {
                break ;
            }
            p = p + 1;
        }
        let x = lines.remove(i);
        lines.insert(p, x);
        proof {
            let w = lines@;
            let v1 = v.remove(i as int);
            v.remove_ensures(i as int);
            v1.insert_ensures(p as int, x);
            assert(w == v1.insert(p as int, x));
            assert(w.len() == v.len());
            // Where each element of the new arrangement came from.
            assert forall|k: int| 0 <= k < p implies w[k] == v[k] by {
                assert(v1[k] == v[k]);
            }
            assert(w[p as int] == x && x == v[i as int]);
            assert forall|k: int| p < k <= i implies w[k] == v[k - 1] by {
                assert(w[k] == v1[k - 1]);
            }
            assert forall|k: int| i < k < w.len() implies w[k] == v[k] by {
                assert(w[k] == v1[k - 1]);
            }
            // The multiset of lines is unchanged by moving one line.
            v.to_multiset_ensures();
            v1.to_multiset_ensures();
            vstd::seq_lib::to_multiset_insert(v1, p as int, x);
            assert(v[i as int] == x);
            assert(v.contains(x));
            assert(v.to_multiset().count(x) > 0);
            assert(v1.to_multiset() == v.to_multiset().remove(x));
            assert(w.to_multiset() == v1.to_multiset().insert(x));
            assert(w.to_multiset() =~= v.to_multiset());
            // Scan indices stay pairwise distinct.
            assert forall|a: int, b: int| 0 <= a < b < w.len() implies w[a].orig != w[b].orig by {
                let fa = if a < p {
                    a
                } else if a == p {
                    i as int
                } else if a <= i {
                    a - 1
                } else {
                    a
                };
                let fb = if b < p {
                    b
                } else if b == p {
                    i as int
                } else if b <= i {
                    b - 1
                } else {
                    b
                };
                assert(w[a] == v[fa] && w[b] == v[fb]);
                assert(fa != fb);
            }
            // The sorted prefix grew by one line.
            assert forall|a: int, b: int| 0 <= a < b < i + 1 implies #[trigger] line_before(
                w[a],
                w[b],
                descending,
                by_key,
            ) by {
                if b < p {
                    assert(w[a] == v[a] && w[b] == v[b]);
                } else if a < p && b == p {
                    assert(w[a] == v[a] && w[b] == v[i as int]);
                    assert(!line_before(v[i as int], v[a], descending, by_key));
                    lemma_line_before_total(v[a], v[i as int], descending, by_key);
                } else if a < p && b > p {
                    assert(w[a] == v[a] && w[b] == v[b - 1]);
                } else if a == p {
                    assert(w[a] == v[i as int] && w[b] == v[b - 1]);
                    assert(line_before(v[i as int], v[p as int], descending, by_key));
                    if b - 1 > p {
                        assert(line_before(v[p as int], v[b - 1], descending, by_key));
                        lemma_line_before_trans(
                            v[i as int],
                            v[p as int],
                            v[b - 1],
                            descending,
                            by_key,
                        );
                    }
                } else {
                    assert(w[a] == v[a - 1] && w[b] == v[b - 1]);
                }
            }
        }
        i = i + 1;
    }
}

/// Compares two rendered lines in the chosen output order.
fn exec_line_before(a: &RenderedLine, b: &RenderedLine, descending: bool, by_key: bool) -> (r:
    bool)
    ensures
        r == line_before(*a, *b, descending, by_key),
{
    if by_key {
        match compare_keys(&a.key, &b.key) {
            KeyCmp::Equal => a.orig < b.orig,
            KeyCmp::Lower => {
                proof {
                    lemma_lex_asym(a.key@, b.key@);
                }
                !descending
            },
            KeyCmp::Higher => {
                proof {
                    lemma_lex_asym(b.key@, a.key@);
                }
                descending
            },
        }
    } else {
        a.orig < b.orig
    }
}

/// A rendered line agrees with the entry list, the visibility mask and the
/// chosen display form and key folding.
pub open spec fn line_ok(
    ln: RenderedLine,
    entries: Seq<FileSystemEntry>,
    visible: BitSet,
    display: DisplayType,
    prefix: Seq<char>,
    fold: bool,
) -> bool {
    &&& ln.orig < entries.len()
    &&& visible.bit(ln.orig as int)
    &&& ln.text@ == spec_format(display, prefix, entries[ln.orig as int].path@)
    &&& ln.key@ == key_of(ln.text@, fold)
}

/// Walks the entries in scan order and renders each visible one, producing
/// one line per set bit of `visible`, in scan order.
pub fn select_visible(
    entries: &Vec<FileSystemEntry>,
    visible: &BitSet,
    display: DisplayType,
    prefix: &str,
    fold: bool,
) -> (lines: Vec<RenderedLine>)
    requires
        visible.wf(),
    ensures
        forall|k: int|
            0 <= k < lines@.len() ==> line_ok(
                #[trigger] lines@[k],
                entries@,
                *visible,
                display,
                prefix@,
                fold,
            ),
        forall|a: int, b: int| 0 <= a < b < lines@.len() ==> lines@[a].orig < lines@[b].orig,
        forall|i: int|
            0 <= i < entries@.len() && visible.bit(i) ==> exists|k: int|
                0 <= k < lines@.len() && #[trigger] lines@[k].orig == i,
{
    let mut lines: Vec<RenderedLine> = Vec::new();
    let mut i: usize = 0;
    while i < entries.len()
        invariant
            visible.wf(),
            i <= entries@.len(),
            forall|k: int|
                0 <= k < lines@.len() ==> line_ok(
                    #[trigger] lines@[k],
                    entries@,
                    *visible,
                    display,
                    prefix@,
                    fold,
                ),
            forall|a: int, b: int| 0 <= a < b < lines@.len() ==> lines@[a].orig < lines@[b].orig,
            forall|k: int| 0 <= k < lines@.len() ==> lines@[k].orig < i,
            forall|j: int|
                0 <= j < i && visible.bit(j) ==> exists|k: int|
                    0 <= k < lines@.len() && #[trigger] lines@[k].orig == j,
        decreases entries@.len() - i,
    {
        let ghost prev = lines@;
        if visible.is_bit_set(i) {
            let text = format_entry(&entries[i], display, prefix);
            let key = sort_key(text.as_str(), fold);
            lines.push(RenderedLine { key, text, orig: i });
        }
        proof {
            assert forall|j: int| 0 <= j < i + 1 && visible.bit(j) implies exists|k: int|
                0 <= k < lines@.len() && #[trigger] lines@[k].orig == j by {
                if j < i {
                    let k0 = choose|k: int| 0 <= k < prev.len() && #[trigger] prev[k].orig == j;
                    assert(lines@[k0] == prev[k0]);
                    assert(lines@[k0].orig == j);
                } else {
                    assert(lines@[lines@.len() - 1].orig == j);
                }
            }
        }
        i = i + 1;
    }
    lines
}

/// The rendered texts of a line sequence, in order.
pub open spec fn texts_of(s: Seq<RenderedLine>) -> Seq<Seq<char>> {
    s.map(|k: int, ln: RenderedLine| ln.text@)
}

/// The given texts joined by single newline separators, with no trailing
/// newline.
pub open spec fn join_lines(texts: Seq<Seq<char>>) -> Seq<char>
    decreases texts.len(),
{
    if texts.len() == 0 {
        Seq::empty()
    } else if texts.len() == 1 {
        texts[0]
    } else {
        join_lines(texts.drop_last()) + seq!['\n'] + texts.last()
    }
}

/// Joins the rendered lines into the displayed text and produces, in
/// lockstep, the map from output line number to original entry index.
pub fn render_text(lines: &Vec<RenderedLine>) -> (out: (String, Vec<usize>))
    ensures
        out.0@ == join_lines(texts_of(lines@)),
        out.1@.len() == lines@.len(),
        forall|k: int| 0 <= k < lines@.len() ==> out.1@[k] == lines@[k].orig,
{
    let mut content = String::new();
    let mut indices: Vec<usize> = Vec::new();
    let mut k: usize = 0;
    while k < lines.len()
        invariant
            k <= lines@.len(),
            content@ == join_lines(texts_of(lines@).take(k as int)),
            indices@.len() == k,
            forall|l: int| 0 <= l < k ==> indices@[l] == lines@[l].orig,
        decreases lines@.len() - k,
    {
        let ghost before = content@;
        if k > 0 {
            push_char(&mut content, '\n');
        }
        content.append(lines[k].text.as_str());
        indices.push(lines[k].orig);
        proof {
            let texts = texts_of(lines@);
            assert(texts.take(k + 1).drop_last() =~= texts.take(k as int));
            assert(texts.take(k + 1).last() == texts[k as int]);
            assert(texts[k as int] == lines@[k as int].text@);
            if k == 0 {
                assert(join_lines(texts.take(1)) == texts.take(1)[0]);
                assert(content@ =~= texts[0]);
            } else {
                assert(join_lines(texts.take(k + 1)) == join_lines(texts.take(k as int)) + seq![
                    '\n',
                ] + texts[k as int]);
                assert(content@ =~= before + seq!['\n'] + texts[k as int]);
            }
        }
        k = k + 1;
    }
    proof {
        assert(texts_of(lines@).take(lines@.len() as int) =~= texts_of(lines@));
    }
    (content, indices)
}

} // verus!
