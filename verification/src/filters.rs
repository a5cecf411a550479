//! The five filter criteria and their visibility masks.
//!
//! Each criterion owns a configuration and a `BitSet` sized to the entry
//! list; updating one criterion rewrites only that criterion's mask, and the
//! engine combines the five masks with a byte-wise AND.

use crate::bit_set::BitSet;
use crate::editor::EditorState;
use crate::entry::{EntryType, FileSystemEntry};
use crate::pattern::{lower_of, regex_accepts, regex_match, regex_matches, to_lowercase, try_compile};
use crate::text::{contains_seq, str_contains};
use vstd::prelude::*;

verus! {

/// A pattern that compiled successfully, together with the case mode it was
/// compiled under.
#[derive(Debug, Clone)]
pub struct CompiledPattern {
    pub pattern: String,
    pub case_insensitive: bool,
}

impl View for CompiledPattern {
    type V = (Seq<char>, bool);

    open spec fn view(&self) -> (Seq<char>, bool) {
        (self.pattern@, self.case_insensitive)
    }
}

/// The three-state compile status of the text filter: nothing compiled, the
/// current pattern compiled, or the current pattern failed with the last
/// good pattern (if any) retained.
#[derive(Debug, Clone)]
pub enum CompileState {
    Uncompiled,
    Compiled(CompiledPattern),
    Errored { last_good: Option<CompiledPattern>, message: String },
}

/// Configuration of the text criterion.
#[derive(Debug, Clone)]
pub struct FilterInput {
    pub input: String,
    pub use_regex: bool,
    pub case_sensitive: bool,
    pub compiled: CompileState,
}

impl FilterInput {
    /// The pattern actually used for matching: the freshly compiled one, or
    /// the last good one retained across a compile failure.
    pub open spec fn effective(self) -> Option<(Seq<char>, bool)> {
        match self.compiled {
            CompileState::Compiled(p) => Some(p@),
            CompileState::Errored { last_good: Some(p), .. } => Some(p@),
            _ => None,
        }
    }

    /// Whether `path` passes the text criterion: the effective pattern must
    /// match it, and with no effective pattern a literal substring test of
    /// the raw input applies, case-folded when not case sensitive.
    pub open spec fn passes(self, path: Seq<char>) -> bool {
        match self.effective() {
            Some((pat, ci)) => regex_accepts(pat, ci) && regex_matches(pat, ci, path),
            None => if self.case_sensitive {
                contains_seq(path, self.input@)
            } else {
                contains_seq(lower_of(path), lower_of(self.input@))
            },
        }
    }

    /// Recompiles after an edit to the pattern or to one of the flags. A
    /// non-empty pattern with regex mode on either compiles or records the
    /// failure while retaining the previously effective pattern; otherwise
    /// the compile state is cleared.
    pub fn update_regex(&mut self)
        ensures
            final(self).input == old(self).input,
            final(self).use_regex == old(self).use_regex,
            final(self).case_sensitive == old(self).case_sensitive,
            compiled_after(
                old(self).input@,
                old(self).use_regex,
                old(self).case_sensitive,
                old(self).effective(),
                *final(self),
            ),
    {
        if !self.input.as_str().is_empty() && self.use_regex {
            let ci = !self.case_sensitive;
            match try_compile(self.input.as_str(), ci) {
                Ok(_) => {
                    self.compiled = CompileState::Compiled(
                        CompiledPattern { pattern: self.input.clone(), case_insensitive: ci },
                    );
                },
                Err(message) => {
                    let last_good = match &self.compiled {
                        CompileState::Compiled(p) => Some(
                            CompiledPattern {
                                pattern: p.pattern.clone(),
                                case_insensitive: p.case_insensitive,
                            },
                        ),
                        CompileState::Errored { last_good: Some(p), .. } => Some(
                            CompiledPattern {
                                pattern: p.pattern.clone(),
                                case_insensitive: p.case_insensitive,
                            },
                        ),
                        _ => None,
                    };
                    self.compiled = CompileState::Errored { last_good, message };
                },
            }
        } else {
            self.compiled = CompileState::Uncompiled;
        }
    }
}

/// Where re-reading a text-filter configuration leaves the compile state:
/// cleared when the pattern is empty or regex mode is off, freshly compiled
/// when the matcher accepts the pattern, and otherwise an error that retains
/// the previously effective pattern `prev`.
pub open spec fn compiled_after(
    input: Seq<char>,
    use_regex: bool,
    case_sensitive: bool,
    prev: Option<(Seq<char>, bool)>,
    post: FilterInput,
) -> bool {
    &&& (input.len() == 0 || !use_regex) ==> post.compiled is Uncompiled
    &&& (input.len() > 0 && use_regex && regex_accepts(input, !case_sensitive)) ==> {
        &&& post.compiled is Compiled
        &&& post.effective() == Some((input, !case_sensitive))
    }
    &&& (input.len() > 0 && use_regex && !regex_accepts(input, !case_sensitive)) ==> {
        &&& post.compiled is Errored
        &&& post.effective() == prev
    }
}

impl Default for FilterInput {
    fn default() -> (d: Self)
        ensures
            d.input@.len() == 0,
            !d.use_regex,
            !d.case_sensitive,
            d.compiled is Uncompiled,
    {
        FilterInput {
            input: String::new(),
            use_regex: false,
            case_sensitive: false,
            compiled: CompileState::Uncompiled,
        }
    }
}

/// Whether `c` is an ASCII decimal digit.
pub open spec fn is_digit(c: char) -> bool {
    48 <= c as u32 <= 57
}

/// The ASCII digits of `s`, in order.
pub open spec fn digits_of(s: Seq<char>) -> Seq<char>
    decreases s.len(),
{
    if s.len() == 0 {
        Seq::empty()
    } else if is_digit(s.last()) {
        digits_of(s.drop_last()).push(s.last())
    } else {
        digits_of(s.drop_last())
    }
}

/// The numeric value of a digit character; 0 for any other character.
pub open spec fn char_digit(c: char) -> int {
    if is_digit(c) {
        c as u32 - 48
    } else {
        0
    }
}

/// The number written by a digit string, most significant digit first.
pub open spec fn digits_value(s: Seq<char>) -> int
    decreases s.len(),
{
    if s.len() == 0 {
        0
    } else {
        digits_value(s.drop_last()) * 10 + char_digit(s.last())
    }
}

pub proof fn lemma_digits_value_nonneg(s: Seq<char>)
    ensures
        digits_value(s) >= 0,
    decreases s.len(),
{
    if s.len() > 0 {
        lemma_digits_value_nonneg(s.drop_last());
    }
}

/// The limit a raw text input stands for: the number written by its ASCII
/// digits, unbounded when it has none, saturated when it does not fit.
pub open spec fn limit_of(s: Seq<char>) -> Option<usize> {
    let v = digits_value(digits_of(s));
    if digits_of(s).len() == 0 {
        None
    } else if v <= usize::MAX {
        Some(v as usize)
    } else {
        Some(usize::MAX)
    }
}

/// Configuration of a depth criterion, used for both the minimum and the
/// maximum bound.
#[derive(Debug, Copy, Clone)]
pub struct DepthLimit {
    pub is_active: bool,
    pub limit: Option<usize>,
}

impl DepthLimit {
    /// Whether `depth` passes this limit read as a lower bound.
    pub open spec fn min_passes(self, depth: usize) -> bool {
        !self.is_active || match self.limit {
            Some(l) => depth >= l,
            None => true,
        }
    }

    /// Whether `depth` passes this limit read as an upper bound.
    pub open spec fn max_passes(self, depth: usize) -> bool {
        !self.is_active || match self.limit {
            Some(l) => depth <= l,
            None => true,
        }
    }

    /// Reads a limit from raw text input: all non-digit characters are
    /// discarded, an empty remainder means unbounded, and a value too large
    /// for the machine saturates.
    pub fn set_from_str(&mut self, limit: String)
        ensures
            final(self).is_active == old(self).is_active,
            final(self).limit == limit_of(limit@),
    {
        let s = limit.as_str();
        let n = s.unicode_len();
        let mut value: usize = 0;
        let mut any = false;
        let mut sat = false;
        let mut i: usize = 0;
        while i < n
            invariant
                n == s@.len(),
                i <= n,
                any == (digits_of(s@.take(i as int)).len() > 0),
                !sat ==> value == digits_value(digits_of(s@.take(i as int))),
                sat ==> digits_value(digits_of(s@.take(i as int))) > usize::MAX,
            decreases n - i,
        {
            let c = s.get_char(i);
            let u = c as u32;
            proof {
                assert(s@.take(i + 1).drop_last() =~= s@.take(i as int));
                assert(s@.take(i + 1).last() == s@[i as int]);
                lemma_digits_value_nonneg(digits_of(s@.take(i as int)));
            }
            if 48 <= u && u <= 57 {
                let d = (u - 48) as usize;
                proof {
                    let ds = digits_of(s@.take(i as int));
                    assert(digits_of(s@.take(i + 1)) == ds.push(s@[i as int]));
                    assert(digits_of(s@.take(i + 1)).drop_last() =~= ds);
                    assert(digits_value(digits_of(s@.take(i + 1))) == digits_value(ds) * 10 + d);
                }
                any = true;
                if sat {
                } else if value <= (usize::MAX - d) / 10 {
                    proof {
                        assert(value * 10 + d <= usize::MAX) by (nonlinear_arith)
                            requires
                                value <= (usize::MAX - d) / 10,
                                0 <= d <= usize::MAX,
                                0 <= value,
                        ;
                    }
                    value = value * 10 + d;
                } else {
                    proof {
                        assert(value * 10 + d > usize::MAX) by (nonlinear_arith)
                            requires
                                value > (usize::MAX - d) / 10,
                                0 <= d <= usize::MAX,
                                0 <= value,
                        ;
                    }
                    sat = true;
                }
            } else {
                proof {
                    assert(digits_of(s@.take(i + 1)) == digits_of(s@.take(i as int)));
                }
            }
            i = i + 1;
        }
        proof {
            assert(s@.take(n as int) =~= s@);
        }
        self.limit = if !any {
            None
        } else if sat {
            Some(usize::MAX)
        } else {
            Some(value)
        };
    }
}

impl Default for DepthLimit {
    fn default() -> (d: Self)
        ensures
            !d.is_active,
            d.limit is None,
    {
        DepthLimit { is_active: false, limit: None }
    }
}

/// One criterion: its configuration and its visibility mask.
#[derive(Debug, Clone)]
pub struct FilterState<T> {
    pub state: T,
    pub is_visible: BitSet,
}

impl<T> FilterState<T> {
    pub fn new(initial: T) -> (s: Self)
        ensures
            s.state == initial,
            s.is_visible.wf(),
            s.is_visible.size == 0,
    {
        FilterState { state: initial, is_visible: BitSet::new() }
    }
}

/// Rewrites `mask` to the minimum-depth criterion over `entries`.
fn fill_min_mask(mask: &mut BitSet, cfg: DepthLimit, entries: &Vec<FileSystemEntry>)
    requires
        old(mask).wf(),
    ensures
        final(mask).wf(),
        final(mask).size == entries@.len(),
        forall|i: int|
            0 <= i < entries@.len() ==> final(mask).bit(i) == cfg.min_passes(entries@[i].depth),
{
    mask.resize(entries.len());
    let is_active = cfg.is_active;
    let limit = match cfg.limit {
        Some(l) => l,
        None => 0,
    };
    let mut i: usize = 0;
    while i < entries.len()
        invariant
            mask.wf(),
            mask.size == entries@.len(),
            i <= entries@.len(),
            is_active == cfg.is_active,
            limit == (match cfg.limit {
                Some(l) => l,
                None => 0usize,
            }),
            forall|k: int| 0 <= k < i ==> mask.bit(k) == cfg.min_passes(entries@[k].depth),
        decreases entries@.len() - i,
    {
        let v = !is_active || entries[i].depth >= limit;
        mask.set_bit(i, v);
        i = i + 1;
    }
}

/// Rewrites `mask` to the maximum-depth criterion over `entries`.
fn fill_max_mask(mask: &mut BitSet, cfg: DepthLimit, entries: &Vec<FileSystemEntry>)
    requires
        old(mask).wf(),
    ensures
        final(mask).wf(),
        final(mask).size == entries@.len(),
        forall|i: int|
            0 <= i < entries@.len() ==> final(mask).bit(i) == cfg.max_passes(entries@[i].depth),
{
    mask.resize(entries.len());
    let is_active = cfg.is_active;
    let limit = match cfg.limit {
        Some(l) => l,
        None => usize::MAX,
    };
    let mut i: usize = 0;
    while i < entries.len()
        invariant
            mask.wf(),
            mask.size == entries@.len(),
            i <= entries@.len(),
            is_active == cfg.is_active,
            limit == (match cfg.limit {
                Some(l) => l,
                None => usize::MAX,
            }),
            forall|k: int| 0 <= k < i ==> mask.bit(k) == cfg.max_passes(entries@[k].depth),
        decreases entries@.len() - i,
    {
        let v = !is_active || entries[i].depth <= limit;
        mask.set_bit(i, v);
        i = i + 1;
    }
}

/// Rewrites `mask` to a kind criterion: an entry passes when the toggle is
/// on or the entry is not of the excluded kind.
fn fill_kind_mask(mask: &mut BitSet, enabled: bool, excluded: EntryType, entries: &Vec<
    FileSystemEntry,
>)
    requires
        old(mask).wf(),
    ensures
        final(mask).wf(),
        final(mask).size == entries@.len(),
        forall|i: int|
            0 <= i < entries@.len() ==> final(mask).bit(i) == (enabled || entries@[i].entry_type
                != excluded),
{
    mask.resize(entries.len());
    let mut i: usize = 0;
    while i < entries.len()
        invariant
            mask.wf(),
            mask.size == entries@.len(),
            i <= entries@.len(),
            forall|k: int|
                0 <= k < i ==> mask.bit(k) == (enabled || entries@[k].entry_type != excluded),
        decreases entries@.len() - i,
    {
        let v = enabled || !(entries[i].entry_type == excluded);
        mask.set_bit(i, v);
        i = i + 1;
    }
}

/// Rewrites `mask` to the text criterion over `entries`.
fn fill_text_mask(mask: &mut BitSet, cfg: &FilterInput, entries: &Vec<FileSystemEntry>)
    requires
        old(mask).wf(),
    ensures
        final(mask).wf(),
        final(mask).size == entries@.len(),
        forall|i: int|
            0 <= i < entries@.len() ==> final(mask).bit(i) == cfg.passes(entries@[i].path@),
{
    mask.resize(entries.len());
    let lowered_input = to_lowercase(cfg.input.as_str());
    let mut i: usize = 0;
    while i < entries.len()
        invariant
            mask.wf(),
            mask.size == entries@.len(),
            i <= entries@.len(),
            lowered_input@ == lower_of(cfg.input@),
            forall|k: int| 0 <= k < i ==> mask.bit(k) == cfg.passes(entries@[k].path@),
        decreases entries@.len() - i,
    {
        let e = &entries[i];
        let v = match &cfg.compiled {
            CompileState::Compiled(p) => {
                match regex_match(p.pattern.as_str(), p.case_insensitive, e.path.as_str()) {
                    Some(b) => b,
                    None => false,
                }
            },
            CompileState::Errored { last_good: Some(p), .. } => {
                match regex_match(p.pattern.as_str(), p.case_insensitive, e.path.as_str()) {
                    Some(b) => b,
                    None => false,
                }
            },
            _ => {
                if cfg.case_sensitive {
                    str_contains(e.path.as_str(), cfg.input.as_str())
                } else {
                    let lowered_path = to_lowercase(e.path.as_str());
                    str_contains(lowered_path.as_str(), lowered_input.as_str())
                }
            },
        };
        mask.set_bit(i, v);
        i = i + 1;
    }
}

/// The five criteria and their masks; the engine's single source of truth
/// for visibility.
#[derive(Debug, Clone)]
pub struct FilterOptions {
    pub filter_input: FilterState<FilterInput>,
    pub min_depth: FilterState<DepthLimit>,
    pub max_depth: FilterState<DepthLimit>,
    pub show_files: FilterState<bool>,
    pub show_folders: FilterState<bool>,
}

impl FilterOptions {
    pub open spec fn masks_wf(self) -> bool {
        &&& self.filter_input.is_visible.wf()
        &&& self.min_depth.is_visible.wf()
        &&& self.max_depth.is_visible.wf()
        &&& self.show_files.is_visible.wf()
        &&& self.show_folders.is_visible.wf()
    }

    /// All five masks are sized to `n` entries.
    pub open spec fn sized_to(self, n: int) -> bool {
        &&& self.filter_input.is_visible.size == n
        &&& self.min_depth.is_visible.size == n
        &&& self.max_depth.is_visible.size == n
        &&& self.show_files.is_visible.size == n
        &&& self.show_folders.is_visible.size == n
    }

    pub open spec fn text_synced(self, entries: Seq<FileSystemEntry>) -> bool {
        &&& self.filter_input.is_visible.size == entries.len()
        &&& forall|i: int|
            0 <= i < entries.len() ==> #[trigger] self.filter_input.is_visible.bit(i)
                == self.filter_input.state.passes(entries[i].path@)
    }

    pub open spec fn min_synced(self, entries: Seq<FileSystemEntry>) -> bool {
        &&& self.min_depth.is_visible.size == entries.len()
        &&& forall|i: int|
            0 <= i < entries.len() ==> #[trigger] self.min_depth.is_visible.bit(i)
                == self.min_depth.state.min_passes(entries[i].depth)
    }

    pub open spec fn max_synced(self, entries: Seq<FileSystemEntry>) -> bool {
        &&& self.max_depth.is_visible.size == entries.len()
        &&& forall|i: int|
            0 <= i < entries.len() ==> #[trigger] self.max_depth.is_visible.bit(i)
                == self.max_depth.state.max_passes(entries[i].depth)
    }

    pub open spec fn files_synced(self, entries: Seq<FileSystemEntry>) -> bool {
        &&& self.show_files.is_visible.size == entries.len()
        &&& forall|i: int|
            0 <= i < entries.len() ==> #[trigger] self.show_files.is_visible.bit(i)
                == (self.show_files.state || entries[i].entry_type != EntryType::File)
    }

    pub open spec fn folders_synced(self, entries: Seq<FileSystemEntry>) -> bool {
        &&& self.show_folders.is_visible.size == entries.len()
        &&& forall|i: int|
            0 <= i < entries.len() ==> #[trigger] self.show_folders.is_visible.bit(i)
                == (self.show_folders.state || entries[i].entry_type != EntryType::Folder)
    }

    /// Every mask reflects its own criterion over `entries`.
    pub open spec fn synced(self, entries: Seq<FileSystemEntry>) -> bool {
        &&& self.text_synced(entries)
        &&& self.min_synced(entries)
        &&& self.max_synced(entries)
        &&& self.files_synced(entries)
        &&& self.folders_synced(entries)
    }

    /// The conjunction of the five criteria's bits for entry `i`: the
    /// combined visibility decision.
    pub open spec fn combined_bit(self, i: int) -> bool {
        &&& self.filter_input.is_visible.bit(i)
        &&& self.min_depth.is_visible.bit(i)
        &&& self.max_depth.is_visible.bit(i)
        &&& self.show_files.is_visible.bit(i)
        &&& self.show_folders.is_visible.bit(i)
    }

    /// When both depth limits are set, the minimum never exceeds the
    /// maximum.
    pub open spec fn limits_consistent(self) -> bool {
        (self.min_depth.state.limit is Some && self.max_depth.state.limit is Some)
            ==> self.min_depth.state.limit->0 <= self.max_depth.state.limit->0
    }

    /// The five visibility masks, in a fixed order, for a caller that walks
    /// them uniformly.
    pub fn get_visibility_vectors(&self) -> (v: Vec<&BitSet>)
        ensures
            v@.len() == 5,
            *v@[0] == self.filter_input.is_visible,
            *v@[1] == self.min_depth.is_visible,
            *v@[2] == self.max_depth.is_visible,
            *v@[3] == self.show_files.is_visible,
            *v@[4] == self.show_folders.is_visible,
    {
        let mut v: Vec<&BitSet> = Vec::new();
        v.push(&self.filter_input.is_visible);
        v.push(&self.min_depth.is_visible);
        v.push(&self.max_depth.is_visible);
        v.push(&self.show_files.is_visible);
        v.push(&self.show_folders.is_visible);
        v
    }

    /// Resizes every criterion mask to `new_size` bits; every criterion must
    /// be recomputed afterwards, because surviving bytes keep their contents.
    pub fn resize_filters(&mut self, new_size: usize)
        requires
            old(self).masks_wf(),
        ensures
            final(self).masks_wf(),
            final(self).sized_to(new_size as int),
            final(self).filter_input.state == old(self).filter_input.state,
            final(self).min_depth.state == old(self).min_depth.state,
            final(self).max_depth.state == old(self).max_depth.state,
            final(self).show_files.state == old(self).show_files.state,
            final(self).show_folders.state == old(self).show_folders.state,
    {
        self.filter_input.is_visible.resize(new_size);
        self.min_depth.is_visible.resize(new_size);
        self.max_depth.is_visible.resize(new_size);
        self.show_files.is_visible.resize(new_size);
        self.show_folders.is_visible.resize(new_size);
    }

    /// Recompiles the text pattern and rewrites the text criterion's mask;
    /// no other criterion is touched.
    pub fn update_text_filter(&mut self, editor_state: &EditorState)
        requires
            old(self).masks_wf(),
        ensures
            final(self).masks_wf(),
            final(self).min_depth == old(self).min_depth,
            final(self).max_depth == old(self).max_depth,
            final(self).show_files == old(self).show_files,
            final(self).show_folders == old(self).show_folders,
            final(self).filter_input.state.input == old(self).filter_input.state.input,
            final(self).filter_input.state.use_regex == old(self).filter_input.state.use_regex,
            final(self).filter_input.state.case_sensitive == old(
                self,
            ).filter_input.state.case_sensitive,
            compiled_after(
                old(self).filter_input.state.input@,
                old(self).filter_input.state.use_regex,
                old(self).filter_input.state.case_sensitive,
                old(self).filter_input.state.effective(),
                final(self).filter_input.state,
            ),
            final(self).text_synced(editor_state.entries@),
    {
        self.filter_input.state.update_regex();
        self.apply_text_filter(editor_state);
    }

    /// Rewrites the text criterion's mask from the current configuration.
    fn apply_text_filter(&mut self, editor_state: &EditorState)
        requires
            old(self).masks_wf(),
        ensures
            final(self).masks_wf(),
            final(self).min_depth == old(self).min_depth,
            final(self).max_depth == old(self).max_depth,
            final(self).show_files == old(self).show_files,
            final(self).show_folders == old(self).show_folders,
            final(self).filter_input.state == old(self).filter_input.state,
            final(self).text_synced(editor_state.entries@),
    {
        fill_text_mask(
            &mut self.filter_input.is_visible,
            &self.filter_input.state,
            &editor_state.entries,
        );
    }

    /// If both depth limits are set and the minimum exceeds the maximum,
    /// pulls the minimum down to the maximum.
    pub fn normalize_min_depth(&mut self)
        ensures
            final(self).filter_input == old(self).filter_input,
            final(self).max_depth == old(self).max_depth,
            final(self).show_files == old(self).show_files,
            final(self).show_folders == old(self).show_folders,
            final(self).min_depth.state.is_active == old(self).min_depth.state.is_active,
            final(self).min_depth.is_visible == old(self).min_depth.is_visible,
            ({
                let mn = old(self).min_depth.state.limit;
                let mx = old(self).max_depth.state.limit;
                if mn is Some && mx is Some && mn->0 > mx->0 {
                    final(self).min_depth.state.limit == mx
                } else {
                    final(self).min_depth.state.limit == mn
                }
            }),
            final(self).limits_consistent(),
    {
        match (self.min_depth.state.limit, self.max_depth.state.limit) {
            (Some(min_limit), Some(max_limit)) => {
                if min_limit > max_limit {
                    self.min_depth.state.limit = Some(max_limit);
                }
            },
            _ => {},
        }
    }

    /// If both depth limits are set and the maximum falls below the minimum,
    /// pulls the maximum up to the minimum.
    pub fn normalize_max_depth(&mut self)
        ensures
            final(self).filter_input == old(self).filter_input,
            final(self).min_depth == old(self).min_depth,
            final(self).show_files == old(self).show_files,
            final(self).show_folders == old(self).show_folders,
            final(self).max_depth.state.is_active == old(self).max_depth.state.is_active,
            final(self).max_depth.is_visible == old(self).max_depth.is_visible,
            ({
                let mn = old(self).min_depth.state.limit;
                let mx = old(self).max_depth.state.limit;
                if mn is Some && mx is Some && mx->0 < mn->0 {
                    final(self).max_depth.state.limit == mn
                } else {
                    final(self).max_depth.state.limit == mx
                }
            }),
            final(self).limits_consistent(),
    {
        match (self.min_depth.state.limit, self.max_depth.state.limit) {
            (Some(min_limit), Some(max_limit)) => {
                if max_limit < min_limit {
                    self.max_depth.state.limit = Some(min_limit);
                }
            },
            _ => {},
        }
    }

    /// Rewrites the minimum-depth criterion's mask; no other criterion is
    /// touched.
    pub fn update_min_depth(&mut self, editor_state: &EditorState)
        requires
            old(self).masks_wf(),
        ensures
            final(self).masks_wf(),
            final(self).filter_input == old(self).filter_input,
            final(self).max_depth == old(self).max_depth,
            final(self).show_files == old(self).show_files,
            final(self).show_folders == old(self).show_folders,
            final(self).min_depth.state == old(self).min_depth.state,
            final(self).min_synced(editor_state.entries@),
    {
        let cfg = self.min_depth.state;
        fill_min_mask(&mut self.min_depth.is_visible, cfg, &editor_state.entries);
    }

    /// Rewrites the maximum-depth criterion's mask; no other criterion is
    /// touched.
    pub fn update_max_depth(&mut self, editor_state: &EditorState)
        requires
            old(self).masks_wf(),
        ensures
            final(self).masks_wf(),
            final(self).filter_input == old(self).filter_input,
            final(self).min_depth == old(self).min_depth,
            final(self).show_files == old(self).show_files,
            final(self).show_folders == old(self).show_folders,
            final(self).max_depth.state == old(self).max_depth.state,
            final(self).max_synced(editor_state.entries@),
    {
        let cfg = self.max_depth.state;
        fill_max_mask(&mut self.max_depth.is_visible, cfg, &editor_state.entries);
    }

    /// Rewrites the show-files criterion's mask; no other criterion is
    /// touched.
    pub fn update_show_files(&mut self, editor_state: &EditorState)
        requires
            old(self).masks_wf(),
        ensures
            final(self).masks_wf(),
            final(self).filter_input == old(self).filter_input,
            final(self).min_depth == old(self).min_depth,
            final(self).max_depth == old(self).max_depth,
            final(self).show_folders == old(self).show_folders,
            final(self).show_files.state == old(self).show_files.state,
            final(self).files_synced(editor_state.entries@),
    {
        let enabled = self.show_files.state;
        fill_kind_mask(&mut self.show_files.is_visible, enabled, EntryType::File, &editor_state.entries);
    }

    /// Rewrites the show-folders criterion's mask; no other criterion is
    /// touched.
    pub fn update_show_folders(&mut self, editor_state: &EditorState)
        requires
            old(self).masks_wf(),
        ensures
            final(self).masks_wf(),
            final(self).filter_input == old(self).filter_input,
            final(self).min_depth == old(self).min_depth,
            final(self).max_depth == old(self).max_depth,
            final(self).show_files == old(self).show_files,
            final(self).show_folders.state == old(self).show_folders.state,
            final(self).folders_synced(editor_state.entries@),
    {
        let enabled = self.show_folders.state;
        fill_kind_mask(
            &mut self.show_folders.is_visible,
            enabled,
            EntryType::Folder,
            &editor_state.entries,
        );
    }

    /// Combines the five criterion masks with a byte-wise AND. Every bit of
    /// the result is the conjunction of the five criteria's bits.
    pub fn recombine(&self) -> (mask: BitSet)
        requires
            self.masks_wf(),
            self.sized_to(self.filter_input.is_visible.size as int),
        ensures
            mask.wf(),
            mask.size == self.filter_input.is_visible.size,
            forall|i: int| #[trigger] mask.bit(i) == self.combined_bit(i),
    {
        let n = self.filter_input.is_visible.size;
        let len = self.filter_input.is_visible.chunks.len();
        let mut chunks: Vec<u8> = Vec::new();
        let mut j: usize = 0;
        while j < len
            invariant
                self.masks_wf(),
                self.sized_to(n as int),
                n == self.filter_input.is_visible.size,
                len == self.filter_input.is_visible.chunks@.len(),
                j <= len,
                chunks@.len() == j,
                forall|k: int|
                    0 <= k < j ==> chunks@[k] == (self.filter_input.is_visible.chunks@[k]
                        & self.min_depth.is_visible.chunks@[k]
                        & self.max_depth.is_visible.chunks@[k]
                        & self.show_files.is_visible.chunks@[k]
                        & self.show_folders.is_visible.chunks@[k]),
            decreases len - j,
        {
            let byte = self.filter_input.is_visible.chunks[j] & self.min_depth.is_visible.chunks[j]
                & self.max_depth.is_visible.chunks[j] & self.show_files.is_visible.chunks[j]
                & self.show_folders.is_visible.chunks[j];
            chunks.push(byte);
            j = j + 1;
        }
        let mask = BitSet { size: n, chunks };
        proof {
            assert forall|i: int|
                #[trigger] mask.bit(i) == (self.filter_input.is_visible.bit(i)
                    && self.min_depth.is_visible.bit(i) && self.max_depth.is_visible.bit(i)
                    && self.show_files.is_visible.bit(i)
                    && self.show_folders.is_visible.bit(i)) by {
                if 0 <= i < n {
                    assert(i / 8 < BitSet::spec_chunk_count(n as int)) by (nonlinear_arith)
                        requires
                            0 <= i < n,
                    ;
                    let x1 = self.filter_input.is_visible.chunks@[i / 8];
                    let x2 = self.min_depth.is_visible.chunks@[i / 8];
                    let x3 = self.max_depth.is_visible.chunks@[i / 8];
                    let x4 = self.show_files.is_visible.chunks@[i / 8];
                    let x5 = self.show_folders.is_visible.chunks@[i / 8];
                    let k = (i % 8) as u8;
                    assert(k < 8 ==> (((x1 & x2 & x3 & x4 & x5) >> k) & 1u8 == 1u8) == (((x1 >> k)
                        & 1u8 == 1u8) && ((x2 >> k) & 1u8 == 1u8) && ((x3 >> k) & 1u8 == 1u8) && ((
                    x4 >> k) & 1u8 == 1u8) && ((x5 >> k) & 1u8 == 1u8))) by (bit_vector);
                }
            }
        }
        mask
    }
}

impl Default for FilterOptions {
    fn default() -> (d: Self)
        ensures
            d.filter_input.state.input@.len() == 0,
            !d.filter_input.state.use_regex,
            !d.filter_input.state.case_sensitive,
            d.filter_input.state.compiled is Uncompiled,
            !d.min_depth.state.is_active,
            d.min_depth.state.limit is None,
            !d.max_depth.state.is_active,
            d.max_depth.state.limit is None,
            d.show_files.state,
            d.show_folders.state,
            d.masks_wf(),
            d.sized_to(0),
            d.limits_consistent(),
    {
        FilterOptions {
            filter_input: FilterState::new(FilterInput::default()),
            min_depth: FilterState::new(DepthLimit::default()),
            max_depth: FilterState::new(DepthLimit::default()),
            show_files: FilterState::new(true),
            show_folders: FilterState::new(true),
        }
    }
}

} // verus!
