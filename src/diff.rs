//! Classification of the changed blocks that the line diff reports.
use std::collections::HashMap;
use std::ops::Range;

use imara_diff::intern::InternedInput;
use imara_diff::sources::lines_with_terminator;
use imara_diff::Algorithm;
use vstd::prelude::*;
use vstd::string::StringSliceAdditionalSpecFns;
use vstd::utf8::encode_utf8;

verus! {

/// The most lines either text may have for a diff to be computed.
pub const MAX_DIFF_LINES: usize = 65535;

/// The most bytes either text may have: an average line length of 128.
pub const MAX_DIFF_BYTES: usize = MAX_DIFF_LINES * 128;

/// How one line of the document differs from the diff base.
#[derive(Clone, Copy, Debug, PartialEq, Eq, Structural)]
pub enum LineDiff {
    /// The line exists only in the document.
    Added,
    /// Lines of the base were removed just before this line.
    Deleted,
    /// The line replaces lines of the base.
    Modified,
}

/// Maps line numbers of the document to their change; unchanged lines are absent.
pub type LineDiffs = HashMap<usize, LineDiff>;

/// A changed block as the diff reports it:
/// `(before.start, before.end, after.start, after.end)`, in line numbers.
pub type Change = (u32, u32, u32, u32);

/// The changed blocks that the histogram line diff reports for two texts, in order.
pub uninterp spec fn histogram_changes(base: Seq<char>, doc: Seq<char>) -> Seq<Change>;

/// `m` with every line in `lo..hi` set to `tag`.
pub open spec fn mark_range(m: Map<usize, LineDiff>, lo: int, hi: int, tag: LineDiff) -> Map<
    usize,
    LineDiff,
> {
    Map::new(
        |k: usize| m.contains_key(k) || (lo <= k < hi),
        |k: usize|
            if lo <= k < hi {
                tag
            } else {
                m[k]
            },
    )
}

/// The marker that a changed block leaves on the document's lines.
pub open spec fn mark_change(m: Map<usize, LineDiff>, c: Change) -> Map<usize, LineDiff> {
    if c.3 <= c.2 {
        m.insert(c.2 as usize, LineDiff::Deleted)
    } else if c.1 <= c.0 {
        mark_range(m, c.2 as int, c.3 as int, LineDiff::Added)
    } else {
        mark_range(m, c.2 as int, c.3 as int, LineDiff::Modified)
    }
}

/// The markers of a sequence of changed blocks, a later block winning on a shared line.
pub open spec fn changes_map(cs: Seq<Change>) -> Map<usize, LineDiff>
    decreases cs.len(),
{
    if cs.len() == 0 {
        Map::empty()
    } else {
        mark_change(changes_map(cs.drop_last()), cs.last())
    }
}

/// Number of `\n` bytes in `b`.
pub open spec fn newlines(b: Seq<u8>) -> nat
    decreases b.len(),
{
    if b.len() == 0 {
        0
    } else {
        newlines(b.drop_last()) + if b.last() == 10u8 {
            1nat
        } else {
            0nat
        }
    }
}

/// Number of lines of a text: one more than its line breaks.
pub open spec fn line_count(b: Seq<u8>) -> nat {
    newlines(b) + 1
}

/// A text small enough to be diffed.
pub open spec fn within_budget(b: Seq<u8>) -> bool {
    b.len() <= MAX_DIFF_BYTES && line_count(b) <= MAX_DIFF_LINES
}

/// The markers for a base and a document: none where either is over budget.
pub open spec fn line_diffs_of(base: Seq<char>, doc: Seq<char>) -> Map<usize, LineDiff> {
    if within_budget(encode_utf8(base)) && within_budget(encode_utf8(doc)) {
        changes_map(histogram_changes(base, doc))
    } else {
        Map::empty()
    }
}

/// Appends one changed block to `changes`.
fn push_change(changes: &mut Vec<Change>, before: Range<u32>, after: Range<u32>)
    ensures
        final(changes)@ == old(changes)@.push((before.start, before.end, after.start, after.end)),
{
    changes.push((before.start, before.end, after.start, after.end));
}

/// Relies on `imara_diff::diff` with `Algorithm::Histogram` over an `InternedInput`
/// of the texts' lines (terminators included): the changed blocks it hands to the
/// sink, in order, depend on the two texts alone. It asserts fewer than
/// `i32::MAX` lines per text, which the byte budget keeps.
#[verifier::external_body]
fn histogram_line_changes(base: &str, doc: &str) -> (r: Vec<Change>)
    requires
        base.spec_bytes().len() <= MAX_DIFF_BYTES,
        doc.spec_bytes().len() <= MAX_DIFF_BYTES,
    ensures
        r@ == histogram_changes(base@, doc@),
{
    let input = InternedInput::new(lines_with_terminator(base), lines_with_terminator(doc));
    let mut changes = Vec::new();
    imara_diff::diff(
        Algorithm::Histogram,
        &input,
        |before: Range<u32>, after: Range<u32>| push_change(&mut changes, before, after),
    );
    changes
}

/// Counts the lines of a text: one more than its `\n` bytes.
pub fn count_lines(text: &str) -> (r: usize)
    requires
        text.spec_bytes().len() < usize::MAX,
    ensures
        r == line_count(text.spec_bytes()),
{
    let bytes = text.as_bytes();
    let mut n: usize = 1;
    let mut i: usize = 0;
    while i < bytes.len()
        invariant
            bytes@ == text.spec_bytes(),
            i <= bytes@.len(),
            bytes@.len() < usize::MAX,
            n == newlines(bytes@.subrange(0, i as int)) + 1,
            n <= i + 1,
        decreases bytes@.len() - i,
    {
        proof {
            assert(bytes@.subrange(0, i + 1).drop_last() =~= bytes@.subrange(0, i as int));
        }
        if bytes[i] == 10u8 {
            n = n + 1;
        }
        i = i + 1;
    }
    proof {
        assert(bytes@.subrange(0, i as int) =~= bytes@);
    }
    n
}

/// Whether a text is small enough to be diffed.
pub fn is_within_budget(text: &str) -> (r: bool)
    ensures
        r == within_budget(text.spec_bytes()),
{
    if text.as_bytes().len() > MAX_DIFF_BYTES {
        false
    } else {
        count_lines(text) <= MAX_DIFF_LINES
    }
}

/// Sets every line in `lo..hi` of `line_diffs` to `tag`.
fn mark_lines(line_diffs: &mut LineDiffs, lo: u32, hi: u32, tag: LineDiff)
    ensures
        final(line_diffs)@ == mark_range(old(line_diffs)@, lo as int, hi as int, tag),
{
    let ghost start = line_diffs@;
    let mut line: u32 = lo;
    proof {
        assert(line_diffs@ =~= mark_range(start, lo as int, lo as int, tag));
    }
    while line < hi
        invariant
            lo <= line,
            line <= hi || line == lo,
            line_diffs@ == mark_range(start, lo as int, line as int, tag),
        decreases hi - line,
    {
        line_diffs.insert(line as usize, tag);
        proof {
            assert(line_diffs@ =~= mark_range(start, lo as int, line + 1, tag));
        }
        line = line + 1;
    }
    proof {
        assert(line_diffs@ =~= mark_range(start, lo as int, hi as int, tag));
    }
}

/// Adds to `line_diffs` the markers of the changed blocks `changes`, in order:
/// a block that removes lines only marks its boundary line `Deleted`, one that
/// only inserts marks each new line `Added`, and any other marks each of its
/// lines in the document `Modified`.
pub fn add_changes(line_diffs: &mut LineDiffs, changes: &Vec<Change>)
    requires
        old(line_diffs)@ == Map::<usize, LineDiff>::empty(),
    ensures
        final(line_diffs)@ == changes_map(changes@),
{
    let mut i: usize = 0;
    while i < changes.len()
        invariant
            i <= changes@.len(),
            line_diffs@ == changes_map(changes@.subrange(0, i as int)),
        decreases changes@.len() - i,
    {
        let c = changes[i];
        proof {
            assert(changes@.subrange(0, i + 1).drop_last() =~= changes@.subrange(0, i as int));
        }
        if c.3 <= c.2 {
            line_diffs.insert(c.2 as usize, LineDiff::Deleted);
        } else if c.1 <= c.0 {
            mark_lines(line_diffs, c.2, c.3, LineDiff::Added);
        } else {
            mark_lines(line_diffs, c.2, c.3, LineDiff::Modified);
        }
        i = i + 1;
    }
    proof {
        assert(changes@.subrange(0, i as int) =~= changes@);
    }
}

/// Fills the empty `line_diffs` with the markers between `base` and `doc`;
/// where either text is over budget, it stays empty.
pub fn perform_diff(line_diffs: &mut LineDiffs, base: &str, doc: &str)
    requires
        old(line_diffs)@ == Map::<usize, LineDiff>::empty(),
    ensures
        final(line_diffs)@ == line_diffs_of(base@, doc@),
{
    if is_within_budget(base) && is_within_budget(doc) {
        let changes = histogram_line_changes(base, doc);
        add_changes(line_diffs, &changes);
    }
}

/// Where the diff reports a single block that inserts the document's lines
/// `lo..hi`, exactly those lines are marked `Added`, and nothing else.
pub proof fn lemma_insertion_marks_added(base: Seq<char>, doc: Seq<char>, at: u32, lo: u32, hi: u32)
    requires
        within_budget(encode_utf8(base)),
        within_budget(encode_utf8(doc)),
        lo < hi,
        histogram_changes(base, doc) == seq![(at, at, lo, hi)],
    ensures
        line_diffs_of(base, doc) == Map::new(|k: usize| lo <= k < hi, |k: usize| LineDiff::Added),
{
    let cs = seq![(at, at, lo, hi)];
    assert(cs.drop_last() =~= Seq::<Change>::empty());
    assert(changes_map(cs.drop_last()) == Map::<usize, LineDiff>::empty());
    assert(changes_map(cs) == mark_change(Map::<usize, LineDiff>::empty(), cs.last()));
    assert(changes_map(cs) =~= Map::new(|k: usize| lo <= k < hi, |k: usize| LineDiff::Added));
}

/// Where the diff reports a single block that removes base lines and inserts
/// none, the markers are one `Deleted` at the boundary line.
pub proof fn lemma_deletion_marks_boundary(
    base: Seq<char>,
    doc: Seq<char>,
    from: u32,
    to: u32,
    at: u32,
)
    requires
        within_budget(encode_utf8(base)),
        within_budget(encode_utf8(doc)),
        from < to,
        histogram_changes(base, doc) == seq![(from, to, at, at)],
    ensures
        line_diffs_of(base, doc) == map![at as usize => LineDiff::Deleted],
{
    let cs = seq![(from, to, at, at)];
    assert(cs.drop_last() =~= Seq::<Change>::empty());
    assert(changes_map(cs.drop_last()) == Map::<usize, LineDiff>::empty());
    assert(changes_map(cs) == mark_change(Map::<usize, LineDiff>::empty(), cs.last()));
    assert(changes_map(cs) =~= map![at as usize => LineDiff::Deleted]);
}

/// Where the diff reports a single block that replaces one base line by one
/// line of the document, that line alone is marked `Modified`.
pub proof fn lemma_replacement_marks_modified(base: Seq<char>, doc: Seq<char>, old_line: u32, line: u32)
    requires
        within_budget(encode_utf8(base)),
        within_budget(encode_utf8(doc)),
        old_line < u32::MAX,
        line < u32::MAX,
        histogram_changes(base, doc) == seq![(old_line, (old_line + 1) as u32, line, (line + 1) as u32)],
    ensures
        line_diffs_of(base, doc) == map![line as usize => LineDiff::Modified],
{
    let cs = seq![(old_line, (old_line + 1) as u32, line, (line + 1) as u32)];
    assert(cs.drop_last() =~= Seq::<Change>::empty());
    assert(changes_map(cs.drop_last()) == Map::<usize, LineDiff>::empty());
    assert(changes_map(cs) == mark_change(Map::<usize, LineDiff>::empty(), cs.last()));
    assert(changes_map(cs) =~= map![line as usize => LineDiff::Modified]);
}

} // verus!
