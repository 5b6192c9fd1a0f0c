//! The completion prompt: file changes rendered as diff blocks, then the text
//! around the cursor with an indicator line under the cursor column.
use vstd::prelude::*;
use crate::text::{dashes, dec, push_bytes, push_dashes, push_decimal, push_str, utf8, decimal_width};

verus! {

/// Whether a line was added or removed.
#[derive(Debug, Clone, Copy, PartialEq, Eq, Structural)]
pub enum DiffType {
    Addition,
    Deletion,
}

/// One changed line of a file.
pub struct Diff {
    pub diff_type: DiffType,
    pub line: usize,
    pub delta: String,
}

/// The changes of one file, in ascending line order.
pub struct FileChange {
    pub filename: String,
    pub diffs: Vec<Diff>,
}

/// Where the editing caret stands.
pub struct Cursor {
    pub line: u32,
    pub column: u32,
    pub flat: u32,
    pub filename: String,
}

/// What an inline completion is asked from.
pub struct SuggestionRequest {
    pub changes: Vec<FileChange>,
    pub cursor: Cursor,
    pub cursor_context: String,
}

/// The rendered line of one diff: `<line> + <delta>` or `<line> - <delta>`.
pub open spec fn diff_entry(d: Diff) -> Seq<u8> {
    dec(d.line as nat) + utf8(
        if d.diff_type == DiffType::Addition {
            " + "@
        } else {
            " - "@
        },
    ) + utf8(d.delta@) + utf8("\n"@)
}

/// Whether a gap marker goes before the `i`-th diff: its line exceeds the
/// previous diff's line by more than one.
pub open spec fn gap_before(ds: Seq<Diff>, i: int) -> bool {
    i > 0 && ds[i].line > ds[i - 1].line + 1
}

/// The rendered diffs of one file, each preceded by `...` where a gap lies.
pub open spec fn diff_lines(ds: Seq<Diff>) -> Seq<u8>
    decreases ds.len(),
{
    if ds.len() == 0 {
        seq![]
    } else {
        diff_lines(ds.drop_last()) + (if gap_before(ds, ds.len() - 1) {
            utf8("...\n"@)
        } else {
            seq![]
        }) + diff_entry(ds.last())
    }
}

/// The header line of one file change.
pub open spec fn file_header(f: FileChange) -> Seq<u8> {
    utf8("@@@ "@) + utf8(f.filename@) + utf8("\n"@)
}

/// The block of one file change: its header, then its diffs.
pub open spec fn file_block(f: FileChange) -> Seq<u8> {
    file_header(f) + diff_lines(f.diffs@)
}

/// The blocks of all file changes, in order.
pub open spec fn diff_text(cs: Seq<FileChange>) -> Seq<u8>
    decreases cs.len(),
{
    if cs.len() == 0 {
        seq![]
    } else {
        diff_text(cs.drop_last()) + file_block(cs.last())
    }
}

/// The indicator line: one dash per digit of the line number, one more, one
/// per column, then a caret.
pub open spec fn indicator(c: Cursor) -> Seq<u8> {
    dashes(dec(c.line as nat).len() + 1 + c.column as nat) + seq![94u8]
}

/// The cursor block: the text around the cursor, then the indicator line.
pub open spec fn cursor_block(r: SuggestionRequest) -> Seq<u8> {
    utf8(r.cursor_context@) + utf8("\n"@) + indicator(r.cursor)
}

/// The whole completion prompt.
pub open spec fn completion_text(r: SuggestionRequest) -> Seq<u8> {
    utf8("# Diff\n"@) + diff_text(r.changes@) + utf8("\n#########\n# LastInput\n"@)
        + cursor_block(r)
}

/// Every file change's block appears once, in input order: the text is what
/// comes before the `i`-th change, then its block, then what comes after.
pub proof fn lemma_blocks_in_order(cs: Seq<FileChange>, i: int)
    requires
        0 <= i < cs.len(),
    ensures
        diff_text(cs) == diff_text(cs.take(i)) + file_block(cs[i]) + diff_text(
            cs.skip(i + 1),
        ),
    decreases cs.len(),
{
    if i == cs.len() - 1 {
        assert(cs.take(i) =~= cs.drop_last());
        assert(cs.skip(i + 1) =~= Seq::<FileChange>::empty());
    } else {
        lemma_blocks_in_order(cs.drop_last(), i);
        assert(cs.drop_last().take(i) =~= cs.take(i));
        assert(cs.skip(i + 1).drop_last() =~= cs.drop_last().skip(i + 1));
        assert(cs.skip(i + 1).last() == cs.last());
    }
}

fn has_gap(ds: &Vec<Diff>, i: usize) -> (r: bool)
    requires
        i < ds@.len(),
    ensures
        r == gap_before(ds@, i as int),
{
    i > 0 && ds[i].line > ds[i - 1].line && ds[i].line - ds[i - 1].line > 1
}

fn push_diff_entry(out: &mut Vec<u8>, d: &Diff)
    ensures
        final(out)@ == old(out)@ + diff_entry(*d),
{
    let ghost start = out@;
    push_decimal(out, d.line);
    match d.diff_type {
        DiffType::Addition => push_str(out, " + "),
        DiffType::Deletion => push_str(out, " - "),
    }
    push_str(out, d.delta.as_str());
    push_str(out, "\n");
    assert(out@ =~= start + diff_entry(*d));
}

/// Appends the rendered diffs of one file.
fn push_diff_lines(out: &mut Vec<u8>, ds: &Vec<Diff>)
    ensures
        final(out)@ == old(out)@ + diff_lines(ds@),
{
    let ghost start = out@;
    let mut i: usize = 0;
    while i < ds.len()
        invariant
            i <= ds@.len(),
            out@ == start + diff_lines(ds@.take(i as int)),
        decreases ds@.len() - i,
    {
        proof {
            let t = ds@.take(i + 1);
            assert(t.drop_last() =~= ds@.take(i as int));
            assert(gap_before(t, i as int) == gap_before(ds@, i as int));
        }
        if has_gap(ds, i) {
            push_str(out, "...\n");
        }
        push_diff_entry(out, &ds[i]);
        i += 1;
        proof {
            let t = ds@.take(i as int);
            assert(t.last() == ds@[i - 1]);
            assert(out@ =~= start + diff_lines(t));
        }
    }
    assert(ds@.take(i as int) =~= ds@);
}

/// Renders every file change as a `@@@ <filename>` header followed by its
/// diffs, with a `...` line before each diff that leaves lines out.
pub fn render_diffs(changes: &Vec<FileChange>) -> (r: Vec<u8>)
    ensures
        r@ == diff_text(changes@),
{
    let mut out: Vec<u8> = Vec::new();
    let mut i: usize = 0;
    while i < changes.len()
        invariant
            i <= changes@.len(),
            out@ == diff_text(changes@.take(i as int)),
        decreases changes@.len() - i,
    {
        let f = &changes[i];
        push_str(&mut out, "@@@ ");
        push_str(&mut out, f.filename.as_str());
        push_str(&mut out, "\n");
        push_diff_lines(&mut out, &f.diffs);
        i += 1;
        proof {
            let t = changes@.take(i as int);
            assert(t.drop_last() =~= changes@.take(i - 1));
            assert(t.last() == changes@[i - 1]);
            assert(out@ =~= diff_text(t));
        }
    }
    assert(changes@.take(i as int) =~= changes@);
    out
}

/// Renders the text around the cursor and, under it, a line of dashes ending
/// in a caret below the cursor column.
pub fn render_cursor(request: &SuggestionRequest) -> (r: Vec<u8>)
    ensures
        r@ == cursor_block(*request),
{
    let mut out: Vec<u8> = Vec::new();
    push_str(&mut out, request.cursor_context.as_str());
    push_str(&mut out, "\n");
    let w = decimal_width(request.cursor.line as usize);
    push_dashes(&mut out, w + 1);
    push_dashes(&mut out, request.cursor.column as usize);
    out.push(94u8);
    assert(dashes((w + 1) as nat) + dashes(request.cursor.column as nat) =~= dashes(
        (w + 1 + request.cursor.column) as nat,
    ));
    assert(out@ =~= cursor_block(*request));
    out
}

/// Builds the completion prompt: `# Diff`, the diff blocks, a separator,
/// `# LastInput`, and the cursor block.
pub fn completion_prompt(request: &SuggestionRequest) -> (r: Vec<u8>)
    ensures
        r@ == completion_text(*request),
{
    let mut out: Vec<u8> = Vec::new();
    push_str(&mut out, "# Diff\n");
    let diffs = render_diffs(&request.changes);
    push_bytes(&mut out, diffs.as_slice());
    push_str(&mut out, "\n#########\n# LastInput\n");
    let cursor = render_cursor(request);
    push_bytes(&mut out, cursor.as_slice());
    assert(out@ =~= completion_text(*request));
    out
}

} // verus!
