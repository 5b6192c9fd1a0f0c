//! The analysis pipeline's decisions: clamp the context, drop results that
//! overlap the edited range, slice references, ask for a relevance vote, keep
//! what was voted for, and lay out the refactor prompt.
use vstd::prelude::*;
use crate::budget::views;
use crate::retrieval::DeweyResponseItem;
use crate::text::{push_bytes, push_range, push_str, utf8};

verus! {

/// How many bytes of the request body the pipeline works on.
pub const CONTEXT_LIMIT: usize = 2048;

/// A request for a refactor suggestion on the range `byte_start..byte_end` of `body`.
pub struct AnalysisRequest {
    pub user_query: String,
    pub body: String,
    pub byte_start: usize,
    pub byte_end: usize,
}

/// Why an analysis ends without a response.
#[derive(Debug, Clone, Copy, PartialEq, Eq, Structural)]
pub enum AnalysisError {
    /// The relevance vote is not a JSON array of strings.
    Decode,
    /// An outcome came that the pipeline was not waiting for.
    OutOfOrder,
}

/// The bytes of `body` the pipeline works on: at most the first `CONTEXT_LIMIT`.
pub open spec fn clamped(body: Seq<u8>) -> Seq<u8> {
    if body.len() <= CONTEXT_LIMIT {
        body
    } else {
        body.take(CONTEXT_LIMIT as int)
    }
}

/// Takes the first `min(CONTEXT_LIMIT, length)` bytes of the body.
pub fn clamp_context(body: &String) -> (r: Vec<u8>)
    ensures
        r@ == clamped(utf8(body@)),
{
    let b = body.as_str().as_bytes();
    let n = if b.len() <= CONTEXT_LIMIT {
        b.len()
    } else {
        CONTEXT_LIMIT
    };
    let mut r: Vec<u8> = Vec::new();
    push_range(&mut r, b, 0, n);
    assert(r@ =~= clamped(utf8(body@)));
    r
}

/// Whether the closed ranges `[s.0, s.1]` and `[start, end]` share a byte position.
pub open spec fn intersects(s: (u64, u64), start: usize, end: usize) -> bool {
    s.0 <= end && start <= s.1
}

/// Whether a search result touches the range being edited.
pub fn overlaps(item: &DeweyResponseItem, start: usize, end: usize) -> (r: bool)
    ensures
        r == intersects(item.subset, start, end),
{
    (item.subset.0 as u128) <= (end as u128) && (start as u128) <= (item.subset.1 as u128)
}

/// The results that do not touch `[start, end]`, in their order.
pub open spec fn apart(s: Seq<DeweyResponseItem>, start: usize, end: usize) -> Seq<DeweyResponseItem>
    decreases s.len(),
{
    if s.len() == 0 {
        seq![]
    } else if intersects(s[0].subset, start, end) {
        apart(s.drop_first(), start, end)
    } else {
        seq![s[0]] + apart(s.drop_first(), start, end)
    }
}

/// What the search results decide: nothing to do where there are none;
/// else the results that do not overlap the edited range, in their order.
pub fn surviving_candidates(results: Vec<DeweyResponseItem>, start: usize, end: usize) -> (r:
    Option<Vec<DeweyResponseItem>>)
    ensures
        results@.len() == 0 <==> r is None,
        r matches Some(v) ==> v@ == apart(results@, start, end),
{
    if results.len() == 0 {
        return None;
    }
    let ghost all = results@;
    let mut rest = results;
    let mut kept: Vec<DeweyResponseItem> = Vec::new();
    while rest.len() > 0
        invariant
            kept@ + apart(rest@, start, end) == apart(all, start, end),
        decreases rest@.len(),
    {
        let ghost before = rest@;
        let ghost earlier = kept@;
        let item = rest.remove(0);
        assert(rest@ =~= before.drop_first());
        if !overlaps(&item, start, end) {
            kept.push(item);
            assert(kept@ + apart(rest@, start, end) =~= earlier + apart(before, start, end));
        }
    }
    Some(kept)
}

/// The reference text that a byte range of a file gives, if the range lies in it.
pub open spec fn slice_of(contents: Seq<u8>, subset: (u64, u64)) -> Option<Seq<u8>> {
    if subset.0 <= subset.1 && subset.1 <= contents.len() {
        Some(contents.subrange(subset.0 as int, subset.1 as int))
    } else {
        None
    }
}

/// Slices the range `subset` out of a file's contents; `None` where the
/// range is reversed or runs past the end.
pub fn slice_reference(contents: &String, subset: (u64, u64)) -> (r: Option<Vec<u8>>)
    ensures
        match r {
            Some(v) => slice_of(utf8(contents@), subset) == Some(v@),
            None => slice_of(utf8(contents@), subset) is None,
        },
{
    let b = contents.as_str().as_bytes();
    if subset.0 <= subset.1 && (subset.1 as u128) <= (b.len() as u128) {
        let mut r: Vec<u8> = Vec::new();
        push_range(&mut r, b, subset.0 as usize, subset.1 as usize);
        Some(r)
    } else {
        None
    }
}

/// The relevance prompt: the descriptor, then one code block per reference.
pub open spec fn relevance_text(label: Seq<char>, refs: Seq<Seq<u8>>) -> Seq<u8>
    decreases refs.len(),
{
    if refs.len() == 0 {
        utf8("<descriptor>"@) + utf8(label) + utf8("</descriptor>"@)
    } else {
        relevance_text(label, refs.drop_last()) + utf8("\n<code>"@) + refs.last() + utf8(
            "</code>"@,
        )
    }
}

/// Builds the relevance prompt from the label and the budgeted references.
pub fn relevance_prompt(label: &String, refs: &Vec<Vec<u8>>) -> (r: Vec<u8>)
    ensures
        r@ == relevance_text(label@, views(refs@)),
{
    let mut out: Vec<u8> = Vec::new();
    push_str(&mut out, "<descriptor>");
    push_str(&mut out, label.as_str());
    push_str(&mut out, "</descriptor>");
    let mut i: usize = 0;
    while i < refs.len()
        invariant
            i <= refs@.len(),
            out@ == relevance_text(label@, views(refs@).take(i as int)),
        decreases refs@.len() - i,
    {
        push_str(&mut out, "\n<code>");
        push_bytes(&mut out, refs[i].as_slice());
        push_str(&mut out, "</code>");
        i += 1;
        proof {
            let t = views(refs@).take(i as int);
            assert(t.drop_last() =~= views(refs@).take(i - 1));
            assert(t.last() == refs@[i - 1]@);
        }
    }
    assert(views(refs@).take(i as int) =~= views(refs@));
    out
}

/// The strings that serde_json reads from a text as a JSON array of strings,
/// or nothing where the text is not one.
pub uninterp spec fn json_strings(text: Seq<char>) -> Option<Seq<Seq<char>>>;

#[verifier::external_type_specification]
#[verifier::external_body]
pub struct ExJsonError(serde_json::Error);

/// Relies on serde_json::from_str::<Vec<String>>: it reads a JSON array of
/// strings, and its outcome depends on the text alone.
#[verifier::external_body]
fn parse_string_array(text: &str) -> (r: Result<Vec<String>, serde_json::Error>)
    ensures
        match r {
            Ok(v) => json_strings(text@) == Some(v@.map_values(|s: String| s@)),
            Err(_) => json_strings(text@) is None,
        },
{
    serde_json::from_str::<Vec<String>>(text)
}

/// The references voted for: votes and references are paired by position,
/// as far as the shorter goes, and a reference stays where its vote is `yes`.
pub open spec fn voted(votes: Seq<Seq<char>>, refs: Seq<Seq<u8>>) -> Seq<Seq<u8>>
    decreases votes.len() + refs.len(),
{
    if votes.len() == 0 || refs.len() == 0 {
        seq![]
    } else if votes.len() > refs.len() {
        voted(votes.take(refs.len() as int), refs)
    } else if refs.len() > votes.len() {
        voted(votes, refs.take(votes.len() as int))
    } else {
        voted(votes.drop_last(), refs.drop_last()) + (if votes.last() == "yes"@ {
            seq![refs.last()]
        } else {
            seq![]
        })
    }
}

proof fn lemma_voted_step(votes: Seq<Seq<char>>, refs: Seq<Seq<u8>>, i: int)
    requires
        0 <= i < votes.len(),
        i < refs.len(),
    ensures
        voted(votes.take(i + 1), refs.take(i + 1)) == voted(votes.take(i), refs.take(i)) + (if votes[i]
            == "yes"@ {
            seq![refs[i]]
        } else {
            seq![]
        }),
{
    assert(votes.take(i + 1).drop_last() =~= votes.take(i));
    assert(refs.take(i + 1).drop_last() =~= refs.take(i));
}

proof fn lemma_voted_full(votes: Seq<Seq<char>>, refs: Seq<Seq<u8>>)
    ensures
        voted(votes, refs) == voted(
            votes.take(min_len(votes, refs)),
            refs.take(min_len(votes, refs)),
        ),
{
    let n = min_len(votes, refs);
    if votes.len() == 0 || refs.len() == 0 {
        assert(votes.take(n).len() == 0);
    } else if votes.len() > refs.len() {
        assert(refs.take(n) =~= refs);
    } else if refs.len() > votes.len() {
        assert(votes.take(n) =~= votes);
    } else {
        assert(votes.take(n) =~= votes);
        assert(refs.take(n) =~= refs);
    }
}

spec fn min_len(votes: Seq<Seq<char>>, refs: Seq<Seq<u8>>) -> int {
    if votes.len() <= refs.len() {
        votes.len() as int
    } else {
        refs.len() as int
    }
}

/// Keeps the references whose vote, at the same position, is `yes`.
pub fn keep_voted(votes: &Vec<String>, refs: &Vec<Vec<u8>>) -> (r: Vec<Vec<u8>>)
    ensures
        views(r@) == voted(votes@.map_values(|s: String| s@), views(refs@)),
{
    let ghost vs = votes@.map_values(|s: String| s@);
    let ghost rs = views(refs@);
    let n = if votes.len() <= refs.len() {
        votes.len()
    } else {
        refs.len()
    };
    let yes = "yes".to_owned();
    let mut out: Vec<Vec<u8>> = Vec::new();
    let mut i: usize = 0;
    while i < n
        invariant
            i <= n,
            n as int == min_len(vs, rs),
            vs == votes@.map_values(|s: String| s@),
            rs == views(refs@),
            yes@ == "yes"@,
            views(out@) == voted(vs.take(i as int), rs.take(i as int)),
        decreases n - i,
    {
        proof {
            lemma_voted_step(vs, rs, i as int);
        }
        let ghost before = out@;
        if votes[i] == yes {
            let mut piece: Vec<u8> = Vec::new();
            push_bytes(&mut piece, refs[i].as_slice());
            out.push(piece);
            assert(views(out@) =~= views(before) + seq![rs[i as int]]);
        } else {
            assert(views(out@) =~= views(before) + Seq::<Seq<u8>>::empty());
        }
        i += 1;
    }
    proof {
        lemma_voted_full(vs, rs);
    }
    out
}

/// What a relevance reply decides: a `Decode` error where it is not a JSON
/// array of strings; nothing to do where no reference is voted for; else the
/// references voted for, in their order.
pub fn relevance_outcome(reply: &str, refs: &Vec<Vec<u8>>) -> (r: Result<
    Option<Vec<Vec<u8>>>,
    AnalysisError,
>)
    ensures
        match json_strings(reply@) {
            None => r == Err::<Option<Vec<Vec<u8>>>, AnalysisError>(AnalysisError::Decode),
            Some(votes) => match r {
                Ok(None) => voted(votes, views(refs@)).len() == 0,
                Ok(Some(kept)) => voted(votes, views(refs@)).len() > 0 && views(kept@) == voted(
                    votes,
                    views(refs@),
                ),
                Err(_) => false,
            },
        },
{
    match parse_string_array(reply) {
        Err(_) => Err(AnalysisError::Decode),
        Ok(votes) => {
            let kept = keep_voted(&votes, refs);
            if kept.len() == 0 {
                Ok(None)
            } else {
                Ok(Some(kept))
            }
        },
    }
}

/// Where every vote is `no`, no reference is kept, whatever the references.
pub proof fn lemma_all_no_keeps_nothing(votes: Seq<Seq<char>>, refs: Seq<Seq<u8>>)
    requires
        forall|i: int| 0 <= i < votes.len() ==> #[trigger] votes[i] == "no"@,
    ensures
        voted(votes, refs).len() == 0,
    decreases votes.len(), refs.len(),
{
    if votes.len() == 0 || refs.len() == 0 {
    } else if votes.len() > refs.len() {
        lemma_all_no_keeps_nothing(votes.take(refs.len() as int), refs);
    } else if refs.len() > votes.len() {
        lemma_all_no_keeps_nothing(votes, refs.take(votes.len() as int));
    } else {
        lemma_all_no_keeps_nothing(votes.drop_last(), refs.drop_last());
        assert(votes.last() == "no"@);
        assert("no"@ != "yes"@) by {
            reveal_strlit("no");
            reveal_strlit("yes");
            assert("no"@.len() != "yes"@.len());
        }
    }
}

/// A search result whose range is exactly the edited range is never kept.
pub proof fn lemma_self_range_excluded(results: Seq<DeweyResponseItem>, start: usize, end: usize)
    requires
        start <= end,
    ensures
        forall|i: int|
            0 <= i < apart(results, start, end).len() ==> #[trigger] apart(results, start, end)[i].subset
                != (start as u64, end as u64),
    decreases results.len(),
{
    if results.len() > 0 {
        let rest = results.drop_first();
        lemma_self_range_excluded(rest, start, end);
        let a = apart(results, start, end);
        if !intersects(results[0].subset, start, end) {
            assert(results[0].subset != (start as u64, end as u64));
            assert forall|i: int| 0 <= i < a.len() implies #[trigger] a[i].subset != (
                start as u64,
                end as u64,
            ) by {
                if i > 0 {
                    assert(a[i] == apart(rest, start, end)[i - 1]);
                }
            }
        }
    }
}

/// The refactor prompt: the query block where there is a query, the input
/// block, then one reference block per kept reference.
pub open spec fn refactor_text(query: Seq<char>, context: Seq<u8>, kept: Seq<Seq<u8>>) -> Seq<u8>
    decreases kept.len(),
{
    if kept.len() == 0 {
        (if query.len() > 0 {
            utf8("<query>"@) + utf8(query) + utf8("</query>\n"@)
        } else {
            seq![]
        }) + utf8("<input>"@) + context + utf8("</input>"@)
    } else {
        refactor_text(query, context, kept.drop_last()) + utf8("\n<reference>"@) + kept.last()
            + utf8("</reference>"@)
    }
}

/// Builds the refactor prompt from the user's query, the clamped context and
/// the kept references.
pub fn refactor_prompt(query: &String, context: &Vec<u8>, kept: &Vec<Vec<u8>>) -> (r: Vec<u8>)
    ensures
        r@ == refactor_text(query@, context@, views(kept@)),
{
    let mut out: Vec<u8> = Vec::new();
    if !query.as_str().is_empty() {
        push_str(&mut out, "<query>");
        push_str(&mut out, query.as_str());
        push_str(&mut out, "</query>\n");
    }
    push_str(&mut out, "<input>");
    push_bytes(&mut out, context.as_slice());
    push_str(&mut out, "</input>");
    let mut i: usize = 0;
    while i < kept.len()
        invariant
            i <= kept@.len(),
            out@ == refactor_text(query@, context@, views(kept@).take(i as int)),
        decreases kept@.len() - i,
    {
        push_str(&mut out, "\n<reference>");
        push_bytes(&mut out, kept[i].as_slice());
        push_str(&mut out, "</reference>");
        i += 1;
        proof {
            let t = views(kept@).take(i as int);
            assert(t.drop_last() =~= views(kept@).take(i - 1));
            assert(t.last() == kept@[i - 1]@);
        }
    }
    assert(views(kept@).take(i as int) =~= views(kept@));
    out
}

/// The response that says there is nothing to do.
pub open spec fn nop_text() -> Seq<u8> {
    utf8("<NOP>"@)
}

/// Writes the `<NOP>` marker.
pub fn nop_response() -> (r: Vec<u8>)
    ensures
        r@ == nop_text(),
{
    let mut out: Vec<u8> = Vec::new();
    push_str(&mut out, "<NOP>");
    out
}

} // verus!
