//! The analysis pipeline as a state machine. Each step takes the outcome of
//! the last outside call and says which call comes next, or what to answer:
//! label, search, read the files, vote on relevance, refactor.
use vstd::prelude::*;
use crate::analysis::{
    apart, clamp_context, clamped, json_strings, nop_response, nop_text, refactor_prompt,
    refactor_text, relevance_outcome, relevance_prompt, relevance_text, slice_of, slice_reference,
    voted, AnalysisError, AnalysisRequest,
};
use crate::budget::{allocate_budget, budgeted, views, REFERENCE_BUDGET};
use crate::retrieval::DeweyResponseItem;
use crate::text::{push_str, utf8};

verus! {

/// What the pipeline waits for.
#[derive(Debug, Clone, Copy, PartialEq, Eq, Structural)]
pub enum Stage {
    AwaitLabel,
    AwaitResults,
    AwaitFiles,
    AwaitVotes,
    AwaitRefactor,
    Done,
}

/// Which fixed instruction a model call goes with.
#[derive(Debug, Clone, Copy, PartialEq, Eq, Structural)]
pub enum Instruction {
    Label,
    Match,
    Refactor,
}

/// What one analysis has gathered so far.
pub struct AnalysisState {
    pub stage: Stage,
    pub user_query: String,
    pub context: Vec<u8>,
    pub byte_start: usize,
    pub byte_end: usize,
    pub label: String,
    pub subsets: Vec<(u64, u64)>,
    pub references: Vec<Vec<u8>>,
}

/// The outcome of the last outside call.
pub enum AnalysisEvent {
    /// The model's sanitized reply.
    Replied(String),
    /// The search results.
    Found(Vec<DeweyResponseItem>),
    /// Each requested file's contents, in the order asked; `None` where it
    /// could not be read.
    Read(Vec<Option<String>>),
}

/// What to do next.
pub enum AnalysisAction {
    /// Call the model with this instruction and input.
    Ask(Instruction, Vec<u8>),
    /// Search with this query text.
    Search(Vec<u8>),
    /// Read these files.
    ReadFiles(Vec<String>),
    /// Write these bytes to the client; the analysis is over.
    Respond(Vec<u8>),
    /// Drop the connection without an answer; the analysis is over.
    Fail(AnalysisError),
}

/// The references that the files give: each file that was read, sliced by
/// its range where the range lies in it; the others are left out.
pub open spec fn materialized(contents: Seq<Option<String>>, subsets: Seq<(u64, u64)>) -> Seq<
    Seq<u8>,
>
    decreases contents.len(),
{
    if contents.len() == 0 || subsets.len() < contents.len() {
        seq![]
    } else {
        let n = contents.len() - 1;
        materialized(contents.drop_last(), subsets.take(n)) + match contents[n] {
            Some(c) => match slice_of(utf8(c@), subsets[n]) {
                Some(t) => seq![t],
                None => seq![],
            },
            None => seq![],
        }
    }
}

/// Starts an analysis: the model is asked to label the clamped context.
pub fn start_analysis(request: AnalysisRequest) -> (r: (AnalysisState, AnalysisAction))
    ensures
        r.0.stage == Stage::AwaitLabel,
        r.0.context@ == clamped(utf8(request.body@)),
        r.0.user_query@ == request.user_query@,
        r.0.byte_start == request.byte_start,
        r.0.byte_end == request.byte_end,
        r.1 matches AnalysisAction::Ask(i, input) && i == Instruction::Label && input@ == r.0.context@,
{
    let context = clamp_context(&request.body);
    let input = copy_bytes(&context);
    let state = AnalysisState {
        stage: Stage::AwaitLabel,
        user_query: request.user_query,
        context,
        byte_start: request.byte_start,
        byte_end: request.byte_end,
        label: String::new(),
        subsets: Vec::new(),
        references: Vec::new(),
    };
    (state, AnalysisAction::Ask(Instruction::Label, input))
}

fn copy_bytes(b: &Vec<u8>) -> (r: Vec<u8>)
    ensures
        r@ == b@,
{
    let mut r: Vec<u8> = Vec::new();
    crate::text::push_bytes(&mut r, b.as_slice());
    r
}

fn finish(s: AnalysisState, a: AnalysisAction) -> (r: (AnalysisState, AnalysisAction))
    ensures
        r.0.stage == Stage::Done,
        r.1 == a,
        r.0.context@ == s.context@,
        r.0.user_query@ == s.user_query@,
        r.0.byte_start == s.byte_start,
        r.0.byte_end == s.byte_end,
{
    let mut s = s;
    s.stage = Stage::Done;
    (s, a)
}

/// Takes the outcome of the last outside call and gives the next state and
/// action. An event that the stage does not wait for ends the analysis with
/// `OutOfOrder`; a finished analysis stays finished.
pub fn step(s: AnalysisState, e: AnalysisEvent) -> (r: (AnalysisState, AnalysisAction))
    ensures
        r.0.context@ == s.context@,
        r.0.user_query@ == s.user_query@,
        r.0.byte_start == s.byte_start,
        r.0.byte_end == s.byte_end,
        r.0.stage == Stage::Done <==> (r.1 is Respond || r.1 is Fail),
        match (s.stage, e) {
            (Stage::AwaitLabel, AnalysisEvent::Replied(label)) => {
                &&& r.0.stage == Stage::AwaitResults
                &&& r.0.label@ == label@
                &&& r.1 matches AnalysisAction::Search(q) && q@ == s.context@
            },
            (Stage::AwaitResults, AnalysisEvent::Found(results)) => if results@.len() == 0 {
                r.1 matches AnalysisAction::Respond(b) && b@ == nop_text()
            } else {
                let kept = apart(results@, s.byte_start, s.byte_end);
                &&& r.0.stage == Stage::AwaitFiles
                &&& r.0.label == s.label
                &&& r.0.subsets@ == kept.map_values(|c: DeweyResponseItem| c.subset)
                &&& r.1 matches AnalysisAction::ReadFiles(paths) && paths@.map_values(
                    |p: String| p@,
                ) == kept.map_values(|c: DeweyResponseItem| c.filepath@)
            },
            (Stage::AwaitFiles, AnalysisEvent::Read(contents)) => if contents@.len()
                == s.subsets@.len() {
                let refs = materialized(contents@, s.subsets@);
                &&& r.0.stage == Stage::AwaitVotes
                &&& r.0.label == s.label
                &&& views(r.0.references@) == refs
                &&& r.1 matches AnalysisAction::Ask(i, input) && i == Instruction::Match
                    && input@ == relevance_text(s.label@, budgeted(refs, REFERENCE_BUDGET as nat))
            } else {
                r.1 == AnalysisAction::Fail(AnalysisError::OutOfOrder)
            },
            (Stage::AwaitVotes, AnalysisEvent::Replied(reply)) => match json_strings(reply@) {
                None => r.1 == AnalysisAction::Fail(AnalysisError::Decode),
                Some(votes) => {
                    let kept = voted(votes, views(s.references@));
                    if kept.len() == 0 {
                        r.1 matches AnalysisAction::Respond(b) && b@ == nop_text()
                    } else {
                        &&& r.0.stage == Stage::AwaitRefactor
                        &&& r.1 matches AnalysisAction::Ask(i, input) && i == Instruction::Refactor
                            && input@ == refactor_text(s.user_query@, s.context@, kept)
                    }
                },
            },
            (Stage::AwaitRefactor, AnalysisEvent::Replied(reply)) => {
                r.1 matches AnalysisAction::Respond(b) && b@ == utf8(reply@)
            },
            _ => r.1 == AnalysisAction::Fail(AnalysisError::OutOfOrder),
        },
{
    let mut s = s;
    match (s.stage, e) {
        (Stage::AwaitLabel, AnalysisEvent::Replied(label)) => {
            let q = copy_bytes(&s.context);
            s.label = label;
            s.stage = Stage::AwaitResults;
            (s, AnalysisAction::Search(q))
        },
        (Stage::AwaitResults, AnalysisEvent::Found(results)) => {
            match crate::analysis::surviving_candidates(results, s.byte_start, s.byte_end) {
                None => finish(s, AnalysisAction::Respond(nop_response())),
                Some(kept) => {
                    let (paths, subsets) = split_candidates(kept);
                    s.subsets = subsets;
                    s.stage = Stage::AwaitFiles;
                    (s, AnalysisAction::ReadFiles(paths))
                },
            }
        },
        (Stage::AwaitFiles, AnalysisEvent::Read(contents)) => {
            if contents.len() != s.subsets.len() {
                return finish(s, AnalysisAction::Fail(AnalysisError::OutOfOrder));
            }
            let refs = materialize(&contents, &s.subsets);
            let (_, cut) = allocate_budget(&refs, REFERENCE_BUDGET);
            let input = relevance_prompt(&s.label, &cut);
            s.references = refs;
            s.stage = Stage::AwaitVotes;
            (s, AnalysisAction::Ask(Instruction::Match, input))
        },
        (Stage::AwaitVotes, AnalysisEvent::Replied(reply)) => {
            match relevance_outcome(reply.as_str(), &s.references) {
                Err(err) => finish(s, AnalysisAction::Fail(err)),
                Ok(None) => finish(s, AnalysisAction::Respond(nop_response())),
                Ok(Some(kept)) => {
                    let input = refactor_prompt(&s.user_query, &s.context, &kept);
                    s.stage = Stage::AwaitRefactor;
                    (s, AnalysisAction::Ask(Instruction::Refactor, input))
                },
            }
        },
        (Stage::AwaitRefactor, AnalysisEvent::Replied(reply)) => {
            let mut out: Vec<u8> = Vec::new();
            push_str(&mut out, reply.as_str());
            finish(s, AnalysisAction::Respond(out))
        },
        _ => finish(s, AnalysisAction::Fail(AnalysisError::OutOfOrder)),
    }
}

fn split_candidates(items: Vec<DeweyResponseItem>) -> (r: (Vec<String>, Vec<(u64, u64)>))
    ensures
        r.0@.map_values(|p: String| p@) == items@.map_values(|c: DeweyResponseItem| c.filepath@),
        r.1@ == items@.map_values(|c: DeweyResponseItem| c.subset),
{
    let ghost all = items@;
    let mut rest = items;
    let mut paths: Vec<String> = Vec::new();
    let mut subsets: Vec<(u64, u64)> = Vec::new();
    while rest.len() > 0
        invariant
            paths@.len() == subsets@.len(),
            all == all.take(paths@.len() as int) + rest@,
            paths@.map_values(|p: String| p@) == all.take(paths@.len() as int).map_values(
                |c: DeweyResponseItem| c.filepath@,
            ),
            subsets@ == all.take(paths@.len() as int).map_values(|c: DeweyResponseItem| c.subset),
        decreases rest@.len(),
    {
        let ghost n = paths@.len() as int;
        let ghost before = rest@;
        let ghost old_paths = paths@;
        let item = rest.remove(0);
        assert(item == all[n]);
        subsets.push(item.subset);
        paths.push(item.filepath);
        proof {
            assert(paths@ == old_paths.push(all[n].filepath));
            assert(all[n] == before[0]);
            assert(all.take(n + 1) =~= all.take(n).push(all[n]));
            assert(all =~= all.take(n + 1) + rest@);
            let pv = paths@.map_values(|p: String| p@);
            let av = all.take(n + 1).map_values(|c: DeweyResponseItem| c.filepath@);
            let ov = old_paths.map_values(|p: String| p@);
            assert forall|k: int| 0 <= k < n + 1 implies pv[k] == av[k] by {
                if k < n {
                    assert(ov[k] == all.take(n).map_values(|c: DeweyResponseItem| c.filepath@)[k]);
                }
            }
            assert(paths@.map_values(|p: String| p@) =~= all.take(n + 1).map_values(
                |c: DeweyResponseItem| c.filepath@,
            ));
            assert(subsets@ =~= all.take(n + 1).map_values(|c: DeweyResponseItem| c.subset));
        }
    }
    assert(all.take(paths@.len() as int) =~= all);
    (paths, subsets)
}

fn materialize(contents: &Vec<Option<String>>, subsets: &Vec<(u64, u64)>) -> (r: Vec<Vec<u8>>)
    requires
        contents@.len() == subsets@.len(),
    ensures
        views(r@) == materialized(contents@, subsets@),
{
    let mut out: Vec<Vec<u8>> = Vec::new();
    let mut i: usize = 0;
    while i < contents.len()
        invariant
            i <= contents@.len() == subsets@.len(),
            views(out@) == materialized(contents@.take(i as int), subsets@.take(i as int)),
        decreases contents@.len() - i,
    {
        let ghost before = out@;
        match &contents[i] {
            Some(c) => match slice_reference(c, subsets[i]) {
                Some(t) => {
                    out.push(t);
                },
                None => {},
            },
            None => {},
        }
        proof {
            let cs = contents@.take(i + 1);
            let ss = subsets@.take(i + 1);
            assert(cs.drop_last() =~= contents@.take(i as int));
            assert(ss.take(i as int) =~= subsets@.take(i as int));
            assert(cs[i as int] == contents@[i as int]);
            assert(ss[i as int] == subsets@[i as int]);
            assert(views(out@) =~= materialized(cs, ss));
        }
        i += 1;
    }
    assert(contents@.take(i as int) =~= contents@);
    assert(subsets@.take(i as int) =~= subsets@);
    out
}

} // verus!
