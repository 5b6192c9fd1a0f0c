use bernard::analysis::{AnalysisError, AnalysisRequest};
use bernard::pipeline::{
    start_analysis, step, AnalysisAction, AnalysisEvent, AnalysisState, Instruction, Stage,
};
use bernard::retrieval::DeweyResponseItem;

fn text(b: &[u8]) -> String {
    String::from_utf8(b.to_vec()).unwrap()
}

fn started(query: &str) -> AnalysisState {
    let (state, action) = start_analysis(AnalysisRequest {
        user_query: query.to_string(),
        body: "fn f() {}".to_string(),
        byte_start: 10,
        byte_end: 20,
    });
    match action {
        AnalysisAction::Ask(Instruction::Label, input) => assert_eq!(text(&input), "fn f() {}"),
        _ => panic!("expected a label request"),
    }
    assert_eq!(state.stage, Stage::AwaitLabel);
    let (state, action) = step(state, AnalysisEvent::Replied("// a function\n".to_string()));
    match action {
        AnalysisAction::Search(q) => assert_eq!(text(&q), "fn f() {}"),
        _ => panic!("expected a search"),
    }
    state
}

fn item(path: &str, start: u64, end: u64) -> DeweyResponseItem {
    DeweyResponseItem { filepath: path.to_string(), subset: (start, end) }
}

fn through_votes(query: &str) -> AnalysisState {
    let state = started(query);
    let (state, action) = step(
        state,
        AnalysisEvent::Found(vec![item("same.rs", 10, 20), item("a.rs", 0, 4), item("b.rs", 3, 6)]),
    );
    match action {
        AnalysisAction::ReadFiles(paths) => assert_eq!(paths, vec!["a.rs", "b.rs"]),
        _ => panic!("expected file reads"),
    }
    let (state, action) = step(
        state,
        AnalysisEvent::Read(vec![Some("abcdefgh".to_string()), None]),
    );
    match action {
        AnalysisAction::Ask(Instruction::Match, input) => assert_eq!(
            text(&input),
            "<descriptor>// a function\n</descriptor>\n<code>abcd</code>"
        ),
        _ => panic!("expected a relevance vote"),
    }
    state
}

#[test]
fn empty_results_answer_nop_and_stop() {
    let (state, action) = step(started(""), AnalysisEvent::Found(vec![]));
    match action {
        AnalysisAction::Respond(b) => assert_eq!(b, b"<NOP>".to_vec()),
        _ => panic!("expected <NOP>"),
    }
    assert_eq!(state.stage, Stage::Done);
    let (_, action) = step(state, AnalysisEvent::Replied("[\"yes\"]".to_string()));
    assert!(matches!(action, AnalysisAction::Fail(AnalysisError::OutOfOrder)));
}

#[test]
fn all_no_votes_answer_nop() {
    let (state, action) = step(through_votes(""), AnalysisEvent::Replied("[\"no\"]\n".to_string()));
    match action {
        AnalysisAction::Respond(b) => assert_eq!(b, b"<NOP>".to_vec()),
        _ => panic!("expected <NOP>"),
    }
    assert_eq!(state.stage, Stage::Done);
}

#[test]
fn yes_vote_leads_to_refactor_and_answer() {
    let (state, action) =
        step(through_votes("shorter"), AnalysisEvent::Replied("[\"yes\"]".to_string()));
    match action {
        AnalysisAction::Ask(Instruction::Refactor, input) => assert_eq!(
            text(&input),
            "<query>shorter</query>\n<input>fn f() {}</input>\n<reference>abcd</reference>"
        ),
        _ => panic!("expected a refactor request"),
    }
    let (state, action) = step(state, AnalysisEvent::Replied("// done\\nfn f(){}\n".to_string()));
    match action {
        AnalysisAction::Respond(b) => assert_eq!(text(&b), "// done\\nfn f(){}\n"),
        _ => panic!("expected the refactor"),
    }
    assert_eq!(state.stage, Stage::Done);
}

#[test]
fn malformed_vote_fails_the_analysis() {
    let (_, action) = step(through_votes(""), AnalysisEvent::Replied("maybe".to_string()));
    assert!(matches!(action, AnalysisAction::Fail(AnalysisError::Decode)));
}

#[test]
fn unexpected_event_fails() {
    let (_, action) = step(started(""), AnalysisEvent::Read(vec![]));
    assert!(matches!(action, AnalysisAction::Fail(AnalysisError::OutOfOrder)));
}
