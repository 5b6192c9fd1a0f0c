use bernard::analysis::{
    clamp_context, keep_voted, nop_response, overlaps, refactor_prompt, relevance_outcome,
    relevance_prompt, slice_reference, surviving_candidates, AnalysisError, CONTEXT_LIMIT,
};
use bernard::budget::{allocate_budget, REFERENCE_BUDGET};
use bernard::codec::{decode_frame, encode_frame, frame_length, FrameError};
use bernard::config::{get_local_dir, home_dir_from};
use bernard::context::{
    completion_prompt, render_cursor, render_diffs, Cursor, Diff, DiffType, FileChange,
    SuggestionRequest,
};
use bernard::retrieval::{retrieval_query, DeweyResponseItem, RETRIEVAL_K};
use bernard::sanitize::sanitize;

fn diff(kind: DiffType, line: usize, delta: &str) -> Diff {
    Diff { diff_type: kind, line, delta: delta.to_string() }
}

fn item(path: &str, start: u64, end: u64) -> DeweyResponseItem {
    DeweyResponseItem { filepath: path.to_string(), subset: (start, end) }
}

fn text(b: &[u8]) -> String {
    String::from_utf8(b.to_vec()).unwrap()
}

#[test]
fn gap_marker_between_line_two_and_five() {
    let changes = vec![FileChange {
        filename: "a.rs".to_string(),
        diffs: vec![
            diff(DiffType::Addition, 1, "x"),
            diff(DiffType::Deletion, 2, "y"),
            diff(DiffType::Addition, 5, "z"),
        ],
    }];
    assert_eq!(text(&render_diffs(&changes)), "@@@ a.rs\n1 + x\n2 - y\n...\n5 + z\n");
}

#[test]
fn one_header_per_file_change_in_order() {
    let changes = vec![
        FileChange { filename: "b.rs".to_string(), diffs: vec![diff(DiffType::Addition, 3, "q")] },
        FileChange { filename: "a.rs".to_string(), diffs: vec![] },
        FileChange { filename: "c.rs".to_string(), diffs: vec![diff(DiffType::Deletion, 10, "r")] },
    ];
    assert_eq!(
        text(&render_diffs(&changes)),
        "@@@ b.rs\n3 + q\n@@@ a.rs\n@@@ c.rs\n10 - r\n"
    );
}

#[test]
fn no_gap_for_descending_or_adjacent_lines() {
    let changes = vec![FileChange {
        filename: "f".to_string(),
        diffs: vec![diff(DiffType::Addition, 7, "a"), diff(DiffType::Addition, 3, "b")],
    }];
    assert_eq!(text(&render_diffs(&changes)), "@@@ f\n7 + a\n3 + b\n");
    assert_eq!(text(&render_diffs(&vec![])), "");
}

fn request(line: u32, column: u32) -> SuggestionRequest {
    SuggestionRequest {
        changes: vec![FileChange {
            filename: "m.py".to_string(),
            diffs: vec![diff(DiffType::Addition, 4, "print(1)")],
        }],
        cursor: Cursor { line, column, flat: 0, filename: "m.py".to_string() },
        cursor_context: "12:3 foo".to_string(),
    }
}

#[test]
fn cursor_indicator_width() {
    assert_eq!(text(&render_cursor(&request(12, 3))), "12:3 foo\n------^");
    assert_eq!(text(&render_cursor(&request(0, 0))), "12:3 foo\n--^");
}

#[test]
fn completion_prompt_layout() {
    assert_eq!(
        text(&completion_prompt(&request(7, 1))),
        "# Diff\n@@@ m.py\n4 + print(1)\n\n#########\n# LastInput\n12:3 foo\n---^"
    );
}

#[test]
fn budget_two_large_references() {
    let refs = vec![vec![b'a'; 4000], vec![b'b'; 4000]];
    let (overflow, out) = allocate_budget(&refs, REFERENCE_BUDGET);
    assert_eq!(overflow, 1856u64);
    assert_eq!(out.len(), 2);
    assert_eq!(out[0].len(), 2144);
    assert_eq!(out[1].len(), 2144);
    assert_eq!(out[1][0], b'b');
}

#[test]
fn budget_under_cap_keeps_everything() {
    let refs = vec![b"abc".to_vec(), b"de".to_vec()];
    let (overflow, out) = allocate_budget(&refs, REFERENCE_BUDGET);
    assert_eq!(overflow, 0);
    assert_eq!(out, refs);
}

#[test]
fn budget_cut_empties_short_references() {
    let refs = vec![vec![b'x'; 6000], b"short".to_vec(), vec![b'y'; 200]];
    let (overflow, out) = allocate_budget(&refs, REFERENCE_BUDGET);
    assert_eq!(overflow, 61);
    assert_eq!(out[0].len(), 5939);
    assert!(out[1].is_empty());
    assert_eq!(out[2].len(), 139);
}

#[test]
fn self_range_is_excluded() {
    assert!(overlaps(&item("f", 10, 20), 10, 20));
    let kept = surviving_candidates(
        vec![item("a", 10, 20), item("b", 30, 40), item("c", 0, 5), item("d", 12, 15)],
        10,
        20,
    )
    .unwrap();
    let names: Vec<&str> = kept.iter().map(|i| i.filepath.as_str()).collect();
    assert_eq!(names, vec!["b", "c"]);
}

#[test]
fn empty_retrieval_means_nop() {
    assert!(surviving_candidates(vec![], 0, 0).is_none());
    assert_eq!(nop_response(), b"<NOP>".to_vec());
}

#[test]
fn all_no_votes_mean_nop() {
    let refs = vec![b"one".to_vec(), b"two".to_vec()];
    assert_eq!(relevance_outcome("[\"no\",\"no\"]\n", &refs), Ok(None));
}

#[test]
fn yes_votes_keep_references_in_order() {
    let refs = vec![b"one".to_vec(), b"two".to_vec(), b"three".to_vec()];
    assert_eq!(
        relevance_outcome("[\"yes\",\"no\",\"yes\"]", &refs),
        Ok(Some(vec![b"one".to_vec(), b"three".to_vec()]))
    );
    let votes = vec!["no".to_string(), "yes".to_string(), "yes".to_string(), "yes".to_string()];
    assert_eq!(keep_voted(&votes, &refs[..2].to_vec()), vec![b"two".to_vec()]);
}

#[test]
fn malformed_vote_is_decode_error() {
    let refs = vec![b"one".to_vec()];
    assert_eq!(relevance_outcome("yes, all of them", &refs), Err(AnalysisError::Decode));
    assert_eq!(relevance_outcome("[1, 2]", &refs), Err(AnalysisError::Decode));
}

#[test]
fn relevance_prompt_layout() {
    let refs = vec![b"fn a() {}".to_vec(), vec![]];
    assert_eq!(
        text(&relevance_prompt(&"// adds".to_string(), &refs)),
        "<descriptor>// adds</descriptor>\n<code>fn a() {}</code>\n<code></code>"
    );
}

#[test]
fn refactor_prompt_with_and_without_query() {
    let kept = vec![b"r1".to_vec(), b"r2".to_vec()];
    assert_eq!(
        text(&refactor_prompt(&"make it fast".to_string(), &b"code".to_vec(), &kept)),
        "<query>make it fast</query>\n<input>code</input>\n<reference>r1</reference>\n<reference>r2</reference>"
    );
    assert_eq!(
        text(&refactor_prompt(&String::new(), &b"code".to_vec(), &vec![])),
        "<input>code</input>"
    );
}

#[test]
fn clamp_keeps_first_bytes() {
    let long = "x".repeat(3000);
    assert_eq!(clamp_context(&long).len(), CONTEXT_LIMIT);
    assert_eq!(clamp_context(&"short".to_string()), b"short".to_vec());
}

#[test]
fn slice_reference_in_and_out_of_range() {
    let contents = "fn main() {}".to_string();
    assert_eq!(slice_reference(&contents, (3, 7)), Some(b"main".to_vec()));
    assert_eq!(slice_reference(&contents, (3, 99)), None);
    assert_eq!(slice_reference(&contents, (7, 3)), None);
}

#[test]
fn frame_round_trip() {
    let payload = b"{\"method\":\"Completion\"}".to_vec();
    let frame = encode_frame(&payload);
    assert_eq!(&frame[..4], &[0, 0, 0, 23]);
    assert_eq!(frame_length(&frame[..4]), 23);
    assert_eq!(decode_frame(&frame), Ok(payload));
    let empty = encode_frame(&[]);
    assert_eq!(empty, vec![0, 0, 0, 0]);
    assert_eq!(decode_frame(&empty), Ok(vec![]));
}

#[test]
fn short_frame_is_framing_error() {
    assert_eq!(decode_frame(&[0, 0]), Err(FrameError::Framing));
    assert_eq!(decode_frame(&[0, 0, 1, 0, 1, 2]), Err(FrameError::Framing));
    assert_eq!(frame_length(&[1, 2, 3, 4]), 0x01020304);
}

#[test]
fn sanitize_escapes_and_trims() {
    assert_eq!(sanitize("a\nb\tc\r"), "a\\nb\\tc\n");
    assert_eq!(sanitize("a\nb\tc\rd"), "a\\nb\\tc\\rd\n");
    assert_eq!(sanitize("  \tx y \n\n "), "\\tx y\n");
    assert_eq!(sanitize(" \u{a0}\n"), "\n");
    assert_eq!(sanitize(""), "\n");
}

#[test]
fn home_directory_fallbacks() {
    let s = |v: &str| Some(v.to_string());
    assert_eq!(home_dir_from(s("/home/u"), s("C:\\u"), None, None), s("/home/u"));
    assert_eq!(home_dir_from(None, s("C:\\u"), None, None), s("C:\\u"));
    assert_eq!(home_dir_from(None, None, s("C:"), s("\\Users\\u")), s("C:\\Users\\u"));
    assert_eq!(home_dir_from(None, None, s("C:"), None), None);
}

#[test]
fn local_dir_joins_home() {
    assert_eq!(get_local_dir("/home/u"), "/home/u/.local/bernard");
    assert_eq!(get_local_dir("/home/u/"), "/home/u/.local/bernard");
    assert_eq!(get_local_dir(""), ".local/bernard");
}

#[test]
fn retrieval_query_shape() {
    let q = retrieval_query("ctx".to_string());
    assert_eq!(q.k, RETRIEVAL_K);
    assert_eq!(q.k, 10);
    assert_eq!(q.query, "ctx");
    assert!(q.filters.is_empty());
}
