use voicepeak_batch::chunk::{get_total_job_amount, plan_line, ChunkDest, MAX_CHUNK_CHARS};

const PERIOD: &str = "\u{3002}";
const HALF_PERIOD: &str = "\u{ff61}";
const COMMA: &str = "\u{3001}";
const HALF_COMMA: &str = "\u{ff64}";
const KANA: &str = "\u{3042}";

#[test]
fn short_line_is_one_job() {
    assert_eq!(get_total_job_amount(String::from("hello")).unwrap(), 1);
    assert_eq!(get_total_job_amount(String::new()).unwrap(), 1);
    assert_eq!(get_total_job_amount("x".repeat(140)).unwrap(), 1);
}

#[test]
fn short_line_is_one_chunk() {
    let plan = plan_line(&String::from("hello")).unwrap();
    assert_eq!(plan.len(), 1);
    assert_eq!(plan[0].text, "hello");
    assert_eq!(plan[0].dest, ChunkDest::Whole);
}

#[test]
fn short_line_with_separators_is_still_one_job() {
    // Separators only matter once the line itself is over-long.
    let line = format!("A{}B{}", PERIOD, PERIOD);
    assert_eq!(get_total_job_amount(line.clone()).unwrap(), 1);
    let plan = plan_line(&line).unwrap();
    assert_eq!(plan.len(), 1);
    assert_eq!(plan[0].dest, ChunkDest::Whole);
}

#[test]
fn limit_counts_scalar_values_not_bytes() {
    // 140 three-byte characters: 420 bytes, but not over-length.
    let line = KANA.repeat(MAX_CHUNK_CHARS);
    assert!(line.len() > MAX_CHUNK_CHARS);
    assert_eq!(get_total_job_amount(line.clone()).unwrap(), 1);
    let plan = plan_line(&line).unwrap();
    assert_eq!(plan.len(), 1);
    assert_eq!(plan[0].dest, ChunkDest::Whole);
}

#[test]
fn one_character_over_the_limit_without_separators_is_fatal() {
    // 141 characters, no separators: the comma split of the whole line is a
    // single piece of 141 characters, at or over the limit.
    let line = KANA.repeat(MAX_CHUNK_CHARS + 1);
    let err = get_total_job_amount(line.clone()).unwrap_err();
    assert_eq!(err.length, 141);
    assert_eq!(err.piece, line);
    assert_eq!(plan_line(&line).unwrap_err().length, 141);
}

#[test]
fn period_segments_counted_one_each() {
    // Over-long line whose two sentence segments are both acceptable.
    let line = format!("{}{}{}", "a".repeat(100), PERIOD, "b".repeat(100));
    assert_eq!(get_total_job_amount(line.clone()).unwrap(), 2);
    let plan = plan_line(&line).unwrap();
    assert_eq!(plan.len(), 2);
    assert_eq!(plan[0].text, "a".repeat(100));
    assert_eq!(plan[0].dest, ChunkDest::PeriodSeg { period_idx: 0 });
    assert_eq!(plan[1].text, "b".repeat(100));
    assert_eq!(plan[1].dest, ChunkDest::PeriodSeg { period_idx: 1 });
}

#[test]
fn trailing_period_yields_trailing_empty_segment() {
    // The split keeps the empty segment after a final separator.
    let line = format!("{}{}{}{}", "a".repeat(80), PERIOD, "b".repeat(80), PERIOD);
    assert_eq!(get_total_job_amount(line.clone()).unwrap(), 3);
    let plan = plan_line(&line).unwrap();
    assert_eq!(plan.len(), 3);
    assert_eq!(plan[2].text, "");
    assert_eq!(plan[2].dest, ChunkDest::PeriodSeg { period_idx: 2 });
}

#[test]
fn half_width_separators_split_too() {
    let line = format!("{}{}{}", "a".repeat(100), HALF_PERIOD, "b".repeat(100));
    assert_eq!(get_total_job_amount(line).unwrap(), 2);
    let line = format!(
        "{}{}{}",
        "a".repeat(139),
        HALF_COMMA,
        "b".repeat(10)
    );
    assert_eq!(get_total_job_amount(line).unwrap(), 2);
}

#[test]
fn comma_piece_of_exactly_140_characters_is_fatal() {
    // One over-long sentence segment; the first clause piece has exactly 140
    // characters, which is already over the clause-level threshold.
    let line = format!("{}{}{}", "a".repeat(140), COMMA, "b".repeat(10));
    let err = get_total_job_amount(line.clone()).unwrap_err();
    assert_eq!(err.length, 140);
    assert_eq!(err.piece, "a".repeat(140));
    let err = plan_line(&line).unwrap_err();
    assert_eq!(err.length, 140);
    assert_eq!(err.piece, "a".repeat(140));
}

#[test]
fn comma_piece_of_139_characters_is_accepted() {
    let line = format!("{}{}{}", "a".repeat(139), COMMA, "b".repeat(139));
    assert_eq!(get_total_job_amount(line.clone()).unwrap(), 2);
    let plan = plan_line(&line).unwrap();
    assert_eq!(plan.len(), 2);
    assert_eq!(plan[0].text, "a".repeat(139));
    assert_eq!(
        plan[0].dest,
        ChunkDest::CommaSeg { period_idx: 0, comma_idx: 0 }
    );
    assert_eq!(plan[1].text, "b".repeat(139));
    assert_eq!(
        plan[1].dest,
        ChunkDest::CommaSeg { period_idx: 0, comma_idx: 1 }
    );
}

#[test]
fn long_run_without_separators_is_fatal() {
    // 200 identical characters: the comma split of the whole line is one
    // piece of 200 characters.
    let line = "x".repeat(200);
    let err = get_total_job_amount(line.clone()).unwrap_err();
    assert_eq!(err.length, 200);
    assert_eq!(err.piece, line);
    let err = plan_line(&line).unwrap_err();
    assert_eq!(err.length, 200);
}

#[test]
fn each_overlong_segment_resplits_the_whole_line() {
    // Two over-long sentence segments: the whole line's comma split is
    // repeated for each of them, duplicating the clause pieces.
    let seg_a = format!("{}{}{}", "a".repeat(120), COMMA, "c".repeat(25));
    let seg_b = format!("{}{}{}", "d".repeat(10), COMMA, "e".repeat(130));
    let line = format!("{}{}{}", seg_a, PERIOD, seg_b);
    // Comma pieces of the whole line: 120 a's; 25 c's, the period, 10 d's;
    // 130 e's. All below 140.
    assert_eq!(get_total_job_amount(line.clone()).unwrap(), 6);
    let plan = plan_line(&line).unwrap();
    assert_eq!(plan.len(), 6);
    for j in 0..2 {
        assert_eq!(plan[3 * j].text, "a".repeat(120));
        for k in 0..3 {
            assert_eq!(
                plan[3 * j + k].dest,
                ChunkDest::CommaSeg { period_idx: j, comma_idx: k }
            );
        }
    }
    assert_eq!(plan[1].text, format!("{}{}{}", "c".repeat(25), PERIOD, "d".repeat(10)));
    assert_eq!(plan[2].text, "e".repeat(130));
}

#[test]
fn counter_and_planner_agree_on_plan_length() {
    let lines = vec![
        String::from("short"),
        format!("{}{}{}", "a".repeat(100), PERIOD, "b".repeat(100)),
        format!("{}{}{}", "a".repeat(139), COMMA, "b".repeat(139)),
        format!("{}{}{}{}", "a".repeat(80), PERIOD, "b".repeat(80), PERIOD),
    ];
    for line in lines {
        let jobs = get_total_job_amount(line.clone()).unwrap();
        let plan = plan_line(&line).unwrap();
        assert_eq!(jobs, plan.len());
    }
}

#[test]
fn counter_and_planner_reject_the_same_lines() {
    let lines = vec!["x".repeat(200), KANA.repeat(141)];
    for line in lines {
        let e1 = get_total_job_amount(line.clone()).unwrap_err();
        let e2 = plan_line(&line).unwrap_err();
        assert_eq!(e1.piece, e2.piece);
        assert_eq!(e1.length, e2.length);
    }
}
