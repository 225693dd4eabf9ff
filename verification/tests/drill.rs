use pdf_exam_tools_lib::drill::{judge, question, question_count, Score, Verdict};

#[test]
fn factors_of_a_question_lie_between_three_and_twelve() {
    let mut seen = std::collections::BTreeSet::new();
    for _ in 0..2000 {
        let (first, second) = question();
        assert!((3..=12).contains(&first));
        assert!((3..=12).contains(&second));
        seen.insert(first);
        seen.insert(second);
    }
    assert!(seen.len() > 1);
}

#[test]
fn answer_is_judged_against_the_product() {
    assert_eq!(judge(3, 4, Some(12)), Verdict::Correct);
    assert_eq!(judge(12, 12, Some(144)), Verdict::Correct);
    assert_eq!(judge(7, 8, Some(54)), Verdict::Wrong(56));
    assert_eq!(judge(7, 8, Some(-56)), Verdict::Wrong(56));
    assert_eq!(judge(7, 8, None), Verdict::Unreadable);
    assert_eq!(judge(-3, 4, Some(-12)), Verdict::Correct);
    assert_eq!(judge(0, 9, Some(0)), Verdict::Correct);
}

#[test]
fn product_that_no_answer_can_hold_is_never_met() {
    assert_eq!(judge(i32::MAX, i32::MAX, Some(1)), Verdict::Wrong(i32::MAX as i64 * i32::MAX as i64));
    assert_eq!(judge(i32::MIN, i32::MIN, Some(0)), Verdict::Wrong(1 << 62));
    assert_eq!(judge(i32::MIN, 1, Some(i32::MIN)), Verdict::Correct);
    assert_eq!(judge(65536, 65536, Some(0)), Verdict::Wrong(1 << 32));
}

#[test]
fn number_of_questions_is_twenty_where_none_is_given() {
    assert_eq!(question_count(None), 20);
    assert_eq!(question_count(Some(0)), 0);
    assert_eq!(question_count(Some(5)), 5);
}

#[test]
fn score_counts_the_questions_and_the_correct_answers() {
    let mut score = Score::new();
    assert_eq!((score.asked, score.correct), (0, 0));
    score.record(Verdict::Correct);
    score.record(Verdict::Wrong(56));
    score.record(Verdict::Unreadable);
    score.record(Verdict::Correct);
    assert_eq!((score.asked, score.correct), (4, 2));
}
