use football_quiz::collector::CollectResult;
use football_quiz::question::{Difficulty, Question};
use football_quiz::scorer::{grade, percentage_tenths};
use football_quiz::selector::{select_round, AskedSet, Selection};
use football_quiz::session::{
    answer_is_correct, gate_required, mark_round_asked, score_round, session_next, wants_continue,
    SessionEvent, SessionState,
};

fn q(text: &str, difficulty: Difficulty) -> Question {
    Question {
        text: String::from(text),
        options: vec![
            String::from("A) one"),
            String::from("B) two"),
            String::from("C) three"),
            String::from("D) four"),
        ],
        answer: 0,
        difficulty,
        explanation: None,
    }
}

fn minimal_store() -> Vec<Question> {
    vec![
        q("e1", Difficulty::Easy),
        q("m1", Difficulty::Medium),
        q("h1", Difficulty::Hard),
        q("e2", Difficulty::Easy),
        q("m2", Difficulty::Medium),
        q("h2", Difficulty::Hard),
        q("e3", Difficulty::Easy),
        q("m3", Difficulty::Medium),
        q("h3", Difficulty::Hard),
        q("e4", Difficulty::Easy),
    ]
}

#[test]
fn transitions_follow_the_design() {
    let n = 10;
    assert_eq!(
        session_next(SessionState::AwaitingRound, SessionEvent::RoundReady, n),
        SessionState::PlayingQuestion(0)
    );
    assert_eq!(
        session_next(SessionState::AwaitingRound, SessionEvent::StoreExhausted, n),
        SessionState::Terminated
    );
    assert_eq!(
        session_next(SessionState::PlayingQuestion(0), SessionEvent::QuestionResolved, n),
        SessionState::PlayingQuestion(1)
    );
    assert_eq!(
        session_next(SessionState::PlayingQuestion(9), SessionEvent::QuestionResolved, n),
        SessionState::RoundComplete
    );
    assert_eq!(
        session_next(SessionState::RoundComplete, SessionEvent::ScoreShown, n),
        SessionState::AwaitingContinueDecision
    );
    assert_eq!(
        session_next(SessionState::AwaitingContinueDecision, SessionEvent::ContinueYes, n),
        SessionState::AwaitingRound
    );
    assert_eq!(
        session_next(SessionState::AwaitingContinueDecision, SessionEvent::ContinueNo, n),
        SessionState::Terminated
    );
}

#[test]
fn terminated_is_absorbing() {
    let events = [
        SessionEvent::RoundReady,
        SessionEvent::StoreExhausted,
        SessionEvent::QuestionResolved,
        SessionEvent::ScoreShown,
        SessionEvent::ContinueYes,
        SessionEvent::ContinueNo,
    ];
    for e in events {
        assert_eq!(session_next(SessionState::Terminated, e, 10), SessionState::Terminated);
    }
}

#[test]
fn mismatched_events_change_nothing() {
    assert_eq!(
        session_next(SessionState::AwaitingRound, SessionEvent::ScoreShown, 10),
        SessionState::AwaitingRound
    );
    assert_eq!(
        session_next(SessionState::RoundComplete, SessionEvent::ContinueYes, 10),
        SessionState::RoundComplete
    );
}

#[test]
fn continue_prompt_accepts_only_y() {
    assert!(wants_continue("y"));
    assert!(wants_continue("Y"));
    assert!(!wants_continue("n"));
    assert!(!wants_continue("yes"));
    assert!(!wants_continue(""));
}

#[test]
fn correctness_of_answers() {
    let question = q("e1", Difficulty::Easy);
    assert!(answer_is_correct(&question, &CollectResult::Answered('A')));
    assert!(answer_is_correct(&question, &CollectResult::Answered('a')));
    assert!(!answer_is_correct(&question, &CollectResult::Answered('B')));
    assert!(!answer_is_correct(&question, &CollectResult::TimedOut));
}

#[test]
fn gate_runs_after_wrong_or_timeout_only() {
    let question = q("e1", Difficulty::Easy);
    assert!(!gate_required(&question, &CollectResult::Answered('A')));
    assert!(gate_required(&question, &CollectResult::Answered('B')));
    assert!(gate_required(&question, &CollectResult::TimedOut));
}

#[test]
fn all_correct_round_is_ballon_dor_worthy() {
    let store = minimal_store();
    let mut asked = AskedSet::new();
    let round = match select_round(&store, &asked) {
        Selection::Picked(round) => round,
        Selection::Exhausted => panic!("a full store must yield a round"),
    };
    // Every question's correct option is A here, so answering A throughout
    // answers everything correctly.
    let outcomes = vec![CollectResult::Answered('A'); 10];
    let score = score_round(&store, &round, &outcomes);
    assert_eq!(score.possible, 190);
    assert_eq!(score.earned, 190);
    let tenths = percentage_tenths(score.earned, score.possible).unwrap();
    assert_eq!(tenths, 1000);
    assert_eq!(grade(tenths), "Ballon d'Or Worthy");
    mark_round_asked(&mut asked, &round);
    assert_eq!(asked.len(), 10);
}

#[test]
fn timeouts_earn_nothing() {
    let store = minimal_store();
    let asked = AskedSet::new();
    let round = match select_round(&store, &asked) {
        Selection::Picked(round) => round,
        Selection::Exhausted => panic!("a full store must yield a round"),
    };
    let outcomes = vec![CollectResult::TimedOut; 10];
    let score = score_round(&store, &round, &outcomes);
    assert_eq!(score.possible, 190);
    assert_eq!(score.earned, 0);
    let tenths = percentage_tenths(score.earned, score.possible).unwrap();
    assert_eq!(tenths, 0);
    assert_eq!(grade(tenths), "Relegation Worthy");
}
