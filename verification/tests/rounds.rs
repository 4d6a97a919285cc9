use football_quiz::question::{Difficulty, Question};
use football_quiz::selector::{select_round, AskedSet, Selection};
use football_quiz::session::mark_round_asked;

fn q(text: &str, difficulty: Difficulty) -> Question {
    Question {
        text: String::from(text),
        options: vec![
            String::from("A) one"),
            String::from("B) two"),
            String::from("C) three"),
            String::from("D) four"),
        ],
        answer: 0,
        difficulty,
        explanation: None,
    }
}

fn minimal_store() -> Vec<Question> {
    vec![
        q("e1", Difficulty::Easy),
        q("m1", Difficulty::Medium),
        q("h1", Difficulty::Hard),
        q("e2", Difficulty::Easy),
        q("m2", Difficulty::Medium),
        q("h2", Difficulty::Hard),
        q("e3", Difficulty::Easy),
        q("m3", Difficulty::Medium),
        q("h3", Difficulty::Hard),
        q("e4", Difficulty::Easy),
    ]
}

#[test]
fn asked_set_grows_without_duplicates() {
    let mut asked = AskedSet::new();
    assert_eq!(asked.len(), 0);
    assert!(!asked.contains(5));
    asked.insert(5);
    assert_eq!(asked.len(), 1);
    assert!(asked.contains(5));
    asked.insert(7);
    assert_eq!(asked.len(), 2);
    assert!(asked.contains(5));
    assert!(asked.contains(7));
    assert!(!asked.contains(6));
}

#[test]
fn round_is_balanced_distinct_and_fresh() {
    let store = minimal_store();
    let asked = AskedSet::new();
    match select_round(&store, &asked) {
        Selection::Picked(round) => {
            assert_eq!(round.len(), 10);
            let mut seen: Vec<usize> = Vec::new();
            for k in 0..round.len() {
                let idx = round.index_at(k);
                assert!(idx < store.len());
                assert!(!seen.contains(&idx));
                assert!(!asked.contains(idx));
                seen.push(idx);
                let expected = if k < 4 {
                    Difficulty::Easy
                } else if k < 7 {
                    Difficulty::Medium
                } else {
                    Difficulty::Hard
                };
                assert_eq!(store[idx].difficulty, expected);
            }
        },
        Selection::Exhausted => panic!("a full store must yield a round"),
    }
}

#[test]
fn exactly_one_round_then_exhausted() {
    // A store of exactly 4 easy, 3 medium, 3 hard questions yields one
    // playable round and is exhausted on the next attempt, whatever was
    // answered.
    let store = minimal_store();
    let mut asked = AskedSet::new();
    let round = match select_round(&store, &asked) {
        Selection::Picked(round) => round,
        Selection::Exhausted => panic!("a full store must yield a round"),
    };
    mark_round_asked(&mut asked, &round);
    assert_eq!(asked.len(), 10);
    assert!(matches!(select_round(&store, &asked), Selection::Exhausted));
}

#[test]
fn short_tier_means_exhausted() {
    // Only three easy questions: no round can be composed at all.
    let mut store = minimal_store();
    store.remove(0);
    let asked = AskedSet::new();
    assert!(matches!(select_round(&store, &asked), Selection::Exhausted));
}

#[test]
fn selection_never_repeats_asked_questions() {
    // Twenty questions allow two rounds; the second round must avoid every
    // question of the first.
    let mut store = minimal_store();
    store.extend(minimal_store());
    let mut asked = AskedSet::new();
    let first = match select_round(&store, &asked) {
        Selection::Picked(round) => round,
        Selection::Exhausted => panic!("a double store must yield a round"),
    };
    mark_round_asked(&mut asked, &first);
    let second = match select_round(&store, &asked) {
        Selection::Picked(round) => round,
        Selection::Exhausted => panic!("a double store must yield two rounds"),
    };
    for k in 0..second.len() {
        let idx = second.index_at(k);
        for j in 0..first.len() {
            assert_ne!(idx, first.index_at(j));
        }
    }
    mark_round_asked(&mut asked, &second);
    assert_eq!(asked.len(), 20);
    assert!(matches!(select_round(&store, &asked), Selection::Exhausted));
}
