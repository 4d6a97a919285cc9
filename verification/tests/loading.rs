use football_quiz::question::Difficulty;
use football_quiz::store::{load_questions, parse_answer, parse_difficulty, question_from_raw, LoadError, RawQuestion};

const BANK: &str = r#"[
  {
    "question": "Which country won the first World Cup?",
    "options": ["A) Brazil", "B) Uruguay", "C) Italy", "D) Argentina"],
    "answer": "B",
    "difficulty": "easy",
    "explanation": "Uruguay hosted and won the 1930 tournament."
  },
  {
    "question": "Which club has the most European Cups?",
    "options": ["A) Milan", "B) Bayern", "C) Real Madrid", "D) Liverpool"],
    "answer": "C",
    "difficulty": "hard"
  }
]"#;

#[test]
fn loads_well_formed_bank() {
    let qs = load_questions(BANK).unwrap();
    assert_eq!(qs.len(), 2);
    assert_eq!(qs[0].text, "Which country won the first World Cup?");
    assert_eq!(qs[0].options.len(), 4);
    assert_eq!(qs[0].options[1], "B) Uruguay");
    assert_eq!(qs[0].answer, 1);
    assert_eq!(qs[0].difficulty, Difficulty::Easy);
    assert_eq!(
        qs[0].explanation.as_deref(),
        Some("Uruguay hosted and won the 1930 tournament.")
    );
    assert_eq!(qs[1].answer, 2);
    assert_eq!(qs[1].difficulty, Difficulty::Hard);
    assert_eq!(qs[1].explanation, None);
}

#[test]
fn loading_twice_gives_identical_sequences() {
    let first = load_questions(BANK).unwrap();
    let second = load_questions(BANK).unwrap();
    assert_eq!(first, second);
}

#[test]
fn null_explanation_reads_as_absent() {
    let text = r#"[{"question": "Q", "options": ["a","b","c","d"], "answer": "A", "difficulty": "medium", "explanation": null}]"#;
    let qs = load_questions(text).unwrap();
    assert_eq!(qs[0].explanation, None);
    assert_eq!(qs[0].difficulty, Difficulty::Medium);
}

#[test]
fn syntax_error_is_fatal() {
    assert_eq!(load_questions("not json at all"), Err(LoadError::Syntax));
}

#[test]
fn non_array_document_is_rejected() {
    assert_eq!(load_questions("{}"), Err(LoadError::NotAnArray));
}

#[test]
fn missing_field_is_rejected() {
    let text = r#"[{"question": "Q", "options": ["a","b","c","d"], "difficulty": "easy"}]"#;
    assert_eq!(load_questions(text), Err(LoadError::MissingField));
}

#[test]
fn wrong_typed_field_is_rejected() {
    let text = r#"[{"question": 7, "options": ["a","b","c","d"], "answer": "A", "difficulty": "easy"}]"#;
    assert_eq!(load_questions(text), Err(LoadError::MissingField));
}

#[test]
fn wrong_options_arity_is_rejected() {
    let text = r#"[{"question": "Q", "options": ["a","b","c"], "answer": "A", "difficulty": "easy"}]"#;
    assert_eq!(load_questions(text), Err(LoadError::WrongOptionsArity));
}

#[test]
fn unknown_difficulty_is_rejected() {
    let text = r#"[{"question": "Q", "options": ["a","b","c","d"], "answer": "A", "difficulty": "EASY"}]"#;
    assert_eq!(load_questions(text), Err(LoadError::UnknownDifficulty));
}

#[test]
fn bad_answer_letter_is_rejected() {
    let text = r#"[{"question": "Q", "options": ["a","b","c","d"], "answer": "E", "difficulty": "easy"}]"#;
    assert_eq!(load_questions(text), Err(LoadError::BadAnswer));
}

#[test]
fn empty_question_text_is_rejected() {
    let text = r#"[{"question": "", "options": ["a","b","c","d"], "answer": "A", "difficulty": "easy"}]"#;
    assert_eq!(load_questions(text), Err(LoadError::EmptyText));
}

#[test]
fn difficulty_names_are_case_sensitive() {
    assert_eq!(parse_difficulty("easy"), Some(Difficulty::Easy));
    assert_eq!(parse_difficulty("medium"), Some(Difficulty::Medium));
    assert_eq!(parse_difficulty("hard"), Some(Difficulty::Hard));
    assert_eq!(parse_difficulty("Easy"), None);
    assert_eq!(parse_difficulty("HARD"), None);
    assert_eq!(parse_difficulty(""), None);
}

#[test]
fn answer_letters() {
    assert_eq!(parse_answer("A"), Some(0));
    assert_eq!(parse_answer("B"), Some(1));
    assert_eq!(parse_answer("C"), Some(2));
    assert_eq!(parse_answer("D"), Some(3));
    assert_eq!(parse_answer("a"), None);
    assert_eq!(parse_answer("E"), None);
    assert_eq!(parse_answer("AB"), None);
}

#[test]
fn validation_keeps_fields() {
    let raw = RawQuestion {
        text: String::from("Q"),
        options: vec![
            String::from("a"),
            String::from("b"),
            String::from("c"),
            String::from("d"),
        ],
        answer: String::from("D"),
        difficulty: String::from("hard"),
        explanation: Some(String::from("why")),
    };
    let q = question_from_raw(raw).unwrap();
    assert_eq!(q.text, "Q");
    assert_eq!(q.answer, 3);
    assert_eq!(q.difficulty, Difficulty::Hard);
    assert_eq!(q.explanation.as_deref(), Some("why"));
}
