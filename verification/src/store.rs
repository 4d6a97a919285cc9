//! The question store: parses a JSON document into question records,
//! rejecting malformed input. The JSON syntax itself is handled by
//! serde_json behind trusted wrappers whose results are named — parsing and
//! reading a JSON value depend on their arguments alone — so the loading
//! outcome is a function of the document text. Every schema rule — the
//! required fields, the arity of the options, the closed difficulty set, the
//! answer letter — is validated here in verified code.

use vstd::prelude::*;
use crate::question::{Difficulty, Question};
use crate::text::str_eq;

verus! {

/// Declares serde_json::Value, the parsed JSON tree the wrappers below walk;
/// it stays opaque here and is described only through the named results.
#[verifier::external_type_specification]
#[verifier::external_body]
pub struct ExJsonValue(serde_json::Value);

/// Declares serde_json::Error, the parser's error value; it is mapped at
/// once to `LoadError::Syntax` and never inspected.
#[verifier::external_type_specification]
#[verifier::external_body]
pub struct ExJsonError(serde_json::Error);

/// Whether serde_json::from_str parses the text as one JSON document; the
/// parse depends on the text alone.
pub uninterp spec fn spec_json_parses(s: Seq<char>) -> bool;

/// The document serde_json::from_str parses the text to, when it parses.
pub uninterp spec fn spec_json_doc(s: Seq<char>) -> serde_json::Value;

/// The elements serde_json::Value::as_array reads out of a JSON array, and
/// nothing for a value of any other kind.
pub uninterp spec fn spec_json_elems(v: serde_json::Value) -> Option<Seq<serde_json::Value>>;

/// The field serde_json::Value::get finds in a JSON object under a string
/// key, and nothing when the key is absent or the value is no object.
pub uninterp spec fn spec_json_field(v: serde_json::Value, key: Seq<char>) -> Option<
    serde_json::Value,
>;

/// The characters serde_json::Value::as_str reads out of a JSON string, and
/// nothing for a value of any other kind.
pub uninterp spec fn spec_json_string(v: serde_json::Value) -> Option<Seq<char>>;

/// Whether serde_json::Value::is_null sees JSON null.
pub uninterp spec fn spec_json_is_null(v: serde_json::Value) -> bool;

/// Relies on serde_json::from_str::<Value>: parses the text as one JSON
/// document, or reports a syntax error; the result depends on the text alone.
#[verifier::external_body]
fn parse_json(s: &str) -> (r: Result<serde_json::Value, serde_json::Error>)
    ensures
        r is Ok <==> spec_json_parses(s@),
        (r matches Ok(v) ==> v == spec_json_doc(s@)),
{
    serde_json::from_str(s)
}

/// Relies on serde_json::Value::as_array: the elements when the value is a
/// JSON array, and None otherwise.
#[verifier::external_body]
fn json_as_array(v: &serde_json::Value) -> (r: Option<Vec<serde_json::Value>>)
    ensures
        r is Some <==> spec_json_elems(*v) is Some,
        (r matches Some(a) ==> Some(a@) == spec_json_elems(*v)),
{
    v.as_array().cloned()
}

/// Relies on serde_json::Value::get with a string key: the field of a JSON
/// object, and None when the key is absent or the value is no object.
#[verifier::external_body]
fn json_get(v: &serde_json::Value, key: &str) -> (r: Option<serde_json::Value>)
    ensures
        r == spec_json_field(*v, key@),
{
    v.get(key).cloned()
}

/// Relies on serde_json::Value::as_str: the content when the value is a JSON
/// string, and None otherwise.
#[verifier::external_body]
fn json_as_string(v: &serde_json::Value) -> (r: Option<String>)
    ensures
        r is Some <==> spec_json_string(*v) is Some,
        (r matches Some(s) ==> Some(s@) == spec_json_string(*v)),
{
    v.as_str().map(String::from)
}

/// Relies on serde_json::Value::is_null: whether the value is JSON null.
#[verifier::external_body]
fn json_is_null(v: &serde_json::Value) -> (r: bool)
    ensures
        r == spec_json_is_null(*v),
{
    v.is_null()
}

/// Why loading failed. Any of these is fatal at startup: there is no quiz
/// without a well-formed question bank.
#[derive(Clone, Copy, PartialEq, Eq, Structural, Debug)]
pub enum LoadError {
    /// The text is not valid JSON.
    Syntax,
    /// The document is not a JSON array of question objects.
    NotAnArray,
    /// A required field is absent or has the wrong type.
    MissingField,
    /// The options of a question are not exactly four strings.
    WrongOptionsArity,
    /// The difficulty is none of "easy", "medium", "hard" (case-sensitive).
    UnknownDifficulty,
    /// The answer indicator is none of the letters A, B, C, D.
    BadAnswer,
    /// The question text is empty.
    EmptyText,
}

/// The tier named by a difficulty string, exactly one of the lowercase
/// names "easy", "medium" and "hard"; anything else names no tier.
pub open spec fn spec_difficulty_of(d: Seq<char>) -> Option<Difficulty> {
    if d == "easy"@ {
        Some(Difficulty::Easy)
    } else if d == "medium"@ {
        Some(Difficulty::Medium)
    } else if d == "hard"@ {
        Some(Difficulty::Hard)
    } else {
        None
    }
}

/// Maps a difficulty string to its tier, rejecting unrecognized names.
pub fn parse_difficulty(d: &str) -> (r: Option<Difficulty>)
    ensures
        r == spec_difficulty_of(d@),
{
    if str_eq(d, "easy") {
        Some(Difficulty::Easy)
    } else if str_eq(d, "medium") {
        Some(Difficulty::Medium)
    } else if str_eq(d, "hard") {
        Some(Difficulty::Hard)
    } else {
        None
    }
}

/// The answer index named by an answer indicator string, exactly one of the
/// single letters "A" to "D".
pub open spec fn spec_answer_of(a: Seq<char>) -> Option<u8> {
    if a == "A"@ {
        Some(0u8)
    } else if a == "B"@ {
        Some(1u8)
    } else if a == "C"@ {
        Some(2u8)
    } else if a == "D"@ {
        Some(3u8)
    } else {
        None
    }
}

/// Maps an answer indicator string to the option index it names.
pub fn parse_answer(a: &str) -> (r: Option<u8>)
    ensures
        r == spec_answer_of(a@),
        r is Some ==> r.unwrap() < 4,
{
    if str_eq(a, "A") {
        Some(0)
    } else if str_eq(a, "B") {
        Some(1)
    } else if str_eq(a, "C") {
        Some(2)
    } else if str_eq(a, "D") {
        Some(3)
    } else {
        None
    }
}

/// One question as read from the document, before validation: the fields as
/// plain strings, exactly as the JSON held them.
pub struct RawQuestion {
    pub text: String,
    pub options: Vec<String>,
    pub answer: String,
    pub difficulty: String,
    pub explanation: Option<String>,
}

/// The plain content of one question record as the document holds it: the
/// mathematical model of what the field wrappers read out of a record.
pub struct RecordModel {
    pub text: Seq<char>,
    pub options: Seq<Seq<char>>,
    pub answer: Seq<char>,
    pub difficulty: Seq<char>,
    pub explanation: Option<Seq<char>>,
}

/// The string content of a record's field: present exactly when the field
/// exists and is a JSON string.
pub open spec fn spec_field_string(v: serde_json::Value, key: Seq<char>) -> Option<Seq<char>> {
    match spec_json_field(v, key) {
        Some(f) => spec_json_string(f),
        None => None,
    }
}

/// The option strings of a record: present exactly when the "options" field
/// is an array of strings, in document order.
pub open spec fn spec_options_model(v: serde_json::Value) -> Option<Seq<Seq<char>>> {
    match spec_json_field(v, "options"@) {
        Some(f) => match spec_json_elems(f) {
            Some(elems) => if forall|k: int|
                0 <= k < elems.len() ==> spec_json_string(#[trigger] elems[k]) is Some {
                Some(Seq::new(elems.len(), |k: int| spec_json_string(elems[k]).unwrap()))
            } else {
                None
            },
            None => None,
        },
        None => None,
    }
}

/// The explanation of a record: an absent or null field reads as no
/// explanation, a string field as its content, and anything else is
/// malformed (the outer None).
pub open spec fn spec_explanation_model(v: serde_json::Value) -> Option<Option<Seq<char>>> {
    match spec_json_field(v, "explanation"@) {
        None => Some(None),
        Some(e) => if spec_json_is_null(e) {
            Some(None)
        } else {
            match spec_json_string(e) {
                Some(s) => Some(Some(s)),
                None => None,
            }
        },
    }
}

/// The record a question object holds: present exactly when every required
/// field exists with the right type.
pub open spec fn spec_record_model(v: serde_json::Value) -> Option<RecordModel> {
    if spec_field_string(v, "question"@) is None {
        None
    } else if spec_options_model(v) is None {
        None
    } else if spec_field_string(v, "answer"@) is None {
        None
    } else if spec_field_string(v, "difficulty"@) is None {
        None
    } else if spec_explanation_model(v) is None {
        None
    } else {
        Some(
            RecordModel {
                text: spec_field_string(v, "question"@).unwrap(),
                options: spec_options_model(v).unwrap(),
                answer: spec_field_string(v, "answer"@).unwrap(),
                difficulty: spec_field_string(v, "difficulty"@).unwrap(),
                explanation: spec_explanation_model(v).unwrap(),
            },
        )
    }
}

/// The first schema rule a raw question breaks, if any: the text must be
/// non-empty, the options exactly four, the difficulty a known tier name,
/// and the answer one of the letters A to D.
pub open spec fn spec_validation_error(
    text: Seq<char>,
    options_len: int,
    answer: Seq<char>,
    difficulty: Seq<char>,
) -> Option<LoadError> {
    if text.len() == 0 {
        Some(LoadError::EmptyText)
    } else if options_len != 4 {
        Some(LoadError::WrongOptionsArity)
    } else if spec_difficulty_of(difficulty) is None {
        Some(LoadError::UnknownDifficulty)
    } else if spec_answer_of(answer) is None {
        Some(LoadError::BadAnswer)
    } else {
        None
    }
}

/// The loading error one record contributes: a missing or wrongly typed
/// field, else the first schema rule its content breaks.
pub open spec fn spec_record_error(v: serde_json::Value) -> Option<LoadError> {
    match spec_record_model(v) {
        None => Some(LoadError::MissingField),
        Some(m) => spec_validation_error(m.text, m.options.len() as int, m.answer, m.difficulty),
    }
}

/// The error of the first failing record at or after position `i`, if any.
pub open spec fn spec_first_record_error_from(elems: Seq<serde_json::Value>, i: int) -> Option<
    LoadError,
>
    decreases elems.len() - i,
{
    if !(0 <= i < elems.len()) {
        None
    } else if spec_record_error(elems[i]) is Some {
        spec_record_error(elems[i])
    } else {
        spec_first_record_error_from(elems, i + 1)
    }
}

/// The loading outcome the document text determines: a syntax error, a
/// non-array document, the first failing record's error, or none.
pub open spec fn spec_load_error(s: Seq<char>) -> Option<LoadError> {
    if !spec_json_parses(s) {
        Some(LoadError::Syntax)
    } else {
        match spec_json_elems(spec_json_doc(s)) {
            None => Some(LoadError::NotAnArray),
            Some(elems) => spec_first_record_error_from(elems, 0),
        }
    }
}

/// Whether an extracted raw question carries exactly a record's content.
pub open spec fn spec_raw_matches(raw: RawQuestion, m: RecordModel) -> bool {
    &&& raw.text@ == m.text
    &&& raw.options@.len() == m.options.len()
    &&& (forall|j: int| 0 <= j < m.options.len() ==> (#[trigger] raw.options@[j])@ == m.options[j])
    &&& raw.answer@ == m.answer
    &&& raw.difficulty@ == m.difficulty
    &&& (match (raw.explanation, m.explanation) {
        (Option::None, Option::None) => true,
        (Option::Some(e), Option::Some(t)) => e@ == t,
        _ => false,
    })
}

/// Whether a validated question carries exactly a record's content: the
/// record's text and options, the tier and option index its difficulty and
/// answer strings name, and its explanation.
pub open spec fn spec_question_matches(q: Question, m: RecordModel) -> bool {
    &&& q.text@ == m.text
    &&& q.options@.len() == m.options.len()
    &&& (forall|j: int| 0 <= j < m.options.len() ==> (#[trigger] q.options@[j])@ == m.options[j])
    &&& Some(q.difficulty) == spec_difficulty_of(m.difficulty)
    &&& Some(q.answer) == spec_answer_of(m.answer)
    &&& (match (q.explanation, m.explanation) {
        (Option::None, Option::None) => true,
        (Option::Some(e), Option::Some(t)) => e@ == t,
        _ => false,
    })
}

/// Validates one raw question against the schema and builds the record: it
/// succeeds exactly when no schema rule is broken, reports the first broken
/// rule otherwise, and keeps every field as it was read.
pub fn question_from_raw(raw: RawQuestion) -> (r: Result<Question, LoadError>)
    ensures
        (r matches Err(e) ==> Some(e) == spec_validation_error(
            raw.text@,
            raw.options@.len() as int,
            raw.answer@,
            raw.difficulty@,
        )),
        (r is Ok <==> spec_validation_error(
            raw.text@,
            raw.options@.len() as int,
            raw.answer@,
            raw.difficulty@,
        ) is None),
        (r matches Ok(q) ==> q.wf() && q.text == raw.text && q.options == raw.options && Some(
            q.difficulty,
        ) == spec_difficulty_of(raw.difficulty@) && Some(q.answer) == spec_answer_of(raw.answer@)
            && q.explanation == raw.explanation),
{
    if raw.text.as_str().unicode_len() == 0 {
        return Err(LoadError::EmptyText);
    }
    if raw.options.len() != 4 {
        return Err(LoadError::WrongOptionsArity);
    }
    let difficulty = match parse_difficulty(raw.difficulty.as_str()) {
        Some(d) => d,
        None => {
            return Err(LoadError::UnknownDifficulty);
        },
    };
    let answer = match parse_answer(raw.answer.as_str()) {
        Some(a) => a,
        None => {
            return Err(LoadError::BadAnswer);
        },
    };
    Ok(
        Question {
            text: raw.text,
            options: raw.options,
            answer,
            difficulty,
            explanation: raw.explanation,
        },
    )
}

/// Reads one question object's fields out of a JSON value, as plain strings.
/// It succeeds exactly when the record's model is present — every field
/// there with the right type — and then carries the model's content.
fn extract_raw(item: &serde_json::Value) -> (r: Result<RawQuestion, LoadError>)
    ensures
        r is Ok <==> spec_record_model(*item) is Some,
        r is Err ==> r == Err::<RawQuestion, LoadError>(LoadError::MissingField),
        (r matches Ok(raw) ==> (spec_record_model(*item) matches Some(m) && spec_raw_matches(
            raw,
            m,
        ))),
{
    let text = match json_get(item, "question") {
        Some(v) => match json_as_string(&v) {
            Some(s) => s,
            None => {
                return Err(LoadError::MissingField);
            },
        },
        None => {
            return Err(LoadError::MissingField);
        },
    };
    let options_value = match json_get(item, "options") {
        Some(v) => v,
        None => {
            return Err(LoadError::MissingField);
        },
    };
    let options_items = match json_as_array(&options_value) {
        Some(a) => a,
        None => {
            return Err(LoadError::MissingField);
        },
    };
    let mut options: Vec<String> = Vec::new();
    let mut i: usize = 0;
    while i < options_items.len()
        invariant
            i <= options_items@.len(),
            options@.len() == i,
            spec_json_field(*item, "options"@) == Some(options_value),
            spec_json_elems(options_value) == Some(options_items@),
            forall|k: int| 0 <= k < i ==> spec_json_string(#[trigger] options_items@[k]) is Some,
            forall|k: int|
                0 <= k < i ==> (#[trigger] options@[k])@ == spec_json_string(
                    options_items@[k],
                ).unwrap(),
        decreases options_items@.len() - i,
    {
        match json_as_string(&options_items[i]) {
            Some(s) => options.push(s),
            None => {
                proof {
                    assert(spec_json_string(options_items@[i as int]) is None);
                    assert(!(forall|k: int|
                        0 <= k < options_items@.len() ==> spec_json_string(
                            #[trigger] options_items@[k],
                        ) is Some));
                    assert(spec_options_model(*item) is None);
                }
                return Err(LoadError::MissingField);
            },
        }
        i = i + 1;
    }
    let answer = match json_get(item, "answer") {
        Some(v) => match json_as_string(&v) {
            Some(s) => s,
            None => {
                return Err(LoadError::MissingField);
            },
        },
        None => {
            return Err(LoadError::MissingField);
        },
    };
    let difficulty = match json_get(item, "difficulty") {
        Some(v) => match json_as_string(&v) {
            Some(s) => s,
            None => {
                return Err(LoadError::MissingField);
            },
        },
        None => {
            return Err(LoadError::MissingField);
        },
    };
    let explanation = match json_get(item, "explanation") {
        Some(v) => {
            if json_is_null(&v) {
                None
            } else {
                match json_as_string(&v) {
                    Some(s) => Some(s),
                    None => {
                        return Err(LoadError::MissingField);
                    },
                }
            }
        },
        None => None,
    };
    Ok(RawQuestion { text, options, answer, difficulty, explanation })
}

/// Loads the question bank from the text of a JSON document: an array of
/// question objects. It succeeds exactly when the text parses as an array
/// whose every record passes the schema, and then returns one well-formed
/// question per record, in document order, each carrying its record's
/// content; otherwise it reports the first failure. The outcome is a
/// function of the text alone.
pub fn load_questions(text: &str) -> (r: Result<Vec<Question>, LoadError>)
    ensures
        r is Ok <==> spec_load_error(text@) is None,
        (r matches Err(e) ==> Some(e) == spec_load_error(text@)),
        (r matches Ok(qs) ==> spec_json_elems(spec_json_doc(text@)) matches Some(elems)
            && qs@.len() == elems.len() && (forall|i: int|
            0 <= i < elems.len() ==> (#[trigger] qs@[i]).wf() && (spec_record_model(elems[i])
                matches Some(m) && spec_question_matches(qs@[i], m)))),
{
    let parsed = match parse_json(text) {
        Ok(v) => v,
        Err(_) => {
            return Err(LoadError::Syntax);
        },
    };
    let items = match json_as_array(&parsed) {
        Some(a) => a,
        None => {
            return Err(LoadError::NotAnArray);
        },
    };
    let ghost elems = items@;
    let mut out: Vec<Question> = Vec::new();
    let mut i: usize = 0;
    while i < items.len()
        invariant
            i <= elems.len(),
            items@ == elems,
            spec_json_parses(text@),
            Some(elems) == spec_json_elems(spec_json_doc(text@)),
            out@.len() == i,
            forall|k: int| 0 <= k < i ==> spec_record_error(#[trigger] elems[k]) is None,
            forall|k: int|
                0 <= k < i ==> (#[trigger] out@[k]).wf() && (spec_record_model(elems[k]) matches
                Some(m) && spec_question_matches(out@[k], m)),
            spec_first_record_error_from(elems, 0) == spec_first_record_error_from(elems, i as int),
        decreases elems.len() - i,
    {
        let raw = match extract_raw(&items[i]) {
            Ok(raw) => raw,
            Err(e) => {
                proof {
                    assert(spec_record_error(elems[i as int]) == Some(LoadError::MissingField));
                }
                return Err(e);
            },
        };
        let ghost m = spec_record_model(elems[i as int]).unwrap();
        match question_from_raw(raw) {
            Ok(q) => {
                proof {
                    assert(spec_record_error(elems[i as int]) is None);
                    assert(spec_question_matches(q, m));
                }
                out.push(q);
            },
            Err(e) => {
                proof {
                    assert(spec_record_error(elems[i as int]) == Some(e));
                }
                return Err(e);
            },
        }
        i = i + 1;
    }
    Ok(out)
}

/// Loading is a function of the document alone: two questions built from
/// the same record agree in every piece of content — text, options, answer
/// index, difficulty tier, and explanation.
pub proof fn lemma_loading_deterministic(q1: Question, q2: Question, m: RecordModel)
    requires
        spec_question_matches(q1, m),
        spec_question_matches(q2, m),
    ensures
        q1.text@ == q2.text@,
        q1.options@.len() == q2.options@.len(),
        forall|j: int|
            0 <= j < q1.options@.len() ==> (#[trigger] q1.options@[j])@ == q2.options@[j]@,
        q1.difficulty == q2.difficulty,
        q1.answer == q2.answer,
        (q1.explanation is Some <==> q2.explanation is Some),
        (q1.explanation matches Some(e1) ==> (q2.explanation matches Some(e2) && e1@ == e2@)),
{
}

} // verus!
