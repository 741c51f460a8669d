//! From a model's free-form answer to numbered question records.
//!
//! The answer is searched for its payload, the payload's string literals are
//! repaired, the repaired text is read as JSON, the tree is read as
//! questions, and the questions are numbered `q1`, `q2`, and so on. Either
//! all questions of the payload come back or an error does.

use vstd::prelude::*;
use crate::decode::{questions_from_json, questions_of, shape_message, ShapeError};
use crate::json::{decode_json, json_decoding, Json};
use crate::model::{Question, QuestionView};
use crate::repair::{sanitize_json_escapes, sanitized};
use crate::scan::{
    candidate, candidate_bounds, extract_first_json_array, lemma_closing_in_range,
    lemma_first_opening_is_least, matching_close, opened, opens_object_array,
};
use crate::text::{chars_of, decimal, decimal_string, push_char, push_range, string_of};

verus! {

/// How many characters of the repaired payload an error carries.
pub const EXCERPT_LIMIT: usize = 500;

/// Why an answer gave no questions.
#[derive(Debug)]
pub enum ParseError {
    /// No array of objects opens in the answer, or the first one never closes.
    NoJsonArrayFound,
    /// The payload is no JSON, or no array of questions. `excerpt` holds the
    /// first characters of the repaired payload.
    InvalidJson { message: String, excerpt: String },
    /// The payload is an empty array.
    EmptyResult,
}

/// What a [`ParseError`] holds, as plain mathematical values.
pub enum ParseErrorView {
    NoJsonArrayFound,
    InvalidJson { message: Seq<char>, excerpt: Seq<char> },
    EmptyResult,
}

impl View for ParseError {
    type V = ParseErrorView;

    open spec fn view(&self) -> ParseErrorView {
        match self {
            ParseError::NoJsonArrayFound => ParseErrorView::NoJsonArrayFound,
            ParseError::InvalidJson { message, excerpt } => ParseErrorView::InvalidJson {
                message: message@,
                excerpt: excerpt@,
            },
            ParseError::EmptyResult => ParseErrorView::EmptyResult,
        }
    }
}

impl Clone for ParseError {
    fn clone(&self) -> (r: Self)
        ensures
            r@ == self@,
    {
        match self {
            ParseError::NoJsonArrayFound => ParseError::NoJsonArrayFound,
            ParseError::InvalidJson { message, excerpt } => ParseError::InvalidJson {
                message: message.clone(),
                excerpt: excerpt.clone(),
            },
            ParseError::EmptyResult => ParseError::EmptyResult,
        }
    }
}

/// The sentence that reports a [`ParseError`].
pub open spec fn error_message(error: ParseErrorView) -> Seq<char> {
    match error {
        ParseErrorView::NoJsonArrayFound => "No JSON array found in response"@,
        ParseErrorView::InvalidJson { message, excerpt } => "Failed to parse JSON response: "@
            + message + ". JSON: "@ + excerpt,
        ParseErrorView::EmptyResult => "No questions found in JSON response"@,
    }
}

impl ParseError {
    /// The sentence that reports this error.
    pub fn message(&self) -> (r: String)
        ensures
            r@ == error_message(self@),
    {
        match self {
            ParseError::NoJsonArrayFound => "No JSON array found in response".to_owned(),
            ParseError::InvalidJson { message, excerpt } => {
                let mut out = "Failed to parse JSON response: ".to_owned();
                out.append(message.as_str());
                out.append(". JSON: ");
                out.append(excerpt.as_str());
                out
            },
            ParseError::EmptyResult => "No questions found in JSON response".to_owned(),
        }
    }
}

/// The identifier of the question at `index`, counted from zero: `q1` for
/// the first.
pub open spec fn question_id(index: nat) -> Seq<char> {
    seq!['q'] + decimal(index + 1)
}

/// The questions with their identifiers set by position; nothing else
/// changes.
pub open spec fn numbered(questions: Seq<QuestionView>) -> Seq<QuestionView> {
    Seq::new(
        questions.len(),
        |i: int| QuestionView { id: question_id(i as nat), ..questions[i] },
    )
}

/// The first characters of the repaired payload, at most [`EXCERPT_LIMIT`].
pub open spec fn excerpt_of(clean: Seq<char>) -> Seq<char> {
    if clean.len() <= EXCERPT_LIMIT {
        clean
    } else {
        clean.take(EXCERPT_LIMIT as int)
    }
}

/// What becomes of a repaired payload, given what the JSON reader made of it.
pub open spec fn parsed_from_decoding(clean: Seq<char>, decoding: Result<Json, Seq<char>>) -> Result<
    Seq<QuestionView>,
    ParseErrorView,
> {
    match decoding {
        Err(message) => Err(ParseErrorView::InvalidJson { message, excerpt: excerpt_of(clean) }),
        Ok(tree) => match questions_of(tree) {
            Err(shape) => Err(
                ParseErrorView::InvalidJson {
                    message: shape_message(shape),
                    excerpt: excerpt_of(clean),
                },
            ),
            Ok(questions) => if questions.len() == 0 {
                Err(ParseErrorView::EmptyResult)
            } else {
                Ok(numbered(questions))
            },
        },
    }
}

/// What becomes of a model's answer.
pub open spec fn parsed(response: Seq<char>) -> Result<Seq<QuestionView>, ParseErrorView> {
    match candidate(response) {
        None => Err(ParseErrorView::NoJsonArrayFound),
        Some(found) => parsed_from_decoding(
            sanitized(found, false),
            json_decoding(sanitized(found, false)),
        ),
    }
}

/// An outcome of parsing, as plain mathematical values.
pub open spec fn outcome_view(outcome: Result<Vec<Question>, ParseError>) -> Result<
    Seq<QuestionView>,
    ParseErrorView,
> {
    match outcome {
        Ok(questions) => Ok(questions.deep_view()),
        Err(error) => Err(error@),
    }
}

/// The identifier of the question at `index`, counted from zero.
pub fn make_id(index: usize) -> (r: String)
    ensures
        r@ == question_id(index as nat),
{
    let mut id = String::new();
    push_char(&mut id, 'q');
    let number = decimal_string(index as u128 + 1);
    id.append(number.as_str());
    id
}

/// Numbers the questions `q1`, `q2`, and so on, in their order; nothing else
/// changes.
pub fn assign_ids(questions: &Vec<Question>) -> (r: Vec<Question>)
    ensures
        r.deep_view() == numbered(questions.deep_view()),
{
    let mut out: Vec<Question> = Vec::new();
    let mut i: usize = 0;
    while i < questions.len()
        invariant
            i <= questions.len(),
            out.len() == i,
            forall|j: int|
                0 <= j < i ==> (#[trigger] out[j])@ == (QuestionView {
                    id: question_id(j as nat),
                    ..questions[j]@
                }),
        decreases questions.len() - i,
    {
        let question = &questions[i];
        let renamed = Question {
            id: make_id(i),
            text: question.text.clone(),
            answers: question.answers.clone(),
            explanation: question.explanation.clone(),
            distractors: question.distractors.clone(),
            subject: question.subject.clone(),
            topics: question.topics.clone(),
        };
        proof {
            assert(renamed.answers.deep_view() =~= question.answers.deep_view());
            assert(renamed.topics.deep_view() =~= question.topics.deep_view());
        }
        out.push(renamed);
        i += 1;
    }
    assert(out.deep_view() =~= numbered(questions.deep_view()));
    out
}

/// The first characters of the repaired payload, at most [`EXCERPT_LIMIT`].
fn make_excerpt(clean: &Vec<char>) -> (r: String)
    ensures
        r@ == excerpt_of(clean@),
{
    let end: usize = if clean.len() <= EXCERPT_LIMIT {
        clean.len()
    } else {
        EXCERPT_LIMIT
    };
    let mut out = String::new();
    push_range(&mut out, clean, 0, end);
    assert(out@ =~= excerpt_of(clean@));
    out
}

/// Turns what the JSON reader made of the repaired payload `clean` into
/// numbered questions: the reader's message and an excerpt of `clean` where
/// it failed or where the tree is no array of questions, `EmptyResult` for an
/// empty array.
pub fn questions_from_decoding(clean: &Vec<char>, decoding: Result<Json, String>) -> (r: Result<
    Vec<Question>,
    ParseError,
>)
    ensures
        outcome_view(r) == parsed_from_decoding(
            clean@,
            match decoding {
                Ok(tree) => Ok(tree),
                Err(message) => Err(message@),
            },
        ),
{
    let tree = match decoding {
        Ok(tree) => tree,
        Err(message) => {
            return Err(ParseError::InvalidJson { message, excerpt: make_excerpt(clean) });
        },
    };
    let questions = match questions_from_json(&tree) {
        Ok(questions) => questions,
        Err(shape) => {
            return Err(
                ParseError::InvalidJson {
                    message: shape.message(),
                    excerpt: make_excerpt(clean),
                },
            );
        },
    };
    if questions.len() == 0 {
        return Err(ParseError::EmptyResult);
    }
    Ok(assign_ids(&questions))
}

/// Reads the questions out of a model's answer.
///
/// `Ok` holds every question of the first array of objects in the answer, in
/// its order, numbered from `q1`. The error says which step failed:
/// `NoJsonArrayFound` where there is no such array, `InvalidJson` where its
/// repaired text is no JSON array of questions, `EmptyResult` where it holds
/// none.
pub fn parse_llm_response(response: &str) -> (r: Result<Vec<Question>, ParseError>)
    ensures
        outcome_view(r) == parsed(response@),
{
    let text = chars_of(response);
    let found = match extract_first_json_array(&text) {
        Some(found) => found,
        None => {
            return Err(ParseError::NoJsonArrayFound);
        },
    };
    let clean = sanitize_json_escapes(&found);
    let clean_text = string_of(&clean);
    let decoding = decode_json(clean_text.as_str());
    questions_from_decoding(&clean, decoding)
}

/// Every question of a well-formed payload comes back, in its order and
/// numbered from `q1`, wherever the payload stands: in front of it any text
/// in which no array of objects opens, behind it any text at all.
pub proof fn lemma_round_trip(
    prefix: Seq<char>,
    payload: Seq<char>,
    suffix: Seq<char>,
    tree: Json,
    questions: Seq<QuestionView>,
)
    requires
        forall|j: int| !opens_object_array(prefix, j),
        opens_object_array(payload, 0),
        matching_close(payload, 0) == Some(payload.len() - 1),
        json_decoding(sanitized(payload, false)) == Ok::<Json, Seq<char>>(tree),
        questions_of(tree) == Ok::<Seq<QuestionView>, ShapeError>(questions),
        questions.len() >= 1,
    ensures
        parsed(prefix + payload + suffix) matches Ok(found) && found.len() == questions.len()
            && forall|i: int|
            0 <= i < found.len() ==> #[trigger] found[i] == (QuestionView {
                id: question_id(i as nat),
                ..questions[i]
            }),
{
    crate::scan::lemma_payload_found_in_prose(prefix, payload, suffix);
}

/// Whatever the answer, the questions that come back are numbered from
/// `q1` in their order, and there is at least one.
pub proof fn lemma_ids_count_from_one(response: Seq<char>)
    ensures
        parsed(response) matches Ok(found) ==> found.len() >= 1 && forall|i: int|
            0 <= i < found.len() ==> (#[trigger] found[i]).id == question_id(i as nat),
{
}

/// Only the first payload counts: what stands behind it, a second payload
/// too, changes nothing.
pub proof fn lemma_first_array_wins(prefix: Seq<char>, payload: Seq<char>, suffix: Seq<char>)
    requires
        forall|j: int| !opens_object_array(prefix, j),
        opens_object_array(payload, 0),
        matching_close(payload, 0) == Some(payload.len() - 1),
    ensures
        parsed(prefix + payload + suffix) == parsed(payload),
{
    crate::scan::lemma_payload_found_in_prose(prefix, payload, suffix);
    crate::scan::lemma_payload_found_in_prose(Seq::empty(), payload, Seq::empty());
    assert(Seq::<char>::empty() + payload + Seq::<char>::empty() =~= payload);
}

/// An answer without a `[` holds no array.
pub proof fn lemma_no_bracket_is_no_array(response: Seq<char>)
    requires
        !response.contains('['),
    ensures
        parsed(response) == Err::<Seq<QuestionView>, ParseErrorView>(
            ParseErrorView::NoJsonArrayFound,
        ),
{
    crate::scan::lemma_no_bracket_no_payload(response);
}

/// The repaired text is never shorter than the text it was made from.
proof fn lemma_sanitized_not_shorter(s: Seq<char>, in_string: bool)
    ensures
        sanitized(s, in_string).len() >= s.len(),
    decreases s.len(),
{
    if s.len() > 0 {
        if in_string && s[0] == '\\' && s.len() >= 2 && crate::repair::is_legal_escape(s[1]) {
            lemma_sanitized_not_shorter(s.skip(2), true);
        } else {
            lemma_sanitized_not_shorter(s.skip(1), true);
            lemma_sanitized_not_shorter(s.skip(1), false);
        }
    }
}

/// An `InvalidJson` error never comes with an empty excerpt.
pub proof fn lemma_invalid_json_has_excerpt(response: Seq<char>)
    ensures
        parsed(response) matches Err(ParseErrorView::InvalidJson { message, excerpt })
            ==> excerpt.len() > 0,
{
    if candidate(response) is Some {
        let (start, end) = candidate_bounds(response).unwrap();
        lemma_first_opening_is_least(response, 0);
        lemma_closing_in_range(response, start + 1, opened());
        let found = response.subrange(start, end + 1);
        lemma_sanitized_not_shorter(found, false);
    }
}

} // verus!
