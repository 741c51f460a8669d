//! From a JSON tree to question records.
//!
//! The payload is an array of objects. Each object names its text `text`,
//! `stem` or `content` (the first of these that is present counts) and its
//! choices `answers` or `options` (likewise). `explanation` and `distractors`
//! are optional free text; `subject` and `topics` are kept where the model
//! supplied them; an `id` is never read. Members with other names are
//! passed over.

use vstd::prelude::*;
use crate::json::{find_member, json_compact_text, json_pretty_text, member, Json};
use crate::json::{compact_json, pretty_json};
use crate::model::{Answer, AnswerView, Question, QuestionView};

verus! {

/// Why a JSON tree is no array of questions.
#[derive(Debug, Clone, Copy, PartialEq, Eq, Structural)]
pub enum ShapeError {
    NotAnArray,
    QuestionNotObject,
    MissingText,
    TextNotString,
    MissingAnswers,
    AnswersNotArray,
    AnswerNotObject,
    AnswerMissingText,
    AnswerTextNotString,
    AnswerMissingFlag,
    AnswerFlagNotBool,
    SubjectNotString,
    TopicsNotStrings,
}

/// The sentence that reports a [`ShapeError`].
pub open spec fn shape_message(error: ShapeError) -> Seq<char> {
    match error {
        ShapeError::NotAnArray => "expected an array of questions"@,
        ShapeError::QuestionNotObject => "a question is not an object"@,
        ShapeError::MissingText => "a question has no `text`"@,
        ShapeError::TextNotString => "the `text` of a question is not a string"@,
        ShapeError::MissingAnswers => "a question has no `answers`"@,
        ShapeError::AnswersNotArray => "the `answers` of a question are not an array"@,
        ShapeError::AnswerNotObject => "an answer is not an object"@,
        ShapeError::AnswerMissingText => "an answer has no `text`"@,
        ShapeError::AnswerTextNotString => "the `text` of an answer is not a string"@,
        ShapeError::AnswerMissingFlag => "an answer has no `is_correct`"@,
        ShapeError::AnswerFlagNotBool => "the `is_correct` of an answer is not a boolean"@,
        ShapeError::SubjectNotString => "the `subject` of a question is not a string"@,
        ShapeError::TopicsNotStrings => "the `topics` of a question are not an array of strings"@,
    }
}

impl ShapeError {
    /// The sentence that reports this error.
    pub fn message(&self) -> (r: String)
        ensures
            r@ == shape_message(*self),
    {
        let text = match self {
            ShapeError::NotAnArray => "expected an array of questions",
            ShapeError::QuestionNotObject => "a question is not an object",
            ShapeError::MissingText => "a question has no `text`",
            ShapeError::TextNotString => "the `text` of a question is not a string",
            ShapeError::MissingAnswers => "a question has no `answers`",
            ShapeError::AnswersNotArray => "the `answers` of a question are not an array",
            ShapeError::AnswerNotObject => "an answer is not an object",
            ShapeError::AnswerMissingText => "an answer has no `text`",
            ShapeError::AnswerTextNotString => "the `text` of an answer is not a string",
            ShapeError::AnswerMissingFlag => "an answer has no `is_correct`",
            ShapeError::AnswerFlagNotBool => "the `is_correct` of an answer is not a boolean",
            ShapeError::SubjectNotString => "the `subject` of a question is not a string",
            ShapeError::TopicsNotStrings => "the `topics` of a question are not an array of strings",
        };
        text.to_owned()
    }
}

/// A tree as text: indented where `serde_json` prints it so, else on one
/// line, else empty.
pub open spec fn printed(tree: Json) -> Seq<char> {
    match json_pretty_text(tree) {
        Some(text) => text,
        None => match json_compact_text(tree) {
            Some(text) => text,
            None => Seq::empty(),
        },
    }
}

/// An optional free-text member: absent or `null` is no text, a string is
/// its own text, and any other value is its printed form.
pub open spec fn optional_text(value: Option<Json>) -> Option<Seq<char>> {
    match value {
        None => None,
        Some(Json::Null) => None,
        Some(Json::Text(text)) => Some(text@),
        Some(other) => Some(printed(other)),
    }
}

/// The first member present among `first` and `second`.
pub open spec fn member_either(
    members: Seq<(String, Json)>,
    first: Seq<char>,
    second: Seq<char>,
) -> Option<Json> {
    match member(members, first) {
        Some(value) => Some(value),
        None => member(members, second),
    }
}

/// The member that holds a question's text: `text`, else `stem`, else
/// `content`.
pub open spec fn text_member(members: Seq<(String, Json)>) -> Option<Json> {
    match member(members, "text"@) {
        Some(value) => Some(value),
        None => member_either(members, "stem"@, "content"@),
    }
}

/// The member that holds a question's choices: `answers`, else `options`.
pub open spec fn answers_member(members: Seq<(String, Json)>) -> Option<Json> {
    member_either(members, "answers"@, "options"@)
}

/// The answer that one element of the choices stands for.
pub open spec fn answer_of(tree: Json) -> Result<AnswerView, ShapeError> {
    match tree {
        Json::Object(members) => match member(members@, "text"@) {
            None => Err(ShapeError::AnswerMissingText),
            Some(Json::Text(text)) => match member(members@, "is_correct"@) {
                None => Err(ShapeError::AnswerMissingFlag),
                Some(Json::Bool(flag)) => Ok(
                    AnswerView {
                        text: text@,
                        is_correct: flag,
                        explanation: optional_text(member(members@, "explanation"@)),
                    },
                ),
                Some(_) => Err(ShapeError::AnswerFlagNotBool),
            },
            Some(_) => Err(ShapeError::AnswerTextNotString),
        },
        _ => Err(ShapeError::AnswerNotObject),
    }
}

/// The answers that a list of elements stands for: all of them in order, or
/// the error of the first element that is no answer.
pub open spec fn answers_of(items: Seq<Json>) -> Result<Seq<AnswerView>, ShapeError>
    decreases items.len(),
{
    if items.len() == 0 {
        Ok(Seq::empty())
    } else {
        match answers_of(items.drop_last()) {
            Err(error) => Err(error),
            Ok(done) => match answer_of(items.last()) {
                Err(error) => Err(error),
                Ok(answer) => Ok(done.push(answer)),
            },
        }
    }
}

/// The strings of a list of elements, where every element is a string.
pub open spec fn texts_of(items: Seq<Json>) -> Option<Seq<Seq<char>>>
    decreases items.len(),
{
    if items.len() == 0 {
        Some(Seq::empty())
    } else {
        match (texts_of(items.drop_last()), items.last()) {
            (Some(done), Json::Text(text)) => Some(done.push(text@)),
            _ => None,
        }
    }
}

/// The subject that a question's members give: none is the empty subject.
pub open spec fn subject_of(members: Seq<(String, Json)>) -> Result<Seq<char>, ShapeError> {
    match member(members, "subject"@) {
        None => Ok(Seq::empty()),
        Some(Json::Text(text)) => Ok(text@),
        Some(_) => Err(ShapeError::SubjectNotString),
    }
}

/// The topics that a question's members give: none is the empty list.
pub open spec fn topics_of(members: Seq<(String, Json)>) -> Result<Seq<Seq<char>>, ShapeError> {
    match member(members, "topics"@) {
        None => Ok(Seq::empty()),
        Some(Json::Array(items)) => match texts_of(items@) {
            Some(texts) => Ok(texts),
            None => Err(ShapeError::TopicsNotStrings),
        },
        Some(_) => Err(ShapeError::TopicsNotStrings),
    }
}

/// The question that one element of the payload stands for, its `id` left
/// empty.
pub open spec fn question_of(tree: Json) -> Result<QuestionView, ShapeError> {
    match tree {
        Json::Object(members) => match text_member(members@) {
            None => Err(ShapeError::MissingText),
            Some(Json::Text(text)) => match answers_member(members@) {
                None => Err(ShapeError::MissingAnswers),
                Some(Json::Array(items)) => match answers_of(items@) {
                    Err(error) => Err(error),
                    Ok(answers) => match subject_of(members@) {
                        Err(error) => Err(error),
                        Ok(subject) => match topics_of(members@) {
                            Err(error) => Err(error),
                            Ok(topics) => Ok(
                                QuestionView {
                                    id: Seq::empty(),
                                    text: text@,
                                    answers,
                                    explanation: optional_text(
                                        member(members@, "explanation"@),
                                    ),
                                    distractors: optional_text(
                                        member(members@, "distractors"@),
                                    ),
                                    subject,
                                    topics,
                                },
                            ),
                        },
                    },
                },
                Some(_) => Err(ShapeError::AnswersNotArray),
            },
            Some(_) => Err(ShapeError::TextNotString),
        },
        _ => Err(ShapeError::QuestionNotObject),
    }
}

/// The questions that a list of elements stands for: all of them in order,
/// or the error of the first element that is no question.
pub open spec fn questions_in(items: Seq<Json>) -> Result<Seq<QuestionView>, ShapeError>
    decreases items.len(),
{
    if items.len() == 0 {
        Ok(Seq::empty())
    } else {
        match questions_in(items.drop_last()) {
            Err(error) => Err(error),
            Ok(done) => match question_of(items.last()) {
                Err(error) => Err(error),
                Ok(question) => Ok(done.push(question)),
            },
        }
    }
}

/// The questions that a payload stands for.
pub open spec fn questions_of(tree: Json) -> Result<Seq<QuestionView>, ShapeError> {
    match tree {
        Json::Array(items) => questions_in(items@),
        _ => Err(ShapeError::NotAnArray),
    }
}

/// A tree as text on one line; empty where `serde_json` prints none.
pub open spec fn compact_text(tree: Json) -> Seq<char> {
    match json_compact_text(tree) {
        Some(text) => text,
        None => Seq::empty(),
    }
}

/// A tree as text on one line; empty where `serde_json` prints none.
pub fn print_compact(tree: &Json) -> (r: String)
    ensures
        r@ == compact_text(*tree),
{
    match compact_json(tree) {
        Some(text) => text,
        None => String::new(),
    }
}

/// A tree as text: indented where `serde_json` prints it so, else on one
/// line, else empty.
pub fn print_json(tree: &Json) -> (r: String)
    ensures
        r@ == printed(*tree),
{
    match pretty_json(tree) {
        Some(text) => text,
        None => match compact_json(tree) {
            Some(text) => text,
            None => String::new(),
        },
    }
}

/// Reads an optional free-text member: absent or `null` is no text, a string
/// is its own text, and any other value is its printed form.
pub fn de_opt_string_or_json(value: Option<&Json>) -> (r: Option<String>)
    ensures
        match value {
            Some(tree) => r.deep_view() == optional_text(Some(*tree)),
            None => r.deep_view() == optional_text(None),
        },
{
    match value {
        None => None,
        Some(Json::Null) => None,
        Some(Json::Text(text)) => Some(text.clone()),
        Some(other) => Some(print_json(other)),
    }
}

/// Looks up the first member present among `first` and `second`.
fn find_either<'a>(members: &'a Vec<(String, Json)>, first: &str, second: &str) -> (r: Option<
    &'a Json,
>)
    ensures
        match r {
            Some(value) => member_either(members@, first@, second@) == Some(*value),
            None => member_either(members@, first@, second@) is None,
        },
{
    match find_member(members, first) {
        Some(value) => Some(value),
        None => find_member(members, second),
    }
}

/// Reads one answer.
pub fn answer_from_json(tree: &Json) -> (r: Result<Answer, ShapeError>)
    ensures
        match r {
            Ok(answer) => answer_of(*tree) == Ok::<AnswerView, ShapeError>(answer@),
            Err(error) => answer_of(*tree) == Err::<AnswerView, ShapeError>(error),
        },
{
    let members = match tree {
        Json::Object(members) => members,
        _ => {
            return Err(ShapeError::AnswerNotObject);
        },
    };
    let text = match find_member(members, "text") {
        None => {
            return Err(ShapeError::AnswerMissingText);
        },
        Some(Json::Text(text)) => text.clone(),
        Some(_) => {
            return Err(ShapeError::AnswerTextNotString);
        },
    };
    let is_correct = match find_member(members, "is_correct") {
        None => {
            return Err(ShapeError::AnswerMissingFlag);
        },
        Some(Json::Bool(flag)) => *flag,
        Some(_) => {
            return Err(ShapeError::AnswerFlagNotBool);
        },
    };
    let explanation = de_opt_string_or_json(find_member(members, "explanation"));
    Ok(Answer { text, is_correct, explanation })
}

/// Reads the answers of a question.
pub fn answers_from_json(items: &Vec<Json>) -> (r: Result<Vec<Answer>, ShapeError>)
    ensures
        match r {
            Ok(answers) => answers_of(items@) == Ok::<Seq<AnswerView>, ShapeError>(
                answers.deep_view(),
            ),
            Err(error) => answers_of(items@) == Err::<Seq<AnswerView>, ShapeError>(error),
        },
{
    let mut out: Vec<Answer> = Vec::new();
    let mut i: usize = 0;
    proof {
        assert(out.deep_view() =~= Seq::empty());
    }
    while i < items.len()
        invariant
            i <= items.len(),
            answers_of(items@.take(i as int)) == Ok::<Seq<AnswerView>, ShapeError>(
                out.deep_view(),
            ),
        decreases items.len() - i,
    {
        proof {
            assert(items@.take(i + 1).drop_last() =~= items@.take(i as int));
            assert(items@.take(i + 1).last() == items@[i as int]);
        }
        let ghost done = out.deep_view();
        match answer_from_json(&items[i]) {
            Ok(answer) => {
                out.push(answer);
                assert(out.deep_view() =~= done.push(answer@));
            },
            Err(error) => {
                proof {
                    lemma_answers_error_stays(items@, i + 1);
                }
                return Err(error);
            },
        }
        i += 1;
    }
    assert(items@.take(items.len() as int) =~= items@);
    Ok(out)
}

/// Once a prefix of the elements has failed, the whole list fails alike.
pub proof fn lemma_answers_error_stays(items: Seq<Json>, n: int)
    requires
        0 <= n <= items.len(),
        answers_of(items.take(n)) is Err,
    ensures
        answers_of(items) == answers_of(items.take(n)),
    decreases items.len() - n,
{
    if n < items.len() {
        assert(items.take(n + 1).drop_last() =~= items.take(n));
        lemma_answers_error_stays(items, n + 1);
    } else {
        assert(items.take(n) =~= items);
    }
}

/// Once a prefix of the elements has failed, the whole list fails alike.
pub proof fn lemma_questions_error_stays(items: Seq<Json>, n: int)
    requires
        0 <= n <= items.len(),
        questions_in(items.take(n)) is Err,
    ensures
        questions_in(items) == questions_in(items.take(n)),
    decreases items.len() - n,
{
    if n < items.len() {
        assert(items.take(n + 1).drop_last() =~= items.take(n));
        lemma_questions_error_stays(items, n + 1);
    } else {
        assert(items.take(n) =~= items);
    }
}

/// Reads a list of strings; `None` where an element is no string.
pub fn texts_from_json(items: &Vec<Json>) -> (r: Option<Vec<String>>)
    ensures
        r.deep_view() == texts_of(items@),
{
    let mut out: Vec<String> = Vec::new();
    let mut i: usize = 0;
    proof {
        assert(out.deep_view() =~= Seq::empty());
    }
    while i < items.len()
        invariant
            i <= items.len(),
            texts_of(items@.take(i as int)) == Some(out.deep_view()),
        decreases items.len() - i,
    {
        proof {
            assert(items@.take(i + 1).drop_last() =~= items@.take(i as int));
            assert(items@.take(i + 1).last() == items@[i as int]);
        }
        let ghost done = out.deep_view();
        match &items[i] {
            Json::Text(text) => {
                out.push(text.clone());
                assert(out.deep_view() =~= done.push(text@));
            },
            _ => {
                proof {
                    lemma_texts_failure_stays(items@, i + 1);
                }
                return None;
            },
        }
        i += 1;
    }
    assert(items@.take(items.len() as int) =~= items@);
    Some(out)
}

/// Once a prefix of the elements holds something else than a string, so does
/// the whole list.
pub proof fn lemma_texts_failure_stays(items: Seq<Json>, n: int)
    requires
        0 <= n <= items.len(),
        texts_of(items.take(n)) is None,
    ensures
        texts_of(items) is None,
    decreases items.len() - n,
{
    if n < items.len() {
        assert(items.take(n + 1).drop_last() =~= items.take(n));
        lemma_texts_failure_stays(items, n + 1);
    } else {
        assert(items.take(n) =~= items);
    }
}

/// Reads one question; its `id` is left empty.
pub fn question_from_json(tree: &Json) -> (r: Result<Question, ShapeError>)
    ensures
        match r {
            Ok(question) => question_of(*tree) == Ok::<QuestionView, ShapeError>(question@),
            Err(error) => question_of(*tree) == Err::<QuestionView, ShapeError>(error),
        },
{
    let members = match tree {
        Json::Object(members) => members,
        _ => {
            return Err(ShapeError::QuestionNotObject);
        },
    };
    let found_text = match find_member(members, "text") {
        Some(value) => Some(value),
        None => find_either(members, "stem", "content"),
    };
    let text = match found_text {
        None => {
            return Err(ShapeError::MissingText);
        },
        Some(Json::Text(text)) => text.clone(),
        Some(_) => {
            return Err(ShapeError::TextNotString);
        },
    };
    let answers = match find_either(members, "answers", "options") {
        None => {
            return Err(ShapeError::MissingAnswers);
        },
        Some(Json::Array(items)) => match answers_from_json(items) {
            Ok(answers) => answers,
            Err(error) => {
                return Err(error);
            },
        },
        Some(_) => {
            return Err(ShapeError::AnswersNotArray);
        },
    };
    let subject = match find_member(members, "subject") {
        None => String::new(),
        Some(Json::Text(text)) => text.clone(),
        Some(_) => {
            return Err(ShapeError::SubjectNotString);
        },
    };
    let topics = match find_member(members, "topics") {
        None => Vec::new(),
        Some(Json::Array(items)) => match texts_from_json(items) {
            Some(texts) => texts,
            None => {
                return Err(ShapeError::TopicsNotStrings);
            },
        },
        Some(_) => {
            return Err(ShapeError::TopicsNotStrings);
        },
    };
    let explanation = de_opt_string_or_json(find_member(members, "explanation"));
    let distractors = de_opt_string_or_json(find_member(members, "distractors"));
    let question = Question {
        id: String::new(),
        text,
        answers,
        explanation,
        distractors,
        subject,
        topics,
    };
    proof {
        assert(question.topics.deep_view() =~= topics_of(members@).unwrap());
    }
    Ok(question)
}

/// Reads the payload: an array of questions, their `id`s left empty.
pub fn questions_from_json(tree: &Json) -> (r: Result<Vec<Question>, ShapeError>)
    ensures
        match r {
            Ok(questions) => questions_of(*tree) == Ok::<Seq<QuestionView>, ShapeError>(
                questions.deep_view(),
            ),
            Err(error) => questions_of(*tree) == Err::<Seq<QuestionView>, ShapeError>(error),
        },
{
    let items = match tree {
        Json::Array(items) => items,
        _ => {
            return Err(ShapeError::NotAnArray);
        },
    };
    let mut out: Vec<Question> = Vec::new();
    let mut i: usize = 0;
    proof {
        assert(out.deep_view() =~= Seq::empty());
    }
    while i < items.len()
        invariant
            i <= items.len(),
            questions_of(*tree) == questions_in(items@),
            questions_in(items@.take(i as int)) == Ok::<Seq<QuestionView>, ShapeError>(
                out.deep_view(),
            ),
        decreases items.len() - i,
    {
        proof {
            assert(items@.take(i + 1).drop_last() =~= items@.take(i as int));
            assert(items@.take(i + 1).last() == items@[i as int]);
        }
        let ghost done = out.deep_view();
        match question_from_json(&items[i]) {
            Ok(question) => {
                out.push(question);
                assert(out.deep_view() =~= done.push(question@));
            },
            Err(error) => {
                proof {
                    lemma_questions_error_stays(items@, i + 1);
                }
                return Err(error);
            },
        }
        i += 1;
    }
    assert(items@.take(items.len() as int) =~= items@);
    Ok(out)
}

/// The name under which the current format knows a member of the legacy
/// format: `options` became `answers`.
pub open spec fn current_name(key: Seq<char>) -> Seq<char> {
    if key == "options"@ {
        "answers"@
    } else {
        key
    }
}

/// Are the members `current` those of `legacy`, with `options` renamed to
/// `answers`?
pub open spec fn renamed_options(legacy: Seq<(String, Json)>, current: Seq<(String, Json)>) -> bool {
    &&& current.len() == legacy.len()
    &&& forall|i: int|
        0 <= i < legacy.len() ==> (#[trigger] current[i]).1 == legacy[i].1 && current[i].0@
            == current_name(legacy[i].0@)
}

proof fn lemma_renamed_member(
    legacy: Seq<(String, Json)>,
    current: Seq<(String, Json)>,
    key: Seq<char>,
)
    requires
        renamed_options(legacy, current),
        member(legacy, "answers"@) is None,
        "answers"@ != "options"@,
    ensures
        member(current, key) == if key == "answers"@ {
            member(legacy, "options"@)
        } else if key == "options"@ {
            None
        } else {
            member(legacy, key)
        },
    decreases legacy.len(),
{
    if legacy.len() > 0 {
        assert(current[0].1 == legacy[0].1);
        assert forall|i: int| 0 <= i < legacy.skip(1).len() implies (#[trigger] current.skip(
            1,
        )[i]).1 == legacy.skip(1)[i].1 && current.skip(1)[i].0@ == current_name(
            legacy.skip(1)[i].0@,
        ) by {
            assert(current[i + 1].1 == legacy[i + 1].1);
        }
        lemma_renamed_member(legacy.skip(1), current.skip(1), key);
    }
}

/// An object that names its choices `options` reads as the same object with
/// that member named `answers`.
pub proof fn lemma_options_alias(legacy: Vec<(String, Json)>, current: Vec<(String, Json)>)
    requires
        member(legacy@, "answers"@) is None,
        renamed_options(legacy@, current@),
    ensures
        question_of(Json::Object(current)) == question_of(Json::Object(legacy)),
{
    reveal_strlit("answers");
    reveal_strlit("options");
    reveal_strlit("text");
    reveal_strlit("stem");
    reveal_strlit("content");
    reveal_strlit("subject");
    reveal_strlit("topics");
    reveal_strlit("explanation");
    reveal_strlit("distractors");
    assert("answers"@ != "options"@) by {
        assert("answers"@[0] != "options"@[0]);
    }
    assert("text"@.len() == 4 && "stem"@.len() == 4);
    assert("topics"@.len() == 6);
    assert("explanation"@.len() == 11 && "distractors"@.len() == 11);
    assert("content"@[0] == 'c' && "subject"@[0] == 's');
    assert("answers"@[0] == 'a' && "options"@[0] == 'o');
    assert("answers"@.len() == 7 && "options"@.len() == 7);
    lemma_renamed_member(legacy@, current@, "answers"@);
    lemma_renamed_member(legacy@, current@, "options"@);
    lemma_renamed_member(legacy@, current@, "text"@);
    lemma_renamed_member(legacy@, current@, "stem"@);
    lemma_renamed_member(legacy@, current@, "content"@);
    lemma_renamed_member(legacy@, current@, "subject"@);
    lemma_renamed_member(legacy@, current@, "topics"@);
    lemma_renamed_member(legacy@, current@, "explanation"@);
    lemma_renamed_member(legacy@, current@, "distractors"@);
}

} // verus!
