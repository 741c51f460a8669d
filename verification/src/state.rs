//! The question set that the application works on, and the steps that change
//! it.
//!
//! The set has one owner. A step either succeeds and leaves the set in the
//! state that its contract names, or fails and leaves it as it was. Asking
//! the model lies between two steps: one builds the prompt, the next takes
//! the model's answer.

use vstd::prelude::*;
use crate::knowledge::{bank_examples, KnowledgeBase, KnowledgeBaseView};
use crate::model::{
    Answer, GenerationRequest, GenerationRequestView, Question, QuestionView, SubjectInfo,
    TopicInfo, TopicInfoView,
};
use crate::parser::{
    make_id, outcome_view, parse_llm_response, parsed, question_id, ParseError, ParseErrorView,
};
use crate::prompts::{
    build_generation_prompt, build_regenerate_prompt, generation_prompt, regenerate_prompt,
};
use crate::qti::{export_txt, txt_export};

verus! {

/// How many examples a prompt for new questions shows at most.
pub const GENERATION_EXAMPLES: usize = 3;

/// How many examples a prompt for a replacement shows at most.
pub const REGENERATION_EXAMPLES: usize = 1;

/// The subject that stands in for a question without one.
pub const DEFAULT_SUBJECT: &'static str = "Computer Science";

/// The topic that stands in for a question without one.
pub const DEFAULT_TOPIC: &'static str = "recursion";

/// The question set and the knowledge store.
pub struct AppState {
    pub questions: Vec<Question>,
    pub knowledge: KnowledgeBase,
}

/// What an [`AppState`] holds, as plain mathematical values.
pub struct AppStateView {
    pub questions: Seq<QuestionView>,
    pub knowledge: KnowledgeBaseView,
}

impl View for AppState {
    type V = AppStateView;

    open spec fn view(&self) -> AppStateView {
        AppStateView { questions: self.questions.deep_view(), knowledge: self.knowledge@ }
    }
}

/// Why a step on the question set failed.
#[derive(Debug)]
pub enum RequestError {
    /// The index names no question of the set.
    InvalidRequestIndex,
    /// The model's answer gave no questions.
    Parse(ParseError),
}

/// What a [`RequestError`] holds, as plain mathematical values.
pub enum RequestErrorView {
    InvalidRequestIndex,
    Parse(ParseErrorView),
}

impl View for RequestError {
    type V = RequestErrorView;

    open spec fn view(&self) -> RequestErrorView {
        match self {
            RequestError::InvalidRequestIndex => RequestErrorView::InvalidRequestIndex,
            RequestError::Parse(error) => RequestErrorView::Parse(error@),
        }
    }
}

/// The sentence that reports a [`RequestError`].
pub open spec fn request_error_message(error: RequestErrorView) -> Seq<char> {
    match error {
        RequestErrorView::InvalidRequestIndex => "Invalid question index"@,
        RequestErrorView::Parse(cause) => crate::parser::error_message(cause),
    }
}

impl RequestError {
    /// The sentence that reports this error.
    pub fn message(&self) -> (r: String)
        ensures
            r@ == request_error_message(self@),
    {
        match self {
            RequestError::InvalidRequestIndex => "Invalid question index".to_owned(),
            RequestError::Parse(cause) => cause.message(),
        }
    }
}

/// The questions with the subject and topics of the request that they were
/// made for.
pub open spec fn tagged(questions: Seq<QuestionView>, subject: Seq<char>, topics: Seq<Seq<char>>) -> Seq<
    QuestionView,
> {
    questions.map_values(|q: QuestionView| QuestionView { subject, topics, ..q })
}

/// The questions with identifiers that count on from `start`: the first one
/// gets the number `start + 1`.
pub open spec fn renumbered(questions: Seq<QuestionView>, start: nat) -> Seq<QuestionView> {
    Seq::new(
        questions.len(),
        |i: int| QuestionView { id: question_id((start + i) as nat), ..questions[i] },
    )
}

/// The set after new questions were taken in: behind the old ones and
/// numbered on from them where the request appends, else in their place.
pub open spec fn after_generation(
    old_questions: Seq<QuestionView>,
    request: GenerationRequestView,
    fresh: Seq<QuestionView>,
) -> Seq<QuestionView> {
    let made = tagged(fresh, request.subject, request.topics);
    if request.append {
        old_questions + renumbered(made, old_questions.len())
    } else {
        made
    }
}

/// The question that takes the place of `current`: the first of the fresh
/// ones, with the identifier, subject and topics of `current`.
pub open spec fn replacement(current: QuestionView, fresh: QuestionView) -> QuestionView {
    QuestionView { id: current.id, subject: current.subject, topics: current.topics, ..fresh }
}

/// The subject under which examples for a replacement are looked up.
pub open spec fn subject_or_default(question: QuestionView) -> Seq<char> {
    if question.subject.len() == 0 {
        DEFAULT_SUBJECT@
    } else {
        question.subject
    }
}

/// The topics under which examples for a replacement are looked up.
pub open spec fn topics_or_default(question: QuestionView) -> Seq<Seq<char>> {
    if question.topics.len() == 0 {
        seq![DEFAULT_TOPIC@]
    } else {
        question.topics
    }
}

/// The question that an empty slot of the set starts with.
pub open spec fn blank_question(position: nat) -> QuestionView {
    QuestionView {
        id: question_id(position),
        text: "New question"@,
        answers: seq![
            crate::model::AnswerView {
                text: "Correct answer"@,
                is_correct: true,
                explanation: None,
            },
            crate::model::AnswerView {
                text: "Wrong answer"@,
                is_correct: false,
                explanation: None,
            },
            crate::model::AnswerView {
                text: "Wrong answer"@,
                is_correct: false,
                explanation: None,
            },
            crate::model::AnswerView {
                text: "Wrong answer"@,
                is_correct: false,
                explanation: None,
            },
        ],
        explanation: None,
        distractors: None,
        subject: Seq::empty(),
        topics: Seq::empty(),
    }
}

/// Copies of the questions.
fn copy_questions(questions: &Vec<Question>) -> (r: Vec<Question>)
    ensures
        r.deep_view() == questions.deep_view(),
{
    let copy = questions.clone();
    assert(copy.deep_view() =~= questions.deep_view());
    copy
}

/// Copies of the strings.
fn copy_strings(strings: &Vec<String>) -> (r: Vec<String>)
    ensures
        r.deep_view() == strings.deep_view(),
{
    let copy = strings.clone();
    assert(copy.deep_view() =~= strings.deep_view());
    copy
}

/// A wrong answer of the question that an empty slot starts with.
fn wrong_answer() -> (r: Answer)
    ensures
        r@ == (crate::model::AnswerView {
            text: "Wrong answer"@,
            is_correct: false,
            explanation: None,
        }),
{
    Answer { text: "Wrong answer".to_owned(), is_correct: false, explanation: None }
}

impl AppState {
    /// A state without questions.
    pub fn new(knowledge: KnowledgeBase) -> (r: Self)
        ensures
            r@.questions.len() == 0,
            r.knowledge == knowledge,
    {
        let state = AppState { questions: Vec::new(), knowledge };
        assert(state.questions.deep_view() =~= Seq::empty());
        state
    }

    /// The subjects of the knowledge store.
    pub fn get_subjects(&self) -> (r: Vec<SubjectInfo>)
        ensures
            r.deep_view() == self@.knowledge.subjects.map_values(
                |pair: (Seq<char>, Seq<TopicInfoView>)| crate::knowledge::subject_info(pair),
            ),
    {
        self.knowledge.get_subjects()
    }

    /// The topics of a subject.
    pub fn get_topics(&self, subject: &str) -> (r: Vec<TopicInfo>)
        ensures
            r.deep_view() == crate::knowledge::topics_of(self@.knowledge, subject@),
    {
        self.knowledge.get_topics(subject)
    }

    /// The questions of the set.
    pub fn get_questions(&self) -> (r: Vec<Question>)
        ensures
            r.deep_view() == self@.questions,
    {
        copy_questions(&self.questions)
    }

    /// Puts a new set in the place of the old one.
    pub fn set_questions(&mut self, new_questions: Vec<Question>)
        ensures
            final(self)@.questions == new_questions.deep_view(),
            final(self).knowledge == old(self).knowledge,
    {
        self.questions = new_questions;
    }

    /// Puts a question in the place of the one at `index`. Fails, and
    /// changes nothing, where the set has no question at `index`.
    pub fn update_question(&mut self, index: usize, question: Question) -> (r: Result<
        (),
        RequestError,
    >)
        ensures
            final(self).knowledge == old(self).knowledge,
            index < old(self)@.questions.len() ==> r is Ok && final(self)@.questions == old(
                self,
            )@.questions.update(index as int, question@),
            index >= old(self)@.questions.len() ==> (r matches Err(
                RequestError::InvalidRequestIndex,
            )) && final(self)@.questions == old(self)@.questions,
    {
        if index >= self.questions.len() {
            return Err(RequestError::InvalidRequestIndex);
        }
        self.questions.set(index, question);
        assert(self.questions.deep_view() =~= old(self).questions.deep_view().update(
            index as int,
            question@,
        ));
        Ok(())
    }

    /// Removes the question at `index`; those behind it move up. Fails, and
    /// changes nothing, where the set has no question at `index`.
    pub fn delete_question(&mut self, index: usize) -> (r: Result<(), RequestError>)
        ensures
            final(self).knowledge == old(self).knowledge,
            index < old(self)@.questions.len() ==> r is Ok && final(self)@.questions == old(
                self,
            )@.questions.remove(index as int),
            index >= old(self)@.questions.len() ==> (r matches Err(
                RequestError::InvalidRequestIndex,
            )) && final(self)@.questions == old(self)@.questions,
    {
        if index >= self.questions.len() {
            return Err(RequestError::InvalidRequestIndex);
        }
        self.questions.remove(index);
        assert(self.questions.deep_view() =~= old(self).questions.deep_view().remove(
            index as int,
        ));
        Ok(())
    }

    /// Adds a question to fill in at the end of the set, numbered by its
    /// place, and hands out a copy of it.
    pub fn add_question(&mut self) -> (r: Question)
        ensures
            final(self).knowledge == old(self).knowledge,
            r@ == blank_question(old(self)@.questions.len()),
            final(self)@.questions == old(self)@.questions.push(r@),
    {
        let mut answers: Vec<Answer> = Vec::new();
        answers.push(
            Answer { text: "Correct answer".to_owned(), is_correct: true, explanation: None },
        );
        answers.push(wrong_answer());
        answers.push(wrong_answer());
        answers.push(wrong_answer());
        let question = Question {
            id: make_id(self.questions.len()),
            text: "New question".to_owned(),
            answers,
            explanation: None,
            distractors: None,
            subject: String::new(),
            topics: Vec::new(),
        };
        proof {
            assert(question.answers.deep_view() =~= blank_question(
                old(self)@.questions.len(),
            ).answers);
            assert(question.topics.deep_view() =~= Seq::empty());
            assert(old(self).questions.deep_view().len() == old(self).questions.len());
        }
        let copy = question.clone();
        self.questions.push(question);
        assert(self.questions.deep_view() =~= old(self).questions.deep_view().push(copy@));
        copy
    }

    /// The set as text, under a title.
    pub fn export_to_txt(&self, title: &str) -> (r: Result<String, String>)
        ensures
            r matches Ok(text) && text@ == txt_export(title@, self@.questions),
    {
        export_txt(title, self.questions.as_slice())
    }

    /// The set as a package for a learning platform, under a title.
    pub fn export_to_qti(&self, title: &str) -> (r: Result<Vec<u8>, String>)
        ensures
            crate::qti::export_view(r) == crate::qti::qti_zip(title@, self@.questions),
    {
        let questions = self.questions.as_slice();
        proof {
            assert(questions.deep_view() =~= self@.questions);
        }
        crate::qti::export_qti_zip(title, questions)
    }

    /// The set as the Markdown for a Word document, under a title, with the
    /// answers of each question shuffled.
    pub fn export_to_docx(&self, title: &str) -> (r: String)
        ensures
            exists|orders: Seq<Seq<usize>>|
                #![trigger crate::docx::docx_markdown(title@, self@.questions, orders)]
                {
                    &&& orders.len() == self@.questions.len()
                    &&& forall|i: int|
                        0 <= i < orders.len() ==> crate::docx::is_order(
                            #[trigger] orders[i],
                            self@.questions[i].answers.len(),
                        )
                    &&& r@ == crate::docx::docx_markdown(title@, self@.questions, orders)
                },
    {
        let questions = self.questions.as_slice();
        let markdown = crate::docx::export_docx_markdown(title, questions);
        proof {
            assert(questions.deep_view() =~= self@.questions);
        }
        markdown
    }

    /// The prompt that asks for the questions of a request: it shows up to
    /// three examples of the requested subject, topics and difficulty.
    pub fn generation_prompt(&self, request: &GenerationRequest, prompt_template: Option<&str>) -> (r:
        String)
        ensures
            r@ == generation_prompt(
                request@,
                bank_examples(
                    self@.knowledge,
                    request@.subject,
                    request@.topics,
                    Some(request@.difficulty),
                    GENERATION_EXAMPLES as nat,
                ),
                prompt_template.deep_view(),
            ),
    {
        let examples = self.knowledge.get_bank_examples(
            request.subject.as_str(),
            request.topics.as_slice(),
            Some(request.difficulty.as_str()),
            GENERATION_EXAMPLES,
        );
        build_generation_prompt(request, examples.as_slice(), prompt_template)
    }

    /// Takes in the model's answer to a request for questions.
    ///
    /// Where the answer gives no questions, the error says why and the set
    /// stays as it was. Else the questions get the subject and topics of the
    /// request and go behind the old ones, numbered on from them, where the
    /// request appends, or into their place where it does not; the whole
    /// set is handed out.
    pub fn generate_questions(&mut self, request: &GenerationRequest, response: &str) -> (r: Result<
        Vec<Question>,
        ParseError,
    >)
        ensures
            final(self).knowledge == old(self).knowledge,
            match parsed(response@) {
                Ok(fresh) => final(self)@.questions == after_generation(
                    old(self)@.questions,
                    request@,
                    fresh,
                ) && outcome_view(r) == Ok::<Seq<QuestionView>, ParseErrorView>(
                    final(self)@.questions,
                ),
                Err(error) => final(self)@.questions == old(self)@.questions && outcome_view(r)
                    == Err::<Seq<QuestionView>, ParseErrorView>(error),
            },
    {
        let fresh = match parse_llm_response(response) {
            Ok(fresh) => fresh,
            Err(error) => {
                return Err(error);
            },
        };
        let start: usize = if request.append {
            self.questions.len()
        } else {
            0
        };
        let ghost made = tagged(fresh.deep_view(), request@.subject, request@.topics);
        let mut stored: Vec<Question> = if request.append {
            copy_questions(&self.questions)
        } else {
            Vec::new()
        };
        let ghost kept = stored.deep_view();
        proof {
            if !request.append {
                assert(kept =~= Seq::empty());
            }
            assert(kept.len() == start);
        }
        let mut i: usize = 0;
        while i < fresh.len()
            invariant
                i <= fresh.len(),
                made == tagged(fresh.deep_view(), request@.subject, request@.topics),
                kept.len() == start,
                stored.len() == start + i,
                stored.deep_view().take(start as int) == kept,
                forall|k: int|
                    start <= k < start + i ==> #[trigger] stored.deep_view()[k] == (
                    if request.append {
                        QuestionView { id: question_id(k as nat), ..made[k - start] }
                    } else {
                        made[k - start]
                    }),
            decreases fresh.len() - i,
        {
            let question = &fresh[i];
            let id = if request.append {
                make_id(stored.len())
            } else {
                question.id.clone()
            };
            let renamed = Question {
                id,
                text: question.text.clone(),
                answers: question.answers.clone(),
                explanation: question.explanation.clone(),
                distractors: question.distractors.clone(),
                subject: request.subject.clone(),
                topics: copy_strings(&request.topics),
            };
            proof {
                assert(renamed.answers.deep_view() =~= question.answers.deep_view());
                assert(fresh.deep_view()[i as int] == question@);
            }
            let ghost before = stored.deep_view();
            stored.push(renamed);
            proof {
                assert(stored.deep_view().take(start as int) =~= before.take(start as int));
                assert forall|k: int| start <= k < start + i + 1 implies #[trigger] stored.deep_view()[k]
                    == (if request.append {
                    QuestionView { id: question_id(k as nat), ..made[k - start] }
                } else {
                    made[k - start]
                }) by {
                    if k < start + i {
                        assert(stored.deep_view()[k] == before[k]);
                    }
                }
            }
            i += 1;
        }
        proof {
            if request.append {
                assert(stored.deep_view() =~= kept + renumbered(made, kept.len()));
            } else {
                assert(stored.deep_view() =~= made);
            }
        }
        let all = copy_questions(&stored);
        self.questions = stored;
        Ok(all)
    }

    /// The prompt that asks for a replacement of the question at `index`:
    /// it shows up to one example of the question's subject and topics (of
    /// the stand-in subject and topic where the question has none), whatever
    /// its difficulty, and names other questions of the set. Fails where
    /// the set has no question at `index`.
    pub fn regeneration_prompt(
        &self,
        index: usize,
        instructions: Option<&str>,
        prompt_template: Option<&str>,
    ) -> (r: Result<String, RequestError>)
        ensures
            index >= self@.questions.len() ==> (r matches Err(RequestError::InvalidRequestIndex)),
            index < self@.questions.len() ==> (r matches Ok(prompt) && prompt@
                == regenerate_prompt(
                self@.questions[index as int],
                self@.questions,
                bank_examples(
                    self@.knowledge,
                    subject_or_default(self@.questions[index as int]),
                    topics_or_default(self@.questions[index as int]),
                    None,
                    REGENERATION_EXAMPLES as nat,
                ),
                instructions.deep_view(),
                prompt_template.deep_view(),
            )),
    {
        if index >= self.questions.len() {
            return Err(RequestError::InvalidRequestIndex);
        }
        let current = &self.questions[index];
        proof {
            assert(self@.questions[index as int] == current@);
            assert(current.topics.deep_view().len() == current.topics.len());
        }
        let is_unnamed = current.subject.as_str().is_empty();
        let subject: &str = if is_unnamed {
            DEFAULT_SUBJECT
        } else {
            current.subject.as_str()
        };
        let mut stand_in: Vec<String> = Vec::new();
        stand_in.push(DEFAULT_TOPIC.to_owned());
        assert(stand_in.deep_view() =~= seq![DEFAULT_TOPIC@]);
        let topics: &Vec<String> = if current.topics.len() == 0 {
            &stand_in
        } else {
            &current.topics
        };
        let examples = self.knowledge.get_bank_examples(
            subject,
            topics.as_slice(),
            None,
            REGENERATION_EXAMPLES,
        );
        Ok(
            build_regenerate_prompt(
                current,
                self.questions.as_slice(),
                examples.as_slice(),
                instructions,
                prompt_template,
            ),
        )
    }

    /// Takes in the model's answer to a request for a replacement of the
    /// question at `index`.
    ///
    /// Where the set has no question at `index`, or the answer gives no
    /// questions, the error says so and the set stays as it was. Else the
    /// first question of the answer takes the place of the old one, with its
    /// identifier, subject and topics, and a copy of it is handed out.
    pub fn regenerate_question(&mut self, index: usize, response: &str) -> (r: Result<
        Question,
        RequestError,
    >)
        ensures
            final(self).knowledge == old(self).knowledge,
            index >= old(self)@.questions.len() ==> (r matches Err(
                RequestError::InvalidRequestIndex,
            )) && final(self)@.questions == old(self)@.questions,
            index < old(self)@.questions.len() ==> match parsed(response@) {
                Ok(fresh) => (r matches Ok(question) && question@ == replacement(
                    old(self)@.questions[index as int],
                    fresh[0],
                ) && final(self)@.questions == old(self)@.questions.update(
                    index as int,
                    question@,
                )),
                Err(error) => (r matches Err(RequestError::Parse(cause)) && cause@ == error)
                    && final(self)@.questions == old(self)@.questions,
            },
    {
        if index >= self.questions.len() {
            return Err(RequestError::InvalidRequestIndex);
        }
        let fresh = match parse_llm_response(response) {
            Ok(fresh) => fresh,
            Err(error) => {
                return Err(RequestError::Parse(error));
            },
        };
        proof {
            assert(fresh.deep_view().len() == fresh.len());
        }
        let first = &fresh[0];
        let current = &self.questions[index];
        let question = Question {
            id: current.id.clone(),
            text: first.text.clone(),
            answers: first.answers.clone(),
            explanation: first.explanation.clone(),
            distractors: first.distractors.clone(),
            subject: current.subject.clone(),
            topics: copy_strings(&current.topics),
        };
        proof {
            assert(question.answers.deep_view() =~= first.answers.deep_view());
            assert(fresh.deep_view()[0] == first@);
            assert(old(self)@.questions[index as int] == current@);
        }
        let copy = question.clone();
        self.questions.set(index, question);
        assert(self.questions.deep_view() =~= old(self).questions.deep_view().update(
            index as int,
            copy@,
        ));
        Ok(copy)
    }
}

} // verus!
