//! The records that flow through the library, each with its mathematical view.

use vstd::prelude::*;

verus! {

/// One answer choice of a question.
#[derive(Debug)]
pub struct Answer {
    pub text: String,
    pub is_correct: bool,
    pub explanation: Option<String>,
}

/// What an [`Answer`] holds, as plain mathematical values.
pub struct AnswerView {
    pub text: Seq<char>,
    pub is_correct: bool,
    pub explanation: Option<Seq<char>>,
}

impl DeepView for Answer {
    type V = AnswerView;

    open spec fn deep_view(&self) -> AnswerView {
        AnswerView {
            text: self.text@,
            is_correct: self.is_correct,
            explanation: self.explanation.deep_view(),
        }
    }
}

impl View for Answer {
    type V = AnswerView;

    open spec fn view(&self) -> AnswerView {
        self.deep_view()
    }
}

impl Clone for Answer {
    fn clone(&self) -> (r: Self)
        ensures
            r@ == self@,
    {
        Answer {
            text: self.text.clone(),
            is_correct: self.is_correct,
            explanation: self.explanation.clone(),
        }
    }
}

/// Is this answer marked as the right one?
pub open spec fn marked_correct() -> spec_fn(AnswerView) -> bool {
    |answer: AnswerView| answer.is_correct
}

/// How many of the answers are marked as right.
pub open spec fn correct_count(answers: Seq<AnswerView>) -> nat {
    answers.filter(marked_correct()).len()
}

/// A multiple-choice question as shown and edited.
#[derive(Debug)]
pub struct Question {
    pub id: String,
    pub text: String,
    pub answers: Vec<Answer>,
    pub explanation: Option<String>,
    pub distractors: Option<String>,
    pub subject: String,
    pub topics: Vec<String>,
}

/// What a [`Question`] holds, as plain mathematical values.
pub struct QuestionView {
    pub id: Seq<char>,
    pub text: Seq<char>,
    pub answers: Seq<AnswerView>,
    pub explanation: Option<Seq<char>>,
    pub distractors: Option<Seq<char>>,
    pub subject: Seq<char>,
    pub topics: Seq<Seq<char>>,
}

impl DeepView for Question {
    type V = QuestionView;

    open spec fn deep_view(&self) -> QuestionView {
        QuestionView {
            id: self.id@,
            text: self.text@,
            answers: self.answers.deep_view(),
            explanation: self.explanation.deep_view(),
            distractors: self.distractors.deep_view(),
            subject: self.subject@,
            topics: self.topics.deep_view(),
        }
    }
}

impl View for Question {
    type V = QuestionView;

    open spec fn view(&self) -> QuestionView {
        self.deep_view()
    }
}

impl Question {
    /// Tells whether the question offers a choice: whether it has two
    /// answers or more. Questions with fewer are read and kept like any
    /// other; whether a question offers a choice is checked here, where it
    /// matters.
    pub fn offers_a_choice(&self) -> (r: bool)
        ensures
            r == (self@.answers.len() >= 2),
    {
        proof {
            assert(self.answers.deep_view().len() == self.answers.len());
        }
        self.answers.len() >= 2
    }

    /// Tells whether exactly one answer is marked as the right one. A model
    /// is asked for such questions; whether it delivered is checked here,
    /// where it matters, and nowhere taken for granted.
    pub fn has_one_correct_answer(&self) -> (r: bool)
        ensures
            r == (correct_count(self@.answers) == 1),
    {
        let ghost all = self.answers.deep_view();
        let mut count: usize = 0;
        let mut i: usize = 0;
        proof {
            reveal(Seq::filter);
            assert(all.take(0).filter(marked_correct()) =~= Seq::empty());
        }
        while i < self.answers.len()
            invariant
                i <= self.answers.len(),
                all == self.answers.deep_view(),
                count <= i,
                count == all.take(i as int).filter(marked_correct()).len(),
            decreases self.answers.len() - i,
        {
            proof {
                assert(all.take(i + 1) =~= all.take(i as int).push(all[i as int]));
                all.take(i as int).lemma_filter_push(all[i as int], marked_correct());
                assert(all[i as int] == self.answers[i as int]@);
            }
            if self.answers[i].is_correct {
                count += 1;
            }
            i += 1;
        }
        assert(all.take(self.answers.len() as int) =~= all);
        count == 1
    }
}

impl Clone for Question {
    fn clone(&self) -> (r: Self)
        ensures
            r@ == self@,
    {
        let r = Question {
            id: self.id.clone(),
            text: self.text.clone(),
            answers: self.answers.clone(),
            explanation: self.explanation.clone(),
            distractors: self.distractors.clone(),
            subject: self.subject.clone(),
            topics: self.topics.clone(),
        };
        assert(r.answers.deep_view() =~= self.answers.deep_view());
        assert(r.topics.deep_view() =~= self.topics.deep_view());
        r
    }
}

/// A topic that questions can be generated for.
#[derive(Debug)]
pub struct TopicInfo {
    pub id: String,
    pub name: String,
    pub description: String,
    pub example_count: usize,
}

/// What a [`TopicInfo`] holds, as plain mathematical values.
pub struct TopicInfoView {
    pub id: Seq<char>,
    pub name: Seq<char>,
    pub description: Seq<char>,
    pub example_count: usize,
}

impl DeepView for TopicInfo {
    type V = TopicInfoView;

    open spec fn deep_view(&self) -> TopicInfoView {
        TopicInfoView {
            id: self.id@,
            name: self.name@,
            description: self.description@,
            example_count: self.example_count,
        }
    }
}

impl View for TopicInfo {
    type V = TopicInfoView;

    open spec fn view(&self) -> TopicInfoView {
        self.deep_view()
    }
}

impl Clone for TopicInfo {
    fn clone(&self) -> (r: Self)
        ensures
            r@ == self@,
    {
        let r = TopicInfo {
            id: self.id.clone(),
            name: self.name.clone(),
            description: self.description.clone(),
            example_count: self.example_count,
        };
        r
    }
}

/// A subject and the number of its topics.
#[derive(Debug)]
pub struct SubjectInfo {
    pub id: String,
    pub name: String,
    pub topic_count: usize,
}

/// What a [`SubjectInfo`] holds, as plain mathematical values.
pub struct SubjectInfoView {
    pub id: Seq<char>,
    pub name: Seq<char>,
    pub topic_count: usize,
}

impl DeepView for SubjectInfo {
    type V = SubjectInfoView;

    open spec fn deep_view(&self) -> SubjectInfoView {
        SubjectInfoView {
            id: self.id@,
            name: self.name@,
            topic_count: self.topic_count,
        }
    }
}

impl View for SubjectInfo {
    type V = SubjectInfoView;

    open spec fn view(&self) -> SubjectInfoView {
        self.deep_view()
    }
}

impl Clone for SubjectInfo {
    fn clone(&self) -> (r: Self)
        ensures
            r@ == self@,
    {
        let r = SubjectInfo {
            id: self.id.clone(),
            name: self.name.clone(),
            topic_count: self.topic_count,
        };
        r
    }
}

/// A request for a batch of new questions.
#[derive(Debug)]
pub struct GenerationRequest {
    pub subject: String,
    pub topics: Vec<String>,
    pub difficulty: String,
    pub count: u32,
    pub notes: Option<String>,
    pub append: bool,
}

/// What a [`GenerationRequest`] holds, as plain mathematical values.
pub struct GenerationRequestView {
    pub subject: Seq<char>,
    pub topics: Seq<Seq<char>>,
    pub difficulty: Seq<char>,
    pub count: u32,
    pub notes: Option<Seq<char>>,
    pub append: bool,
}

impl DeepView for GenerationRequest {
    type V = GenerationRequestView;

    open spec fn deep_view(&self) -> GenerationRequestView {
        GenerationRequestView {
            subject: self.subject@,
            topics: self.topics.deep_view(),
            difficulty: self.difficulty@,
            count: self.count,
            notes: self.notes.deep_view(),
            append: self.append,
        }
    }
}

impl View for GenerationRequest {
    type V = GenerationRequestView;

    open spec fn view(&self) -> GenerationRequestView {
        self.deep_view()
    }
}

impl Clone for GenerationRequest {
    fn clone(&self) -> (r: Self)
        ensures
            r@ == self@,
    {
        let r = GenerationRequest {
            subject: self.subject.clone(),
            topics: self.topics.clone(),
            difficulty: self.difficulty.clone(),
            count: self.count,
            notes: self.notes.clone(),
            append: self.append,
        };
        assert(r.topics.deep_view() =~= self.topics.deep_view());
        r
    }
}

/// One choice of a curated bank entry.
#[derive(Debug)]
pub struct QuestionBankOption {
    pub id: String,
    pub text: String,
    pub is_correct: bool,
}

/// What a [`QuestionBankOption`] holds, as plain mathematical values.
pub struct QuestionBankOptionView {
    pub id: Seq<char>,
    pub text: Seq<char>,
    pub is_correct: bool,
}

impl DeepView for QuestionBankOption {
    type V = QuestionBankOptionView;

    open spec fn deep_view(&self) -> QuestionBankOptionView {
        QuestionBankOptionView {
            id: self.id@,
            text: self.text@,
            is_correct: self.is_correct,
        }
    }
}

impl View for QuestionBankOption {
    type V = QuestionBankOptionView;

    open spec fn view(&self) -> QuestionBankOptionView {
        self.deep_view()
    }
}

impl Clone for QuestionBankOption {
    fn clone(&self) -> (r: Self)
        ensures
            r@ == self@,
    {
        let r = QuestionBankOption {
            id: self.id.clone(),
            text: self.text.clone(),
            is_correct: self.is_correct,
        };
        r
    }
}

/// A wrong choice of a bank entry and the misconception behind it.
#[derive(Debug)]
pub struct CommonMistake {
    pub option_id: String,
    pub misconception: String,
}

/// What a [`CommonMistake`] holds, as plain mathematical values.
pub struct CommonMistakeView {
    pub option_id: Seq<char>,
    pub misconception: Seq<char>,
}

impl DeepView for CommonMistake {
    type V = CommonMistakeView;

    open spec fn deep_view(&self) -> CommonMistakeView {
        CommonMistakeView {
            option_id: self.option_id@,
            misconception: self.misconception@,
        }
    }
}

impl View for CommonMistake {
    type V = CommonMistakeView;

    open spec fn view(&self) -> CommonMistakeView {
        self.deep_view()
    }
}

impl Clone for CommonMistake {
    fn clone(&self) -> (r: Self)
        ensures
            r@ == self@,
    {
        let r = CommonMistake {
            option_id: self.option_id.clone(),
            misconception: self.misconception.clone(),
        };
        r
    }
}

/// Why the wrong choices of a bank entry are tempting.
#[derive(Debug)]
pub struct DistractorInfo {
    pub common_mistakes: Vec<CommonMistake>,
    pub common_errors: Vec<String>,
}

/// What a [`DistractorInfo`] holds, as plain mathematical values.
pub struct DistractorInfoView {
    pub common_mistakes: Seq<CommonMistakeView>,
    pub common_errors: Seq<Seq<char>>,
}

impl DeepView for DistractorInfo {
    type V = DistractorInfoView;

    open spec fn deep_view(&self) -> DistractorInfoView {
        DistractorInfoView {
            common_mistakes: self.common_mistakes.deep_view(),
            common_errors: self.common_errors.deep_view(),
        }
    }
}

impl View for DistractorInfo {
    type V = DistractorInfoView;

    open spec fn view(&self) -> DistractorInfoView {
        self.deep_view()
    }
}

impl Clone for DistractorInfo {
    fn clone(&self) -> (r: Self)
        ensures
            r@ == self@,
    {
        let r = DistractorInfo {
            common_mistakes: self.common_mistakes.clone(),
            common_errors: self.common_errors.clone(),
        };
        assert(r.common_mistakes.deep_view() =~= self.common_mistakes.deep_view());
        assert(r.common_errors.deep_view() =~= self.common_errors.deep_view());
        r
    }
}

/// A curated reference question, used as a few-shot example.
#[derive(Debug)]
pub struct QuestionBankEntry {
    pub id: String,
    pub text: String,
    pub options: Vec<QuestionBankOption>,
    pub explanation: String,
    pub difficulty: String,
    pub cognitive_level: String,
    pub topics: Vec<String>,
    pub skills: Vec<String>,
    pub distractors: DistractorInfo,
}

/// What a [`QuestionBankEntry`] holds, as plain mathematical values.
pub struct QuestionBankEntryView {
    pub id: Seq<char>,
    pub text: Seq<char>,
    pub options: Seq<QuestionBankOptionView>,
    pub explanation: Seq<char>,
    pub difficulty: Seq<char>,
    pub cognitive_level: Seq<char>,
    pub topics: Seq<Seq<char>>,
    pub skills: Seq<Seq<char>>,
    pub distractors: DistractorInfoView,
}

impl DeepView for QuestionBankEntry {
    type V = QuestionBankEntryView;

    open spec fn deep_view(&self) -> QuestionBankEntryView {
        QuestionBankEntryView {
            id: self.id@,
            text: self.text@,
            options: self.options.deep_view(),
            explanation: self.explanation@,
            difficulty: self.difficulty@,
            cognitive_level: self.cognitive_level@,
            topics: self.topics.deep_view(),
            skills: self.skills.deep_view(),
            distractors: self.distractors@,
        }
    }
}

impl View for QuestionBankEntry {
    type V = QuestionBankEntryView;

    open spec fn view(&self) -> QuestionBankEntryView {
        self.deep_view()
    }
}

impl Clone for QuestionBankEntry {
    fn clone(&self) -> (r: Self)
        ensures
            r@ == self@,
    {
        let r = QuestionBankEntry {
            id: self.id.clone(),
            text: self.text.clone(),
            options: self.options.clone(),
            explanation: self.explanation.clone(),
            difficulty: self.difficulty.clone(),
            cognitive_level: self.cognitive_level.clone(),
            topics: self.topics.clone(),
            skills: self.skills.clone(),
            distractors: self.distractors.clone(),
        };
        assert(r.options.deep_view() =~= self.options.deep_view());
        assert(r.topics.deep_view() =~= self.topics.deep_view());
        assert(r.skills.deep_view() =~= self.skills.deep_view());
        r
    }
}

/// A piece of streamed model output, with a flag for the last one.
#[derive(Debug)]
pub struct StreamEvent {
    pub text: String,
    pub done: bool,
}

/// What a [`StreamEvent`] holds, as plain mathematical values.
pub struct StreamEventView {
    pub text: Seq<char>,
    pub done: bool,
}

impl DeepView for StreamEvent {
    type V = StreamEventView;

    open spec fn deep_view(&self) -> StreamEventView {
        StreamEventView {
            text: self.text@,
            done: self.done,
        }
    }
}

impl View for StreamEvent {
    type V = StreamEventView;

    open spec fn view(&self) -> StreamEventView {
        self.deep_view()
    }
}

impl Clone for StreamEvent {
    fn clone(&self) -> (r: Self)
        ensures
            r@ == self@,
    {
        let r = StreamEvent {
            text: self.text.clone(),
            done: self.done,
        };
        r
    }
}

} // verus!
