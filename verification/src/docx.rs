//! The Markdown that is sent away to be made into a Word document: each
//! question with its answers in a shuffled order, the right ones marked.

use vstd::prelude::*;
use rand::seq::SliceRandom;
use rand::RngCore;
use rand::SeedableRng;
use crate::model::{AnswerView, Question, QuestionView};
use crate::text::{decimal, decimal_string};

verus! {

/// Shuffles a list in place with `rand`'s `SliceRandom::shuffle`, by a
/// generator that is seeded from the operating system; where the system
/// gives no seed, the list stays as it is and the answer is `false`. The
/// contract claims what holds of every outcome: the list holds what it
/// held.
#[verifier::external_body]
fn shuffle(order: &mut Vec<usize>) -> (r: bool)
    ensures
        final(order)@.to_multiset() == old(order)@.to_multiset(),
{
    let mut seed = [0u8; 32];
    if rand::rngs::OsRng.try_fill_bytes(&mut seed).is_err() {
        return false;
    }
    order.shuffle(&mut rand::rngs::StdRng::from_seed(seed));
    true
}

/// The numbers below `len`, in their order.
pub open spec fn identity_order(len: nat) -> Seq<usize> {
    Seq::new(len, |i: int| i as usize)
}

/// Is this an order of `len` things: does it hold each number below `len`
/// once, and nothing else?
pub open spec fn is_order(order: Seq<usize>, len: nat) -> bool {
    order.to_multiset() == identity_order(len).to_multiset()
}

/// The line of the answer with the number `index`: nothing where there is
/// no such answer.
pub open spec fn docx_answer_line(answers: Seq<AnswerView>, index: usize) -> Seq<char> {
    if index < answers.len() {
        "    a. "@ + (if answers[index as int].is_correct {
            "*"@
        } else {
            Seq::empty()
        }) + answers[index as int].text + "\n"@
    } else {
        Seq::empty()
    }
}

/// The lines of the answers, in the order given.
pub open spec fn docx_answer_lines(answers: Seq<AnswerView>, order: Seq<usize>) -> Seq<char>
    decreases order.len(),
{
    if order.len() == 0 {
        Seq::empty()
    } else {
        docx_answer_lines(answers, order.drop_last()) + docx_answer_line(answers, order.last())
    }
}

/// The block of the question at `index`, counted from zero, with its
/// answers in the order given.
pub open spec fn docx_block(index: int, question: QuestionView, order: Seq<usize>) -> Seq<char> {
    decimal((index + 1) as nat) + ". "@ + question.text + "\n\n"@ + docx_answer_lines(
        question.answers,
        order,
    ) + "\n"@
}

/// The order given for the question at `index`; none where the list of
/// orders ends before it.
pub open spec fn order_for(orders: Seq<Seq<usize>>, index: int) -> Seq<usize> {
    if 0 <= index < orders.len() {
        orders[index]
    } else {
        Seq::empty()
    }
}

/// The blocks of the first `count` questions.
pub open spec fn docx_blocks(questions: Seq<QuestionView>, orders: Seq<Seq<usize>>, count: int) -> Seq<
    char,
>
    decreases count,
{
    if count <= 0 {
        Seq::empty()
    } else {
        docx_blocks(questions, orders, count - 1) + docx_block(
            count - 1,
            questions[count - 1],
            order_for(orders, count - 1),
        )
    }
}

/// The Markdown of a set of questions, with the answers of each question in
/// the order given for it.
pub open spec fn docx_markdown(
    title: Seq<char>,
    questions: Seq<QuestionView>,
    orders: Seq<Seq<usize>>,
) -> Seq<char> {
    "Title: "@ + title + "\n\n"@ + docx_blocks(questions, orders, questions.len() as int)
}

/// Writes the Markdown of a set of questions, with the answers of each
/// question in the order given for it. A question without an order shows
/// no answers.
pub fn render_docx_markdown(title: &str, questions: &[Question], orders: &Vec<Vec<usize>>) -> (r:
    String)
    ensures
        r@ == docx_markdown(title@, questions.deep_view(), orders.deep_view()),
{
    let ghost all = questions.deep_view();
    let ghost given = orders.deep_view();
    let mut output = "Title: ".to_owned();
    output.append(title);
    output.append("\n\n");
    let ghost head = output@;
    let mut i: usize = 0;
    proof {
        assert(output@ =~= head + docx_blocks(all, given, 0));
    }
    while i < questions.len()
        invariant
            i <= questions.len(),
            all == questions.deep_view(),
            given == orders.deep_view(),
            output@ == head + docx_blocks(all, given, i as int),
        decreases questions.len() - i,
    {
        let question = &questions[i];
        let no_order: Vec<usize> = Vec::new();
        let order: &Vec<usize> = if i < orders.len() {
            &orders[i]
        } else {
            &no_order
        };
        let ghost before = output@;
        proof {
            assert(all[i as int] == question@);
            assert(order_for(given, i as int) =~= order@);
        }
        output.append(decimal_string(i as u128 + 1).as_str());
        output.append(". ");
        output.append(question.text.as_str());
        output.append("\n\n");
        let ghost start = output@;
        let mut k: usize = 0;
        proof {
            assert(order@.take(0) =~= Seq::empty());
            assert(output@ =~= start + docx_answer_lines(question@.answers, order@.take(0)));
        }
        while k < order.len()
            invariant
                k <= order.len(),
                output@ == start + docx_answer_lines(question@.answers, order@.take(k as int)),
            decreases order.len() - k,
        {
            let ghost lines = output@;
            let index = order[k];
            proof {
                assert(order@.take(k + 1).drop_last() =~= order@.take(k as int));
                assert(order@.take(k + 1).last() == index);
                assert(question@.answers.len() == question.answers.len());
            }
            if index < question.answers.len() {
                let answer = &question.answers[index];
                assert(question@.answers[index as int] == answer@);
                output.append("    a. ");
                if answer.is_correct {
                    output.append("*");
                }
                output.append(answer.text.as_str());
                output.append("\n");
                proof {
                    assert(output@ =~= lines + docx_answer_line(question@.answers, index));
                }
            } else {
                proof {
                    assert(output@ =~= lines + docx_answer_line(question@.answers, index));
                }
            }
            k += 1;
        }
        proof {
            assert(order@.take(order.len() as int) =~= order@);
        }
        output.append("\n");
        proof {
            assert(output@ =~= before + docx_block(i as int, question@, order@));
        }
        i += 1;
    }
    output
}

/// The numbers below `len`, in their order.
fn make_identity_order(len: usize) -> (r: Vec<usize>)
    ensures
        r@ == identity_order(len as nat),
{
    let mut order: Vec<usize> = Vec::new();
    let mut i: usize = 0;
    while i < len
        invariant
            i <= len,
            order@ == identity_order(i as nat),
        decreases len - i,
    {
        order.push(i);
        assert(order@ =~= identity_order((i + 1) as nat));
        i += 1;
    }
    order
}

/// Writes the Markdown of a set of questions for a Word document, with the
/// answers of each question shuffled. Which order the answers come in is
/// left to chance; each answer comes once. Where the operating system has
/// no seed to give, the answers of a question stay in their own order.
pub fn export_docx_markdown(title: &str, questions: &[Question]) -> (r: String)
    ensures
        exists|orders: Seq<Seq<usize>>|
            #![trigger docx_markdown(title@, questions.deep_view(), orders)]
            {
                &&& orders.len() == questions.len()
                &&& forall|i: int|
                    0 <= i < orders.len() ==> is_order(
                        #[trigger] orders[i],
                        questions.deep_view()[i].answers.len(),
                    )
                &&& r@ == docx_markdown(title@, questions.deep_view(), orders)
            },
{
    let mut orders: Vec<Vec<usize>> = Vec::new();
    let mut i: usize = 0;
    while i < questions.len()
        invariant
            i <= questions.len(),
            orders.len() == i,
            forall|j: int|
                0 <= j < i ==> is_order(
                    (#[trigger] orders[j])@,
                    questions.deep_view()[j].answers.len(),
                ),
        decreases questions.len() - i,
    {
        proof {
            assert(questions.deep_view()[i as int] == questions[i as int]@);
            assert(questions[i as int]@.answers.len() == questions[i as int].answers.len());
        }
        let mut order = make_identity_order(questions[i].answers.len());
        let _ = shuffle(&mut order);
        orders.push(order);
        i += 1;
    }
    let markdown = render_docx_markdown(title, questions, &orders);
    proof {
        let given = orders.deep_view();
        assert forall|i: int| 0 <= i < given.len() implies is_order(
            #[trigger] given[i],
            questions.deep_view()[i].answers.len(),
        ) by {
            assert(given[i] =~= orders[i]@);
        }
    }
    markdown
}

} // verus!
