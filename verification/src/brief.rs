//! A second, shorter prompt for new questions. It asks the model to put
//! its working first, in a field of its own, and takes no template.

use vstd::prelude::*;
use crate::model::{
    GenerationRequest, GenerationRequestView, QuestionBankEntry, QuestionBankEntryView,
};
use crate::prompts::{difficulty_description, examples_text, NO_EXAMPLES};
use crate::text::{blank, decimal, decimal_string, is_blank, join, joined};

verus! {

/// How the brief prompt opens, up to the topics.
pub const BRIEF_INTRO: &'static str = "You are an expert AP Computer Science A question writer.\n\
    \n\
    **Target:** ";

/// What stands between the topics and the difficulty.
pub const BRIEF_DIFFICULTY: &'static str = " | **Difficulty:** ";

/// What stands between the difficulty and the number of questions.
pub const BRIEF_COUNT: &'static str = " | **Count:** ";

/// What introduces the reference examples.
pub const BRIEF_EXAMPLES: &'static str = "\n\
    \n\
    ## Reference Examples\n\
    \n\
    ";

/// What follows the reference examples, up to the number of questions.
pub const BRIEF_FORMAT_HEAD: &'static str = "\n\
    \n\
    ---\n\
    \n\
    ## Output Format\n\
    \n\
    Return a JSON array with ";

/// The shape of the output, the fields and the rules.
pub const BRIEF_FORMAT: &'static str = " question object(s). **No text outside the JSON.**\n\
    \n\
    For each question, the `work` field comes FIRST. This is where you trace through the code, calculate the answer, and plan distractors. This reasoning is essential for accuracy.\n\
    \n\
    ```json\n\
    [\n  \
    {\n    \
    \"work\": \"FIRST: Trace the code step-by-step here. Calculate the correct answer. Then identify 3 common student errors and what wrong answers they produce. Example: 'mystery(5): 5 + mystery(4) → 5+4+3+2+1+0 = 15. Errors: off-by-one→14, factorial confusion→120, returns 0 early→0'\",\n    \
    \"stem\": \"Question text (markdown supported: **bold**, `inline code`)\",\n    \
    \"code\": \"// Java code goes here, plain text\\n// Use \\\\n for newlines\",\n    \
    \"answers\": [\n      \
    {\"text\": \"`15`\", \"is_correct\": true},\n      \
    {\"text\": \"`14`\", \"is_correct\": false},\n      \
    {\"text\": \"`120`\", \"is_correct\": false},\n      \
    {\"text\": \"`0`\", \"is_correct\": false}\n    \
    ],\n    \
    \"correct_explanation\": \"Step-by-step: mystery(5) = 5 + mystery(4) = 5 + 4 + mystery(3) = ... = 15\",\n    \
    \"distractor_explanations\": {\n      \
    \"14\": \"Off-by-one: stops at n=1 instead of n=0\",\n      \
    \"120\": \"Confuses addition with multiplication (5!)\",\n      \
    \"0\": \"Only considers base case return value\"\n    \
    }\n  \
    }\n\
    ]\n\
    ```\n\
    \n\
    ## Field Reference\n\
    \n\
    | Field | Required | Description |\n\
    |-------|----------|-------------|\n\
    | `work` | Yes | **Write this first.** Trace code, calculate answer, plan distractors. |\n\
    | `stem` | Yes | Question text. Markdown OK. |\n\
    | `code` | No | Java code snippet. Plain text, use `\\n` for newlines. |\n\
    | `answers` | Yes | Array of 4-5 choices. Exactly one `is_correct: true`. |\n\
    | `correct_explanation` | Yes | Step-by-step solution walkthrough. |\n\
    | `distractor_explanations` | Yes | Map of wrong answer → misconception that causes it. |\n\
    \n\
    ## Rules\n\
    \n\
    1. **Work first**: Always fill `work` before other fields. This is how you verify correctness.\n\
    2. **One correct answer**: Exactly one answer has `is_correct: true`.\n\
    3. **Real distractors**: Each wrong answer must come from a specific student error (off-by-one, wrong operator, loop bounds, pass-by-value confusion, etc.)\n\
    4. **Valid Java**: Code must be syntactically correct.\n\
    5. **Markdown in strings**: Use backticks for inline code in `stem` and `answers.text`.\n\
    6. **Pure JSON**: Return ONLY the JSON array. No markdown fences, no explanation outside the JSON.\n\
    \n\
    Generate ";

/// The last words of the brief prompt.
pub const BRIEF_CLOSING: &'static str = " question(s):";

/// What introduces the user's own instructions.
pub const BRIEF_NOTES: &'static str = "\n**Additional Instructions:** ";

/// The user's own instructions as a line of the prompt; nothing where there
/// are none, or only whitespace.
pub open spec fn notes_text(notes: Option<Seq<char>>) -> Seq<char> {
    match notes {
        Some(text) => if is_blank(text) {
            Seq::empty()
        } else {
            BRIEF_NOTES@ + text
        },
        None => Seq::empty(),
    }
}

/// The brief prompt that asks for the questions of a request.
pub open spec fn brief_prompt(request: GenerationRequestView, examples: Seq<QuestionBankEntryView>) -> Seq<
    char,
> {
    let count = decimal(request.count as nat);
    BRIEF_INTRO@ + joined(request.topics, ", "@) + BRIEF_DIFFICULTY@ + difficulty_description(
        request.difficulty,
    ) + BRIEF_COUNT@ + count + "\n"@ + notes_text(request.notes) + BRIEF_EXAMPLES@ + examples_text(
        examples,
        NO_EXAMPLES@,
    ) + BRIEF_FORMAT_HEAD@ + count + BRIEF_FORMAT@ + count + BRIEF_CLOSING@
}

/// Builds the brief prompt that asks for the questions of a request.
pub fn build_generation_prompt(request: &GenerationRequest, examples: &[QuestionBankEntry]) -> (r:
    String)
    ensures
        r@ == brief_prompt(request@, examples.deep_view()),
{
    let count = decimal_string(request.count as u128);
    let notes = match &request.notes {
        Some(text) => {
            if blank(text.as_str()) {
                String::new()
            } else {
                let mut out = BRIEF_NOTES.to_owned();
                out.append(text.as_str());
                out
            }
        },
        None => String::new(),
    };
    let mut out = BRIEF_INTRO.to_owned();
    out.append(join(&request.topics, ", ").as_str());
    out.append(BRIEF_DIFFICULTY);
    out.append(crate::prompts::describe_difficulty(request.difficulty.as_str()));
    out.append(BRIEF_COUNT);
    out.append(count.as_str());
    out.append("\n");
    out.append(notes.as_str());
    out.append(BRIEF_EXAMPLES);
    out.append(crate::prompts::format_examples(examples, NO_EXAMPLES).as_str());
    out.append(BRIEF_FORMAT_HEAD);
    out.append(count.as_str());
    out.append(BRIEF_FORMAT);
    out.append(count.as_str());
    out.append(BRIEF_CLOSING);
    out
}

} // verus!
