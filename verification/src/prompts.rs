//! Building the prompt that asks a model for questions.
//!
//! A prompt is a pure function of what it is given: the request, the examples
//! to show and, where the subject has one, a template whose placeholders are
//! filled in. Without a template the built-in prompt is used. It tells the
//! model to work out the answer before it writes the question, and to return
//! nothing but a JSON array.

use vstd::prelude::*;
use crate::model::{
    CommonMistakeView, DistractorInfo, DistractorInfoView, GenerationRequest,
    GenerationRequestView, Question, QuestionBankEntry, QuestionBankEntryView,
    QuestionBankOptionView, QuestionView,
};
use crate::text::{
    blank, chars_of, contains_text, decimal, decimal_string, is_blank, join, joined,
    lemma_replaced_without_occurrence, push_char, push_range, replace, replaced, same_text,
};

verus! {

/// How the built-in prompt opens, up to the topics.
pub const PROMPT_INTRO: &'static str = "You are an expert AP Computer Science A question writer with strong analytical and debugging skills.\n\
    \n\
    **CRITICAL RULE: Calculate the correct answer BEFORE writing the question.**\n\
    \n\
    When generating questions with code or calculations:\n\
    1. First, decide on the concept you'll test\n\
    2. Write the code mentally or on scratch paper\n\
    3. TRACE through the code step-by-step and calculate the correct answer\n\
    4. Verify your calculation is correct - double-check your math\n\
    5. Create wrong answers based on specific misconceptions\n\
    6. ONLY THEN start writing in the output format below\n\
    \n\
    If you discover an error while writing your explanation, DO NOT try to fix it mid-stream. Instead, silently start that question over with different code.\n\
    \n\
    **Target Topic(s):** ";

/// What stands between the topics and the difficulty.
pub const PROMPT_DIFFICULTY_LABEL: &'static str = "\n\
    **Target Difficulty:** ";

/// What stands between the difficulty and the number of questions.
pub const PROMPT_COUNT_LABEL: &'static str = "\n\
    **Number of Questions:** ";

/// What introduces the reference examples.
pub const PROMPT_EXAMPLES_HEAD: &'static str = "\n\
    ---\n\
    \n\
    ## Reference Examples (JSON format)\n\
    \n\
    Study these examples carefully. Pay special attention to:\n\
    - How the `distractors` field shows WHY each wrong answer is tempting\n\
    - The `common_errors` that students make\n\
    - The relationship between `difficulty` and `cognitive_level`\n\
    - The precision and accuracy of the explanations\n\
    \n\
    ";

/// What follows the reference examples, up to the number of questions.
pub const PROMPT_TASK_HEAD: &'static str = "\n\
    \n\
    ---\n\
    \n\
    ## Your Task\n\
    \n\
    Generate ";

/// The task, the order of work and the start of the output format.
pub const PROMPT_TASK_RULES: &'static str = " NEW question(s) that:\n\
    1. Test the specified topic(s) at the target difficulty\n\
    2. Use DIFFERENT code and scenarios than the examples\n\
    3. Each wrong answer must exploit a specific student misconception\n\
    4. Match the quality and style shown in the examples\n\
    5. Have internally consistent, mathematically correct answers that you've verified\n\
    \n\
    **WORKFLOW (FOLLOW THIS ORDER):**\n\
    \n\
    For EACH question you write:\n\
    \n\
    **Step 1: Plan & Solve (Do this in the explanation section)**\n\
    - Decide what concept you'll test\n\
    - Write the code you'll use\n\
    - TRACE through it step-by-step and calculate the CORRECT answer\n\
    - Double-check your calculation - verify it's right\n\
    - Think through common student errors for this type of problem\n\
    \n\
    **Step 2: Design Distractors (Also in the explanation section)**\n\
    - Identify 3-4 specific misconceptions students have\n\
    - For each misconception, calculate what wrong answer it would produce\n\
    - Make sure each distractor comes from a real error pattern (off-by-one, wrong operator, pass-by-value confusion, loop bound errors, etc.)\n\
    \n\
    **Step 3: Write the Question (Now you can start writing JSON)**\n\
    - Only NOW should you write the stem and code\n\
    - Write ALL answer choices (correct + distractors) with their explanations\n\
    - Write the explanation showing the step-by-step solution\n\
    - Write the distractors analysis explaining the error patterns\n\
    \n\
    **Output Format (JSON Array):**\n\
    \n\
    Return your response as a JSON array containing ";

/// The shape of the output, the field guidelines and the checklist.
pub const PROMPT_OUTPUT_FORMAT: &'static str = " question object(s). Each question should follow this structure:\n\
    \n\
    ```json\n\
    [\n  \
    {\n    \
    \"text\": \"Question text here with markdown formatting like **bold** or `code`. Can include code blocks:\\n\\n```java\\nSystem.out.println(\\\"Hello\\\");\\n```\",\n    \
    \"explanation\": \"Step-by-step walkthrough of how to arrive at the correct answer. Verify correct answer. Design distractors.\",\n        \
    \"distractors\": \"Analysis of why each wrong answer is tempting and what misconception leads to it\",\n    \
    \"answers\": [\n      \
    {\"text\": \"Answer text (use markdown like `42` for code)\", \"is_correct\": false, \"explanation\": \"Why this is wrong\"},\n      \
    {\"text\": \"Another answer\", \"is_correct\": true, \"explanation\": \"Why this is correct\"},\n      \
    {\"text\": \"Third answer\", \"is_correct\": false, \"explanation\": \"Common misconception\"},\n      \
    {\"text\": \"Fourth answer\", \"is_correct\": false, \"explanation\": \"Off-by-one error\"}\n        \
    ]\n  \
    }\n\
    ]\n\
    ```\n\
    \n\
    **Field Guidelines:**\n\
    - `text`: Complete question text in markdown format (can include code blocks with ```java```)\n\
    - `answers`: Array of 4-5 answer choices with explanations\n  \
    - `text`: Answer text (use backticks for code like `42`)\n  \
    - `is_correct`: Boolean indicating if this is the correct answer\n  \
    - `explanation`: Brief explanation of why this answer is correct/incorrect\n\
    - `explanation`: Detailed walkthrough showing how to solve the problem\n\
    - `distractors`: Analysis of common student errors that lead to wrong answers\n\
    \n\
    **Quality Checklist (verify before submitting):**\n\
    - ✓ Did you work out the correct answer BEFORE writing anything?\n\
    - ✓ Does your explanation match the answer you marked as correct?\n\
    - ✓ Does each distractor represent a real student error pattern?\n\
    - ✓ Is your code syntactically correct Java?\n\
    - ✓ Are all inline code references wrapped in backticks?\n\
    - ✓ Is your explanation clear, accurate, and step-by-step?\n\
    - ✓ Did you return ONLY the JSON array with no extra text?\n\
    ";

/// How the built-in prompt closes, up to the number of questions.
pub const PROMPT_CLOSING_HEAD: &'static str = "\n\
    \n\
    Generate a JSON array with ";

/// The last words of the built-in prompt.
pub const PROMPT_CLOSING_TAIL: &'static str = " question(s) now:";

/// What introduces the question to replace in the built-in prompt.
pub const REGENERATE_HEAD: &'static str = "\n\
    \n\
    ---\n\
    \n\
    ## REGENERATION REQUEST\n\
    \n\
    You are replacing an existing question. Generate a NEW question that is DIFFERENT but covers a similar topic and difficulty.\n\
    \n\
    **Question to replace:**\n\
    ";

/// What closes the request for a replacement in the built-in prompt.
pub const REGENERATE_TAIL: &'static str = "\n\
    \n\
    Keep similar topic and difficulty but use DIFFERENT code/scenarios.";

/// How an easy question is described to the model.
pub const DIFFICULTY_EASY: &'static str = "D1 (Easy) - Basic recall or simple application, 1-2 steps";

/// How a medium question is described to the model.
pub const DIFFICULTY_MEDIUM: &'static str = "D2 (Medium) - Requires analysis or multi-step reasoning, 3-5 steps";

/// How a hard question is described to the model.
pub const DIFFICULTY_HARD: &'static str = "D3 (Hard) - Complex analysis, synthesis of multiple concepts, 5+ steps";

/// What the built-in prompt shows in place of examples where there are none.
pub const NO_EXAMPLES: &'static str = "(No examples available - generate based on AP CS A standards)";

/// What a template shows in place of examples where there are none.
pub const NO_EXAMPLES_SHORT: &'static str = "(No examples available)";

/// What introduces the user's own instructions.
pub const INSTRUCTIONS_HEAD: &'static str = "\n\n**Additional Instructions from User:**\n";

/// What introduces the other questions of the set.
pub const OTHERS_HEAD: &'static str = "\n\n**Other questions in this set (avoid duplicating these):**\n";

/// What introduces the question to replace in a template.
pub const REPLACE_HEAD: &'static str = "\n\n**Question to replace:**\n";

/// What stands for the topics where a question is replaced.
pub const REGENERATE_TOPICS: &'static str = "similar topic as original";

/// What a prompt is built from.
pub struct PromptConfig<'a> {
    pub topics: String,
    pub difficulty: &'a str,
    pub count: usize,
    pub examples: &'a [QuestionBankEntry],
    pub user_instructions: Option<&'a str>,
    pub regenerate_context: Option<RegenerateContext<'a>>,
    pub prompt_template: Option<&'a str>,
}

/// The question to replace, and what stands for the other questions of its
/// set.
pub struct RegenerateContext<'a> {
    pub current_question: &'a Question,
    pub other_questions: Vec<String>,
}

/// What a [`RegenerateContext`] holds, as plain mathematical values.
pub struct RegenerateContextView {
    pub current_question: QuestionView,
    pub other_questions: Seq<Seq<char>>,
}

/// What a [`PromptConfig`] holds, as plain mathematical values.
pub struct PromptConfigView {
    pub topics: Seq<char>,
    pub difficulty: Seq<char>,
    pub count: nat,
    pub examples: Seq<QuestionBankEntryView>,
    pub user_instructions: Option<Seq<char>>,
    pub regenerate_context: Option<RegenerateContextView>,
    pub prompt_template: Option<Seq<char>>,
}

impl<'a> View for RegenerateContext<'a> {
    type V = RegenerateContextView;

    open spec fn view(&self) -> RegenerateContextView {
        RegenerateContextView {
            current_question: self.current_question@,
            other_questions: self.other_questions.deep_view(),
        }
    }
}

impl<'a> View for PromptConfig<'a> {
    type V = PromptConfigView;

    open spec fn view(&self) -> PromptConfigView {
        PromptConfigView {
            topics: self.topics@,
            difficulty: self.difficulty@,
            count: self.count as nat,
            examples: self.examples.deep_view(),
            user_instructions: self.user_instructions.deep_view(),
            regenerate_context: match self.regenerate_context {
                Some(ctx) => Some(ctx@),
                None => None,
            },
            prompt_template: self.prompt_template.deep_view(),
        }
    }
}

/// The sentence that describes a difficulty to the model. A level that is
/// neither `easy` nor `hard` is described as a medium one.
pub open spec fn difficulty_description(difficulty: Seq<char>) -> Seq<char> {
    if difficulty == "easy"@ {
        DIFFICULTY_EASY@
    } else if difficulty == "hard"@ {
        DIFFICULTY_HARD@
    } else {
        DIFFICULTY_MEDIUM@
    }
}

/// One character as it stands inside a JSON string literal.
pub open spec fn escaped_char(c: char) -> Seq<char> {
    if c == '\\' {
        seq!['\\', '\\']
    } else if c == '"' {
        seq!['\\', '"']
    } else if c == '\n' {
        seq!['\\', 'n']
    } else if c == '\r' {
        seq!['\\', 'r']
    } else if c == '\t' {
        seq!['\\', 't']
    } else {
        seq![c]
    }
}

/// A text as it stands inside a JSON string literal: backslash, quote, line
/// feed, carriage return and tab are escaped.
pub open spec fn escaped(s: Seq<char>) -> Seq<char>
    decreases s.len(),
{
    if s.len() == 0 {
        s
    } else {
        escaped(s.drop_last()) + escaped_char(s.last())
    }
}

/// The first `max_len` characters of a text and three dots, where the text
/// is longer than that; else the text.
pub open spec fn truncated(s: Seq<char>, max_len: nat) -> Seq<char> {
    if s.len() <= max_len {
        s
    } else {
        s.take(max_len as int) + "..."@
    }
}

/// `true` or `false`.
pub open spec fn bool_text(b: bool) -> Seq<char> {
    if b {
        "true"@
    } else {
        "false"@
    }
}

/// One choice of an example, as a line of JSON.
pub open spec fn option_json(option: QuestionBankOptionView) -> Seq<char> {
    "    {\"text\": \""@ + escaped(option.text) + "\", \"is_correct\": "@ + bool_text(
        option.is_correct,
    ) + "}"@
}

/// One common mistake of an example, as a line of text.
pub open spec fn mistake_line(mistake: CommonMistakeView) -> Seq<char> {
    "- "@ + mistake.option_id + ": "@ + mistake.misconception
}

/// The lines that tell why the wrong choices of an example are tempting.
pub open spec fn distractor_lines(info: DistractorInfoView) -> Seq<Seq<char>> {
    let mistakes = if info.common_mistakes.len() == 0 {
        Seq::<Seq<char>>::empty()
    } else {
        seq!["Common mistakes:"@] + info.common_mistakes.map_values(
            |m: CommonMistakeView| mistake_line(m),
        )
    };
    let errors = if info.common_errors.len() == 0 {
        Seq::<Seq<char>>::empty()
    } else {
        seq!["Common errors: "@ + joined(info.common_errors, ", "@)]
    };
    mistakes + errors
}

/// One skill of an example, as a JSON string literal.
pub open spec fn skill_json(skill: Seq<char>) -> Seq<char> {
    "\""@ + escaped(skill) + "\""@
}

/// An example as the JSON object that the prompt shows: every text of the
/// entry stands escaped inside its string literal.
pub open spec fn example_json(entry: QuestionBankEntryView) -> Seq<char> {
    "{\n  \"text\": \""@ + escaped(entry.text) + "\",\n  \"answers\": [\n"@ + joined(
        entry.options.map_values(|o: QuestionBankOptionView| option_json(o)),
        ",\n"@,
    ) + "\n  ],\n  \"explanation\": \""@ + escaped(entry.explanation)
        + "\",\n  \"difficulty\": \""@ + escaped(entry.difficulty)
        + "\",\n  \"cognitive_level\": \""@ + escaped(entry.cognitive_level)
        + "\",\n  \"skills\": ["@ + joined(
        entry.skills.map_values(|s: Seq<char>| skill_json(s)),
        ", "@,
    ) + "],\n    \"distractors\": \""@ + escaped(joined(distractor_lines(entry.distractors), "\n"@))
        + "\"\n}"@
}

/// The block that shows the example at `index`, counted from zero.
pub open spec fn example_block(index: int, entry: QuestionBankEntryView) -> Seq<char> {
    "### Example "@ + decimal((index + 1) as nat) + "\n```json\n"@ + example_json(entry)
        + "\n```"@
}

/// The blocks of all examples, a blank line between each two; `none` where
/// there is no example.
pub open spec fn examples_text(examples: Seq<QuestionBankEntryView>, none: Seq<char>) -> Seq<char> {
    if examples.len() == 0 {
        none
    } else {
        joined(examples.map(|i: int, e: QuestionBankEntryView| example_block(i, e)), "\n\n"@)
    }
}

/// The user's own instructions as a section of the prompt; nothing where
/// there are none, or only whitespace.
pub open spec fn instructions_text(notes: Option<Seq<char>>) -> Seq<char> {
    match notes {
        Some(text) => if is_blank(text) {
            Seq::empty()
        } else {
            INSTRUCTIONS_HEAD@ + text
        },
        None => Seq::empty(),
    }
}

/// The other questions of the set as a section of the prompt; nothing where
/// there are none.
pub open spec fn others_text(others: Seq<Seq<char>>) -> Seq<char> {
    if others.len() == 0 {
        Seq::empty()
    } else {
        OTHERS_HEAD@ + joined(others.map_values(|q: Seq<char>| "- "@ + q), "\n"@)
    }
}

/// The request for a replacement as a section of the built-in prompt.
pub open spec fn regenerate_text(context: Option<RegenerateContextView>) -> Seq<char> {
    match context {
        Some(ctx) => REGENERATE_HEAD@ + ctx.current_question.text + "\n"@ + others_text(
            ctx.other_questions,
        ) + REGENERATE_TAIL@,
        None => Seq::empty(),
    }
}

/// The request for a replacement as it is put into a template.
pub open spec fn regenerate_text_for_template(context: Option<RegenerateContextView>) -> Seq<char> {
    match context {
        Some(ctx) => REPLACE_HEAD@ + ctx.current_question.text + "\n"@ + others_text(
            ctx.other_questions,
        ),
        None => Seq::empty(),
    }
}

/// The built-in prompt.
pub open spec fn default_prompt(config: PromptConfigView) -> Seq<char> {
    let count = decimal(config.count);
    PROMPT_INTRO@ + config.topics + PROMPT_DIFFICULTY_LABEL@ + difficulty_description(
        config.difficulty,
    ) + PROMPT_COUNT_LABEL@ + count + "\n"@ + regenerate_text(config.regenerate_context)
        + PROMPT_EXAMPLES_HEAD@ + examples_text(config.examples, NO_EXAMPLES@) + PROMPT_TASK_HEAD@
        + count + PROMPT_TASK_RULES@ + count + PROMPT_OUTPUT_FORMAT@ + instructions_text(
        config.user_instructions,
    ) + PROMPT_CLOSING_HEAD@ + count + PROMPT_CLOSING_TAIL@
}

/// A template with its placeholders filled in, one after the other:
/// `{topics}`, `{difficulty}`, `{count}`, `{examples}`,
/// `{user_instructions}`, `{regenerate}`. A placeholder that a value brings
/// along is filled in by the steps that follow; other words in braces stay.
pub open spec fn custom_prompt(template: Seq<char>, config: PromptConfigView) -> Seq<char> {
    let with_topics = replaced(template, "{topics}"@, config.topics);
    let with_difficulty = replaced(
        with_topics,
        "{difficulty}"@,
        difficulty_description(config.difficulty),
    );
    let with_count = replaced(with_difficulty, "{count}"@, decimal(config.count));
    let with_examples = replaced(
        with_count,
        "{examples}"@,
        examples_text(config.examples, NO_EXAMPLES_SHORT@),
    );
    let with_instructions = replaced(
        with_examples,
        "{user_instructions}"@,
        instructions_text(config.user_instructions),
    );
    replaced(
        with_instructions,
        "{regenerate}"@,
        regenerate_text_for_template(config.regenerate_context),
    )
}

/// The prompt for a configuration: its template filled in where it has one,
/// else the built-in prompt.
pub open spec fn core_prompt(config: PromptConfigView) -> Seq<char> {
    match config.prompt_template {
        Some(template) => custom_prompt(template, config),
        None => default_prompt(config),
    }
}

/// The prompt that asks for the questions of a request.
pub open spec fn generation_prompt(
    request: GenerationRequestView,
    examples: Seq<QuestionBankEntryView>,
    template: Option<Seq<char>>,
) -> Seq<char> {
    core_prompt(
        PromptConfigView {
            topics: joined(request.topics, ", "@),
            difficulty: request.difficulty,
            count: request.count as nat,
            examples,
            user_instructions: request.notes,
            regenerate_context: None,
            prompt_template: template,
        },
    )
}

/// Is a question another one than the question with identifier `id`?
pub open spec fn is_other(id: Seq<char>) -> spec_fn(QuestionView) -> bool {
    |q: QuestionView| q.id != id
}

/// At most the first `limit` elements of a sequence.
pub open spec fn first_few<A>(s: Seq<A>, limit: nat) -> Seq<A> {
    if s.len() <= limit {
        s
    } else {
        s.take(limit as int)
    }
}

/// The texts that stand for the other questions of a set: of the first
/// three questions with another identifier than `current_id`, the first 50
/// characters each.
pub open spec fn other_question_texts(context: Seq<QuestionView>, current_id: Seq<char>) -> Seq<
    Seq<char>,
> {
    first_few(context.filter(is_other(current_id)), 3).map_values(
        |q: QuestionView| truncated(q.text, 50),
    )
}

/// The prompt that asks for a replacement of one question.
pub open spec fn regenerate_prompt(
    current: QuestionView,
    context: Seq<QuestionView>,
    examples: Seq<QuestionBankEntryView>,
    user_instructions: Option<Seq<char>>,
    template: Option<Seq<char>>,
) -> Seq<char> {
    core_prompt(
        PromptConfigView {
            topics: REGENERATE_TOPICS@,
            difficulty: "medium"@,
            count: 1,
            examples: first_few(examples, 1),
            user_instructions,
            regenerate_context: Some(
                RegenerateContextView {
                    current_question: current,
                    other_questions: other_question_texts(context, current.id),
                },
            ),
            prompt_template: template,
        },
    )
}

/// Escapes a text for a JSON string literal.
pub fn escape_json_string(s: &str) -> (r: String)
    ensures
        r@ == escaped(s@),
{
    let text = chars_of(s);
    let mut out = String::new();
    let mut i: usize = 0;
    while i < text.len()
        invariant
            i <= text.len(),
            out@ == escaped(text@.take(i as int)),
        decreases text.len() - i,
    {
        proof {
            assert(text@.take(i + 1).drop_last() =~= text@.take(i as int));
            assert(text@.take(i + 1).last() == text@[i as int]);
        }
        let c = text[i];
        if c == '\\' {
            push_char(&mut out, '\\');
            push_char(&mut out, '\\');
        } else if c == '"' {
            push_char(&mut out, '\\');
            push_char(&mut out, '"');
        } else if c == '\n' {
            push_char(&mut out, '\\');
            push_char(&mut out, 'n');
        } else if c == '\r' {
            push_char(&mut out, '\\');
            push_char(&mut out, 'r');
        } else if c == '\t' {
            push_char(&mut out, '\\');
            push_char(&mut out, 't');
        } else {
            push_char(&mut out, c);
        }
        proof {
            assert(out@ =~= escaped(text@.take(i as int)) + escaped_char(c));
        }
        i += 1;
    }
    assert(text@.take(text.len() as int) =~= text@);
    out
}

/// Cuts a text down to its first `max_len` characters and three dots, where
/// it is longer than that.
pub fn truncate(s: &str, max_len: usize) -> (r: String)
    ensures
        r@ == truncated(s@, max_len as nat),
{
    let text = chars_of(s);
    if text.len() <= max_len {
        return s.to_owned();
    }
    let mut out = String::new();
    push_range(&mut out, &text, 0, max_len);
    out.append("...");
    assert(text@.subrange(0, max_len as int) =~= text@.take(max_len as int));
    out
}

/// The sentence that describes a difficulty to the model.
pub fn describe_difficulty(difficulty: &str) -> (r: &'static str)
    ensures
        r@ == difficulty_description(difficulty@),
{
    if same_text(difficulty, "easy") {
        DIFFICULTY_EASY
    } else if same_text(difficulty, "hard") {
        DIFFICULTY_HARD
    } else {
        DIFFICULTY_MEDIUM
    }
}

/// The lines that tell why the wrong choices of an example are tempting.
fn format_distractor_lines(info: &DistractorInfo) -> (r: Vec<String>)
    ensures
        r.deep_view() == distractor_lines(info@),
{
    let mut lines: Vec<String> = Vec::new();
    if info.common_mistakes.len() > 0 {
        lines.push("Common mistakes:".to_owned());
        let mut i: usize = 0;
        while i < info.common_mistakes.len()
            invariant
                i <= info.common_mistakes.len(),
                lines.len() == i + 1,
                lines[0]@ == "Common mistakes:"@,
                forall|j: int|
                    1 <= j <= i ==> (#[trigger] lines[j])@ == mistake_line(
                        info.common_mistakes[j - 1]@,
                    ),
            decreases info.common_mistakes.len() - i,
        {
            let mistake = &info.common_mistakes[i];
            let mut line = "- ".to_owned();
            line.append(mistake.option_id.as_str());
            line.append(": ");
            line.append(mistake.misconception.as_str());
            lines.push(line);
            i += 1;
        }
    }
    let ghost mistakes = lines.deep_view();
    proof {
        let want = if info@.common_mistakes.len() == 0 {
            Seq::<Seq<char>>::empty()
        } else {
            seq!["Common mistakes:"@] + info@.common_mistakes.map_values(
                |m: CommonMistakeView| mistake_line(m),
            )
        };
        assert(mistakes =~= want);
    }
    if info.common_errors.len() > 0 {
        let mut line = "Common errors: ".to_owned();
        let errors = join(&info.common_errors, ", ");
        line.append(errors.as_str());
        lines.push(line);
    }
    proof {
        assert(lines.deep_view() =~= distractor_lines(info@));
    }
    lines
}

/// Shows a bank entry as the JSON object that the prompt holds up as an
/// example.
pub fn format_example_as_json(q: &QuestionBankEntry) -> (r: String)
    ensures
        r@ == example_json(q@),
{
    let mut answers: Vec<String> = Vec::new();
    let mut i: usize = 0;
    while i < q.options.len()
        invariant
            i <= q.options.len(),
            answers.len() == i,
            forall|j: int| 0 <= j < i ==> (#[trigger] answers[j])@ == option_json(q.options[j]@),
        decreases q.options.len() - i,
    {
        let option = &q.options[i];
        let mut line = "    {\"text\": \"".to_owned();
        line.append(escape_json_string(option.text.as_str()).as_str());
        line.append("\", \"is_correct\": ");
        if option.is_correct {
            line.append("true");
        } else {
            line.append("false");
        }
        line.append("}");
        answers.push(line);
        i += 1;
    }
    let mut skills: Vec<String> = Vec::new();
    let mut k: usize = 0;
    while k < q.skills.len()
        invariant
            k <= q.skills.len(),
            skills.len() == k,
            forall|j: int| 0 <= j < k ==> (#[trigger] skills[j])@ == skill_json(q.skills[j]@),
        decreases q.skills.len() - k,
    {
        let mut item = "\"".to_owned();
        item.append(escape_json_string(q.skills[k].as_str()).as_str());
        item.append("\"");
        skills.push(item);
        k += 1;
    }
    proof {
        assert(answers.deep_view() =~= q@.options.map_values(
            |o: QuestionBankOptionView| option_json(o),
        ));
        assert(skills.deep_view() =~= q@.skills.map_values(|s: Seq<char>| skill_json(s)));
    }
    let lines = format_distractor_lines(&q.distractors);
    let distractors = join(&lines, "\n");

    let mut out = "{\n  \"text\": \"".to_owned();
    out.append(escape_json_string(q.text.as_str()).as_str());
    out.append("\",\n  \"answers\": [\n");
    out.append(join(&answers, ",\n").as_str());
    out.append("\n  ],\n  \"explanation\": \"");
    out.append(escape_json_string(q.explanation.as_str()).as_str());
    out.append("\",\n  \"difficulty\": \"");
    out.append(escape_json_string(q.difficulty.as_str()).as_str());
    out.append("\",\n  \"cognitive_level\": \"");
    out.append(escape_json_string(q.cognitive_level.as_str()).as_str());
    out.append("\",\n  \"skills\": [");
    out.append(join(&skills, ", ").as_str());
    out.append("],\n    \"distractors\": \"");
    out.append(escape_json_string(distractors.as_str()).as_str());
    out.append("\"\n}");
    out
}

/// The blocks of all examples, a blank line between each two; `none` where
/// there is no example.
pub fn format_examples(examples: &[QuestionBankEntry], none: &str) -> (r: String)
    ensures
        r@ == examples_text(examples.deep_view(), none@),
{
    if examples.len() == 0 {
        return none.to_owned();
    }
    let mut blocks: Vec<String> = Vec::new();
    let mut i: usize = 0;
    while i < examples.len()
        invariant
            i <= examples.len(),
            blocks.len() == i,
            forall|j: int| 0 <= j < i ==> (#[trigger] blocks[j])@ == example_block(j, examples[j]@),
        decreases examples.len() - i,
    {
        let mut block = "### Example ".to_owned();
        block.append(decimal_string(i as u128 + 1).as_str());
        block.append("\n```json\n");
        block.append(format_example_as_json(&examples[i]).as_str());
        block.append("\n```");
        blocks.push(block);
        i += 1;
    }
    proof {
        assert(blocks.deep_view() =~= examples.deep_view().map(
            |i: int, e: QuestionBankEntryView| example_block(i, e),
        ));
    }
    join(&blocks, "\n\n")
}

/// The user's own instructions as a section of the prompt.
fn format_instructions(notes: Option<&str>) -> (r: String)
    ensures
        r@ == instructions_text(notes.deep_view()),
{
    match notes {
        Some(text) => {
            if blank(text) {
                String::new()
            } else {
                let mut out = INSTRUCTIONS_HEAD.to_owned();
                out.append(text);
                out
            }
        },
        None => String::new(),
    }
}

/// The other questions of the set as a section of the prompt.
fn format_others(others: &Vec<String>) -> (r: String)
    ensures
        r@ == others_text(others.deep_view()),
{
    if others.len() == 0 {
        return String::new();
    }
    let mut lines: Vec<String> = Vec::new();
    let mut i: usize = 0;
    while i < others.len()
        invariant
            i <= others.len(),
            lines.len() == i,
            forall|j: int| 0 <= j < i ==> (#[trigger] lines[j])@ == "- "@ + others[j]@,
        decreases others.len() - i,
    {
        let mut line = "- ".to_owned();
        line.append(others[i].as_str());
        lines.push(line);
        i += 1;
    }
    proof {
        assert(lines.deep_view() =~= others.deep_view().map_values(|q: Seq<char>| "- "@ + q));
    }
    let mut out = OTHERS_HEAD.to_owned();
    out.append(join(&lines, "\n").as_str());
    out
}

/// Fills the placeholders of a template with what a configuration holds.
pub fn format_custom_prompt(template: &str, config: &PromptConfig) -> (r: String)
    ensures
        r@ == custom_prompt(template@, config@),
{
    let examples = format_examples(config.examples, NO_EXAMPLES_SHORT);
    let instructions = format_instructions(config.user_instructions);
    let regenerate = match &config.regenerate_context {
        Some(ctx) => {
            let mut out = REPLACE_HEAD.to_owned();
            out.append(ctx.current_question.text.as_str());
            out.append("\n");
            out.append(format_others(&ctx.other_questions).as_str());
            out
        },
        None => String::new(),
    };
    let count = decimal_string(config.count as u128);
    let with_topics = replace(template, "{topics}", config.topics.as_str());
    let with_difficulty = replace(
        with_topics.as_str(),
        "{difficulty}",
        describe_difficulty(config.difficulty),
    );
    let with_count = replace(with_difficulty.as_str(), "{count}", count.as_str());
    let with_examples = replace(with_count.as_str(), "{examples}", examples.as_str());
    let with_instructions = replace(
        with_examples.as_str(),
        "{user_instructions}",
        instructions.as_str(),
    );
    replace(with_instructions.as_str(), "{regenerate}", regenerate.as_str())
}

/// Builds the prompt for a configuration: from its template where it has
/// one, else the built-in prompt.
pub fn build_core_prompt(config: &PromptConfig) -> (r: String)
    ensures
        r@ == core_prompt(config@),
{
    if let Some(template) = config.prompt_template {
        return format_custom_prompt(template, config);
    }
    let examples = format_examples(config.examples, NO_EXAMPLES);
    let instructions = format_instructions(config.user_instructions);
    let regenerate = match &config.regenerate_context {
        Some(ctx) => {
            let mut out = REGENERATE_HEAD.to_owned();
            out.append(ctx.current_question.text.as_str());
            out.append("\n");
            out.append(format_others(&ctx.other_questions).as_str());
            out.append(REGENERATE_TAIL);
            out
        },
        None => String::new(),
    };
    let count = decimal_string(config.count as u128);
    let mut out = PROMPT_INTRO.to_owned();
    out.append(config.topics.as_str());
    out.append(PROMPT_DIFFICULTY_LABEL);
    out.append(describe_difficulty(config.difficulty));
    out.append(PROMPT_COUNT_LABEL);
    out.append(count.as_str());
    out.append("\n");
    out.append(regenerate.as_str());
    out.append(PROMPT_EXAMPLES_HEAD);
    out.append(examples.as_str());
    out.append(PROMPT_TASK_HEAD);
    out.append(count.as_str());
    out.append(PROMPT_TASK_RULES);
    out.append(count.as_str());
    out.append(PROMPT_OUTPUT_FORMAT);
    out.append(instructions.as_str());
    out.append(PROMPT_CLOSING_HEAD);
    out.append(count.as_str());
    out.append(PROMPT_CLOSING_TAIL);
    out
}

/// Builds the prompt that asks for the questions of a request, with the
/// examples to show and, where the subject has one, its template.
pub fn build_generation_prompt(
    request: &GenerationRequest,
    examples: &[QuestionBankEntry],
    prompt_template: Option<&str>,
) -> (r: String)
    ensures
        r@ == generation_prompt(request@, examples.deep_view(), prompt_template.deep_view()),
{
    let notes: Option<&str> = match &request.notes {
        Some(text) => Some(text.as_str()),
        None => None,
    };
    let config = PromptConfig {
        topics: join(&request.topics, ", "),
        difficulty: request.difficulty.as_str(),
        count: request.count as usize,
        examples,
        user_instructions: notes,
        regenerate_context: None,
        prompt_template,
    };
    build_core_prompt(&config)
}

/// The texts that stand for the other questions of a set.
fn collect_other_questions(current: &Question, context: &[Question]) -> (r: Vec<String>)
    ensures
        r.deep_view() == other_question_texts(context.deep_view(), current@.id),
{
    let ghost others = is_other(current@.id);
    let ghost all = context.deep_view();
    let mut out: Vec<String> = Vec::new();
    let mut i: usize = 0;
    proof {
        reveal(Seq::filter);
        assert(all.take(0).filter(others) =~= Seq::empty());
        assert(out.deep_view() =~= first_few(all.take(0).filter(others), 3).map_values(
            |q: QuestionView| truncated(q.text, 50),
        ));
    }
    while i < context.len()
        invariant
            i <= context.len(),
            all == context.deep_view(),
            others == is_other(current@.id),
            out.deep_view() == first_few(all.take(i as int).filter(others), 3).map_values(
                |q: QuestionView| truncated(q.text, 50),
            ),
        decreases context.len() - i,
    {
        let ghost before = all.take(i as int).filter(others);
        let ghost done = out.deep_view();
        proof {
            assert(all.take(i + 1) =~= all.take(i as int).push(all[i as int]));
            all.take(i as int).lemma_filter_push(all[i as int], others);
            assert(all[i as int] == context[i as int]@);
            assert(out.deep_view().len() == out.len());
            assert(first_few(before, 3).map_values(
                |q: QuestionView| truncated(q.text, 50),
            ).len() == first_few(before, 3).len());
        }
        if out.len() < 3 && !same_text(context[i].id.as_str(), current.id.as_str()) {
            out.push(truncate(context[i].text.as_str(), 50));
            proof {
                let now = before.push(all[i as int]);
                assert(first_few(now, 3) =~= first_few(before, 3).push(all[i as int]));
                assert(out.deep_view() =~= done.push(truncated(all[i as int].text, 50)));
                assert(out.deep_view() =~= first_few(now, 3).map_values(
                    |q: QuestionView| truncated(q.text, 50),
                ));
            }
        } else {
            proof {
                let now = all.take(i + 1).filter(others);
                assert(first_few(now, 3) =~= first_few(before, 3));
            }
        }
        i += 1;
    }
    assert(all.take(context.len() as int) =~= all);
    out
}

/// Builds the prompt that asks for a replacement of `current`: at most one
/// example is shown, and at most three other questions of the set `context`
/// are named, so that the model does not repeat them.
pub fn build_regenerate_prompt(
    current: &Question,
    context: &[Question],
    examples: &[QuestionBankEntry],
    user_instructions: Option<&str>,
    prompt_template: Option<&str>,
) -> (r: String)
    ensures
        r@ == regenerate_prompt(
            current@,
            context.deep_view(),
            examples.deep_view(),
            user_instructions.deep_view(),
            prompt_template.deep_view(),
        ),
{
    let other_questions = collect_other_questions(current, context);
    let shown: &[QuestionBankEntry] = if examples.len() <= 1 {
        examples
    } else {
        vstd::slice::slice_subrange(examples, 0, 1)
    };
    proof {
        assert(shown.deep_view() =~= first_few(examples.deep_view(), 1));
    }
    let config = PromptConfig {
        topics: REGENERATE_TOPICS.to_owned(),
        difficulty: "medium",
        count: 1,
        examples: shown,
        user_instructions,
        regenerate_context: Some(RegenerateContext { current_question: current, other_questions }),
        prompt_template,
    };
    build_core_prompt(&config)
}

/// A template that holds none of the six placeholders is the prompt, as it
/// is: words in braces that are no placeholders stay.
pub proof fn lemma_template_without_placeholders_is_kept(
    template: Seq<char>,
    config: PromptConfigView,
)
    requires
        !contains_text(template, "{topics}"@),
        !contains_text(template, "{difficulty}"@),
        !contains_text(template, "{count}"@),
        !contains_text(template, "{examples}"@),
        !contains_text(template, "{user_instructions}"@),
        !contains_text(template, "{regenerate}"@),
    ensures
        custom_prompt(template, config) == template,
{
    lemma_replaced_without_occurrence(template, "{topics}"@, config.topics);
    lemma_replaced_without_occurrence(
        template,
        "{difficulty}"@,
        difficulty_description(config.difficulty),
    );
    lemma_replaced_without_occurrence(template, "{count}"@, decimal(config.count));
    lemma_replaced_without_occurrence(
        template,
        "{examples}"@,
        examples_text(config.examples, NO_EXAMPLES_SHORT@),
    );
    lemma_replaced_without_occurrence(
        template,
        "{user_instructions}"@,
        instructions_text(config.user_instructions),
    );
    lemma_replaced_without_occurrence(
        template,
        "{regenerate}"@,
        regenerate_text_for_template(config.regenerate_context),
    );
}

/// An escaped text is the escape of its first character and the escaped
/// rest.
proof fn lemma_escaped_from_the_front(s: Seq<char>)
    requires
        s.len() > 0,
    ensures
        escaped(s) == escaped_char(s[0]) + escaped(s.skip(1)),
    decreases s.len(),
{
    if s.len() == 1 {
        assert(s.drop_last() =~= Seq::<char>::empty());
        assert(s.skip(1) =~= Seq::<char>::empty());
        assert(escaped(s) =~= escaped_char(s[0]) + escaped(s.skip(1)));
    } else {
        lemma_escaped_from_the_front(s.drop_last());
        assert(s.drop_last().skip(1) =~= s.skip(1).drop_last());
        assert(s.skip(1).last() == s.last());
        assert(escaped(s) =~= escaped_char(s[0]) + (escaped(s.skip(1).drop_last()) + escaped_char(
            s.last(),
        )));
    }
}

/// What the prompt builder escapes, the parser's repair of string literals
/// leaves as it is.
pub proof fn lemma_escaped_text_needs_no_repair(s: Seq<char>)
    ensures
        crate::repair::needs_no_repair(escaped(s), true),
        crate::repair::sanitized(escaped(s), true) == escaped(s),
    decreases s.len(),
{
    if s.len() > 0 {
        lemma_escaped_from_the_front(s);
        lemma_escaped_text_needs_no_repair(s.skip(1));
        let first = escaped_char(s[0]);
        let rest = escaped(s.skip(1));
        let whole = first + rest;
        if first.len() == 2 {
            assert(whole[0] == '\\');
            assert(whole[1] == first[1]);
            assert(whole.skip(2) =~= rest);
        } else {
            assert(whole[0] == s[0]);
            assert(whole.skip(1) =~= rest);
        }
    }
    crate::repair::lemma_clean_text_is_kept(escaped(s), true);
}

/// A difficulty that is neither `easy` nor `hard` is described as `medium`
/// is, whatever the word.
pub proof fn lemma_unknown_difficulty_is_medium(difficulty: Seq<char>)
    requires
        difficulty != "easy"@,
        difficulty != "hard"@,
    ensures
        difficulty_description(difficulty) == difficulty_description("medium"@),
        difficulty_description(difficulty) == DIFFICULTY_MEDIUM@,
{
    reveal_strlit("easy");
    reveal_strlit("medium");
    reveal_strlit("hard");
    assert("medium"@.len() == 6 && "easy"@.len() == 4 && "hard"@.len() == 4);
}

} // verus!
