use rubrix::model::{
    Answer, CommonMistake, DistractorInfo, GenerationRequest, Question, QuestionBankEntry,
    QuestionBankOption,
};
use rubrix::prompts::{
    build_core_prompt, build_generation_prompt, build_regenerate_prompt, escape_json_string,
    format_custom_prompt, format_example_as_json, truncate, PromptConfig, RegenerateContext,
};

fn entry(id: &str) -> QuestionBankEntry {
    QuestionBankEntry {
        id: id.to_string(),
        text: "What does `f(3)` return?\n\n```java\nint f(int n) { return n * 2; }\n```".to_string(),
        options: vec![
            QuestionBankOption { id: "a".to_string(), text: "`6`".to_string(), is_correct: true },
            QuestionBankOption { id: "b".to_string(), text: "\"3\"".to_string(), is_correct: false },
        ],
        explanation: "3 * 2 = 6\tdone".to_string(),
        difficulty: "D2".to_string(),
        cognitive_level: "apply".to_string(),
        topics: vec!["T009".to_string()],
        skills: vec!["tracing".to_string(), "arithmetic".to_string()],
        distractors: DistractorInfo {
            common_mistakes: vec![CommonMistake {
                option_id: "b".to_string(),
                misconception: "returns the argument".to_string(),
            }],
            common_errors: vec!["off by one".to_string(), "wrong operator".to_string()],
        },
    }
}

fn request(notes: Option<&str>) -> GenerationRequest {
    GenerationRequest {
        subject: "Computer Science".to_string(),
        topics: vec!["recursion".to_string(), "arrays".to_string()],
        difficulty: "hard".to_string(),
        count: 12,
        notes: notes.map(|n| n.to_string()),
        append: false,
    }
}

fn question(id: &str, text: &str) -> Question {
    Question {
        id: id.to_string(),
        text: text.to_string(),
        answers: vec![Answer { text: "A".to_string(), is_correct: true, explanation: None }],
        explanation: None,
        distractors: None,
        subject: String::new(),
        topics: Vec::new(),
    }
}

fn expected_example(text: &str, answers: &str, explanation: &str, difficulty: &str, cognitive_level: &str, skills: &str, distractors: &str) -> String {
    format!(
        r#"{{
  "text": "{text}",
  "answers": [
{answers}
  ],
  "explanation": "{explanation}",
  "difficulty": "{difficulty}",
  "cognitive_level": "{cognitive_level}",
  "skills": [{skills}],
    "distractors": "{distractors}"
}}"#,
        text = text,
        answers = answers,
        explanation = explanation,
        difficulty = difficulty,
        cognitive_level = cognitive_level,
        skills = skills,
        distractors = distractors,
    )
}

fn expected_default(topics: &str, difficulty: &str, count: usize, examples: &str, regenerate: &str, user_instructions: &str) -> String {
    format!(
        r#"You are an expert AP Computer Science A question writer with strong analytical and debugging skills.

**CRITICAL RULE: Calculate the correct answer BEFORE writing the question.**

When generating questions with code or calculations:
1. First, decide on the concept you'll test
2. Write the code mentally or on scratch paper
3. TRACE through the code step-by-step and calculate the correct answer
4. Verify your calculation is correct - double-check your math
5. Create wrong answers based on specific misconceptions
6. ONLY THEN start writing in the output format below

If you discover an error while writing your explanation, DO NOT try to fix it mid-stream. Instead, silently start that question over with different code.

**Target Topic(s):** {topics}
**Target Difficulty:** {difficulty}
**Number of Questions:** {count}
{regenerate}
---

## Reference Examples (JSON format)

Study these examples carefully. Pay special attention to:
- How the `distractors` field shows WHY each wrong answer is tempting
- The `common_errors` that students make
- The relationship between `difficulty` and `cognitive_level`
- The precision and accuracy of the explanations

{examples}

---

## Your Task

Generate {count} NEW question(s) that:
1. Test the specified topic(s) at the target difficulty
2. Use DIFFERENT code and scenarios than the examples
3. Each wrong answer must exploit a specific student misconception
4. Match the quality and style shown in the examples
5. Have internally consistent, mathematically correct answers that you've verified

**WORKFLOW (FOLLOW THIS ORDER):**

For EACH question you write:

**Step 1: Plan & Solve (Do this in the explanation section)**
- Decide what concept you'll test
- Write the code you'll use
- TRACE through it step-by-step and calculate the CORRECT answer
- Double-check your calculation - verify it's right
- Think through common student errors for this type of problem

**Step 2: Design Distractors (Also in the explanation section)**
- Identify 3-4 specific misconceptions students have
- For each misconception, calculate what wrong answer it would produce
- Make sure each distractor comes from a real error pattern (off-by-one, wrong operator, pass-by-value confusion, loop bound errors, etc.)

**Step 3: Write the Question (Now you can start writing JSON)**
- Only NOW should you write the stem and code
- Write ALL answer choices (correct + distractors) with their explanations
- Write the explanation showing the step-by-step solution
- Write the distractors analysis explaining the error patterns

**Output Format (JSON Array):**

Return your response as a JSON array containing {count} question object(s). Each question should follow this structure:

```json
[
  {{
    "text": "Question text here with markdown formatting like **bold** or `code`. Can include code blocks:\n\n```java\nSystem.out.println(\"Hello\");\n```",
    "explanation": "Step-by-step walkthrough of how to arrive at the correct answer. Verify correct answer. Design distractors.",
        "distractors": "Analysis of why each wrong answer is tempting and what misconception leads to it",
    "answers": [
      {{"text": "Answer text (use markdown like `42` for code)", "is_correct": false, "explanation": "Why this is wrong"}},
      {{"text": "Another answer", "is_correct": true, "explanation": "Why this is correct"}},
      {{"text": "Third answer", "is_correct": false, "explanation": "Common misconception"}},
      {{"text": "Fourth answer", "is_correct": false, "explanation": "Off-by-one error"}}
        ]
  }}
]
```

**Field Guidelines:**
- `text`: Complete question text in markdown format (can include code blocks with ```java```)
- `answers`: Array of 4-5 answer choices with explanations
  - `text`: Answer text (use backticks for code like `42`)
  - `is_correct`: Boolean indicating if this is the correct answer
  - `explanation`: Brief explanation of why this answer is correct/incorrect
- `explanation`: Detailed walkthrough showing how to solve the problem
- `distractors`: Analysis of common student errors that lead to wrong answers

**Quality Checklist (verify before submitting):**
- ✓ Did you work out the correct answer BEFORE writing anything?
- ✓ Does your explanation match the answer you marked as correct?
- ✓ Does each distractor represent a real student error pattern?
- ✓ Is your code syntactically correct Java?
- ✓ Are all inline code references wrapped in backticks?
- ✓ Is your explanation clear, accurate, and step-by-step?
- ✓ Did you return ONLY the JSON array with no extra text?
{user_instructions}

Generate a JSON array with {count} question(s) now:"#,
        topics = topics,
        difficulty = difficulty,
        count = count,
        examples = examples,
        regenerate = regenerate,
        user_instructions = user_instructions,
    )
}

fn expected_regenerate(text: &str, others: &str) -> String {
    format!(
        r#"

---

## REGENERATION REQUEST

You are replacing an existing question. Generate a NEW question that is DIFFERENT but covers a similar topic and difficulty.

**Question to replace:**
{}
{}

Keep similar topic and difficulty but use DIFFERENT code/scenarios."#,
        text, others
    )
}

const ENTRY_JSON: &str = "{\n  \"text\": \"What does `f(3)` return?\\n\\n```java\\nint f(int n) { return n * 2; }\\n```\",\n  \"answers\": [\n    {\"text\": \"`6`\", \"is_correct\": true},\n    {\"text\": \"\\\"3\\\"\", \"is_correct\": false}\n  ],\n  \"explanation\": \"3 * 2 = 6\\tdone\",\n  \"difficulty\": \"D2\",\n  \"cognitive_level\": \"apply\",\n  \"skills\": [\"tracing\", \"arithmetic\"],\n    \"distractors\": \"Common mistakes:\\n- b: returns the argument\\nCommon errors: off by one, wrong operator\"\n}";

#[test]
fn an_example_is_shown_as_json() {
    assert_eq!(format_example_as_json(&entry("e1")), ENTRY_JSON);
    let expected = expected_example(
        "What does `f(3)` return?\\n\\n```java\\nint f(int n) { return n * 2; }\\n```",
        "    {\"text\": \"`6`\", \"is_correct\": true},\n    {\"text\": \"\\\"3\\\"\", \"is_correct\": false}",
        "3 * 2 = 6\\tdone",
        "D2",
        "apply",
        "\"tracing\", \"arithmetic\"",
        "Common mistakes:\\n- b: returns the argument\\nCommon errors: off by one, wrong operator",
    );
    assert_eq!(format_example_as_json(&entry("e1")), expected);
}

#[test]
fn an_example_without_lists_is_shown_with_empty_lists() {
    let bare = QuestionBankEntry {
        id: "x".to_string(),
        text: "T".to_string(),
        options: vec![],
        explanation: "E".to_string(),
        difficulty: "D1".to_string(),
        cognitive_level: "recall".to_string(),
        topics: vec![],
        skills: vec![],
        distractors: DistractorInfo { common_mistakes: vec![], common_errors: vec![] },
    };
    assert_eq!(
        format_example_as_json(&bare),
        expected_example("T", "", "E", "D1", "recall", "", "")
    );
    let only_errors = QuestionBankEntry {
        distractors: DistractorInfo { common_mistakes: vec![], common_errors: vec!["one".to_string()] },
        ..bare.clone()
    };
    assert!(format_example_as_json(&only_errors).ends_with("\"distractors\": \"Common errors: one\"\n}"));
    let only_mistakes = QuestionBankEntry {
        distractors: DistractorInfo {
            common_mistakes: vec![
                CommonMistake { option_id: "a".to_string(), misconception: "m1".to_string() },
                CommonMistake { option_id: "c".to_string(), misconception: "m2".to_string() },
            ],
            common_errors: vec![],
        },
        ..bare
    };
    assert!(format_example_as_json(&only_mistakes)
        .ends_with("\"distractors\": \"Common mistakes:\\n- a: m1\\n- c: m2\"\n}"));
}

#[test]
fn every_text_of_an_example_is_escaped() {
    let tricky = QuestionBankEntry {
        id: "x".to_string(),
        text: "T".to_string(),
        options: vec![],
        explanation: "E".to_string(),
        difficulty: "D\"1".to_string(),
        cognitive_level: "re\\call".to_string(),
        topics: vec![],
        skills: vec!["a\"b".to_string(), "c\nd".to_string()],
        distractors: DistractorInfo { common_mistakes: vec![], common_errors: vec![] },
    };
    assert_eq!(
        format_example_as_json(&tricky),
        expected_example("T", "", "E", "D\\\"1", "re\\\\call", "\"a\\\"b\", \"c\\nd\"", "")
    );
}

#[test]
fn json_strings_are_escaped() {
    assert_eq!(escape_json_string(""), "");
    assert_eq!(escape_json_string("plain é ✓"), "plain é ✓");
    assert_eq!(escape_json_string("a\\b"), "a\\\\b");
    assert_eq!(escape_json_string("say \"hi\""), "say \\\"hi\\\"");
    assert_eq!(escape_json_string("l1\nl2\rl3\tl4"), "l1\\nl2\\rl3\\tl4");
    assert_eq!(escape_json_string("\\n"), "\\\\n");
    assert_eq!(escape_json_string("\\\"\n"), "\\\\\\\"\\n");
}

#[test]
fn long_texts_are_cut() {
    assert_eq!(truncate("short", 50), "short");
    assert_eq!(truncate("", 0), "");
    assert_eq!(truncate("abcdef", 6), "abcdef");
    assert_eq!(truncate("abcdefg", 6), "abcdef...");
    assert_eq!(truncate("abc", 0), "...");
    let long = "x".repeat(51);
    assert_eq!(truncate(&long, 50), format!("{}...", "x".repeat(50)));
    // Characters are counted.
    assert_eq!(truncate("ééééé", 3), "ééé...");
    assert_eq!(truncate("ééé", 3), "ééé");
}

#[test]
fn the_built_in_prompt_for_a_request() {
    let examples = vec![entry("e1"), entry("e2")];
    let prompt = build_generation_prompt(&request(Some("Use loops.")), &examples, None);
    let blocks = format!(
        "### Example 1\n```json\n{}\n```\n\n### Example 2\n```json\n{}\n```",
        ENTRY_JSON, ENTRY_JSON
    );
    let expected = expected_default(
        "recursion, arrays",
        "D3 (Hard) - Complex analysis, synthesis of multiple concepts, 5+ steps",
        12,
        &blocks,
        "",
        "\n\n**Additional Instructions from User:**\nUse loops.",
    );
    assert_eq!(prompt, expected);
    assert!(prompt.contains("**CRITICAL RULE: Calculate the correct answer BEFORE writing the question.**"));
    assert!(prompt.contains("Did you return ONLY the JSON array with no extra text?"));
    assert!(prompt.ends_with("\n\nGenerate a JSON array with 12 question(s) now:"));
}

#[test]
fn the_built_in_prompt_for_computer_science_recursion() {
    let request = GenerationRequest {
        subject: "Computer Science".to_string(),
        topics: vec!["recursion".to_string()],
        difficulty: "medium".to_string(),
        count: 2,
        notes: None,
        append: false,
    };
    let prompt = build_generation_prompt(&request, &[], None);
    let expected = expected_default(
        "recursion",
        "D2 (Medium) - Requires analysis or multi-step reasoning, 3-5 steps",
        2,
        "(No examples available - generate based on AP CS A standards)",
        "",
        "",
    );
    assert_eq!(prompt, expected);
}

#[test]
fn difficulties_are_described() {
    let describe = |difficulty: &str| {
        let request = GenerationRequest { difficulty: difficulty.to_string(), ..request(None) };
        format_custom_prompt(
            "{difficulty}",
            &PromptConfig {
                topics: String::new(),
                difficulty: &request.difficulty,
                count: 0,
                examples: &[],
                user_instructions: None,
                regenerate_context: None,
                prompt_template: None,
            },
        )
    };
    assert_eq!(describe("easy"), "D1 (Easy) - Basic recall or simple application, 1-2 steps");
    assert_eq!(describe("medium"), "D2 (Medium) - Requires analysis or multi-step reasoning, 3-5 steps");
    assert_eq!(describe("hard"), "D3 (Hard) - Complex analysis, synthesis of multiple concepts, 5+ steps");
    // Any other word is described as a medium difficulty is.
    for word in ["unknown", "extreme", "", "Easy", "MEDIUM", " hard"] {
        assert_eq!(describe(word), describe("medium"), "{:?}", word);
    }
}

#[test]
fn blank_notes_add_no_section() {
    for notes in [None, Some(""), Some("   "), Some("\n\t \u{a0}\u{2003}")] {
        let prompt = build_generation_prompt(&request(notes), &[], None);
        assert!(!prompt.contains("Additional Instructions from User"));
    }
    let prompt = build_generation_prompt(&request(Some("  keep the spaces ")), &[], None);
    assert!(prompt.contains("\n\n**Additional Instructions from User:**\n  keep the spaces \n\nGenerate"));
}

#[test]
fn a_template_has_its_placeholders_filled_in() {
    let template = "T={topics};D={difficulty};C={count}/{count};E={examples};U={user_instructions};R={regenerate};X={unknown}{";
    let prompt = build_generation_prompt(&request(Some("n")), &[], Some(template));
    assert_eq!(
        prompt,
        "T=recursion, arrays;D=D3 (Hard) - Complex analysis, synthesis of multiple concepts, 5+ steps;C=12/12;E=(No examples available);U=\n\n**Additional Instructions from User:**\nn;R=;X={unknown}{"
    );
    let with_examples = build_generation_prompt(&request(None), &[entry("e")], Some("{examples}"));
    assert_eq!(with_examples, format!("### Example 1\n```json\n{}\n```", ENTRY_JSON));
    assert_eq!(build_generation_prompt(&request(None), &[], Some("")), "");
    assert_eq!(build_generation_prompt(&request(None), &[], Some("no placeholders")), "no placeholders");
}

#[test]
fn placeholders_are_filled_in_one_after_the_other() {
    // A value that brings a later placeholder along has it filled in too.
    let tricky = GenerationRequest { topics: vec!["{count}".to_string()], ..request(None) };
    assert_eq!(build_generation_prompt(&tricky, &[], Some("{topics}")), "12");
    // One that brings an earlier placeholder along keeps it.
    let notes = GenerationRequest { notes: Some("{topics}".to_string()), ..request(None) };
    assert_eq!(
        build_generation_prompt(&notes, &[], Some("{user_instructions}")),
        "\n\n**Additional Instructions from User:**\n{topics}"
    );
}

#[test]
fn the_built_in_prompt_for_a_replacement() {
    let current = question("q2", "What is recursion?");
    let context = vec![
        question("q1", "First"),
        question("q2", "What is recursion?"),
        question("q3", &"y".repeat(60)),
        question("q4", "Fourth"),
        question("q5", "Fifth"),
    ];
    let examples = vec![entry("e1"), entry("e2")];
    let prompt = build_regenerate_prompt(&current, &context, &examples, Some("Harder."), None);
    let others = format!(
        "\n\n**Other questions in this set (avoid duplicating these):**\n- First\n- {}...\n- Fourth",
        "y".repeat(50)
    );
    let expected = expected_default(
        "similar topic as original",
        "D2 (Medium) - Requires analysis or multi-step reasoning, 3-5 steps",
        1,
        &format!("### Example 1\n```json\n{}\n```", ENTRY_JSON),
        &expected_regenerate("What is recursion?", &others),
        "\n\n**Additional Instructions from User:**\nHarder.",
    );
    assert_eq!(prompt, expected);
}

#[test]
fn a_replacement_alone_in_its_set_names_no_other_question() {
    let current = question("q1", "Only one");
    let prompt = build_regenerate_prompt(&current, &[question("q1", "Only one")], &[], None, None);
    let expected = expected_default(
        "similar topic as original",
        "D2 (Medium) - Requires analysis or multi-step reasoning, 3-5 steps",
        1,
        "(No examples available - generate based on AP CS A standards)",
        &expected_regenerate("Only one", ""),
        "",
    );
    assert_eq!(prompt, expected);
    assert!(!prompt.contains("Other questions in this set"));
}

#[test]
fn a_template_for_a_replacement() {
    let current = question("q1", "Old text");
    let context = vec![question("q1", "Old text"), question("q2", "Other")];
    let prompt = build_regenerate_prompt(&current, &context, &[], None, Some("{count}|{topics}|{difficulty}|{regenerate}|"));
    assert_eq!(
        prompt,
        "1|similar topic as original|D2 (Medium) - Requires analysis or multi-step reasoning, 3-5 steps|\n\n**Question to replace:**\nOld text\n\n\n**Other questions in this set (avoid duplicating these):**\n- Other|"
    );
}

#[test]
fn the_core_prompt_uses_the_template_of_the_configuration() {
    let current = question("q9", "Current");
    let config = PromptConfig {
        topics: "t".to_string(),
        difficulty: "easy",
        count: 3,
        examples: &[],
        user_instructions: Some("u"),
        regenerate_context: Some(RegenerateContext {
            current_question: &current,
            other_questions: vec!["one".to_string(), "two".to_string()],
        }),
        prompt_template: Some("{topics}/{count}{regenerate}"),
    };
    assert_eq!(
        build_core_prompt(&config),
        "t/3\n\n**Question to replace:**\nCurrent\n\n\n**Other questions in this set (avoid duplicating these):**\n- one\n- two"
    );
    let plain = PromptConfig { prompt_template: None, ..config };
    let expected = expected_default(
        "t",
        "D1 (Easy) - Basic recall or simple application, 1-2 steps",
        3,
        "(No examples available - generate based on AP CS A standards)",
        &expected_regenerate(
            "Current",
            "\n\n**Other questions in this set (avoid duplicating these):**\n- one\n- two",
        ),
        "\n\n**Additional Instructions from User:**\nu",
    );
    assert_eq!(build_core_prompt(&plain), expected);
}

#[test]
fn an_unknown_difficulty_is_described_as_medium() {
    let extreme = GenerationRequest { difficulty: "extreme".to_string(), ..request(None) };
    let medium = GenerationRequest { difficulty: "medium".to_string(), ..request(None) };
    assert_eq!(
        build_generation_prompt(&extreme, &[], Some("{difficulty}")),
        "D2 (Medium) - Requires analysis or multi-step reasoning, 3-5 steps"
    );
    assert_eq!(
        build_generation_prompt(&extreme, &[entry("e")], None),
        build_generation_prompt(&medium, &[entry("e")], None)
    );
}
