use rubrix::auth::{get_bedrock_api_key, secret_request};
use rubrix::brief::build_generation_prompt;
use rubrix::config::{CredentialStore, KeychainAnswer};
use rubrix::docx::{export_docx_markdown, render_docx_markdown};
use rubrix::json::{decode_json, Json};
use rubrix::llm::{
    creation_outcome, describe_api_error, format_log_entry, generate_mock_response,
    output_to_string, parse_prediction, poll_outcome, prediction_step, timeout_outcome, PollNext,
    PollOutcome, Prediction, MAX_POLLS,
};
use rubrix::model::{Answer, GenerationRequest, Question, StreamEvent};
use rubrix::text::{contains, lines, split, trim};

fn events(outcome: &PollOutcome) -> Vec<(&str, bool)> {
    outcome.events.iter().map(|e| (e.text.as_str(), e.done)).collect()
}

fn stream(events: &[StreamEvent]) -> Vec<(&str, bool)> {
    events.iter().map(|e| (e.text.as_str(), e.done)).collect()
}

#[test]
fn an_output_is_turned_into_text() {
    assert_eq!(output_to_string(&Json::Text("plain".to_string())), "plain");
    let pieces = decode_json(r#"["a", 1, "b", null, ["x"], "c"]"#).unwrap();
    assert_eq!(output_to_string(&pieces), "abc");
    assert_eq!(output_to_string(&Json::Array(vec![])), "");
    assert_eq!(output_to_string(&decode_json(r#"{"k": [1, "x"]}"#).unwrap()), r#"{"k":[1,"x"]}"#);
    assert_eq!(output_to_string(&Json::Bool(false)), "false");
    assert_eq!(output_to_string(&Json::Null), "null");
}

#[test]
fn a_prediction_is_read() {
    let p = parse_prediction(r#"{"id": "p1", "status": "processing", "extra": 1}"#).unwrap();
    assert_eq!((p.id.as_str(), p.status.as_str(), &p.output, &p.error), ("p1", "processing", &None, &None));
    let p = parse_prediction(r#"{"id": "p1", "status": "succeeded", "output": ["He", "llo"], "error": null}"#).unwrap();
    assert_eq!(p.output, Some("Hello".to_string()));
    assert_eq!(p.error, None);
    let p = parse_prediction(r#"{"id": "p1", "status": "failed", "output": null, "error": "boom"}"#).unwrap();
    assert_eq!(p.output, None);
    assert_eq!(p.error, Some("boom".to_string()));
    for body in [
        "[]",
        r#"{"status": "x"}"#,
        r#"{"id": "x"}"#,
        r#"{"id": 1, "status": "x"}"#,
        r#"{"id": "x", "status": null}"#,
        r#"{"id": "x", "status": "s", "error": 5}"#,
    ] {
        assert_eq!(
            parse_prediction(body).err(),
            Some("the answer does not have the shape of a prediction".to_string()),
            "{}",
            body
        );
    }
    assert_eq!(parse_prediction("{").err(), Some("EOF while parsing an object at line 1 column 1".to_string()));
}

#[test]
fn an_answer_that_did_not_succeed_is_reported() {
    assert_eq!(describe_api_error(401, r#"{"detail": "bad token"}"#), "Replicate API error (401): bad token");
    assert_eq!(describe_api_error(500, r#"{"error": "down"}"#), "Replicate API error (500): down");
    assert_eq!(
        describe_api_error(422, r#"{"detail": "first", "error": "second"}"#),
        "Replicate API error (422): first"
    );
    assert_eq!(describe_api_error(404, "{}"), "Replicate API error (404): Unknown error");
    assert_eq!(describe_api_error(404, r#"{"detail": null}"#), "Replicate API error (404): Unknown error");
    assert_eq!(describe_api_error(502, "Bad Gateway"), "Replicate API error (502): Bad Gateway");
    assert_eq!(describe_api_error(502, r#"{"detail": 5}"#), "Replicate API error (502): {\"detail\": 5}");
    assert_eq!(describe_api_error(502, "[1]"), "Replicate API error (502): [1]");
}

#[test]
fn the_answer_to_the_request_for_a_prediction() {
    assert_eq!(
        creation_outcome(201, r#"{"id": "abc", "status": "starting"}"#),
        Ok("https://api.replicate.com/v1/predictions/abc".to_string())
    );
    assert_eq!(
        creation_outcome(200, r#"{"id": "abc", "status": "starting", "error": "quota"}"#),
        Err("Replicate error: quota".to_string())
    );
    assert_eq!(
        creation_outcome(299, "not json"),
        Err("Failed to parse response: expected ident at line 1 column 2".to_string())
    );
    assert_eq!(
        creation_outcome(200, "{}"),
        Err("Failed to parse response: the answer does not have the shape of a prediction".to_string())
    );
    for status in [199, 300, 401, 500] {
        assert_eq!(
            creation_outcome(status, r#"{"detail": "no"}"#),
            Err(format!("Replicate API error ({}): no", status))
        );
    }
}

#[test]
fn the_answer_to_the_question_how_far_a_prediction_is() {
    let going = poll_outcome(200, r#"{"id": "p", "status": "processing", "output": ["par", "tial"]}"#);
    assert_eq!(events(&going), vec![("partial", false)]);
    assert!(matches!(going.next, PollNext::Continue));

    let starting = poll_outcome(200, r#"{"id": "p", "status": "starting"}"#);
    assert!(events(&starting).is_empty());
    assert!(matches!(starting.next, PollNext::Continue));

    let done = poll_outcome(200, r#"{"id": "p", "status": "succeeded", "output": "all of it"}"#);
    assert_eq!(events(&done), vec![("all of it", false), ("all of it", true)]);
    assert!(matches!(&done.next, PollNext::Done(text) if text == "all of it"));

    let empty = poll_outcome(200, r#"{"id": "p", "status": "succeeded"}"#);
    assert!(events(&empty).is_empty());
    assert!(matches!(&empty.next, PollNext::Failed(m) if m == "No output from model"));

    let failed = poll_outcome(200, r#"{"id": "p", "status": "failed", "error": "out of \"memory\""}"#);
    assert_eq!(events(&failed), vec![("", true)]);
    assert!(matches!(&failed.next, PollNext::Failed(m) if m == "Prediction failed: Some(\"out of \\\"memory\\\"\")"));

    let failed = poll_outcome(200, r#"{"id": "p", "status": "failed", "output": "so far"}"#);
    assert_eq!(events(&failed), vec![("so far", false), ("", true)]);
    assert!(matches!(&failed.next, PollNext::Failed(m) if m == "Prediction failed: None"));

    let canceled = poll_outcome(200, r#"{"id": "p", "status": "canceled"}"#);
    assert_eq!(events(&canceled), vec![("", true)]);
    assert!(matches!(&canceled.next, PollNext::Failed(m) if m == "Prediction was canceled"));

    let refused = poll_outcome(503, "try later");
    assert!(events(&refused).is_empty());
    assert!(matches!(&refused.next, PollNext::Failed(m) if m == "Replicate API error (503): try later"));

    let broken = poll_outcome(200, "[");
    assert!(events(&broken).is_empty());
    assert!(matches!(&broken.next, PollNext::Failed(m) if m == "Failed to parse status: EOF while parsing a list at line 1 column 1"));

    let step = prediction_step(&Prediction {
        id: "p".to_string(),
        status: "succeeded".to_string(),
        output: Some(String::new()),
        error: None,
    });
    assert_eq!(events(&step), vec![("", false), ("", true)]);
    assert!(matches!(&step.next, PollNext::Done(text) if text.is_empty()));
}

#[test]
fn waiting_is_given_up_after_a_while() {
    assert_eq!(MAX_POLLS, 120);
    let outcome = timeout_outcome();
    assert_eq!(events(&outcome), vec![("", true)]);
    assert!(matches!(&outcome.next, PollNext::Failed(m) if m == "Timeout waiting for prediction"));
}

#[test]
fn the_stand_in_model_hands_its_answer_out_piece_by_piece() {
    let single = MOCK_SINGLE_TEXT;
    let several = MOCK_SEVERAL_TEXT;
    for (prompt, expected) in [
        ("Please replace this question", single),
        ("a single question, please", single),
        ("Generate 3 questions", several),
        ("", several),
        ("Replace (capital R)", several),
    ] {
        let (response, handed_out) = generate_mock_response(prompt);
        assert_eq!(response, expected);
        let chars: Vec<char> = expected.chars().collect();
        let mut want: Vec<(String, bool)> = Vec::new();
        let mut accumulated = String::new();
        for chunk in chars.chunks(20) {
            accumulated.extend(chunk);
            want.push((accumulated.clone(), false));
        }
        want.push((accumulated.clone(), true));
        let got: Vec<(String, bool)> = handed_out.iter().map(|e| (e.text.clone(), e.done)).collect();
        assert_eq!(got, want);
        assert_eq!(stream(&handed_out).last(), Some(&(expected, true)));
    }
}

#[test]
fn an_entry_of_the_log_is_written() {
    let entry = format_log_entry("2024-05-01 12:00:00", "the prompt", "line\\nnext\\t\\\"q\\\" done");
    let expected = format!(
        r#"================================================================================
TIMESTAMP: {}
================================================================================

--- PROMPT ---

{}

--- RESPONSE ---

{}

"#,
        "2024-05-01 12:00:00", "the prompt", "line\nnext\t\"q\" done"
    );
    assert_eq!(entry, expected);
    assert!(entry.starts_with("================================================================================\nTIMESTAMP: 2024-05-01 12:00:00\n"));
    assert!(entry.ends_with("--- RESPONSE ---\n\nline\nnext\t\"q\" done\n\n"));
}

#[test]
fn the_request_for_a_key_holds_the_digest_of_the_password() {
    let request = secret_request("user123", "test_password_123");
    assert_eq!(request.user, "user123");
    assert_eq!(request.password_hash.len(), 64);
    assert_eq!(
        secret_request("u", "abc").password_hash,
        "ba7816bf8f01cfea414140de5dae2223b00361a396177a9cb410ff61f20015ad"
    );
    assert_eq!(
        secret_request("u", "").password_hash,
        "e3b0c44298fc1c149afbf4c8996fb92427ae41e4649b934ca495991b7852b855"
    );
}

#[test]
fn the_answer_of_the_endpoint_is_read() {
    assert_eq!(get_bedrock_api_key(200, r#"{"secret": "s3cr3t", "ttl": 60}"#), Ok("s3cr3t".to_string()));
    assert_eq!(
        get_bedrock_api_key(200, r#"{"secrets": "x"}"#),
        Err("Failed to parse response: the answer does not have the expected shape".to_string())
    );
    assert_eq!(
        get_bedrock_api_key(200, "[]"),
        Err("Failed to parse response: the answer does not have the expected shape".to_string())
    );
    assert_eq!(
        get_bedrock_api_key(200, ""),
        Err("Failed to parse response: EOF while parsing a value at line 1 column 0".to_string())
    );
    assert_eq!(get_bedrock_api_key(401, r#"{"error": "ignored"}"#), Err("Invalid password".to_string()));
    assert_eq!(get_bedrock_api_key(404, ""), Err("User not found".to_string()));
    assert_eq!(get_bedrock_api_key(500, r#"{"error": "internal"}"#), Err("internal".to_string()));
    assert_eq!(get_bedrock_api_key(201, r#"{"error": "odd"}"#), Err("odd".to_string()));
    assert_eq!(
        get_bedrock_api_key(500, r#"{"error": 1}"#),
        Err("Failed to parse error response: the answer does not have the expected shape".to_string())
    );
    assert_eq!(
        get_bedrock_api_key(500, "<html>"),
        Err("Failed to parse error response: expected value at line 1 column 1".to_string())
    );
}

#[test]
fn the_key_is_kept_in_development_builds_only() {
    assert_eq!(CredentialStore::persistence_allowed(true), Ok(()));
    assert_eq!(
        CredentialStore::persistence_allowed(false),
        Err("Token persistence disabled in release mode".to_string())
    );
    let done = KeychainAnswer::Done("token".to_string());
    let no_entry = KeychainAnswer::NoEntry("no entry".to_string());
    let unavailable = KeychainAnswer::Unavailable("locked".to_string());
    let failed = KeychainAnswer::Failed("denied".to_string());
    assert_eq!(CredentialStore::save_token(&done), Ok(()));
    assert_eq!(CredentialStore::save_token(&unavailable), Err("Keychain error: locked".to_string()));
    assert_eq!(CredentialStore::save_token(&failed), Err("Failed to save token to keychain: denied".to_string()));
    assert_eq!(CredentialStore::save_token(&no_entry), Err("Failed to save token to keychain: no entry".to_string()));
    assert_eq!(CredentialStore::load_token(&done), Some("token".to_string()));
    assert_eq!(CredentialStore::load_token(&no_entry), None);
    assert_eq!(CredentialStore::load_token(&unavailable), None);
    assert_eq!(CredentialStore::load_token(&failed), None);
    assert_eq!(CredentialStore::clear_token(&done), Ok(()));
    assert_eq!(CredentialStore::clear_token(&no_entry), Ok(()));
    assert_eq!(CredentialStore::clear_token(&unavailable), Err("Keychain error: locked".to_string()));
    assert_eq!(CredentialStore::clear_token(&failed), Err("Failed to clear token: denied".to_string()));
}

fn question(text: &str, answers: Vec<(&str, bool)>) -> Question {
    Question {
        id: "q".to_string(),
        text: text.to_string(),
        answers: answers
            .into_iter()
            .map(|(text, is_correct)| Answer { text: text.to_string(), is_correct, explanation: None })
            .collect(),
        explanation: None,
        distractors: None,
        subject: String::new(),
        topics: vec![],
    }
}

#[test]
fn the_markdown_for_a_document_in_a_given_order() {
    let questions = vec![
        question("First?", vec![("a", false), ("b", true), ("c", false)]),
        question("Second?", vec![]),
        question("Third?", vec![("x", true)]),
    ];
    let markdown = render_docx_markdown("Quiz", &questions, &vec![vec![2, 0, 1], vec![], vec![0]]);
    assert_eq!(
        markdown,
        "Title: Quiz\n\n1. First?\n\n    a. c\n    a. a\n    a. *b\n\n2. Second?\n\n\n3. Third?\n\n    a. *x\n\n"
    );
    // A number that names no answer adds no line.
    let markdown = render_docx_markdown("Quiz", &questions[..1], &vec![vec![7, 1]]);
    assert_eq!(markdown, "Title: Quiz\n\n1. First?\n\n    a. *b\n\n");
    assert_eq!(render_docx_markdown("T", &[], &vec![]), "Title: T\n\n");
    // A question without an order shows no answers.
    assert_eq!(
        render_docx_markdown("T", &questions, &vec![vec![1]]),
        "Title: T\n\n1. First?\n\n    a. *b\n\n2. Second?\n\n\n3. Third?\n\n\n"
    );
}

#[test]
fn the_markdown_for_a_document_holds_each_answer_once() {
    let answers: Vec<(String, bool)> = (0..30).map(|i| (format!("answer {}", i), i == 7)).collect();
    let questions = vec![question(
        "Pick",
        answers.iter().map(|(t, c)| (t.as_str(), *c)).collect(),
    )];
    let mut orders_seen = std::collections::HashSet::new();
    for _ in 0..5 {
        let markdown = export_docx_markdown("T", &questions);
        assert!(markdown.starts_with("Title: T\n\n1. Pick\n\n    a. "));
        assert!(markdown.ends_with("\n\n"));
        let mut lines: Vec<&str> = markdown.lines().filter(|l| l.starts_with("    a. ")).collect();
        orders_seen.insert(lines.join("|"));
        assert_eq!(lines.len(), 30);
        lines.sort();
        let mut want: Vec<String> = answers
            .iter()
            .map(|(t, c)| format!("    a. {}{}", if *c { "*" } else { "" }, t))
            .collect();
        want.sort();
        assert_eq!(lines, want);
    }
    // Thirty answers do not come in the same order five times.
    assert!(orders_seen.len() > 1);
}

#[test]
fn the_brief_prompt_for_a_request() {
    let request = GenerationRequest {
        subject: "Computer Science".to_string(),
        topics: vec!["recursion".to_string(), "loops".to_string()],
        difficulty: "easy".to_string(),
        count: 4,
        notes: Some("Short stems.".to_string()),
        append: false,
    };
    let topics = "recursion, loops";
    let difficulty = "D1 (Easy) - Basic recall or simple application, 1-2 steps";
    let count = 4;
    let examples = "(No examples available - generate based on AP CS A standards)";
    let notes = "\n**Additional Instructions:** Short stems.";
    let expected = format!(
        r#"You are an expert AP Computer Science A question writer.

**Target:** {topics} | **Difficulty:** {difficulty} | **Count:** {count}
{notes}

## Reference Examples

{examples}

---

## Output Format

Return a JSON array with {count} question object(s). **No text outside the JSON.**

For each question, the `work` field comes FIRST. This is where you trace through the code, calculate the answer, and plan distractors. This reasoning is essential for accuracy.

```json
[
  {{
    "work": "FIRST: Trace the code step-by-step here. Calculate the correct answer. Then identify 3 common student errors and what wrong answers they produce. Example: 'mystery(5): 5 + mystery(4) → 5+4+3+2+1+0 = 15. Errors: off-by-one→14, factorial confusion→120, returns 0 early→0'",
    "stem": "Question text (markdown supported: **bold**, `inline code`)",
    "code": "// Java code goes here, plain text\n// Use \\n for newlines",
    "answers": [
      {{"text": "`15`", "is_correct": true}},
      {{"text": "`14`", "is_correct": false}},
      {{"text": "`120`", "is_correct": false}},
      {{"text": "`0`", "is_correct": false}}
    ],
    "correct_explanation": "Step-by-step: mystery(5) = 5 + mystery(4) = 5 + 4 + mystery(3) = ... = 15",
    "distractor_explanations": {{
      "14": "Off-by-one: stops at n=1 instead of n=0",
      "120": "Confuses addition with multiplication (5!)",
      "0": "Only considers base case return value"
    }}
  }}
]
```

## Field Reference

| Field | Required | Description |
|-------|----------|-------------|
| `work` | Yes | **Write this first.** Trace code, calculate answer, plan distractors. |
| `stem` | Yes | Question text. Markdown OK. |
| `code` | No | Java code snippet. Plain text, use `\n` for newlines. |
| `answers` | Yes | Array of 4-5 choices. Exactly one `is_correct: true`. |
| `correct_explanation` | Yes | Step-by-step solution walkthrough. |
| `distractor_explanations` | Yes | Map of wrong answer → misconception that causes it. |

## Rules

1. **Work first**: Always fill `work` before other fields. This is how you verify correctness.
2. **One correct answer**: Exactly one answer has `is_correct: true`.
3. **Real distractors**: Each wrong answer must come from a specific student error (off-by-one, wrong operator, loop bounds, pass-by-value confusion, etc.)
4. **Valid Java**: Code must be syntactically correct.
5. **Markdown in strings**: Use backticks for inline code in `stem` and `answers.text`.
6. **Pure JSON**: Return ONLY the JSON array. No markdown fences, no explanation outside the JSON.

Generate {count} question(s):"#,
        topics = topics,
        difficulty = difficulty,
        count = count,
        examples = examples,
        notes = notes,
    );
    assert_eq!(build_generation_prompt(&request, &[]), expected);
    let bare = GenerationRequest { notes: Some("  ".to_string()), difficulty: "?".to_string(), ..request };
    let notes = "";
    let difficulty = "D2 (Medium) - Requires analysis or multi-step reasoning, 3-5 steps";
    let expected = format!(
        r#"You are an expert AP Computer Science A question writer.

**Target:** {topics} | **Difficulty:** {difficulty} | **Count:** {count}
{notes}

## Reference Examples

{examples}

---

## Output Format

Return a JSON array with {count} question object(s). **No text outside the JSON.**

For each question, the `work` field comes FIRST. This is where you trace through the code, calculate the answer, and plan distractors. This reasoning is essential for accuracy.

```json
[
  {{
    "work": "FIRST: Trace the code step-by-step here. Calculate the correct answer. Then identify 3 common student errors and what wrong answers they produce. Example: 'mystery(5): 5 + mystery(4) → 5+4+3+2+1+0 = 15. Errors: off-by-one→14, factorial confusion→120, returns 0 early→0'",
    "stem": "Question text (markdown supported: **bold**, `inline code`)",
    "code": "// Java code goes here, plain text\n// Use \\n for newlines",
    "answers": [
      {{"text": "`15`", "is_correct": true}},
      {{"text": "`14`", "is_correct": false}},
      {{"text": "`120`", "is_correct": false}},
      {{"text": "`0`", "is_correct": false}}
    ],
    "correct_explanation": "Step-by-step: mystery(5) = 5 + mystery(4) = 5 + 4 + mystery(3) = ... = 15",
    "distractor_explanations": {{
      "14": "Off-by-one: stops at n=1 instead of n=0",
      "120": "Confuses addition with multiplication (5!)",
      "0": "Only considers base case return value"
    }}
  }}
]
```

## Field Reference

| Field | Required | Description |
|-------|----------|-------------|
| `work` | Yes | **Write this first.** Trace code, calculate answer, plan distractors. |
| `stem` | Yes | Question text. Markdown OK. |
| `code` | No | Java code snippet. Plain text, use `\n` for newlines. |
| `answers` | Yes | Array of 4-5 choices. Exactly one `is_correct: true`. |
| `correct_explanation` | Yes | Step-by-step solution walkthrough. |
| `distractor_explanations` | Yes | Map of wrong answer → misconception that causes it. |

## Rules

1. **Work first**: Always fill `work` before other fields. This is how you verify correctness.
2. **One correct answer**: Exactly one answer has `is_correct: true`.
3. **Real distractors**: Each wrong answer must come from a specific student error (off-by-one, wrong operator, loop bounds, pass-by-value confusion, etc.)
4. **Valid Java**: Code must be syntactically correct.
5. **Markdown in strings**: Use backticks for inline code in `stem` and `answers.text`.
6. **Pure JSON**: Return ONLY the JSON array. No markdown fences, no explanation outside the JSON.

Generate {count} question(s):"#,
        topics = topics,
        difficulty = difficulty,
        count = count,
        examples = examples,
        notes = notes,
    );
    assert_eq!(build_generation_prompt(&bare, &[]), expected);
}

#[test]
fn texts_are_searched_trimmed_and_split() {
    assert!(contains("please replace it", "replace"));
    assert!(contains("abc", ""));
    assert!(contains("", ""));
    assert!(contains("abc", "c"));
    assert!(!contains("abc", "cd"));
    assert!(!contains("", "a"));
    assert!(!contains("ab", "abc"));
    assert_eq!(trim("  a b \n"), "a b");
    assert_eq!(trim("\u{a0}x\u{3000}"), "x");
    assert_eq!(trim(" \t "), "");
    assert_eq!(trim(""), "");
    assert_eq!(trim("x"), "x");
    let chars = |s: &str| s.chars().collect::<Vec<char>>();
    assert_eq!(split(&chars("a|b||c"), '|'), vec!["a", "b", "", "c"]);
    assert_eq!(split(&chars(""), '|'), vec![""]);
    assert_eq!(split(&chars("|"), '|'), vec!["", ""]);
    assert_eq!(split(&chars("abc"), '|'), vec!["abc"]);
    assert_eq!(lines(&chars("a\nb\r\nc")), vec!["a", "b", "c"]);
    assert_eq!(lines(&chars("a\n\nb\n")), vec!["a", "", "b"]);
    assert_eq!(lines(&chars("")), Vec::<String>::new());
    assert_eq!(lines(&chars("\n")), vec![""]);
    assert_eq!(lines(&chars("a\r")), vec!["a\r"]);
    assert_eq!(lines(&chars("a\r\r\nb\rc")), vec!["a\r", "b\rc"]);
    for text in ["a\nb\r\nc", "a\n\nb\n", "", "\n", "a\r", "a\r\r\nb\rc", "\r\n\r\n", "x\n\r"] {
        assert_eq!(lines(&chars(text)), text.lines().collect::<Vec<_>>());
        assert_eq!(split(&chars(text), '\n'), text.split('\n').collect::<Vec<_>>());
    }
}

const MOCK_SINGLE_TEXT: &str = r#"1. Consider the following recursive method:

```java
public int mystery(int n) {
    if (n <= 0)
        return 0;
    return n + mystery(n - 2);
}
```

What value is returned by the call `mystery(7)`?

a. `16`
b. `12`
c. `7`
d. `0`

---
**Correct Answer:** a
**Explanation:** mystery(7) = 7 + mystery(5) = 7 + 5 + mystery(3) = 7 + 5 + 3 + mystery(1) = 7 + 5 + 3 + 1 + mystery(-1) = 7 + 5 + 3 + 1 + 0 = 16
**Distractor Analysis:**
- b: Off-by-one error, stops at n=2 instead of n<=0
- c: Only returns the initial value without recursion
- d: Thinks base case returns for all calls
"#;

const MOCK_SEVERAL_TEXT: &str = r#"1. What is the output of the following code segment?

```java
int[] arr = {1, 2, 3, 4, 5};
for (int i = 0; i < arr.length; i++) {
    arr[i] = arr[i] * 2;
}
System.out.println(arr[2]);
```

a. `6`
b. `3`
c. `4`
d. `2`

---
**Correct Answer:** a
**Explanation:** Array element at index 2 is 3, after doubling becomes 6.
**Distractor Analysis:**
- b: Forgets the doubling operation
- c: Off-by-one, thinks index 2 holds the value 4
- d: Confuses index with original value

2. Consider the following recursive method:

```java
public int factorial(int n) {
    if (n <= 1)
        return 1;
    return n * factorial(n - 1);
}
```

What value is returned by `factorial(5)`?

a. `120`
b. `24`
c. `5`
d. `1`

---
**Correct Answer:** a
**Explanation:** 5! = 5 × 4 × 3 × 2 × 1 = 120
**Distractor Analysis:**
- b: Computes factorial(4) instead
- c: Returns just the input value
- d: Returns the base case value

3. What is the value of `result` after the following code executes?

```java
String str = "Hello World";
int result = str.indexOf("o");
```

a. `4`
b. `5`
c. `7`
d. `-1`

---
**Correct Answer:** a
**Explanation:** indexOf returns the first occurrence of "o" which is at index 4.
**Distractor Analysis:**
- b: Off-by-one, counts from 1 instead of 0
- c: Returns index of second "o" in "World"
- d: Thinks character not found
"#;
