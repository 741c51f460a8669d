use rubrix::decode::{
    answer_from_json, de_opt_string_or_json, question_from_json, questions_from_json, ShapeError,
};
use rubrix::json::{compact_json, decode_json, find_member, pretty_json, Json};
use rubrix::parser::{
    assign_ids, parse_llm_response, questions_from_decoding, ParseError, EXCERPT_LIMIT,
};
use rubrix::repair::sanitize_json_escapes;
use rubrix::scan::{extract_first_json_array, find_matching_close, find_opening};

fn chars(s: &str) -> Vec<char> {
    s.chars().collect()
}

fn text(v: &[char]) -> String {
    v.iter().collect()
}

fn object(members: Vec<(&str, Json)>) -> Json {
    Json::Object(members.into_iter().map(|(k, v)| (k.to_string(), v)).collect())
}

fn string(s: &str) -> Json {
    Json::Text(s.to_string())
}

fn answer_json(text: &str, is_correct: bool) -> Json {
    object(vec![("text", string(text)), ("is_correct", Json::Bool(is_correct))])
}

#[test]
fn test_parse_json_format() {
    let input = r#"[
  {
    "text": "What is returned by this code?\n\n```java\nreturn 5 + 3;\n```",
    "answers": [
      {"text": "`8`", "is_correct": true, "explanation": "Correct addition"},
      {"text": "`53`", "is_correct": false, "explanation": "String concatenation error"},
      {"text": "`\"53\"`", "is_correct": false, "explanation": "Wrong type"},
      {"text": "Error", "is_correct": false, "explanation": "Compiles fine"}
    ],
    "explanation": "Simple addition of 5 + 3 equals 8.",
    "distractors": "String concatenation vs addition confusion"
  }
]"#;

    let questions = parse_llm_response(input).unwrap();
    assert_eq!(questions.len(), 1);
    assert_eq!(questions[0].answers.len(), 4);
    assert!(questions[0].answers[0].is_correct);
    assert_eq!(
        questions[0].text,
        "What is returned by this code?\n\n```java\nreturn 5 + 3;\n```"
    );
}

#[test]
fn test_parse_multiple_questions() {
    let input = r#"[
  {
    "text": "Question 1",
    "answers": [
      {"text": "A", "is_correct": true},
      {"text": "B", "is_correct": false}
    ]
  },
  {
    "text": "Question 2",
    "answers": [
      {"text": "C", "is_correct": false},
      {"text": "D", "is_correct": true}
    ]
  }
]"#;

    let questions = parse_llm_response(input).unwrap();
    assert_eq!(questions.len(), 2);
    assert_eq!(questions[0].id, "q1");
    assert_eq!(questions[1].id, "q2");
}

#[test]
fn test_parse_first_json_array_when_multiple_present() {
    let input = r#"Here you go:

```json
[
    {
        "text": "First array question",
        "answers": [
            {"text": "A", "is_correct": true}
        ]
    }
]
```

Some extra commentary.

```json
[
    {
        "text": "Second array question",
        "answers": [
            {"text": "B", "is_correct": true}
        ]
    }
]
```
"#;

    let questions = parse_llm_response(input).unwrap();
    assert_eq!(questions.len(), 1);
    assert_eq!(questions[0].text, "First array question");
}

#[test]
fn test_parse_accepts_legacy_options_field() {
    let input = r#"[
    {
        "text": "Legacy options question",
        "options": [
            {"text": "A", "is_correct": true},
            {"text": "B", "is_correct": false}
        ]
    }
]"#;

    let questions = parse_llm_response(input).unwrap();
    assert_eq!(questions.len(), 1);
    assert_eq!(questions[0].text, "Legacy options question");
    assert_eq!(questions[0].answers.len(), 2);
    assert!(questions[0].answers[0].is_correct);
}

#[test]
fn parses_the_first_of_two_fenced_arrays() {
    let input = "Here you go:\n```json\n[{\"text\":\"Q1\",\"answers\":[{\"text\":\"A\",\"is_correct\":true}]}]\n```\nAlso:\n```json\n[{\"text\":\"Q2\",\"answers\":[{\"text\":\"B\",\"is_correct\":true}]}]\n```";
    let questions = parse_llm_response(input).unwrap();
    assert_eq!(questions.len(), 1);
    assert_eq!(questions[0].text, "Q1");
    assert_eq!(questions[0].id, "q1");
    assert_eq!(questions[0].answers.len(), 1);
    assert_eq!(questions[0].answers[0].text, "A");
    assert!(questions[0].answers[0].is_correct);
    assert_eq!(questions[0].answers[0].explanation, None);
}

#[test]
fn later_text_does_not_change_the_result() {
    let payload = r#"[{"text":"Q1","answers":[{"text":"A","is_correct":true}]}]"#;
    let alone = parse_llm_response(payload).unwrap();
    let followed = parse_llm_response(&format!("intro {} and then ]] [{{ broken", payload)).unwrap();
    assert_eq!(alone.len(), followed.len());
    assert_eq!(alone[0].text, followed[0].text);
    assert_eq!(alone[0].id, followed[0].id);
}

#[test]
fn round_trip_keeps_order_and_numbers_from_one() {
    let mut payload = String::from("[");
    for i in 0..12 {
        if i > 0 {
            payload.push(',');
        }
        payload.push_str(&format!(
            "{{\"text\":\"Question {}\",\"answers\":[{{\"text\":\"yes\",\"is_correct\":true}},{{\"text\":\"no\",\"is_correct\":false}}]}}",
            i
        ));
    }
    payload.push(']');
    let response = format!("Sure! Here are the questions:\n```json\n{}\n```\nGood luck.", payload);
    let questions = parse_llm_response(&response).unwrap();
    assert_eq!(questions.len(), 12);
    for (i, q) in questions.iter().enumerate() {
        assert_eq!(q.id, format!("q{}", i + 1));
        assert_eq!(q.text, format!("Question {}", i));
        assert_eq!(q.answers.len(), 2);
        assert_eq!(q.subject, "");
        assert!(q.topics.is_empty());
    }
}

#[test]
fn a_supplied_id_is_overwritten() {
    let input = r#"[{"id": "zzz", "text": "T", "answers": []}, {"id": 7, "text": "U", "answers": []}]"#;
    let questions = parse_llm_response(input).unwrap();
    assert_eq!(questions[0].id, "q1");
    assert_eq!(questions[1].id, "q2");
}

#[test]
fn an_array_of_strings_before_the_payload_is_passed_over() {
    let input = r#"Request was {"topics": ["arrays","loops"]} and here is the result:
[ {"text": "Real", "answers": [{"text": "A", "is_correct": true}]} ]"#;
    let questions = parse_llm_response(input).unwrap();
    assert_eq!(questions.len(), 1);
    assert_eq!(questions[0].text, "Real");

    let found = extract_first_json_array(&chars(input)).unwrap();
    assert!(text(&found).starts_with("[ {\"text\""));
    assert_eq!(find_opening(&chars(r#"["a","b"] [1,2] [ [ "x" ] ]"#)), None);
}

#[test]
fn no_bracket_gives_no_json_array_found() {
    for input in ["", "   ", "no brackets at all", "{\"text\": \"object, not array\"}"] {
        match parse_llm_response(input) {
            Err(ParseError::NoJsonArrayFound) => {}
            other => panic!("unexpected outcome {:?}", other),
        }
    }
}

#[test]
fn an_array_of_scalars_alone_gives_no_json_array_found() {
    for input in ["[]", "[1, 2, 3]", "[\"a\"]", "[ [ ] ]"] {
        assert!(matches!(parse_llm_response(input), Err(ParseError::NoJsonArrayFound)));
    }
}

#[test]
fn an_array_that_never_closes_gives_no_json_array_found() {
    let input = r#"[{"text": "cut off", "answers": [{"text": "A", "is_correct": true}]"#;
    assert!(matches!(parse_llm_response(input), Err(ParseError::NoJsonArrayFound)));
    let in_string = r#"[{"text": "the bracket ] is inside the string"#;
    assert!(matches!(parse_llm_response(in_string), Err(ParseError::NoJsonArrayFound)));
}

#[test]
fn invalid_content_gives_invalid_json_with_an_excerpt() {
    let input = "prefix [{this is not json}] suffix";
    match parse_llm_response(input) {
        Err(ParseError::InvalidJson { message, excerpt }) => {
            assert!(!message.is_empty());
            assert_eq!(excerpt, "[{this is not json}]");
        }
        other => panic!("unexpected outcome {:?}", other),
    }
}

#[test]
fn the_excerpt_holds_at_most_the_first_characters() {
    let long = "x".repeat(2000);
    let input = format!("[{{\"text\": {}}}]", long);
    match parse_llm_response(&input) {
        Err(ParseError::InvalidJson { excerpt, .. }) => {
            assert_eq!(EXCERPT_LIMIT, 500);
            assert_eq!(excerpt.chars().count(), 500);
            assert!(input.starts_with(&excerpt));
        }
        other => panic!("unexpected outcome {:?}", other),
    }
    // Characters are counted, not bytes.
    let wide = "é".repeat(600);
    let input = format!("[{{\"text\": {}}}]", wide);
    match parse_llm_response(&input) {
        Err(ParseError::InvalidJson { excerpt, .. }) => {
            assert_eq!(excerpt.chars().count(), 500);
        }
        other => panic!("unexpected outcome {:?}", other),
    }
}

#[test]
fn error_messages_read_as_sentences() {
    assert_eq!(ParseError::NoJsonArrayFound.message(), "No JSON array found in response");
    assert_eq!(ParseError::EmptyResult.message(), "No questions found in JSON response");
    let error = ParseError::InvalidJson { message: "bad".to_string(), excerpt: "[{".to_string() };
    assert_eq!(error.message(), "Failed to parse JSON response: bad. JSON: [{");
    let copy = error.clone();
    assert_eq!(copy.message(), error.message());
}

#[test]
fn an_empty_array_tree_gives_empty_result() {
    let clean = chars("[]");
    let outcome = questions_from_decoding(&clean, Ok(Json::Array(vec![])));
    assert!(matches!(outcome, Err(ParseError::EmptyResult)));
}

#[test]
fn a_reader_error_is_passed_on_with_the_excerpt() {
    let clean = chars("[{oops}]");
    match questions_from_decoding(&clean, Err("reader says no".to_string())) {
        Err(ParseError::InvalidJson { message, excerpt }) => {
            assert_eq!(message, "reader says no");
            assert_eq!(excerpt, "[{oops}]");
        }
        other => panic!("unexpected outcome {:?}", other),
    }
}

#[test]
fn a_tree_of_the_wrong_shape_is_reported_with_the_excerpt() {
    let clean = chars("[{\"text\": 1}]");
    let tree = Json::Array(vec![object(vec![("text", Json::Bool(true))])]);
    match questions_from_decoding(&clean, Ok(tree)) {
        Err(ParseError::InvalidJson { message, excerpt }) => {
            assert_eq!(message, "the `text` of a question is not a string");
            assert_eq!(excerpt, "[{\"text\": 1}]");
        }
        other => panic!("unexpected outcome {:?}", other),
    }
}

#[test]
fn latex_delimiters_survive_in_the_decoded_text() {
    let input = r#"[{"text": "Solve \(x^2\) and \[y\] now", "answers": [{"text": "\(2\)", "is_correct": true}]}]"#;
    let questions = parse_llm_response(input).unwrap();
    assert_eq!(questions[0].text, r"Solve \(x^2\) and \[y\] now");
    assert_eq!(questions[0].answers[0].text, r"\(2\)");
}

#[test]
fn line_breaks_inside_strings_are_tolerated() {
    let input = "[{\"text\": \"line one\nline two\ttabbed\r\", \"answers\": [{\"text\": \"A\", \"is_correct\": true}]}]";
    let questions = parse_llm_response(input).unwrap();
    assert_eq!(questions[0].text, "line one\nline two\ttabbed\r");
}

#[test]
fn brackets_and_escaped_quotes_inside_strings_do_not_close_the_array() {
    let input = r#"[{"text": "a ] and a \" and [ again", "answers": [{"text": "]", "is_correct": true}]}] trailing ]"#;
    let questions = parse_llm_response(input).unwrap();
    assert_eq!(questions[0].text, "a ] and a \" and [ again");
    assert_eq!(questions[0].answers[0].text, "]");
    let s = chars(input);
    let open = find_opening(&s).unwrap();
    assert_eq!(open, 0);
    let close = find_matching_close(&s, open).unwrap();
    assert_eq!(s[close], ']');
    assert_eq!(text(&s[close + 1..]), " trailing ]");
    assert_eq!(find_matching_close(&s, s.len()), None);
    assert_eq!(find_matching_close(&s, usize::MAX), None);
}

#[test]
fn nested_arrays_are_counted() {
    let s = chars("x [ {\"a\": [1, [2, 3]], \"b\": []} ] y [");
    assert_eq!(find_opening(&s), Some(2));
    assert_eq!(find_matching_close(&s, 2), Some(32));
    assert_eq!(text(&extract_first_json_array(&s).unwrap()), "[ {\"a\": [1, [2, 3]], \"b\": []} ]");
    assert_eq!(extract_first_json_array(&chars("[ {")), None);
    assert_eq!(extract_first_json_array(&chars("[\t\r\n {}]")).map(|v| text(&v)), Some("[\t\r\n {}]".to_string()));
    // Only the four JSON whitespace characters may stand between `[` and `{`.
    assert_eq!(extract_first_json_array(&chars("[\u{a0}{}]")), None);
}

#[test]
fn sanitizing_valid_json_changes_nothing() {
    for input in [
        r#"[{"text": "plain", "n": 1}]"#,
        r#"{"a": "with \"quotes\" and \\ and \/ and \b\f\n\r\t and é"}"#,
        "outside strings \\( nothing \n\t is touched",
        "",
    ] {
        assert_eq!(text(&sanitize_json_escapes(&chars(input))), input);
    }
}

#[test]
fn sanitizing_repairs_escapes_and_control_characters() {
    assert_eq!(text(&sanitize_json_escapes(&chars(r#""\(""#))), r#""\\(""#);
    assert_eq!(text(&sanitize_json_escapes(&chars(r#""\[a\]""#))), r#""\\[a\\]""#);
    assert_eq!(text(&sanitize_json_escapes(&chars("\"a\nb\rc\td\""))), r#""a\nb\rc\td""#);
    assert_eq!(text(&sanitize_json_escapes(&chars("\"\\\n\""))), "\"\\\\\\n\"");
    assert_eq!(text(&sanitize_json_escapes(&chars("\"tail\\"))), "\"tail\\\\");
    assert_eq!(text(&sanitize_json_escapes(&chars(r#""\x" \x "\y""#))), r#""\\x" \x "\\y""#);
    assert_eq!(text(&sanitize_json_escapes(&chars(r#""a\"b\q""#))), r#""a\"b\\q""#);
}

#[test]
fn sanitizing_twice_is_sanitizing_once() {
    for input in [r#""\(x\) \\ \" \q""#, "\"a\nb\"", r#"[{"t": "\alpha \beta"}]"#, "\"open \\"] {
        let once = sanitize_json_escapes(&chars(input));
        let twice = sanitize_json_escapes(&once);
        assert_eq!(once, twice);
    }
}

#[test]
fn text_or_stem_or_content_names_the_question_text() {
    let by_stem = r#"[{"stem": "S", "answers": [{"text": "A", "is_correct": true}]}]"#;
    assert_eq!(parse_llm_response(by_stem).unwrap()[0].text, "S");
    let by_content = r#"[{"content": "C", "answers": [{"text": "A", "is_correct": true}]}]"#;
    assert_eq!(parse_llm_response(by_content).unwrap()[0].text, "C");
    let all = object(vec![
        ("content", string("C")),
        ("stem", string("S")),
        ("text", string("T")),
        ("answers", Json::Array(vec![])),
    ]);
    assert_eq!(question_from_json(&all).unwrap().text, "T");
    let two = object(vec![
        ("content", string("C")),
        ("stem", string("S")),
        ("answers", Json::Array(vec![])),
    ]);
    assert_eq!(question_from_json(&two).unwrap().text, "S");
}

#[test]
fn options_read_as_answers() {
    let with_options = object(vec![
        ("text", string("T")),
        ("options", Json::Array(vec![answer_json("A", true), answer_json("B", false)])),
        ("explanation", string("because")),
    ]);
    let with_answers = object(vec![
        ("text", string("T")),
        ("answers", Json::Array(vec![answer_json("A", true), answer_json("B", false)])),
        ("explanation", string("because")),
    ]);
    let a = question_from_json(&with_options).unwrap();
    let b = question_from_json(&with_answers).unwrap();
    assert_eq!(a.text, b.text);
    assert_eq!(a.explanation, b.explanation);
    assert_eq!(a.answers.len(), b.answers.len());
    for (x, y) in a.answers.iter().zip(b.answers.iter()) {
        assert_eq!(x.text, y.text);
        assert_eq!(x.is_correct, y.is_correct);
        assert_eq!(x.explanation, y.explanation);
    }
    // Where both are present, `answers` counts.
    let both = object(vec![
        ("text", string("T")),
        ("options", Json::Array(vec![answer_json("old", true)])),
        ("answers", Json::Array(vec![answer_json("new", true)])),
    ]);
    assert_eq!(question_from_json(&both).unwrap().answers[0].text, "new");
}

#[test]
fn optional_text_may_be_absent_null_text_or_any_value() {
    assert_eq!(de_opt_string_or_json(None), None);
    assert_eq!(de_opt_string_or_json(Some(&Json::Null)), None);
    assert_eq!(de_opt_string_or_json(Some(&string("why"))), Some("why".to_string()));
    assert_eq!(de_opt_string_or_json(Some(&Json::Bool(true))), Some("true".to_string()));
    let nested = object(vec![("A", string("x")), ("B", Json::Array(vec![Json::Null, string("y")]))]);
    assert_eq!(
        de_opt_string_or_json(Some(&nested)),
        Some("{\n  \"A\": \"x\",\n  \"B\": [\n    null,\n    \"y\"\n  ]\n}".to_string())
    );
    let input = r#"[{"text": "T", "answers": [{"text": "A", "is_correct": true, "explanation": 42}],
        "explanation": {"steps": [1, 2]}, "distractors": null}]"#;
    let questions = parse_llm_response(input).unwrap();
    assert_eq!(questions[0].answers[0].explanation, Some("42".to_string()));
    assert_eq!(
        questions[0].explanation,
        Some("{\n  \"steps\": [\n    1,\n    2\n  ]\n}".to_string())
    );
    assert_eq!(questions[0].distractors, None);
}

#[test]
fn subject_and_topics_of_the_model_are_kept() {
    let input = r#"[{"text": "T", "answers": [], "subject": "Calculus", "topics": ["limits", "series"], "unknown": 1}]"#;
    let questions = parse_llm_response(input).unwrap();
    assert_eq!(questions[0].subject, "Calculus");
    assert_eq!(questions[0].topics, vec!["limits".to_string(), "series".to_string()]);
}

#[test]
fn every_shape_error_has_an_input() {
    let cases: Vec<(Json, ShapeError, &str)> = vec![
        (Json::Null, ShapeError::NotAnArray, "expected an array of questions"),
        (Json::Array(vec![string("x")]), ShapeError::QuestionNotObject, "a question is not an object"),
        (
            Json::Array(vec![object(vec![("answers", Json::Array(vec![]))])]),
            ShapeError::MissingText,
            "a question has no `text`",
        ),
        (
            Json::Array(vec![object(vec![("text", Json::Null)])]),
            ShapeError::TextNotString,
            "the `text` of a question is not a string",
        ),
        (
            Json::Array(vec![object(vec![("text", string("T"))])]),
            ShapeError::MissingAnswers,
            "a question has no `answers`",
        ),
        (
            Json::Array(vec![object(vec![("text", string("T")), ("answers", string("A"))])]),
            ShapeError::AnswersNotArray,
            "the `answers` of a question are not an array",
        ),
        (
            Json::Array(vec![object(vec![("text", string("T")), ("answers", Json::Array(vec![Json::Null]))])]),
            ShapeError::AnswerNotObject,
            "an answer is not an object",
        ),
        (
            Json::Array(vec![object(vec![
                ("text", string("T")),
                ("answers", Json::Array(vec![object(vec![("is_correct", Json::Bool(true))])])),
            ])]),
            ShapeError::AnswerMissingText,
            "an answer has no `text`",
        ),
        (
            Json::Array(vec![object(vec![
                ("text", string("T")),
                ("answers", Json::Array(vec![object(vec![("text", Json::Bool(true))])])),
            ])]),
            ShapeError::AnswerTextNotString,
            "the `text` of an answer is not a string",
        ),
        (
            Json::Array(vec![object(vec![
                ("text", string("T")),
                ("answers", Json::Array(vec![object(vec![("text", string("A"))])])),
            ])]),
            ShapeError::AnswerMissingFlag,
            "an answer has no `is_correct`",
        ),
        (
            Json::Array(vec![object(vec![
                ("text", string("T")),
                (
                    "answers",
                    Json::Array(vec![object(vec![("text", string("A")), ("is_correct", string("yes"))])]),
                ),
            ])]),
            ShapeError::AnswerFlagNotBool,
            "the `is_correct` of an answer is not a boolean",
        ),
        (
            Json::Array(vec![object(vec![
                ("text", string("T")),
                ("answers", Json::Array(vec![])),
                ("subject", Json::Null),
            ])]),
            ShapeError::SubjectNotString,
            "the `subject` of a question is not a string",
        ),
        (
            Json::Array(vec![object(vec![
                ("text", string("T")),
                ("answers", Json::Array(vec![])),
                ("topics", Json::Array(vec![string("ok"), Json::Bool(false)])),
            ])]),
            ShapeError::TopicsNotStrings,
            "the `topics` of a question are not an array of strings",
        ),
        (
            Json::Array(vec![object(vec![
                ("text", string("T")),
                ("answers", Json::Array(vec![])),
                ("topics", string("one")),
            ])]),
            ShapeError::TopicsNotStrings,
            "the `topics` of a question are not an array of strings",
        ),
    ];
    for (tree, error, message) in cases {
        assert_eq!(questions_from_json(&tree).err(), Some(error));
        assert_eq!(error.message(), message);
    }
}

#[test]
fn the_first_failing_element_decides_the_error() {
    let tree = Json::Array(vec![
        object(vec![("text", string("fine")), ("answers", Json::Array(vec![]))]),
        object(vec![("text", string("no answers"))]),
        string("not even an object"),
    ]);
    assert_eq!(questions_from_json(&tree).err(), Some(ShapeError::MissingAnswers));
    let answers = Json::Array(vec![
        object(vec![("text", string("T")), ("answers", Json::Array(vec![answer_json("A", true), Json::Null, string("x")]))]),
    ]);
    assert_eq!(questions_from_json(&answers).err(), Some(ShapeError::AnswerNotObject));
    assert_eq!(answer_from_json(&Json::Bool(true)).err(), Some(ShapeError::AnswerNotObject));
}

#[test]
fn ids_are_assigned_by_position() {
    let tree = Json::Array(
        (0..3)
            .map(|i| object(vec![("text", string(&format!("T{}", i))), ("answers", Json::Array(vec![]))]))
            .collect(),
    );
    let questions = questions_from_json(&tree).unwrap();
    assert!(questions.iter().all(|q| q.id.is_empty()));
    let numbered = assign_ids(&questions);
    assert_eq!(numbered.iter().map(|q| q.id.as_str()).collect::<Vec<_>>(), vec!["q1", "q2", "q3"]);
    assert_eq!(numbered.iter().map(|q| q.text.as_str()).collect::<Vec<_>>(), vec!["T0", "T1", "T2"]);
    assert!(assign_ids(&Vec::new()).is_empty());
}

#[test]
fn the_json_reader_builds_the_tree() {
    let tree = decode_json(r#"{"b": [1, true, null, "x"], "a": {"k": -2.5}}"#).unwrap();
    let members = match &tree {
        Json::Object(members) => members,
        other => panic!("unexpected tree {:?}", other),
    };
    assert_eq!(members.len(), 2);
    let b = find_member(members, "b").unwrap();
    match b {
        Json::Array(items) => {
            assert_eq!(items.len(), 4);
            assert!(matches!(&items[0], Json::Number(n) if n.as_i64() == Some(1)));
            assert!(matches!(&items[1], Json::Bool(true)));
            assert!(matches!(&items[2], Json::Null));
            assert!(matches!(&items[3], Json::Text(s) if s == "x"));
        }
        other => panic!("unexpected member {:?}", other),
    }
    assert!(matches!(find_member(members, "a"), Some(Json::Object(inner)) if inner.len() == 1));
    assert!(find_member(members, "c").is_none());
    assert_eq!(compact_json(&tree), Some(r#"{"a":{"k":-2.5},"b":[1,true,null,"x"]}"#.to_string()));
    assert_eq!(
        pretty_json(&tree),
        Some("{\n  \"a\": {\n    \"k\": -2.5\n  },\n  \"b\": [\n    1,\n    true,\n    null,\n    \"x\"\n  ]\n}".to_string())
    );
    let message = decode_json("[1, 2").err().unwrap();
    assert_eq!(message, "EOF while parsing a list at line 1 column 5");
    assert!(decode_json("").is_err());
}

#[test]
fn the_first_member_of_a_name_counts() {
    let members = vec![
        ("k".to_string(), string("first")),
        ("other".to_string(), Json::Null),
        ("k".to_string(), string("second")),
    ];
    assert!(matches!(find_member(&members, "k"), Some(Json::Text(s)) if s == "first"));
    assert!(matches!(find_member(&members, "other"), Some(Json::Null)));
    assert!(find_member(&members, "K").is_none());
    assert!(find_member(&Vec::new(), "k").is_none());
}
