use rubrix::sse::{
    choice_from_json, event_data, parse_stream_chunk, show_chunk, show_line, take_lines,
    DisplayState, StreamChoice, StreamChunk, Usage,
};
use rubrix::json::decode_json;

const RULE: &str = "────────────────────────────────────────────────────────────────";

fn fresh() -> DisplayState {
    DisplayState { reasoning_started: false, response_started: false, response_header_printed: false }
}

#[test]
fn complete_lines_are_taken_off_the_buffer() {
    let mut buffer = String::from("data: one\n\n  : comment  \r\ndata: tw");
    assert_eq!(take_lines(&mut buffer), vec!["data: one", "", ": comment"]);
    assert_eq!(buffer, "data: tw");
    buffer.push_str("o\n");
    assert_eq!(take_lines(&mut buffer), vec!["data: two"]);
    assert_eq!(buffer, "");
    assert!(take_lines(&mut buffer).is_empty());
    let mut unfinished = String::from("no line feed yet ");
    assert!(take_lines(&mut unfinished).is_empty());
    assert_eq!(unfinished, "no line feed yet ");
    let mut only = String::from("\n");
    assert_eq!(take_lines(&mut only), vec![""]);
    assert_eq!(only, "");
}

#[test]
fn lines_that_hold_data_are_told_apart() {
    assert_eq!(event_data("data: {\"a\": 1}"), Some("{\"a\": 1}".to_string()));
    assert_eq!(event_data("data: "), Some(String::new()));
    assert_eq!(event_data("data: [DONE]"), None);
    assert_eq!(event_data("data: [DONE] "), Some("[DONE] ".to_string()));
    assert_eq!(event_data(""), None);
    assert_eq!(event_data(": keep-alive"), None);
    assert_eq!(event_data("data:"), None);
    assert_eq!(event_data("data:x"), None);
    assert_eq!(event_data("event: message"), None);
    assert_eq!(event_data(" data: x"), None);
}

#[test]
fn a_chunk_is_read() {
    let chunk = parse_stream_chunk(
        r#"{"id": "c", "choices": [{"index": 0, "delta": {"role": "assistant", "content": "Hi"}, "finish_reason": null},
            {"delta": {}, "finish_reason": "stop"}]}"#,
    )
    .unwrap();
    assert_eq!(chunk.choices.len(), 2);
    assert_eq!(chunk.choices[0].content, Some("Hi".to_string()));
    assert!(!chunk.choices[0].finished);
    assert_eq!(chunk.choices[1].content, None);
    assert!(chunk.choices[1].finished);
    assert_eq!(chunk.usage, None);
    let chunk = parse_stream_chunk(
        r#"{"choices": [], "usage": {"prompt_tokens": 12, "completion_tokens": 340, "total_tokens": 352}}"#,
    )
    .unwrap();
    assert!(chunk.choices.is_empty());
    assert_eq!(chunk.usage, Some(Usage { prompt_tokens: 12, completion_tokens: 340, total_tokens: 352 }));
    assert_eq!(parse_stream_chunk(r#"{"choices": [], "usage": null}"#).unwrap().usage, None);
    for data in [
        "",
        "[]",
        "{}",
        r#"{"choices": {}}"#,
        r#"{"choices": [1]}"#,
        r#"{"choices": [{}]}"#,
        r#"{"choices": [{"delta": []}]}"#,
        r#"{"choices": [{"delta": {"content": 1}}]}"#,
        r#"{"choices": [{"delta": {"role": 1}}]}"#,
        r#"{"choices": [{"delta": {}, "finish_reason": 1}]}"#,
        r#"{"choices": [], "usage": 1}"#,
        r#"{"choices": [], "usage": {"prompt_tokens": 1, "completion_tokens": 2}}"#,
        r#"{"choices": [], "usage": {"prompt_tokens": -1, "completion_tokens": 2, "total_tokens": 3}}"#,
        r#"{"choices": [], "usage": {"prompt_tokens": 1.5, "completion_tokens": 2, "total_tokens": 3}}"#,
        r#"{"choices": [], "usage": {"prompt_tokens": 4294967296, "completion_tokens": 2, "total_tokens": 3}}"#,
    ] {
        assert!(parse_stream_chunk(data).is_none(), "{}", data);
    }
    let top = parse_stream_chunk(
        r#"{"choices": [], "usage": {"prompt_tokens": 4294967295, "completion_tokens": 0, "total_tokens": 0}}"#,
    )
    .unwrap();
    assert_eq!(top.usage.unwrap().prompt_tokens, u32::MAX);
    assert!(choice_from_json(&decode_json("null").unwrap()).is_none());
}

fn piece(content: &str) -> StreamChunk {
    StreamChunk {
        choices: vec![StreamChoice { content: Some(content.to_string()), finished: false }],
        usage: None,
    }
}

#[test]
fn the_reasoning_and_the_answer_get_their_headings() {
    let mut state = fresh();
    assert_eq!(show_chunk(&mut state, &piece("<reasoning>Let me")), "🧠 REASONING:\nLet me");
    assert_eq!(
        state,
        DisplayState { reasoning_started: true, response_started: false, response_header_printed: false }
    );
    assert_eq!(show_chunk(&mut state, &piece("<reasoning> think</reasoning>")), " think");
    assert!(!state.response_started);
    assert_eq!(
        show_chunk(&mut state, &piece("The answer")),
        format!("\n\n{}\n💬 RESPONSE:\nThe answer", RULE)
    );
    assert_eq!(
        state,
        DisplayState { reasoning_started: true, response_started: true, response_header_printed: true }
    );
    assert_eq!(show_chunk(&mut state, &piece(" is 4.</reasoning>")), " is 4.");
    assert_eq!(show_chunk(&mut state, &piece("<reasoning>late")), "late");
}

#[test]
fn without_reasoning_there_is_no_heading() {
    let mut state = fresh();
    assert_eq!(show_chunk(&mut state, &piece("Just text")), "Just text");
    assert_eq!(state, fresh());
    assert_eq!(show_chunk(&mut state, &StreamChunk { choices: vec![], usage: None }), "");
}

#[test]
fn the_end_and_the_count_of_tokens_are_shown() {
    let mut state = fresh();
    let chunk = StreamChunk {
        choices: vec![
            StreamChoice { content: Some("a".to_string()), finished: false },
            StreamChoice { content: None, finished: true },
            StreamChoice { content: Some("b".to_string()), finished: true },
        ],
        usage: Some(Usage { prompt_tokens: 1, completion_tokens: 20, total_tokens: 21 }),
    };
    assert_eq!(
        show_chunk(&mut state, &chunk),
        format!(
            "a\n\nb\n\n{}\n📊 TOKEN USAGE:\n   Prompt tokens:     1\n   Completion tokens: 20\n   Total tokens:      21\n",
            RULE
        )
    );
}

#[test]
fn a_line_of_the_stream_is_shown() {
    let mut state = fresh();
    let line = r#"data: {"choices": [{"delta": {"content": "<reasoning>x"}}]}"#;
    assert_eq!(show_line(&mut state, line), "🧠 REASONING:\nx");
    assert!(state.reasoning_started);
    for line in ["", ": ping", "data: [DONE]", "data: not json", "data: {}", "event: x"] {
        let before = state;
        assert_eq!(show_line(&mut state, line), "");
        assert_eq!(state, before);
    }
}
