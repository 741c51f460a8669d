//! Talking to the hosted model: what to make of its answers.
//!
//! The service is asked to create a prediction and then, once a second, how
//! far it is. Sending the requests is not this module's work; it says what
//! each answer means: which pieces of text to pass on, and whether to go on
//! asking, to stop with the model's output, or to give up.

use vstd::prelude::*;
use crate::decode::print_compact;
use crate::decode::compact_text;
use crate::json::{decode_json, find_member, json_decoding, member, Json};
use crate::model::{StreamEvent, StreamEventView};
use crate::text::{contains, contains_text, decimal, decimal_string, push_range, replace, replaced};
use crate::text::chars_of;

verus! {

/// How an entry of the log opens, up to the time.
pub const LOG_HEAD: &'static str = "================================================================================\n\
    TIMESTAMP: ";

/// What stands between the time and the prompt.
pub const LOG_PROMPT: &'static str = "\n\
    ================================================================================\n\
    \n\
    --- PROMPT ---\n\
    \n\
    ";

/// What stands between the prompt and the response.
pub const LOG_RESPONSE: &'static str = "\n\
    \n\
    --- RESPONSE ---\n\
    \n\
    ";

/// How an entry of the log closes.
pub const LOG_TAIL: &'static str = "\n\
    \n\
    ";

/// What the stand-in model answers to a request for one question.
pub const MOCK_SINGLE: &'static str = "1. Consider the following recursive method:\n\
    \n\
    ```java\n\
    public int mystery(int n) {\n    \
    if (n <= 0)\n        \
    return 0;\n    \
    return n + mystery(n - 2);\n\
    }\n\
    ```\n\
    \n\
    What value is returned by the call `mystery(7)`?\n\
    \n\
    a. `16`\n\
    b. `12`\n\
    c. `7`\n\
    d. `0`\n\
    \n\
    ---\n\
    **Correct Answer:** a\n\
    **Explanation:** mystery(7) = 7 + mystery(5) = 7 + 5 + mystery(3) = 7 + 5 + 3 + mystery(1) = 7 + 5 + 3 + 1 + mystery(-1) = 7 + 5 + 3 + 1 + 0 = 16\n\
    **Distractor Analysis:**\n\
    - b: Off-by-one error, stops at n=2 instead of n<=0\n\
    - c: Only returns the initial value without recursion\n\
    - d: Thinks base case returns for all calls\n\
    ";

/// What the stand-in model answers to a request for several questions.
pub const MOCK_SEVERAL: &'static str = "1. What is the output of the following code segment?\n\
    \n\
    ```java\n\
    int[] arr = {1, 2, 3, 4, 5};\n\
    for (int i = 0; i < arr.length; i++) {\n    \
    arr[i] = arr[i] * 2;\n\
    }\n\
    System.out.println(arr[2]);\n\
    ```\n\
    \n\
    a. `6`\n\
    b. `3`\n\
    c. `4`\n\
    d. `2`\n\
    \n\
    ---\n\
    **Correct Answer:** a\n\
    **Explanation:** Array element at index 2 is 3, after doubling becomes 6.\n\
    **Distractor Analysis:**\n\
    - b: Forgets the doubling operation\n\
    - c: Off-by-one, thinks index 2 holds the value 4\n\
    - d: Confuses index with original value\n\
    \n\
    2. Consider the following recursive method:\n\
    \n\
    ```java\n\
    public int factorial(int n) {\n    \
    if (n <= 1)\n        \
    return 1;\n    \
    return n * factorial(n - 1);\n\
    }\n\
    ```\n\
    \n\
    What value is returned by `factorial(5)`?\n\
    \n\
    a. `120`\n\
    b. `24`\n\
    c. `5`\n\
    d. `1`\n\
    \n\
    ---\n\
    **Correct Answer:** a\n\
    **Explanation:** 5! = 5 × 4 × 3 × 2 × 1 = 120\n\
    **Distractor Analysis:**\n\
    - b: Computes factorial(4) instead\n\
    - c: Returns just the input value\n\
    - d: Returns the base case value\n\
    \n\
    3. What is the value of `result` after the following code executes?\n\
    \n\
    ```java\n\
    String str = \"Hello World\";\n\
    int result = str.indexOf(\"o\");\n\
    ```\n\
    \n\
    a. `4`\n\
    b. `5`\n\
    c. `7`\n\
    d. `-1`\n\
    \n\
    ---\n\
    **Correct Answer:** a\n\
    **Explanation:** indexOf returns the first occurrence of \"o\" which is at index 4.\n\
    **Distractor Analysis:**\n\
    - b: Off-by-one, counts from 1 instead of 0\n\
    - c: Returns index of second \"o\" in \"World\"\n\
    - d: Thinks character not found\n\
    ";

/// Where predictions are asked for.
pub const PREDICTIONS_URL: &'static str = "https://api.replicate.com/v1/predictions";

/// The model that is asked.
pub const MODEL_VERSION: &'static str = "openai/gpt-oss-120b";

/// How often the service is asked how far a prediction is.
pub const MAX_POLLS: u32 = 120;

/// How many characters the stand-in model hands out at a time.
pub const MOCK_CHUNK: usize = 20;

/// What the service tells of a prediction. The output is kept as the text
/// that it stands for.
#[derive(Debug)]
pub struct Prediction {
    pub id: String,
    pub status: String,
    pub output: Option<String>,
    pub error: Option<String>,
}

/// What a [`Prediction`] holds, as plain mathematical values.
pub struct PredictionView {
    pub id: Seq<char>,
    pub status: Seq<char>,
    pub output: Option<Seq<char>>,
    pub error: Option<Seq<char>>,
}

impl View for Prediction {
    type V = PredictionView;

    open spec fn view(&self) -> PredictionView {
        PredictionView {
            id: self.id@,
            status: self.status@,
            output: self.output.deep_view(),
            error: self.error.deep_view(),
        }
    }
}

/// What to do after an answer of the service.
#[derive(Debug)]
pub enum PollNext {
    /// Ask again.
    Continue,
    /// Stop: this is the model's output.
    Done(String),
    /// Give up, for this reason.
    Failed(String),
}

/// What a [`PollNext`] holds, as plain mathematical values.
pub enum PollNextView {
    Continue,
    Done(Seq<char>),
    Failed(Seq<char>),
}

impl View for PollNext {
    type V = PollNextView;

    open spec fn view(&self) -> PollNextView {
        match self {
            PollNext::Continue => PollNextView::Continue,
            PollNext::Done(text) => PollNextView::Done(text@),
            PollNext::Failed(message) => PollNextView::Failed(message@),
        }
    }
}

/// What an answer of the service means: the pieces of text to pass on, in
/// their order, and what to do next.
#[derive(Debug)]
pub struct PollOutcome {
    pub events: Vec<StreamEvent>,
    pub next: PollNext,
}

/// What a [`PollOutcome`] holds, as plain mathematical values.
pub struct PollOutcomeView {
    pub events: Seq<StreamEventView>,
    pub next: PollNextView,
}

impl View for PollOutcome {
    type V = PollOutcomeView;

    open spec fn view(&self) -> PollOutcomeView {
        PollOutcomeView { events: self.events.deep_view(), next: self.next@ }
    }
}

/// The texts of the elements that are strings, one after the other.
pub open spec fn string_items_text(items: Seq<Json>) -> Seq<char>
    decreases items.len(),
{
    if items.len() == 0 {
        Seq::empty()
    } else {
        string_items_text(items.drop_last()) + match items.last() {
            Json::Text(text) => text@,
            _ => Seq::empty(),
        }
    }
}

/// The text that an output stands for: a string is its own text, an array
/// is the text of its strings, and any other value is its one-line form.
pub open spec fn output_text(output: Json) -> Seq<char> {
    match output {
        Json::Text(text) => text@,
        Json::Array(items) => string_items_text(items@),
        other => compact_text(other),
    }
}

/// Turns an output of the model into text.
pub fn output_to_string(output: &Json) -> (r: String)
    ensures
        r@ == output_text(*output),
{
    match output {
        Json::Text(text) => text.clone(),
        Json::Array(items) => {
            let mut out = String::new();
            let mut i: usize = 0;
            while i < items.len()
                invariant
                    i <= items.len(),
                    out@ == string_items_text(items@.take(i as int)),
                decreases items.len() - i,
            {
                proof {
                    assert(items@.take(i + 1).drop_last() =~= items@.take(i as int));
                    assert(items@.take(i + 1).last() == items@[i as int]);
                }
                match &items[i] {
                    Json::Text(text) => {
                        out.append(text.as_str());
                    },
                    _ => {
                        assert(out@ =~= out@ + Seq::<char>::empty());
                    },
                }
                i += 1;
            }
            assert(items@.take(items.len() as int) =~= items@);
            out
        },
        other => print_compact(other),
    }
}

/// A string that may be left out: `None` for an absent member and for
/// `null`, the string for a string, and an error for anything else.
pub open spec fn optional_string(members: Seq<(String, Json)>, key: Seq<char>) -> Option<
    Option<Seq<char>>,
> {
    match member(members, key) {
        None => Some(None),
        Some(Json::Null) => Some(None),
        Some(Json::Text(text)) => Some(Some(text@)),
        Some(_) => None,
    }
}

/// The output of a prediction as text; `None` for an absent member and for
/// `null`.
pub open spec fn optional_output(members: Seq<(String, Json)>) -> Option<Seq<char>> {
    match member(members, "output"@) {
        None => None,
        Some(Json::Null) => None,
        Some(output) => Some(output_text(output)),
    }
}

/// The prediction that a tree stands for: an object with the strings `id`
/// and `status`, and maybe an `output` and an `error`.
pub open spec fn prediction_of(tree: Json) -> Option<PredictionView> {
    match tree {
        Json::Object(members) => match (
            member(members@, "id"@),
            member(members@, "status"@),
            optional_string(members@, "error"@),
        ) {
            (Some(Json::Text(id)), Some(Json::Text(status)), Some(error)) => Some(
                PredictionView {
                    id: id@,
                    status: status@,
                    output: optional_output(members@),
                    error,
                },
            ),
            _ => None,
        },
        _ => None,
    }
}

/// What is said of an answer that does not have the shape of a prediction.
pub const NOT_A_PREDICTION: &'static str = "the answer does not have the shape of a prediction";

/// The prediction that an answer of the service tells of, or why it tells
/// of none: the JSON reader's message, or that the shape is not the
/// expected one.
pub open spec fn prediction_of_text(body: Seq<char>) -> Result<PredictionView, Seq<char>> {
    match json_decoding(body) {
        Err(message) => Err(message),
        Ok(tree) => match prediction_of(tree) {
            Some(prediction) => Ok(prediction),
            None => Err(NOT_A_PREDICTION@),
        },
    }
}

/// Reads a string that may be left out.
fn get_optional_string(members: &Vec<(String, Json)>, key: &str) -> (r: Option<Option<String>>)
    ensures
        r.deep_view() == optional_string(members@, key@),
{
    match find_member(members, key) {
        None => Some(None),
        Some(Json::Null) => Some(None),
        Some(Json::Text(text)) => Some(Some(text.clone())),
        Some(_) => None,
    }
}

/// Reads a prediction.
pub fn prediction_from_json(tree: &Json) -> (r: Option<Prediction>)
    ensures
        match r {
            Some(prediction) => prediction_of(*tree) == Some(prediction@),
            None => prediction_of(*tree) is None,
        },
{
    let members = match tree {
        Json::Object(members) => members,
        _ => {
            return None;
        },
    };
    let id = match find_member(members, "id") {
        Some(Json::Text(id)) => id.clone(),
        _ => {
            return None;
        },
    };
    let status = match find_member(members, "status") {
        Some(Json::Text(status)) => status.clone(),
        _ => {
            return None;
        },
    };
    let error = match get_optional_string(members, "error") {
        Some(error) => error,
        None => {
            return None;
        },
    };
    let output = match find_member(members, "output") {
        None => None,
        Some(Json::Null) => None,
        Some(output) => Some(output_to_string(output)),
    };
    Some(Prediction { id, status, output, error })
}

/// Reads the prediction that an answer of the service tells of.
pub fn parse_prediction(body: &str) -> (r: Result<Prediction, String>)
    ensures
        match r {
            Ok(prediction) => prediction_of_text(body@) == Ok::<PredictionView, Seq<char>>(
                prediction@,
            ),
            Err(message) => prediction_of_text(body@) == Err::<PredictionView, Seq<char>>(
                message@,
            ),
        },
{
    let tree = match decode_json(body) {
        Ok(tree) => tree,
        Err(message) => {
            return Err(message);
        },
    };
    match prediction_from_json(&tree) {
        Some(prediction) => Ok(prediction),
        None => Err(NOT_A_PREDICTION.to_owned()),
    }
}

/// Is this the status of an answer that succeeded?
pub open spec fn is_success(status: u16) -> bool {
    200 <= status <= 299
}

/// What the service says went wrong, where its answer says so: the
/// `detail`, else the `error`, else that the error is unknown. `None` where
/// the answer is no object with these optional strings.
pub open spec fn error_detail(body: Seq<char>) -> Option<Seq<char>> {
    match json_decoding(body) {
        Ok(Json::Object(members)) => match (
            optional_string(members@, "detail"@),
            optional_string(members@, "error"@),
        ) {
            (Some(Some(detail)), Some(_)) => Some(detail),
            (Some(None), Some(Some(error))) => Some(error),
            (Some(None), Some(None)) => Some("Unknown error"@),
            _ => None,
        },
        _ => None,
    }
}

/// The sentence that reports an answer that did not succeed: its status,
/// and what the service says went wrong, or else the whole answer.
pub open spec fn api_error_message(status: u16, body: Seq<char>) -> Seq<char> {
    "Replicate API error ("@ + decimal(status as nat) + "): "@ + match error_detail(body) {
        Some(detail) => detail,
        None => body,
    }
}

/// What the service says went wrong.
fn read_error_detail(body: &str) -> (r: Option<String>)
    ensures
        r.deep_view() == error_detail(body@),
{
    let tree = match decode_json(body) {
        Ok(tree) => tree,
        Err(_) => {
            return None;
        },
    };
    let members = match &tree {
        Json::Object(members) => members,
        _ => {
            return None;
        },
    };
    match (get_optional_string(members, "detail"), get_optional_string(members, "error")) {
        (Some(Some(detail)), Some(_)) => Some(detail),
        (Some(None), Some(Some(error))) => Some(error),
        (Some(None), Some(None)) => Some("Unknown error".to_owned()),
        _ => None,
    }
}

/// Reports an answer that did not succeed.
pub fn describe_api_error(status: u16, body: &str) -> (r: String)
    ensures
        r@ == api_error_message(status, body@),
{
    let mut out = "Replicate API error (".to_owned();
    out.append(decimal_string(status as u128).as_str());
    out.append("): ");
    match read_error_detail(body) {
        Some(detail) => out.append(detail.as_str()),
        None => out.append(body),
    }
    out
}

/// Where the service is asked how far a prediction is.
pub open spec fn prediction_url(id: Seq<char>) -> Seq<char> {
    PREDICTIONS_URL@ + "/"@ + id
}

/// What the answer to the request for a prediction means: where to ask on,
/// or why not.
pub open spec fn creation(status: u16, body: Seq<char>) -> Result<Seq<char>, Seq<char>> {
    if !is_success(status) {
        Err(api_error_message(status, body))
    } else {
        match prediction_of_text(body) {
            Err(message) => Err("Failed to parse response: "@ + message),
            Ok(prediction) => match prediction.error {
                Some(error) => Err("Replicate error: "@ + error),
                None => Ok(prediction_url(prediction.id)),
            },
        }
    }
}

/// Says what the answer to the request for a prediction means: the address
/// to ask on at, or the reason to give up.
pub fn creation_outcome(status: u16, body: &str) -> (r: Result<String, String>)
    ensures
        match r {
            Ok(url) => creation(status, body@) == Ok::<Seq<char>, Seq<char>>(url@),
            Err(message) => creation(status, body@) == Err::<Seq<char>, Seq<char>>(message@),
        },
{
    if !(200 <= status && status <= 299) {
        return Err(describe_api_error(status, body));
    }
    let prediction = match parse_prediction(body) {
        Ok(prediction) => prediction,
        Err(message) => {
            let mut out = "Failed to parse response: ".to_owned();
            out.append(message.as_str());
            return Err(out);
        },
    };
    match prediction.error {
        Some(error) => {
            let mut out = "Replicate error: ".to_owned();
            out.append(error.as_str());
            Err(out)
        },
        None => {
            let mut url = PREDICTIONS_URL.to_owned();
            url.append("/");
            url.append(prediction.id.as_str());
            Ok(url)
        },
    }
}

/// How the standard library writes an optional string for debugging.
pub uninterp spec fn debug_text(value: Option<Seq<char>>) -> Seq<char>;

/// Formats an optional string with `{:?}`, as the standard library's
/// `Debug` writes it. The contract names the result.
#[verifier::external_body]
fn format_debug(value: &Option<String>) -> (r: String)
    ensures
        r@ == debug_text(value.deep_view()),
{
    format!("{:?}", value)
}

/// A piece of text to pass on.
pub open spec fn stream_event(text: Seq<char>, done: bool) -> StreamEventView {
    StreamEventView { text, done }
}

/// The pieces of text that the output of a prediction gives so far.
pub open spec fn partial_events(prediction: PredictionView) -> Seq<StreamEventView> {
    match prediction.output {
        Some(text) => seq![stream_event(text, false)],
        None => Seq::empty(),
    }
}

/// What a prediction means once it is read: its output so far is passed on;
/// one that succeeded ends with its output, and without one that is an
/// error; one that failed or was cancelled ends with an error; any other
/// goes on.
pub open spec fn prediction_outcome(prediction: PredictionView) -> PollOutcomeView {
    let partial = partial_events(prediction);
    if prediction.status == "succeeded"@ {
        match prediction.output {
            Some(text) => PollOutcomeView {
                events: partial.push(stream_event(text, true)),
                next: PollNextView::Done(text),
            },
            None => PollOutcomeView {
                events: partial,
                next: PollNextView::Failed("No output from model"@),
            },
        }
    } else if prediction.status == "failed"@ {
        PollOutcomeView {
            events: partial.push(stream_event(Seq::empty(), true)),
            next: PollNextView::Failed("Prediction failed: "@ + debug_text(prediction.error)),
        }
    } else if prediction.status == "canceled"@ {
        PollOutcomeView {
            events: partial.push(stream_event(Seq::empty(), true)),
            next: PollNextView::Failed("Prediction was canceled"@),
        }
    } else {
        PollOutcomeView { events: partial, next: PollNextView::Continue }
    }
}

/// What the answer to the question how far a prediction is means.
pub open spec fn poll(status: u16, body: Seq<char>) -> PollOutcomeView {
    if !is_success(status) {
        PollOutcomeView {
            events: Seq::empty(),
            next: PollNextView::Failed(api_error_message(status, body)),
        }
    } else {
        match prediction_of_text(body) {
            Err(message) => PollOutcomeView {
                events: Seq::empty(),
                next: PollNextView::Failed("Failed to parse status: "@ + message),
            },
            Ok(prediction) => prediction_outcome(prediction),
        }
    }
}

/// Makes a piece of text to pass on.
fn make_event(text: &str, done: bool) -> (r: StreamEvent)
    ensures
        r@ == stream_event(text@, done),
{
    StreamEvent { text: text.to_owned(), done }
}

/// Says what a prediction means once it is read.
pub fn prediction_step(prediction: &Prediction) -> (r: PollOutcome)
    ensures
        r@ == prediction_outcome(prediction@),
{
    let mut events: Vec<StreamEvent> = Vec::new();
    proof {
        assert(events.deep_view() =~= Seq::empty());
    }
    match &prediction.output {
        Some(text) => {
            events.push(make_event(text.as_str(), false));
            assert(events.deep_view() =~= seq![stream_event(text@, false)]);
        },
        None => {},
    }
    let ghost partial = events.deep_view();
    if crate::text::same_text(prediction.status.as_str(), "succeeded") {
        match &prediction.output {
            Some(text) => {
                events.push(make_event(text.as_str(), true));
                assert(events.deep_view() =~= partial.push(stream_event(text@, true)));
                PollOutcome { events, next: PollNext::Done(text.clone()) }
            },
            None => PollOutcome {
                events,
                next: PollNext::Failed("No output from model".to_owned()),
            },
        }
    } else if crate::text::same_text(prediction.status.as_str(), "failed") {
        events.push(make_event("", true));
        proof {
            reveal_strlit("");
            assert(""@ =~= Seq::<char>::empty());
            assert(events.deep_view() =~= partial.push(stream_event(Seq::empty(), true)));
        }
        let mut message = "Prediction failed: ".to_owned();
        message.append(format_debug(&prediction.error).as_str());
        PollOutcome { events, next: PollNext::Failed(message) }
    } else if crate::text::same_text(prediction.status.as_str(), "canceled") {
        events.push(make_event("", true));
        proof {
            reveal_strlit("");
            assert(""@ =~= Seq::<char>::empty());
            assert(events.deep_view() =~= partial.push(stream_event(Seq::empty(), true)));
        }
        PollOutcome { events, next: PollNext::Failed("Prediction was canceled".to_owned()) }
    } else {
        PollOutcome { events, next: PollNext::Continue }
    }
}

/// Says what the answer to the question how far a prediction is means.
pub fn poll_outcome(status: u16, body: &str) -> (r: PollOutcome)
    ensures
        r@ == poll(status, body@),
{
    if !(200 <= status && status <= 299) {
        let events: Vec<StreamEvent> = Vec::new();
        assert(events.deep_view() =~= Seq::empty());
        return PollOutcome { events, next: PollNext::Failed(describe_api_error(status, body)) };
    }
    match parse_prediction(body) {
        Ok(prediction) => prediction_step(&prediction),
        Err(message) => {
            let events: Vec<StreamEvent> = Vec::new();
            assert(events.deep_view() =~= Seq::empty());
            let mut out = "Failed to parse status: ".to_owned();
            out.append(message.as_str());
            PollOutcome { events, next: PollNext::Failed(out) }
        },
    }
}

/// What it means that the service was asked [`MAX_POLLS`] times and the
/// prediction is not done: the stream is closed, and the wait is given up.
pub fn timeout_outcome() -> (r: PollOutcome)
    ensures
        r@.events == seq![stream_event(Seq::empty(), true)],
        r@.next == PollNextView::Failed("Timeout waiting for prediction"@),
{
    let mut events: Vec<StreamEvent> = Vec::new();
    events.push(make_event("", true));
    proof {
        reveal_strlit("");
        assert(""@ =~= Seq::<char>::empty());
        assert(events.deep_view() =~= seq![stream_event(Seq::empty(), true)]);
    }
    PollOutcome { events, next: PollNext::Failed("Timeout waiting for prediction".to_owned()) }
}

/// Does a prompt ask for one question only?
pub open spec fn asks_for_one(prompt: Seq<char>) -> bool {
    contains_text(prompt, "replace"@) || contains_text(prompt, "single question"@)
}

/// What the stand-in model answers to a prompt.
pub open spec fn mock_response(prompt: Seq<char>) -> Seq<char> {
    if asks_for_one(prompt) {
        MOCK_SINGLE@
    } else {
        MOCK_SEVERAL@
    }
}

/// How many pieces a text of `len` characters is handed out in.
pub open spec fn chunk_count(len: nat) -> nat {
    (len + MOCK_CHUNK - 1) as nat / MOCK_CHUNK as nat
}

/// The text that has been handed out with the piece at `index`, counted
/// from zero.
pub open spec fn handed_out(text: Seq<char>, index: int) -> Seq<char> {
    if (index + 1) * MOCK_CHUNK >= text.len() {
        text
    } else {
        text.take((index + 1) * MOCK_CHUNK)
    }
}

/// The pieces that a text is handed out in: each holds all of the text up
/// to its end, twenty characters more than the one before it; behind the
/// last stands the whole text once more, marked as done.
pub open spec fn mock_events(text: Seq<char>) -> Seq<StreamEventView> {
    Seq::new(chunk_count(text.len()), |i: int| stream_event(handed_out(text, i), false)).push(
        stream_event(text, true),
    )
}

/// The answer of the stand-in model to a prompt, used where no key for the
/// service is at hand.
pub fn generate_mock_response(prompt: &str) -> (r: (String, Vec<StreamEvent>))
    ensures
        r.0@ == mock_response(prompt@),
        r.1.deep_view() == mock_events(mock_response(prompt@)),
{
    let is_single = contains(prompt, "replace") || contains(prompt, "single question");
    let response: &str = if is_single {
        MOCK_SINGLE
    } else {
        MOCK_SEVERAL
    };
    let text = chars_of(response);
    let mut events: Vec<StreamEvent> = Vec::new();
    let mut accumulated = String::new();
    let mut from: usize = 0;
    while from < text.len()
        invariant
            from <= text.len(),
            text@ == response@,
            accumulated@ == text@.take(from as int),
            from < text.len() ==> from == events.len() * MOCK_CHUNK,
            from == text.len() ==> events.len() == chunk_count(text@.len()),
            events.len() <= chunk_count(text@.len()),
            forall|j: int|
                0 <= j < events.len() ==> (#[trigger] events[j])@ == stream_event(
                    handed_out(text@, j),
                    false,
                ),
        decreases text.len() - from,
    {
        let to: usize = if text.len() - from <= MOCK_CHUNK {
            text.len()
        } else {
            from + MOCK_CHUNK
        };
        push_range(&mut accumulated, &text, from, to);
        proof {
            assert(accumulated@ =~= text@.take(to as int));
            assert(text@.take(text.len() as int) =~= text@);
            assert(accumulated@ == handed_out(text@, events.len() as int));
        }
        events.push(make_event(accumulated.as_str(), false));
        from = to;
    }
    proof {
        assert(text@.take(text.len() as int) =~= text@);
    }
    events.push(make_event(accumulated.as_str(), true));
    proof {
        assert(events.deep_view() =~= mock_events(response@));
    }
    (response.to_owned(), events)
}

/// A response with its escaped line feeds, tabs and quotes written out.
pub open spec fn unescaped(response: Seq<char>) -> Seq<char> {
    replaced(replaced(replaced(response, "\\n"@, "\n"@), "\\t"@, "\t"@), "\\\""@, "\""@)
}

/// An entry of the log: the time, the prompt, and the response with its
/// escapes written out.
pub open spec fn log_entry(timestamp: Seq<char>, prompt: Seq<char>, response: Seq<char>) -> Seq<
    char,
> {
    LOG_HEAD@ + timestamp + LOG_PROMPT@ + prompt + LOG_RESPONSE@ + unescaped(response) + LOG_TAIL@
}

/// Writes an entry of the log of what the model was asked and what it
/// answered.
pub fn format_log_entry(timestamp: &str, prompt: &str, response: &str) -> (r: String)
    ensures
        r@ == log_entry(timestamp@, prompt@, response@),
{
    let lines = replace(response, "\\n", "\n");
    let tabs = replace(lines.as_str(), "\\t", "\t");
    let quotes = replace(tabs.as_str(), "\\\"", "\"");
    let mut out = LOG_HEAD.to_owned();
    out.append(timestamp);
    out.append(LOG_PROMPT);
    out.append(prompt);
    out.append(LOG_RESPONSE);
    out.append(quotes.as_str());
    out.append(LOG_TAIL);
    out
}

} // verus!
