//! Reading a stream of server-sent events in which a model hands out its
//! answer piece by piece, and showing the pieces as they come.
//!
//! The stream comes in chunks that end anywhere. Complete lines are taken
//! off a buffer; a line that starts with `data: ` holds a JSON object with
//! the next pieces; the pieces are written out with a heading in front of
//! the model's reasoning and another in front of its answer.

use vstd::prelude::*;
use crate::json::{
    array_at, count_at, decode_json, find_member, get_array, get_count, get_object, json_decoding,
    member, object_at, Json,
};
use crate::llm::optional_string;
use crate::text::{
    chars_of, contains, contains_text, decimal, decimal_string, lemma_position_of, position_of,
    push_range, replace, replaced, same_text, trim_range, trimmed,
};

verus! {

/// What marks a line that holds data.
pub const DATA_PREFIX: &'static str = "data: ";

/// What the stream says when it is over.
pub const DONE_MARK: &'static str = "[DONE]";

/// What opens the model's reasoning.
pub const REASONING_OPEN: &'static str = "<reasoning>";

/// What closes the model's reasoning.
pub const REASONING_CLOSE: &'static str = "</reasoning>";

/// The heading of the model's reasoning.
pub const REASONING_HEADING: &'static str = "\u{1f9e0} REASONING:\n";

/// A rule across the screen.
pub const RULE: &'static str = "\u{2500}\u{2500}\u{2500}\u{2500}\u{2500}\u{2500}\u{2500}\u{2500}\u{2500}\u{2500}\u{2500}\u{2500}\u{2500}\u{2500}\u{2500}\u{2500}\u{2500}\u{2500}\u{2500}\u{2500}\u{2500}\u{2500}\u{2500}\u{2500}\u{2500}\u{2500}\u{2500}\u{2500}\u{2500}\u{2500}\u{2500}\u{2500}\u{2500}\u{2500}\u{2500}\u{2500}\u{2500}\u{2500}\u{2500}\u{2500}\u{2500}\u{2500}\u{2500}\u{2500}\u{2500}\u{2500}\u{2500}\u{2500}\u{2500}\u{2500}\u{2500}\u{2500}\u{2500}\u{2500}\u{2500}\u{2500}\u{2500}\u{2500}\u{2500}\u{2500}\u{2500}\u{2500}\u{2500}\u{2500}";

/// The heading of the model's answer.
pub const RESPONSE_HEADING: &'static str = "\u{1f4ac} RESPONSE:\n";

/// The heading of the count of tokens.
pub const USAGE_HEADING: &'static str = "\u{1f4ca} TOKEN USAGE:\n";

/// The complete lines at the start of a buffer, each without the whitespace
/// around it. A line is complete when a line feed ends it.
pub open spec fn complete_lines(buffer: Seq<char>) -> Seq<Seq<char>>
    decreases buffer.len(),
{
    let at = position_of(buffer, '\n');
    if at >= buffer.len() {
        Seq::empty()
    } else {
        proof {
            lemma_position_of(buffer, '\n');
        }
        seq![trimmed(buffer.take(at))] + complete_lines(buffer.skip(at + 1))
    }
}

/// What stays in a buffer when its complete lines are taken off: the start
/// of a line that has not ended yet.
pub open spec fn unfinished_line(buffer: Seq<char>) -> Seq<char>
    decreases buffer.len(),
{
    let at = position_of(buffer, '\n');
    if at >= buffer.len() {
        buffer
    } else {
        proof {
            lemma_position_of(buffer, '\n');
        }
        unfinished_line(buffer.skip(at + 1))
    }
}

/// Takes the complete lines off a buffer; the start of a line that has not
/// ended yet stays in it.
pub fn take_lines(buffer: &mut String) -> (r: Vec<String>)
    ensures
        r.deep_view() == complete_lines(old(buffer)@),
        final(buffer)@ == unfinished_line(old(buffer)@),
{
    let text = chars_of(buffer.as_str());
    let mut out: Vec<String> = Vec::new();
    let mut from: usize = 0;
    proof {
        assert(text@.subrange(0, text.len() as int) =~= text@);
        assert(out.deep_view() + complete_lines(text@) =~= complete_lines(text@));
    }
    loop
        invariant
            from <= text.len(),
            text@ == old(buffer)@,
            out.deep_view() + complete_lines(text@.subrange(from as int, text.len() as int))
                == complete_lines(text@),
            unfinished_line(text@.subrange(from as int, text.len() as int)) == unfinished_line(
                text@,
            ),
        decreases text.len() - from,
    {
        let ghost rest = text@.subrange(from as int, text.len() as int);
        let ghost done = out.deep_view();
        let mut at: usize = from;
        proof {
            assert(rest.skip(0) =~= rest);
        }
        while at < text.len() && text[at] != '\n'
            invariant
                from <= at <= text.len(),
                rest == text@.subrange(from as int, text.len() as int),
                position_of(rest, '\n') == (at - from) + position_of(rest.skip(at - from), '\n'),
            decreases text.len() - at,
        {
            proof {
                assert(rest.skip(at - from)[0] == text@[at as int]);
                assert(rest.skip(at - from).skip(1) =~= rest.skip(at - from + 1));
            }
            at += 1;
        }
        proof {
            if at < text.len() {
                assert(rest.skip(at - from)[0] == text@[at as int]);
            }
        }
        if at >= text.len() {
            let mut left = String::new();
            push_range(&mut left, &text, from, text.len());
            *buffer = left;
            proof {
                assert(out.deep_view() + Seq::<Seq<char>>::empty() =~= out.deep_view());
            }
            return out;
        }
        let (a, b) = trim_range(&text, from, at);
        let mut line = String::new();
        push_range(&mut line, &text, a, b);
        let ghost line_text = line@;
        out.push(line);
        proof {
            assert(text@.subrange(from as int, at as int) =~= rest.take(at - from));
            assert(out.deep_view() =~= done.push(line_text));
            assert(rest.skip(at - from + 1) =~= text@.subrange(at + 1, text.len() as int));
            assert(out.deep_view() + complete_lines(
                text@.subrange(at + 1, text.len() as int),
            ) =~= done + (seq![trimmed(rest.take(at - from))] + complete_lines(
                rest.skip(at - from + 1),
            )));
        }
        from = at + 1;
    }
}

/// The data of a line: what stands behind `data: `, where the line starts
/// so and the rest is not the mark of the end.
pub open spec fn data_of(line: Seq<char>) -> Option<Seq<char>> {
    if DATA_PREFIX@.is_prefix_of(line) && line.skip(DATA_PREFIX@.len() as int) != DONE_MARK@ {
        Some(line.skip(DATA_PREFIX@.len() as int))
    } else {
        None
    }
}

/// The data of a line, if it holds data. Empty lines, comments and the mark
/// of the end hold none.
pub fn event_data(line: &str) -> (r: Option<String>)
    ensures
        r.deep_view() == data_of(line@),
{
    let text = chars_of(line);
    let prefix = chars_of(DATA_PREFIX);
    if prefix.len() > text.len() {
        return None;
    }
    let mut k: usize = 0;
    while k < prefix.len()
        invariant
            k <= prefix.len() <= text.len(),
            prefix@ == DATA_PREFIX@,
            text@ == line@,
            forall|j: int| 0 <= j < k ==> prefix@[j] == text@[j],
        decreases prefix.len() - k,
    {
        if prefix[k] != text[k] {
            assert(text@.subrange(0, prefix.len() as int)[k as int] == text@[k as int]);
            return None;
        }
        k += 1;
    }
    proof {
        assert(prefix@ =~= text@.subrange(0, prefix.len() as int));
    }
    let mut data = String::new();
    push_range(&mut data, &text, prefix.len(), text.len());
    proof {
        assert(data@ =~= line@.skip(DATA_PREFIX@.len() as int));
    }
    if same_text(data.as_str(), DONE_MARK) {
        None
    } else {
        Some(data)
    }
}

/// The count of tokens that a chunk may bring.
#[derive(Debug, Clone, Copy, PartialEq, Eq, Structural)]
pub struct Usage {
    pub prompt_tokens: u32,
    pub completion_tokens: u32,
    pub total_tokens: u32,
}

/// One choice of a chunk: the next piece of text, if there is one, and
/// whether the model is through.
#[derive(Debug)]
pub struct StreamChoice {
    pub content: Option<String>,
    pub finished: bool,
}

/// What a [`StreamChoice`] holds, as plain mathematical values.
pub struct StreamChoiceView {
    pub content: Option<Seq<char>>,
    pub finished: bool,
}

impl DeepView for StreamChoice {
    type V = StreamChoiceView;

    open spec fn deep_view(&self) -> StreamChoiceView {
        StreamChoiceView { content: self.content.deep_view(), finished: self.finished }
    }
}

impl View for StreamChoice {
    type V = StreamChoiceView;

    open spec fn view(&self) -> StreamChoiceView {
        self.deep_view()
    }
}

/// A chunk of the stream.
#[derive(Debug)]
pub struct StreamChunk {
    pub choices: Vec<StreamChoice>,
    pub usage: Option<Usage>,
}

/// What a [`StreamChunk`] holds, as plain mathematical values.
pub struct StreamChunkView {
    pub choices: Seq<StreamChoiceView>,
    pub usage: Option<Usage>,
}

impl View for StreamChunk {
    type V = StreamChunkView;

    open spec fn view(&self) -> StreamChunkView {
        StreamChunkView { choices: self.choices.deep_view(), usage: self.usage }
    }
}

/// A count of tokens under a name: an unsigned integer of 32 bits.
pub open spec fn tokens_at(members: Seq<(String, Json)>, key: Seq<char>) -> Option<u32> {
    match count_at(members, key) {
        Some(count) => if count <= u32::MAX {
            Some(count as u32)
        } else {
            None
        },
        None => None,
    }
}

/// The count of tokens that a chunk brings: `Some(None)` where it brings
/// none, and `None` where what it brings is no count of tokens.
pub open spec fn usage_of(members: Seq<(String, Json)>) -> Option<Option<Usage>> {
    match member(members, "usage"@) {
        None => Some(None),
        Some(Json::Null) => Some(None),
        Some(Json::Object(inner)) => match (
            tokens_at(inner@, "prompt_tokens"@),
            tokens_at(inner@, "completion_tokens"@),
            tokens_at(inner@, "total_tokens"@),
        ) {
            (Some(prompt_tokens), Some(completion_tokens), Some(total_tokens)) => Some(
                Some(Usage { prompt_tokens, completion_tokens, total_tokens }),
            ),
            _ => None,
        },
        Some(_) => None,
    }
}

/// The choice that one element of a chunk's choices stands for: an object
/// whose `delta` may hold a `content`, and that may hold a
/// `finish_reason`.
pub open spec fn choice_of(tree: Json) -> Option<StreamChoiceView> {
    match tree {
        Json::Object(members) => match object_at(members@, "delta"@) {
            Some(delta) => match (
                optional_string(delta, "content"@),
                optional_string(delta, "role"@),
                optional_string(members@, "finish_reason"@),
            ) {
                (Some(content), Some(_), Some(reason)) => Some(
                    StreamChoiceView { content, finished: reason is Some },
                ),
                _ => None,
            },
            None => None,
        },
        _ => None,
    }
}

/// The choices that a list of elements stands for, where each stands for
/// one.
pub open spec fn choices_in(items: Seq<Json>) -> Option<Seq<StreamChoiceView>> {
    if forall|i: int| 0 <= i < items.len() ==> choice_of(#[trigger] items[i]) is Some {
        Some(Seq::new(items.len(), |i: int| choice_of(items[i]).unwrap()))
    } else {
        None
    }
}

/// The chunk that a tree stands for.
pub open spec fn chunk_of(tree: Json) -> Option<StreamChunkView> {
    match tree {
        Json::Object(members) => match (array_at(members@, "choices"@), usage_of(members@)) {
            (Some(items), Some(usage)) => match choices_in(items) {
                Some(choices) => Some(StreamChunkView { choices, usage }),
                None => None,
            },
            _ => None,
        },
        _ => None,
    }
}

/// The chunk that the data of a line holds; `None` where the data is no
/// JSON or no chunk.
pub open spec fn chunk_of_text(data: Seq<char>) -> Option<StreamChunkView> {
    match json_decoding(data) {
        Ok(tree) => chunk_of(tree),
        Err(_) => None,
    }
}

/// Reads a count of tokens.
fn get_tokens(members: &Vec<(String, Json)>, key: &str) -> (r: Option<u32>)
    ensures
        r == tokens_at(members@, key@),
{
    match get_count(members, key) {
        Some(count) => {
            if count <= 0xffff_ffff {
                Some(count as u32)
            } else {
                None
            }
        },
        None => None,
    }
}

/// Reads the count of tokens that a chunk brings.
fn get_usage(members: &Vec<(String, Json)>) -> (r: Option<Option<Usage>>)
    ensures
        r == usage_of(members@),
{
    match find_member(members, "usage") {
        None => Some(None),
        Some(Json::Null) => Some(None),
        Some(Json::Object(inner)) => {
            let prompt = get_tokens(inner, "prompt_tokens");
            let completion = get_tokens(inner, "completion_tokens");
            let total = get_tokens(inner, "total_tokens");
            match (prompt, completion, total) {
                (Some(prompt_tokens), Some(completion_tokens), Some(total_tokens)) => Some(
                    Some(Usage { prompt_tokens, completion_tokens, total_tokens }),
                ),
                _ => None,
            }
        },
        Some(_) => None,
    }
}

/// Reads a string that may be left out.
fn get_optional(members: &Vec<(String, Json)>, key: &str) -> (r: Option<Option<String>>)
    ensures
        r.deep_view() == optional_string(members@, key@),
{
    match find_member(members, key) {
        None => Some(None),
        Some(Json::Null) => Some(None),
        Some(Json::Text(text)) => Some(Some(text.clone())),
        Some(_) => None,
    }
}

/// Reads one choice of a chunk.
pub fn choice_from_json(tree: &Json) -> (r: Option<StreamChoice>)
    ensures
        r.deep_view() == choice_of(*tree),
{
    let members = match tree {
        Json::Object(members) => members,
        _ => {
            return None;
        },
    };
    let delta = match get_object(members, "delta") {
        Some(delta) => delta,
        None => {
            return None;
        },
    };
    let content = get_optional(delta, "content");
    let role = get_optional(delta, "role");
    let reason = get_optional(members, "finish_reason");
    match (content, role, reason) {
        (Some(content), Some(_), Some(reason)) => Some(
            StreamChoice { content, finished: reason.is_some() },
        ),
        _ => None,
    }
}

/// Reads the chunk that the data of a line holds.
pub fn parse_stream_chunk(data: &str) -> (r: Option<StreamChunk>)
    ensures
        match r {
            Some(chunk) => chunk_of_text(data@) == Some(chunk@),
            None => chunk_of_text(data@) is None,
        },
{
    let tree = match decode_json(data) {
        Ok(tree) => tree,
        Err(_) => {
            return None;
        },
    };
    let members = match &tree {
        Json::Object(members) => members,
        _ => {
            return None;
        },
    };
    let items = match get_array(members, "choices") {
        Some(items) => items,
        None => {
            return None;
        },
    };
    let usage = match get_usage(members) {
        Some(usage) => usage,
        None => {
            return None;
        },
    };
    let mut choices: Vec<StreamChoice> = Vec::new();
    let mut i: usize = 0;
    while i < items.len()
        invariant
            i <= items.len(),
            choices.len() == i,
            json_decoding(data@) == Ok::<Json, Seq<char>>(tree),
            chunk_of(tree) == (match choices_in(items@) {
                Some(all) => Some(StreamChunkView { choices: all, usage }),
                None => None,
            }),
            forall|j: int|
                #![trigger items@[j]]
                #![trigger choices[j]]
                0 <= j < i ==> choice_of(items@[j]) == Some(choices[j]@),
        decreases items.len() - i,
    {
        match choice_from_json(&items[i]) {
            Some(choice) => {
                choices.push(choice);
            },
            None => {
                return None;
            },
        }
        i += 1;
    }
    assert(choices.deep_view() =~= choices_in(items@).unwrap());
    Some(StreamChunk { choices, usage })
}

/// How far the showing of a stream is.
#[derive(Debug, Clone, Copy, PartialEq, Eq, Structural)]
pub struct DisplayState {
    /// The heading of the reasoning is written.
    pub reasoning_started: bool,
    /// A piece behind the reasoning has come.
    pub response_started: bool,
    /// The heading of the answer is written.
    pub response_header_printed: bool,
}

/// The state after a piece of text is shown.
pub open spec fn state_after_piece(state: DisplayState, content: Seq<char>) -> DisplayState {
    let opens = contains_text(content, REASONING_OPEN@);
    let reasoning_started = state.reasoning_started || opens;
    let response_started = state.response_started || (reasoning_started && !opens);
    DisplayState {
        reasoning_started,
        response_started,
        response_header_printed: state.response_header_printed || response_started,
    }
}

/// A piece of text without the marks of the reasoning.
pub open spec fn without_marks(content: Seq<char>) -> Seq<char> {
    replaced(replaced(content, REASONING_OPEN@, Seq::empty()), REASONING_CLOSE@, Seq::empty())
}

/// What is written for a piece of text: the heading of the reasoning in
/// front of the first piece that opens it, the heading of the answer in
/// front of the first piece behind it, and the piece without its marks.
pub open spec fn shown_piece(state: DisplayState, content: Seq<char>) -> Seq<char> {
    let after = state_after_piece(state, content);
    (if after.reasoning_started && !state.reasoning_started {
        REASONING_HEADING@
    } else {
        Seq::empty()
    }) + (if after.response_header_printed && !state.response_header_printed {
        "\n\n"@ + RULE@ + "\n"@ + RESPONSE_HEADING@
    } else {
        Seq::empty()
    }) + without_marks(content)
}

/// The state after a choice is shown.
pub open spec fn state_after_choice(state: DisplayState, choice: StreamChoiceView) -> DisplayState {
    match choice.content {
        Some(content) => state_after_piece(state, content),
        None => state,
    }
}

/// What is written for a choice: its piece of text, and two line feeds
/// when the model is through.
pub open spec fn shown_choice(state: DisplayState, choice: StreamChoiceView) -> Seq<char> {
    (match choice.content {
        Some(content) => shown_piece(state, content),
        None => Seq::empty(),
    }) + (if choice.finished {
        "\n\n"@
    } else {
        Seq::empty()
    })
}

/// The state after the first `count` choices are shown.
pub open spec fn state_after_choices(state: DisplayState, choices: Seq<StreamChoiceView>, count: int) -> DisplayState
    decreases count,
{
    if count <= 0 {
        state
    } else {
        state_after_choice(state_after_choices(state, choices, count - 1), choices[count - 1])
    }
}

/// What is written for the first `count` choices.
pub open spec fn shown_choices(state: DisplayState, choices: Seq<StreamChoiceView>, count: int) -> Seq<
    char,
>
    decreases count,
{
    if count <= 0 {
        Seq::empty()
    } else {
        shown_choices(state, choices, count - 1) + shown_choice(
            state_after_choices(state, choices, count - 1),
            choices[count - 1],
        )
    }
}

/// What is written for a count of tokens.
pub open spec fn shown_usage(usage: Usage) -> Seq<char> {
    RULE@ + "\n"@ + USAGE_HEADING@ + "   Prompt tokens:     "@ + decimal(usage.prompt_tokens as nat)
        + "\n   Completion tokens: "@ + decimal(usage.completion_tokens as nat)
        + "\n   Total tokens:      "@ + decimal(usage.total_tokens as nat) + "\n"@
}

/// What is written for a chunk: its choices, and the count of tokens if it
/// brings one.
pub open spec fn shown_chunk(state: DisplayState, chunk: StreamChunkView) -> Seq<char> {
    shown_choices(state, chunk.choices, chunk.choices.len() as int) + match chunk.usage {
        Some(usage) => shown_usage(usage),
        None => Seq::empty(),
    }
}

/// Shows a piece of text: moves the state on and hands out what to write.
fn show_piece(state: &mut DisplayState, content: &str) -> (r: String)
    ensures
        *final(state) == state_after_piece(*old(state), content@),
        r@ == shown_piece(*old(state), content@),
{
    let opens = contains(content, REASONING_OPEN);
    let mut out = String::new();
    if opens && !state.reasoning_started {
        out.append(REASONING_HEADING);
        state.reasoning_started = true;
    }
    if state.reasoning_started && !state.response_started && !opens {
        state.response_started = true;
    }
    let open_removed = replace(content, REASONING_OPEN, "");
    let display = replace(open_removed.as_str(), REASONING_CLOSE, "");
    if state.response_started && !state.response_header_printed {
        out.append("\n\n");
        out.append(RULE);
        out.append("\n");
        out.append(RESPONSE_HEADING);
        state.response_header_printed = true;
    }
    out.append(display.as_str());
    proof {
        reveal_strlit("");
        assert(""@ =~= Seq::<char>::empty());
        assert(out@ =~= shown_piece(*old(state), content@));
    }
    out
}

/// Shows a chunk: moves the state on and hands out what to write.
pub fn show_chunk(state: &mut DisplayState, chunk: &StreamChunk) -> (r: String)
    ensures
        *final(state) == state_after_choices(
            *old(state),
            chunk@.choices,
            chunk@.choices.len() as int,
        ),
        r@ == shown_chunk(*old(state), chunk@),
{
    let ghost all = chunk.choices.deep_view();
    let mut out = String::new();
    let mut i: usize = 0;
    while i < chunk.choices.len()
        invariant
            i <= chunk.choices.len(),
            all == chunk.choices.deep_view(),
            *state == state_after_choices(*old(state), all, i as int),
            out@ == shown_choices(*old(state), all, i as int),
        decreases chunk.choices.len() - i,
    {
        let choice = &chunk.choices[i];
        let ghost before = out@;
        let ghost was = *state;
        proof {
            assert(all[i as int] == choice@);
        }
        match &choice.content {
            Some(content) => {
                out.append(show_piece(state, content.as_str()).as_str());
            },
            None => {},
        }
        if choice.finished {
            out.append("\n\n");
        }
        proof {
            assert(out@ =~= before + shown_choice(was, choice@));
        }
        i += 1;
    }
    match chunk.usage {
        Some(usage) => {
            out.append(RULE);
            out.append("\n");
            out.append(USAGE_HEADING);
            out.append("   Prompt tokens:     ");
            out.append(decimal_string(usage.prompt_tokens as u128).as_str());
            out.append("\n   Completion tokens: ");
            out.append(decimal_string(usage.completion_tokens as u128).as_str());
            out.append("\n   Total tokens:      ");
            out.append(decimal_string(usage.total_tokens as u128).as_str());
            out.append("\n");
        },
        None => {
            assert(out@ =~= out@ + Seq::<char>::empty());
        },
    }
    out
}

/// Shows a line of the stream: what a chunk is written as, where the line
/// holds one; nothing for any other line.
pub open spec fn shown_line(state: DisplayState, line: Seq<char>) -> Seq<char> {
    match data_of(line) {
        Some(data) => match chunk_of_text(data) {
            Some(chunk) => shown_chunk(state, chunk),
            None => Seq::empty(),
        },
        None => Seq::empty(),
    }
}

/// The state after a line of the stream is shown.
pub open spec fn state_after_line(state: DisplayState, line: Seq<char>) -> DisplayState {
    match data_of(line) {
        Some(data) => match chunk_of_text(data) {
            Some(chunk) => state_after_choices(state, chunk.choices, chunk.choices.len() as int),
            None => state,
        },
        None => state,
    }
}

/// Shows a line of the stream: moves the state on and hands out what to
/// write.
pub fn show_line(state: &mut DisplayState, line: &str) -> (r: String)
    ensures
        *final(state) == state_after_line(*old(state), line@),
        r@ == shown_line(*old(state), line@),
{
    match event_data(line) {
        Some(data) => match parse_stream_chunk(data.as_str()) {
            Some(chunk) => show_chunk(state, &chunk),
            None => String::new(),
        },
        None => String::new(),
    }
}

} // verus!
