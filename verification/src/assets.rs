//! Reading the knowledge files of a subject: its topic schema and its
//! question bank.
//!
//! The schema is an object whose `topics` hold a list of `items`, each with
//! the optional strings `id`, `name` and `display`. The bank is an object
//! whose `questions` each hold `id`, `difficulty` and `cognitive_level`, a
//! `content` with the text (`text`, else `stem`), the `options` and the
//! `explanation`, a `pedagogy` with `topics` and `skills`, and `distractors`
//! with `common_mistakes` and `common_errors`. Members with other names are
//! passed over.

use vstd::prelude::*;
use crate::decode::{texts_from_json, texts_of};
use crate::json::{
    array_at, decode_json, find_member, flag_at, get_array, get_flag, get_object, get_text,
    json_decoding, member, object_at, text_at, Json,
};
use crate::model::{
    CommonMistake, CommonMistakeView, DistractorInfo, DistractorInfoView, QuestionBankEntry,
    QuestionBankEntryView, QuestionBankOption, QuestionBankOptionView,
};

verus! {

/// What a knowledge file of the wrong shape is reported with.
pub const UNEXPECTED_SHAPE: &'static str = "the file does not have the expected shape";

/// Why a knowledge file gave nothing.
#[derive(Debug)]
pub enum AssetLoadError {
    /// There is no such file.
    Missing,
    /// The file is no JSON, or not of the expected shape.
    Malformed { message: String },
}

/// What an [`AssetLoadError`] holds, as plain mathematical values.
pub enum AssetLoadErrorView {
    Missing,
    Malformed { message: Seq<char> },
}

impl View for AssetLoadError {
    type V = AssetLoadErrorView;

    open spec fn view(&self) -> AssetLoadErrorView {
        match self {
            AssetLoadError::Missing => AssetLoadErrorView::Missing,
            AssetLoadError::Malformed { message } => AssetLoadErrorView::Malformed {
                message: message@,
            },
        }
    }
}

/// One topic of a subject's schema.
#[derive(Debug)]
pub struct TopicSchemaItem {
    pub id: String,
    pub name: String,
    pub display: String,
}

/// What a [`TopicSchemaItem`] holds, as plain mathematical values.
pub struct TopicSchemaItemView {
    pub id: Seq<char>,
    pub name: Seq<char>,
    pub display: Seq<char>,
}

impl DeepView for TopicSchemaItem {
    type V = TopicSchemaItemView;

    open spec fn deep_view(&self) -> TopicSchemaItemView {
        TopicSchemaItemView { id: self.id@, name: self.name@, display: self.display@ }
    }
}

impl View for TopicSchemaItem {
    type V = TopicSchemaItemView;

    open spec fn view(&self) -> TopicSchemaItemView {
        self.deep_view()
    }
}

impl Clone for TopicSchemaItem {
    fn clone(&self) -> (r: Self)
        ensures
            r@ == self@,
    {
        TopicSchemaItem {
            id: self.id.clone(),
            name: self.name.clone(),
            display: self.display.clone(),
        }
    }
}

/// A string that may be left out: absent is the empty string; anything but
/// a string is an error.
pub open spec fn string_or_empty(members: Seq<(String, Json)>, key: Seq<char>) -> Option<Seq<char>> {
    match member(members, key) {
        None => Some(Seq::empty()),
        Some(Json::Text(text)) => Some(text@),
        Some(_) => None,
    }
}

/// The topic that one element of the schema's items stands for.
pub open spec fn topic_item_of(tree: Json) -> Option<TopicSchemaItemView> {
    match tree {
        Json::Object(members) => match (
            string_or_empty(members@, "id"@),
            string_or_empty(members@, "name"@),
            string_or_empty(members@, "display"@),
        ) {
            (Some(id), Some(name), Some(display)) => Some(TopicSchemaItemView { id, name, display }),
            _ => None,
        },
        _ => None,
    }
}

/// The topics that a list of elements stands for, where each stands for
/// one.
pub open spec fn topic_items_in(items: Seq<Json>) -> Option<Seq<TopicSchemaItemView>> {
    if forall|i: int| 0 <= i < items.len() ==> topic_item_of(#[trigger] items[i]) is Some {
        Some(Seq::new(items.len(), |i: int| topic_item_of(items[i]).unwrap()))
    } else {
        None
    }
}

/// The topics of a schema.
pub open spec fn topic_items_of(tree: Json) -> Option<Seq<TopicSchemaItemView>> {
    match tree {
        Json::Object(members) => match object_at(members@, "topics"@) {
            Some(topics) => match array_at(topics, "items"@) {
                Some(items) => topic_items_in(items),
                None => None,
            },
            None => None,
        },
        _ => None,
    }
}

/// The choice that one element of an entry's options stands for.
pub open spec fn bank_option_of(tree: Json) -> Option<QuestionBankOptionView> {
    match tree {
        Json::Object(members) => match (
            text_at(members@, "id"@),
            text_at(members@, "text"@),
            flag_at(members@, "is_correct"@),
        ) {
            (Some(id), Some(text), Some(is_correct)) => Some(
                QuestionBankOptionView { id, text, is_correct },
            ),
            _ => None,
        },
        _ => None,
    }
}

/// The choices that a list of elements stands for, where each stands for
/// one.
pub open spec fn bank_options_in(items: Seq<Json>) -> Option<Seq<QuestionBankOptionView>> {
    if forall|i: int| 0 <= i < items.len() ==> bank_option_of(#[trigger] items[i]) is Some {
        Some(Seq::new(items.len(), |i: int| bank_option_of(items[i]).unwrap()))
    } else {
        None
    }
}

/// The common mistake that one element stands for.
pub open spec fn mistake_of(tree: Json) -> Option<CommonMistakeView> {
    match tree {
        Json::Object(members) => match (
            text_at(members@, "option_id"@),
            text_at(members@, "misconception"@),
        ) {
            (Some(option_id), Some(misconception)) => Some(
                CommonMistakeView { option_id, misconception },
            ),
            _ => None,
        },
        _ => None,
    }
}

/// The common mistakes that a list of elements stands for, where each
/// stands for one.
pub open spec fn mistakes_in(items: Seq<Json>) -> Option<Seq<CommonMistakeView>> {
    if forall|i: int| 0 <= i < items.len() ==> mistake_of(#[trigger] items[i]) is Some {
        Some(Seq::new(items.len(), |i: int| mistake_of(items[i]).unwrap()))
    } else {
        None
    }
}

/// The strings under a name, where the member is there and is an array of
/// strings.
pub open spec fn texts_at(members: Seq<(String, Json)>, key: Seq<char>) -> Option<Seq<Seq<char>>> {
    match array_at(members, key) {
        Some(items) => texts_of(items),
        None => None,
    }
}

/// The text of an entry's content: its `text`, else its `stem`.
pub open spec fn content_text(content: Seq<(String, Json)>) -> Option<Seq<char>> {
    match member(content, "text"@) {
        Some(Json::Text(text)) => Some(text@),
        Some(_) => None,
        None => text_at(content, "stem"@),
    }
}

/// What an entry's `distractors` hold.
pub open spec fn distractor_info_of(members: Seq<(String, Json)>) -> Option<DistractorInfoView> {
    match object_at(members, "distractors"@) {
        Some(inner) => match array_at(inner, "common_mistakes"@) {
            Some(items) => match (mistakes_in(items), texts_at(inner, "common_errors"@)) {
                (Some(common_mistakes), Some(common_errors)) => Some(
                    DistractorInfoView { common_mistakes, common_errors },
                ),
                _ => None,
            },
            None => None,
        },
        None => None,
    }
}

/// The entry that one element of the bank's questions stands for.
pub open spec fn bank_entry_of(tree: Json) -> Option<QuestionBankEntryView> {
    match tree {
        Json::Object(members) => match (
            text_at(members@, "id"@),
            text_at(members@, "difficulty"@),
            text_at(members@, "cognitive_level"@),
            object_at(members@, "content"@),
            object_at(members@, "pedagogy"@),
            distractor_info_of(members@),
        ) {
            (
                Some(id),
                Some(difficulty),
                Some(cognitive_level),
                Some(content),
                Some(pedagogy),
                Some(distractors),
            ) => match (
                content_text(content),
                array_at(content, "options"@),
                text_at(content, "explanation"@),
                texts_at(pedagogy, "topics"@),
                texts_at(pedagogy, "skills"@),
            ) {
                (Some(text), Some(items), Some(explanation), Some(topics), Some(skills)) => match bank_options_in(
                    items,
                ) {
                    Some(options) => Some(
                        QuestionBankEntryView {
                            id,
                            text,
                            options,
                            explanation,
                            difficulty,
                            cognitive_level,
                            topics,
                            skills,
                            distractors,
                        },
                    ),
                    None => None,
                },
                _ => None,
            },
            _ => None,
        },
        _ => None,
    }
}

/// The entries that a list of elements stands for, where each stands for
/// one.
pub open spec fn bank_entries_in(items: Seq<Json>) -> Option<Seq<QuestionBankEntryView>> {
    if forall|i: int| 0 <= i < items.len() ==> bank_entry_of(#[trigger] items[i]) is Some {
        Some(Seq::new(items.len(), |i: int| bank_entry_of(items[i]).unwrap()))
    } else {
        None
    }
}

/// The entries of a bank.
pub open spec fn bank_entries_of(tree: Json) -> Option<Seq<QuestionBankEntryView>> {
    match tree {
        Json::Object(members) => match array_at(members@, "questions"@) {
            Some(items) => bank_entries_in(items),
            None => None,
        },
        _ => None,
    }
}

/// What reading a file gives, from what the JSON reader made of it and what
/// the tree stands for.
pub open spec fn asset_outcome<A>(decoding: Result<Json, Seq<char>>, read: spec_fn(Json) -> Option<A>) -> Result<
    A,
    AssetLoadErrorView,
> {
    match decoding {
        Err(message) => Err(AssetLoadErrorView::Malformed { message }),
        Ok(tree) => match read(tree) {
            Some(found) => Ok(found),
            None => Err(AssetLoadErrorView::Malformed { message: UNEXPECTED_SHAPE@ }),
        },
    }
}

/// The topics of a schema file.
pub open spec fn topic_schema_of_text(text: Seq<char>) -> Result<
    Seq<TopicSchemaItemView>,
    AssetLoadErrorView,
> {
    asset_outcome(json_decoding(text), |tree: Json| topic_items_of(tree))
}

/// The entries of a bank file.
pub open spec fn question_bank_of_text(text: Seq<char>) -> Result<
    Seq<QuestionBankEntryView>,
    AssetLoadErrorView,
> {
    asset_outcome(json_decoding(text), |tree: Json| bank_entries_of(tree))
}

/// Reads a string that may be left out.
fn get_string_or_empty(members: &Vec<(String, Json)>, key: &str) -> (r: Option<String>)
    ensures
        r.deep_view() == string_or_empty(members@, key@),
{
    match find_member(members, key) {
        None => Some(String::new()),
        Some(Json::Text(text)) => Some(text.clone()),
        Some(_) => None,
    }
}

/// Reads the strings under a name.
fn get_texts(members: &Vec<(String, Json)>, key: &str) -> (r: Option<Vec<String>>)
    ensures
        r.deep_view() == texts_at(members@, key@),
{
    match get_array(members, key) {
        Some(items) => texts_from_json(items),
        None => None,
    }
}

/// Reads one topic of a schema.
pub fn topic_item_from_json(tree: &Json) -> (r: Option<TopicSchemaItem>)
    ensures
        r.deep_view() == topic_item_of(*tree),
{
    let members = match tree {
        Json::Object(members) => members,
        _ => {
            return None;
        },
    };
    let id = get_string_or_empty(members, "id");
    let name = get_string_or_empty(members, "name");
    let display = get_string_or_empty(members, "display");
    match (id, name, display) {
        (Some(id), Some(name), Some(display)) => Some(TopicSchemaItem { id, name, display }),
        _ => None,
    }
}

/// Reads the topics of a schema.
pub fn topic_items_from_json(tree: &Json) -> (r: Option<Vec<TopicSchemaItem>>)
    ensures
        r.deep_view() == topic_items_of(*tree),
{
    let members = match tree {
        Json::Object(members) => members,
        _ => {
            return None;
        },
    };
    let topics = match get_object(members, "topics") {
        Some(topics) => topics,
        None => {
            return None;
        },
    };
    let items = match get_array(topics, "items") {
        Some(items) => items,
        None => {
            return None;
        },
    };
    let mut out: Vec<TopicSchemaItem> = Vec::new();
    let mut i: usize = 0;
    while i < items.len()
        invariant
            i <= items.len(),
            out.len() == i,
            topic_items_of(*tree) == topic_items_in(items@),
            forall|j: int|
                #![trigger items@[j]]
                #![trigger out[j]]
                0 <= j < i ==> topic_item_of(items@[j]) == Some(out[j]@),
        decreases items.len() - i,
    {
        match topic_item_from_json(&items[i]) {
            Some(item) => {
                out.push(item);
            },
            None => {
                return None;
            },
        }
        i += 1;
    }
    assert(out.deep_view() =~= topic_items_in(items@).unwrap());
    Some(out)
}

/// Reads one choice of a bank entry.
pub fn bank_option_from_json(tree: &Json) -> (r: Option<QuestionBankOption>)
    ensures
        r.deep_view() == bank_option_of(*tree),
{
    let members = match tree {
        Json::Object(members) => members,
        _ => {
            return None;
        },
    };
    let id = get_text(members, "id");
    let text = get_text(members, "text");
    let is_correct = get_flag(members, "is_correct");
    match (id, text, is_correct) {
        (Some(id), Some(text), Some(is_correct)) => Some(QuestionBankOption { id, text, is_correct }),
        _ => None,
    }
}

/// Reads the choices of a bank entry.
fn bank_options_from_json(items: &Vec<Json>) -> (r: Option<Vec<QuestionBankOption>>)
    ensures
        r.deep_view() == bank_options_in(items@),
{
    let mut out: Vec<QuestionBankOption> = Vec::new();
    let mut i: usize = 0;
    while i < items.len()
        invariant
            i <= items.len(),
            out.len() == i,
            forall|j: int|
                #![trigger items@[j]]
                #![trigger out[j]]
                0 <= j < i ==> bank_option_of(items@[j]) == Some(out[j]@),
        decreases items.len() - i,
    {
        match bank_option_from_json(&items[i]) {
            Some(option) => {
                out.push(option);
            },
            None => {
                return None;
            },
        }
        i += 1;
    }
    assert(out.deep_view() =~= bank_options_in(items@).unwrap());
    Some(out)
}

/// Reads one common mistake.
pub fn mistake_from_json(tree: &Json) -> (r: Option<CommonMistake>)
    ensures
        r.deep_view() == mistake_of(*tree),
{
    let members = match tree {
        Json::Object(members) => members,
        _ => {
            return None;
        },
    };
    let option_id = get_text(members, "option_id");
    let misconception = get_text(members, "misconception");
    match (option_id, misconception) {
        (Some(option_id), Some(misconception)) => Some(CommonMistake { option_id, misconception }),
        _ => None,
    }
}

/// Reads the common mistakes of a bank entry.
fn mistakes_from_json(items: &Vec<Json>) -> (r: Option<Vec<CommonMistake>>)
    ensures
        r.deep_view() == mistakes_in(items@),
{
    let mut out: Vec<CommonMistake> = Vec::new();
    let mut i: usize = 0;
    while i < items.len()
        invariant
            i <= items.len(),
            out.len() == i,
            forall|j: int|
                #![trigger items@[j]]
                #![trigger out[j]]
                0 <= j < i ==> mistake_of(items@[j]) == Some(out[j]@),
        decreases items.len() - i,
    {
        match mistake_from_json(&items[i]) {
            Some(mistake) => {
                out.push(mistake);
            },
            None => {
                return None;
            },
        }
        i += 1;
    }
    assert(out.deep_view() =~= mistakes_in(items@).unwrap());
    Some(out)
}

/// Reads what an entry's `distractors` hold.
fn distractor_info_from_json(members: &Vec<(String, Json)>) -> (r: Option<DistractorInfo>)
    ensures
        r.deep_view() == distractor_info_of(members@),
{
    let inner = match get_object(members, "distractors") {
        Some(inner) => inner,
        None => {
            return None;
        },
    };
    let items = match get_array(inner, "common_mistakes") {
        Some(items) => items,
        None => {
            return None;
        },
    };
    match (mistakes_from_json(items), get_texts(inner, "common_errors")) {
        (Some(common_mistakes), Some(common_errors)) => Some(
            DistractorInfo { common_mistakes, common_errors },
        ),
        _ => None,
    }
}

/// Reads the text of an entry's content.
fn content_text_from_json(content: &Vec<(String, Json)>) -> (r: Option<String>)
    ensures
        r.deep_view() == content_text(content@),
{
    match find_member(content, "text") {
        Some(Json::Text(text)) => Some(text.clone()),
        Some(_) => None,
        None => get_text(content, "stem"),
    }
}

/// Reads one entry of a bank.
pub fn bank_entry_from_json(tree: &Json) -> (r: Option<QuestionBankEntry>)
    ensures
        r.deep_view() == bank_entry_of(*tree),
{
    let members = match tree {
        Json::Object(members) => members,
        _ => {
            return None;
        },
    };
    let id = get_text(members, "id");
    let difficulty = get_text(members, "difficulty");
    let cognitive_level = get_text(members, "cognitive_level");
    let content = get_object(members, "content");
    let pedagogy = get_object(members, "pedagogy");
    let distractors = distractor_info_from_json(members);
    match (id, difficulty, cognitive_level, content, pedagogy, distractors) {
        (
            Some(id),
            Some(difficulty),
            Some(cognitive_level),
            Some(content),
            Some(pedagogy),
            Some(distractors),
        ) => {
            let text = content_text_from_json(content);
            let items = get_array(content, "options");
            let explanation = get_text(content, "explanation");
            let topics = get_texts(pedagogy, "topics");
            let skills = get_texts(pedagogy, "skills");
            match (text, items, explanation, topics, skills) {
                (Some(text), Some(items), Some(explanation), Some(topics), Some(skills)) => {
                    match bank_options_from_json(items) {
                        Some(options) => Some(
                            QuestionBankEntry {
                                id,
                                text,
                                options,
                                explanation,
                                difficulty,
                                cognitive_level,
                                topics,
                                skills,
                                distractors,
                            },
                        ),
                        None => None,
                    }
                },
                _ => None,
            }
        },
        _ => None,
    }
}

/// Reads the entries of a bank.
pub fn bank_entries_from_json(tree: &Json) -> (r: Option<Vec<QuestionBankEntry>>)
    ensures
        r.deep_view() == bank_entries_of(*tree),
{
    let members = match tree {
        Json::Object(members) => members,
        _ => {
            return None;
        },
    };
    let items = match get_array(members, "questions") {
        Some(items) => items,
        None => {
            return None;
        },
    };
    let mut out: Vec<QuestionBankEntry> = Vec::new();
    let mut i: usize = 0;
    while i < items.len()
        invariant
            i <= items.len(),
            out.len() == i,
            bank_entries_of(*tree) == bank_entries_in(items@),
            forall|j: int|
                #![trigger items@[j]]
                #![trigger out[j]]
                0 <= j < i ==> bank_entry_of(items@[j]) == Some(out[j]@),
        decreases items.len() - i,
    {
        match bank_entry_from_json(&items[i]) {
            Some(entry) => {
                out.push(entry);
            },
            None => {
                return None;
            },
        }
        i += 1;
    }
    assert(out.deep_view() =~= bank_entries_in(items@).unwrap());
    Some(out)
}

/// Reads the topics of a schema file. The error holds the JSON reader's
/// message, or says that the shape is not the expected one.
pub fn parse_topic_schema(text: &str) -> (r: Result<Vec<TopicSchemaItem>, AssetLoadError>)
    ensures
        match r {
            Ok(items) => topic_schema_of_text(text@) == Ok::<
                Seq<TopicSchemaItemView>,
                AssetLoadErrorView,
            >(items.deep_view()),
            Err(error) => topic_schema_of_text(text@) == Err::<
                Seq<TopicSchemaItemView>,
                AssetLoadErrorView,
            >(error@),
        },
{
    let tree = match decode_json(text) {
        Ok(tree) => tree,
        Err(message) => {
            return Err(AssetLoadError::Malformed { message });
        },
    };
    match topic_items_from_json(&tree) {
        Some(items) => Ok(items),
        None => Err(AssetLoadError::Malformed { message: UNEXPECTED_SHAPE.to_owned() }),
    }
}

/// Reads the entries of a bank file. The error holds the JSON reader's
/// message, or says that the shape is not the expected one.
pub fn parse_question_bank(text: &str) -> (r: Result<Vec<QuestionBankEntry>, AssetLoadError>)
    ensures
        match r {
            Ok(entries) => question_bank_of_text(text@) == Ok::<
                Seq<QuestionBankEntryView>,
                AssetLoadErrorView,
            >(entries.deep_view()),
            Err(error) => question_bank_of_text(text@) == Err::<
                Seq<QuestionBankEntryView>,
                AssetLoadErrorView,
            >(error@),
        },
{
    let tree = match decode_json(text) {
        Ok(tree) => tree,
        Err(message) => {
            return Err(AssetLoadError::Malformed { message });
        },
    };
    match bank_entries_from_json(&tree) {
        Some(entries) => Ok(entries),
        None => Err(AssetLoadError::Malformed { message: UNEXPECTED_SHAPE.to_owned() }),
    }
}

/// The topics of a schema file that may be missing.
pub open spec fn topic_schema_of_file(file: Option<Seq<char>>) -> Result<
    Seq<TopicSchemaItemView>,
    AssetLoadErrorView,
> {
    match file {
        Some(text) => topic_schema_of_text(text),
        None => Err(AssetLoadErrorView::Missing),
    }
}

/// The entries of a bank file that may be missing.
pub open spec fn question_bank_of_file(file: Option<Seq<char>>) -> Result<
    Seq<QuestionBankEntryView>,
    AssetLoadErrorView,
> {
    match file {
        Some(text) => question_bank_of_text(text),
        None => Err(AssetLoadErrorView::Missing),
    }
}

/// Reads the topics of a schema file, given what the file holds, or `None`
/// where there is no such file.
pub fn load_topic_schema(file: &Option<String>) -> (r: Result<Vec<TopicSchemaItem>, AssetLoadError>)
    ensures
        match r {
            Ok(items) => topic_schema_of_file(file.deep_view()) == Ok::<
                Seq<TopicSchemaItemView>,
                AssetLoadErrorView,
            >(items.deep_view()),
            Err(error) => topic_schema_of_file(file.deep_view()) == Err::<
                Seq<TopicSchemaItemView>,
                AssetLoadErrorView,
            >(error@),
        },
{
    match file {
        Some(text) => parse_topic_schema(text.as_str()),
        None => Err(AssetLoadError::Missing),
    }
}

/// Reads the entries of a bank file, given what the file holds, or `None`
/// where there is no such file.
pub fn load_question_bank(file: &Option<String>) -> (r: Result<
    Vec<QuestionBankEntry>,
    AssetLoadError,
>)
    ensures
        match r {
            Ok(entries) => question_bank_of_file(file.deep_view()) == Ok::<
                Seq<QuestionBankEntryView>,
                AssetLoadErrorView,
            >(entries.deep_view()),
            Err(error) => question_bank_of_file(file.deep_view()) == Err::<
                Seq<QuestionBankEntryView>,
                AssetLoadErrorView,
            >(error@),
        },
{
    match file {
        Some(text) => parse_question_bank(text.as_str()),
        None => Err(AssetLoadError::Missing),
    }
}

/// The sentence that reports an [`AssetLoadError`].
pub open spec fn asset_error_message(error: AssetLoadErrorView) -> Seq<char> {
    match error {
        AssetLoadErrorView::Missing => "the file is missing"@,
        AssetLoadErrorView::Malformed { message } => "the file cannot be read: "@ + message,
    }
}

impl AssetLoadError {
    /// The sentence that reports this error.
    pub fn message(&self) -> (r: String)
        ensures
            r@ == asset_error_message(self@),
    {
        match self {
            AssetLoadError::Missing => "the file is missing".to_owned(),
            AssetLoadError::Malformed { message } => {
                let mut out = "the file cannot be read: ".to_owned();
                out.append(message.as_str());
                out
            },
        }
    }
}

} // verus!
