//! The knowledge store: topics and curated questions by subject, and the
//! retrieval of the examples that a prompt shows.
//!
//! Each table is a list of pairs, a name and what belongs to it, in the order
//! in which the names were added. A name stands in a table once.

use vstd::prelude::*;
use crate::model::{
    QuestionBankEntry, QuestionBankEntryView, SubjectInfo, SubjectInfoView, TopicInfo,
    TopicInfoView,
};
use crate::assets::{
    load_question_bank, load_topic_schema, question_bank_of_file, topic_schema_of_file,
    TopicSchemaItem, TopicSchemaItemView,
};
use crate::table::{distinct_keys, find_key, insert, inserted, lemma_inserted, lookup};
use crate::text::{chars_of, decimal, decimal_string, same_text};

verus! {

/// What is known of each subject.
pub struct KnowledgeBase {
    /// The topics of each subject.
    pub subjects: Vec<(String, Vec<TopicInfo>)>,
    /// The curated questions of each subject.
    pub bank_entries: Vec<(String, Vec<QuestionBankEntry>)>,
    /// For each subject, the topic codes that each of its topic ids stands for.
    pub topic_code_mappings: Vec<(String, Vec<(String, Vec<String>)>)>,
}

/// What a [`KnowledgeBase`] holds, as plain mathematical values.
pub struct KnowledgeBaseView {
    pub subjects: Seq<(Seq<char>, Seq<TopicInfoView>)>,
    pub bank_entries: Seq<(Seq<char>, Seq<QuestionBankEntryView>)>,
    pub topic_code_mappings: Seq<(Seq<char>, Seq<(Seq<char>, Seq<Seq<char>>)>)>,
}

impl View for KnowledgeBase {
    type V = KnowledgeBaseView;

    open spec fn view(&self) -> KnowledgeBaseView {
        KnowledgeBaseView {
            subjects: self.subjects.deep_view(),
            bank_entries: self.bank_entries.deep_view(),
            topic_code_mappings: self.topic_code_mappings.deep_view(),
        }
    }
}

/// The difficulty code of a difficulty: `D1` for `easy`, `D2` for `medium`,
/// `D3` for `hard`. Any other word, like no word, asks for no difficulty.
pub open spec fn difficulty_code(difficulty: Option<Seq<char>>) -> Option<Seq<char>> {
    match difficulty {
        Some(word) => if word == "easy"@ {
            Some("D1"@)
        } else if word == "medium"@ {
            Some("D2"@)
        } else if word == "hard"@ {
            Some("D3"@)
        } else {
            None
        },
        None => None,
    }
}

/// Does an entry carry one of the codes?
pub open spec fn has_code(entry_topics: Seq<Seq<char>>, codes: Seq<Seq<char>>) -> bool {
    exists|k: int| 0 <= k < codes.len() && entry_topics.contains(#[trigger] codes[k])
}

/// Does the topic id stand for a code that the entry carries?
pub open spec fn topic_id_matches(
    entry_topics: Seq<Seq<char>>,
    mapping: Seq<(Seq<char>, Seq<Seq<char>>)>,
    topic_id: Seq<char>,
) -> bool {
    match lookup(mapping, topic_id) {
        Some(codes) => has_code(entry_topics, codes),
        None => false,
    }
}

/// Does one of the requested topic ids stand for a code that the entry
/// carries? Never, where the subject has no mapping.
pub open spec fn topic_matches(
    entry: QuestionBankEntryView,
    mapping: Option<Seq<(Seq<char>, Seq<Seq<char>>)>>,
    topic_ids: Seq<Seq<char>>,
) -> bool {
    match mapping {
        Some(map) => exists|t: int|
            0 <= t < topic_ids.len() && topic_id_matches(entry.topics, map, #[trigger] topic_ids[t]),
        None => false,
    }
}

/// Does an entry have the difficulty asked for, if one is asked for?
pub open spec fn difficulty_matches(entry: QuestionBankEntryView, code: Option<Seq<char>>) -> bool {
    match code {
        Some(wanted) => entry.difficulty == wanted,
        None => true,
    }
}

/// The entries of the first pass: those of a requested topic and of the
/// difficulty asked for.
pub open spec fn is_exact(
    mapping: Option<Seq<(Seq<char>, Seq<Seq<char>>)>>,
    topic_ids: Seq<Seq<char>>,
    code: Option<Seq<char>>,
) -> spec_fn(QuestionBankEntryView) -> bool {
    |entry: QuestionBankEntryView|
        topic_matches(entry, mapping, topic_ids) && difficulty_matches(entry, code)
}

/// Is there an entry with this id among the chosen ones?
pub open spec fn id_among(chosen: Seq<QuestionBankEntryView>, id: Seq<char>) -> bool {
    exists|k: int| 0 <= k < chosen.len() && (#[trigger] chosen[k]).id == id
}

/// The entries of the second pass: those of a requested topic whose id is
/// not among the entries of the first pass.
pub open spec fn is_backfill(
    mapping: Option<Seq<(Seq<char>, Seq<Seq<char>>)>>,
    topic_ids: Seq<Seq<char>>,
    chosen: Seq<QuestionBankEntryView>,
) -> spec_fn(QuestionBankEntryView) -> bool {
    |entry: QuestionBankEntryView|
        topic_matches(entry, mapping, topic_ids) && !id_among(chosen, entry.id)
}

/// At most the first `limit` elements of a sequence.
pub open spec fn at_most<A>(s: Seq<A>, limit: nat) -> Seq<A> {
    if s.len() <= limit {
        s
    } else {
        s.take(limit as int)
    }
}

/// The curated questions of a subject; none where the subject is unknown.
pub open spec fn entries_of(kb: KnowledgeBaseView, subject: Seq<char>) -> Seq<
    QuestionBankEntryView,
> {
    match lookup(kb.bank_entries, subject) {
        Some(entries) => entries,
        None => Seq::empty(),
    }
}

/// The examples for a request, before they are cut down to the number asked
/// for: the entries of the requested topics and difficulty, in the bank's
/// order; and behind them, where these are fewer than `max_total` and a
/// difficulty was asked for, the other entries of the requested topics, in
/// the bank's order.
pub open spec fn examples_in_order(
    kb: KnowledgeBaseView,
    subject: Seq<char>,
    topic_ids: Seq<Seq<char>>,
    difficulty: Option<Seq<char>>,
    max_total: nat,
) -> Seq<QuestionBankEntryView> {
    let entries = entries_of(kb, subject);
    let mapping = lookup(kb.topic_code_mappings, subject);
    let code = difficulty_code(difficulty);
    let exact = entries.filter(is_exact(mapping, topic_ids, code));
    if exact.len() < max_total && code is Some {
        exact + entries.filter(is_backfill(mapping, topic_ids, exact))
    } else {
        exact
    }
}

/// The examples for a request: at most `max_total` of them.
pub open spec fn bank_examples(
    kb: KnowledgeBaseView,
    subject: Seq<char>,
    topic_ids: Seq<Seq<char>>,
    difficulty: Option<Seq<char>>,
    max_total: nat,
) -> Seq<QuestionBankEntryView> {
    at_most(examples_in_order(kb, subject, topic_ids, difficulty, max_total), max_total)
}

/// The topics of a subject; none where the subject is unknown.
pub open spec fn topics_of(kb: KnowledgeBaseView, subject: Seq<char>) -> Seq<TopicInfoView> {
    match lookup(kb.subjects, subject) {
        Some(topics) => topics,
        None => Seq::empty(),
    }
}

/// What is told of one subject: its name, twice, and the number of its
/// topics.
pub open spec fn subject_info(pair: (Seq<char>, Seq<TopicInfoView>)) -> SubjectInfoView {
    SubjectInfoView { id: pair.0, name: pair.0, topic_count: pair.1.len() as usize }
}

/// Tells whether a list of strings holds a given one.
fn holds(list: &Vec<String>, wanted: &str) -> (r: bool)
    ensures
        r == list.deep_view().contains(wanted@),
{
    let mut i: usize = 0;
    while i < list.len()
        invariant
            i <= list.len(),
            forall|j: int| 0 <= j < i ==> list.deep_view()[j] != wanted@,
        decreases list.len() - i,
    {
        if same_text(list[i].as_str(), wanted) {
            assert(list.deep_view()[i as int] == wanted@);
            return true;
        }
        i += 1;
    }
    false
}

/// Tells whether an entry carries one of the codes.
fn carries_code(entry_topics: &Vec<String>, codes: &Vec<String>) -> (r: bool)
    ensures
        r == has_code(entry_topics.deep_view(), codes.deep_view()),
{
    let mut k: usize = 0;
    while k < codes.len()
        invariant
            k <= codes.len(),
            forall|j: int|
                0 <= j < k ==> !entry_topics.deep_view().contains(#[trigger] codes.deep_view()[j]),
        decreases codes.len() - k,
    {
        if holds(entry_topics, codes[k].as_str()) {
            assert(entry_topics.deep_view().contains(codes.deep_view()[k as int]));
            return true;
        }
        k += 1;
    }
    false
}

/// Tells whether one of the requested topic ids stands for a code that the
/// entry carries.
fn matches_topics(
    entry: &QuestionBankEntry,
    mapping: Option<&Vec<(String, Vec<String>)>>,
    topic_ids: &[String],
) -> (r: bool)
    ensures
        r == topic_matches(entry@, mapping.deep_view(), topic_ids.deep_view()),
{
    let map = match mapping {
        Some(map) => map,
        None => {
            return false;
        },
    };
    let mut t: usize = 0;
    while t < topic_ids.len()
        invariant
            t <= topic_ids.len(),
            mapping == Some(map),
            forall|j: int|
                0 <= j < t ==> !topic_id_matches(
                    entry@.topics,
                    map.deep_view(),
                    #[trigger] topic_ids.deep_view()[j],
                ),
        decreases topic_ids.len() - t,
    {
        let found = match find_key(map, topic_ids[t].as_str()) {
            Some(at) => carries_code(&entry.topics, &map[at].1),
            None => false,
        };
        if found {
            assert(topic_id_matches(
                entry@.topics,
                map.deep_view(),
                topic_ids.deep_view()[t as int],
            ));
            return true;
        }
        t += 1;
    }
    false
}

/// The difficulty code of a difficulty.
fn code_of(difficulty: Option<&str>) -> (r: Option<&'static str>)
    ensures
        r.deep_view() == difficulty_code(difficulty.deep_view()),
{
    match difficulty {
        Some(word) => {
            if same_text(word, "easy") {
                Some("D1")
            } else if same_text(word, "medium") {
                Some("D2")
            } else if same_text(word, "hard") {
                Some("D3")
            } else {
                None
            }
        },
        None => None,
    }
}

/// The knowledge files of one subject, as far as they were found.
#[derive(Debug)]
pub struct SubjectAssets {
    /// The subject's name.
    pub name: String,
    /// What the topic schema file holds; `None` where there is no such file.
    pub schema: Option<String>,
    /// What the question bank file holds; `None` where there is no such file.
    pub bank: Option<String>,
}

/// What a [`SubjectAssets`] holds, as plain mathematical values.
pub struct SubjectAssetsView {
    pub name: Seq<char>,
    pub schema: Option<Seq<char>>,
    pub bank: Option<Seq<char>>,
}

impl DeepView for SubjectAssets {
    type V = SubjectAssetsView;

    open spec fn deep_view(&self) -> SubjectAssetsView {
        SubjectAssetsView {
            name: self.name@,
            schema: self.schema.deep_view(),
            bank: self.bank.deep_view(),
        }
    }
}

impl View for SubjectAssets {
    type V = SubjectAssetsView;

    open spec fn view(&self) -> SubjectAssetsView {
        self.deep_view()
    }
}

/// Is this id a topic code: does it start with `T`?
pub open spec fn is_topic_code(id: Seq<char>) -> bool {
    id.len() > 0 && id[0] == 'T'
}

/// Does a schema item define a topic?
pub open spec fn defines_topic() -> spec_fn(TopicSchemaItemView) -> bool {
    |item: TopicSchemaItemView| is_topic_code(item.id)
}

/// The topics that a schema file defines; none where the file is missing or
/// cannot be read.
pub open spec fn topic_definitions(schema: Option<Seq<char>>) -> Seq<TopicSchemaItemView> {
    match topic_schema_of_file(schema) {
        Ok(items) => items.filter(defines_topic()),
        Err(_) => Seq::empty(),
    }
}

/// The entries that a bank file holds; none where the file is missing or
/// cannot be read.
pub open spec fn bank_of(bank: Option<Seq<char>>) -> Seq<QuestionBankEntryView> {
    match question_bank_of_file(bank) {
        Ok(entries) => entries,
        Err(_) => Seq::empty(),
    }
}

/// Does an entry carry this topic code?
pub open spec fn carries(code: Seq<char>) -> spec_fn(QuestionBankEntryView) -> bool {
    |entry: QuestionBankEntryView| entry.topics.contains(code)
}

/// How many entries carry this topic code.
pub open spec fn example_count(entries: Seq<QuestionBankEntryView>, code: Seq<char>) -> nat {
    entries.filter(carries(code)).len()
}

/// What is told of a topic with `count` examples.
pub open spec fn topic_info(definition: TopicSchemaItemView, count: nat) -> TopicInfoView {
    TopicInfoView {
        id: definition.name,
        name: definition.display,
        description: decimal(count) + " questions available"@,
        example_count: count as usize,
    }
}

/// The topics of a subject that have examples, in the schema's order.
pub open spec fn topics_with_examples(
    definitions: Seq<TopicSchemaItemView>,
    entries: Seq<QuestionBankEntryView>,
) -> Seq<TopicInfoView>
    decreases definitions.len(),
{
    if definitions.len() == 0 {
        Seq::empty()
    } else {
        let before = topics_with_examples(definitions.drop_last(), entries);
        let count = example_count(entries, definitions.last().id);
        if count > 0 {
            before.push(topic_info(definitions.last(), count))
        } else {
            before
        }
    }
}

/// The topic codes of a subject by topic name: each defined topic stands
/// for its own code, and a later definition of a name replaces an earlier
/// one.
pub open spec fn topic_codes(definitions: Seq<TopicSchemaItemView>) -> Seq<
    (Seq<char>, Seq<Seq<char>>),
>
    decreases definitions.len(),
{
    if definitions.len() == 0 {
        Seq::empty()
    } else {
        inserted(
            topic_codes(definitions.drop_last()),
            definitions.last().name,
            seq![definitions.last().id],
        )
    }
}

/// The store with one more subject taken in.
///
/// A subject without topic definitions changes nothing. Else its bank
/// entries are stored; and where one of its topics has examples, so are
/// these topics and the topic codes.
pub open spec fn with_subject(kb: KnowledgeBaseView, assets: SubjectAssetsView) -> KnowledgeBaseView {
    let definitions = topic_definitions(assets.schema);
    if definitions.len() == 0 {
        kb
    } else {
        let entries = bank_of(assets.bank);
        let topics = topics_with_examples(definitions, entries);
        let banked = inserted(kb.bank_entries, assets.name, entries);
        if topics.len() == 0 {
            KnowledgeBaseView { bank_entries: banked, ..kb }
        } else {
            KnowledgeBaseView {
                subjects: inserted(kb.subjects, assets.name, topics),
                bank_entries: banked,
                topic_code_mappings: inserted(
                    kb.topic_code_mappings,
                    assets.name,
                    topic_codes(definitions),
                ),
            }
        }
    }
}

/// The store that the files of some subjects give, taken in one after the
/// other.
pub open spec fn loaded(sources: Seq<SubjectAssetsView>) -> KnowledgeBaseView
    decreases sources.len(),
{
    if sources.len() == 0 {
        KnowledgeBaseView {
            subjects: Seq::empty(),
            bank_entries: Seq::empty(),
            topic_code_mappings: Seq::empty(),
        }
    } else {
        with_subject(loaded(sources.drop_last()), sources.last())
    }
}

/// Taking in a subject keeps every name once in each table.
pub proof fn lemma_with_subject_keeps_names_distinct(kb: KnowledgeBaseView, assets: SubjectAssetsView)
    requires
        distinct_keys(kb.subjects),
        distinct_keys(kb.bank_entries),
        distinct_keys(kb.topic_code_mappings),
    ensures
        distinct_keys(with_subject(kb, assets).subjects),
        distinct_keys(with_subject(kb, assets).bank_entries),
        distinct_keys(with_subject(kb, assets).topic_code_mappings),
{
    let definitions = topic_definitions(assets.schema);
    let entries = bank_of(assets.bank);
    lemma_inserted(kb.bank_entries, assets.name, entries);
    lemma_inserted(kb.subjects, assets.name, topics_with_examples(definitions, entries));
    lemma_inserted(kb.topic_code_mappings, assets.name, topic_codes(definitions));
}

/// Tells whether an id is a topic code.
fn starts_with_t(id: &str) -> (r: bool)
    ensures
        r == is_topic_code(id@),
{
    let text = chars_of(id);
    text.len() > 0 && text[0] == 'T'
}

/// The topics that a schema file defines.
fn read_topic_definitions(schema: &Option<String>) -> (r: Vec<TopicSchemaItem>)
    ensures
        r.deep_view() == topic_definitions(schema.deep_view()),
{
    let mut out: Vec<TopicSchemaItem> = Vec::new();
    proof {
        assert(out.deep_view() =~= Seq::empty());
    }
    let items = match load_topic_schema(schema) {
        Ok(items) => items,
        Err(_) => {
            return out;
        },
    };
    let ghost all = items.deep_view();
    let mut i: usize = 0;
    proof {
        reveal(Seq::filter);
        assert(all.take(0).filter(defines_topic()) =~= Seq::empty());
    }
    while i < items.len()
        invariant
            i <= items.len(),
            all == items.deep_view(),
            out.deep_view() == all.take(i as int).filter(defines_topic()),
        decreases items.len() - i,
    {
        let ghost done = out.deep_view();
        proof {
            assert(all.take(i + 1) =~= all.take(i as int).push(all[i as int]));
            all.take(i as int).lemma_filter_push(all[i as int], defines_topic());
            assert(all[i as int] == items[i as int]@);
        }
        if starts_with_t(items[i].id.as_str()) {
            out.push(items[i].clone());
            assert(out.deep_view() =~= done.push(items[i as int]@));
        }
        i += 1;
    }
    assert(all.take(items.len() as int) =~= all);
    out
}

/// The entries that a bank file holds.
fn read_bank(bank: &Option<String>) -> (r: Vec<QuestionBankEntry>)
    ensures
        r.deep_view() == bank_of(bank.deep_view()),
{
    match load_question_bank(bank) {
        Ok(entries) => entries,
        Err(_) => {
            let none: Vec<QuestionBankEntry> = Vec::new();
            assert(none.deep_view() =~= Seq::empty());
            none
        },
    }
}

/// Counts the entries that carry a topic code.
fn count_examples(entries: &Vec<QuestionBankEntry>, code: &str) -> (r: usize)
    ensures
        r == example_count(entries.deep_view(), code@),
{
    let ghost all = entries.deep_view();
    let ghost pred = carries(code@);
    let mut count: usize = 0;
    let mut i: usize = 0;
    proof {
        reveal(Seq::filter);
        assert(all.take(0).filter(pred) =~= Seq::empty());
    }
    while i < entries.len()
        invariant
            i <= entries.len(),
            all == entries.deep_view(),
            pred == carries(code@),
            count <= i,
            count == all.take(i as int).filter(pred).len(),
        decreases entries.len() - i,
    {
        proof {
            assert(all.take(i + 1) =~= all.take(i as int).push(all[i as int]));
            all.take(i as int).lemma_filter_push(all[i as int], pred);
            assert(all[i as int] == entries[i as int]@);
        }
        if holds(&entries[i].topics, code) {
            count += 1;
        }
        i += 1;
    }
    assert(all.take(entries.len() as int) =~= all);
    count
}

impl KnowledgeBase {
    /// Does every subject stand once in each table?
    pub open spec fn well_formed(&self) -> bool {
        &&& distinct_keys(self@.subjects)
        &&& distinct_keys(self@.bank_entries)
        &&& distinct_keys(self@.topic_code_mappings)
    }

    /// A store that knows no subject.
    pub fn new() -> (r: Self)
        ensures
            r@ == loaded(Seq::empty()),
            r.well_formed(),
    {
        let kb = KnowledgeBase {
            subjects: Vec::new(),
            bank_entries: Vec::new(),
            topic_code_mappings: Vec::new(),
        };
        proof {
            assert(kb.subjects.deep_view() =~= Seq::empty());
            assert(kb.bank_entries.deep_view() =~= Seq::empty());
            assert(kb.topic_code_mappings.deep_view() =~= Seq::empty());
        }
        kb
    }

    /// Takes in the knowledge files of one subject. A file that is missing
    /// or cannot be read counts as one that holds nothing.
    pub fn add_subject(&mut self, assets: &SubjectAssets)
        ensures
            final(self)@ == with_subject(old(self)@, assets@),
            old(self).well_formed() ==> final(self).well_formed(),
    {
        proof {
            if old(self).well_formed() {
                lemma_with_subject_keeps_names_distinct(old(self)@, assets@);
            }
        }
        let definitions = read_topic_definitions(&assets.schema);
        if definitions.len() == 0 {
            return ;
        }
        let entries = read_bank(&assets.bank);
        let mut topics: Vec<TopicInfo> = Vec::new();
        let mut codes: Vec<(String, Vec<String>)> = Vec::new();
        let ghost all = definitions.deep_view();
        let mut i: usize = 0;
        proof {
            assert(topics.deep_view() =~= Seq::empty());
            assert(codes.deep_view() =~= Seq::empty());
        }
        while i < definitions.len()
            invariant
                i <= definitions.len(),
                all == definitions.deep_view(),
                topics.deep_view() == topics_with_examples(all.take(i as int), entries.deep_view()),
                codes.deep_view() == topic_codes(all.take(i as int)),
            decreases definitions.len() - i,
        {
            let definition = &definitions[i];
            let ghost shown = topics.deep_view();
            proof {
                assert(all.take(i + 1).drop_last() =~= all.take(i as int));
                assert(all.take(i + 1).last() == definition@);
            }
            let mut own_code: Vec<String> = Vec::new();
            own_code.push(definition.id.clone());
            assert(own_code.deep_view() =~= seq![definition@.id]);
            insert(&mut codes, definition.name.clone(), own_code);
            let count = count_examples(&entries, definition.id.as_str());
            if count > 0 {
                let mut description = decimal_string(count as u128);
                description.append(" questions available");
                topics.push(
                    TopicInfo {
                        id: definition.name.clone(),
                        name: definition.display.clone(),
                        description,
                        example_count: count,
                    },
                );
                assert(topics.deep_view() =~= shown.push(topic_info(definition@, count as nat)));
            }
            i += 1;
        }
        assert(all.take(definitions.len() as int) =~= all);
        proof {
            assert(topics.deep_view().len() == topics.len());
        }
        if topics.len() == 0 {
            insert(&mut self.bank_entries, assets.name.clone(), entries);
        } else {
            insert(&mut self.bank_entries, assets.name.clone(), entries);
            insert(&mut self.subjects, assets.name.clone(), topics);
            insert(&mut self.topic_code_mappings, assets.name.clone(), codes);
        }
    }

    /// Builds the store from the knowledge files of some subjects, taken in
    /// one after the other. A subject whose files give nothing is left out;
    /// the others are not affected.
    pub fn load(sources: &Vec<SubjectAssets>) -> (r: Self)
        ensures
            r@ == loaded(sources.deep_view()),
            r.well_formed(),
    {
        let mut kb = KnowledgeBase::new();
        let ghost all = sources.deep_view();
        let mut i: usize = 0;
        proof {
            assert(all.take(0) =~= Seq::empty());
        }
        while i < sources.len()
            invariant
                i <= sources.len(),
                all == sources.deep_view(),
                kb@ == loaded(all.take(i as int)),
                kb.well_formed(),
            decreases sources.len() - i,
        {
            proof {
                assert(all.take(i + 1).drop_last() =~= all.take(i as int));
                assert(all.take(i + 1).last() == sources[i as int]@);
            }
            kb.add_subject(&sources[i]);
            i += 1;
        }
        assert(all.take(sources.len() as int) =~= all);
        kb
    }

    /// The subjects, each with the number of its topics, in the order in
    /// which they were added.
    pub fn get_subjects(&self) -> (r: Vec<SubjectInfo>)
        ensures
            r.deep_view() == self@.subjects.map_values(
                |pair: (Seq<char>, Seq<TopicInfoView>)| subject_info(pair),
            ),
    {
        let mut out: Vec<SubjectInfo> = Vec::new();
        let mut i: usize = 0;
        while i < self.subjects.len()
            invariant
                i <= self.subjects.len(),
                out.len() == i,
                forall|j: int|
                    0 <= j < i ==> (#[trigger] out[j])@ == subject_info(self@.subjects[j]),
            decreases self.subjects.len() - i,
        {
            let pair = &self.subjects[i];
            proof {
                assert(self@.subjects[i as int] == pair.deep_view());
                assert(pair.1.deep_view().len() == pair.1.len());
            }
            out.push(
                SubjectInfo { id: pair.0.clone(), name: pair.0.clone(), topic_count: pair.1.len() },
            );
            i += 1;
        }
        assert(out.deep_view() =~= self@.subjects.map_values(
            |pair: (Seq<char>, Seq<TopicInfoView>)| subject_info(pair),
        ));
        out
    }

    /// The topics of a subject; none where the subject is unknown.
    pub fn get_topics(&self, subject: &str) -> (r: Vec<TopicInfo>)
        ensures
            r.deep_view() == topics_of(self@, subject@),
    {
        match find_key(&self.subjects, subject) {
            Some(at) => {
                let topics = self.subjects[at].1.clone();
                assert(topics.deep_view() =~= self.subjects[at as int].1.deep_view());
                topics
            },
            None => {
                let topics: Vec<TopicInfo> = Vec::new();
                assert(topics.deep_view() =~= Seq::empty());
                topics
            },
        }
    }

    /// The examples to show for a request: entries of the requested topics
    /// and difficulty first, then, where these are fewer than `max_total`
    /// and a difficulty was asked for, other entries of the requested
    /// topics; at most `max_total` in all. No match gives an empty list.
    pub fn get_bank_examples(
        &self,
        subject: &str,
        topic_ids: &[String],
        difficulty: Option<&str>,
        max_total: usize,
    ) -> (r: Vec<QuestionBankEntry>)
        ensures
            r.deep_view() == bank_examples(
                self@,
                subject@,
                topic_ids.deep_view(),
                difficulty.deep_view(),
                max_total as nat,
            ),
            r.len() <= max_total,
    {
        let mapping: Option<&Vec<(String, Vec<String>)>> = match find_key(
            &self.topic_code_mappings,
            subject,
        ) {
            Some(at) => Some(&self.topic_code_mappings[at].1),
            None => None,
        };
        let code = code_of(difficulty);
        let mut results: Vec<QuestionBankEntry> = Vec::new();
        let entries: &Vec<QuestionBankEntry> = match find_key(&self.bank_entries, subject) {
            Some(at) => &self.bank_entries[at].1,
            None => {
                proof {
                    assert(results.deep_view() =~= Seq::empty());
                    let none = Seq::<QuestionBankEntryView>::empty();
                    reveal(Seq::filter);
                    assert(none.filter(
                        is_exact(mapping.deep_view(), topic_ids.deep_view(), code.deep_view()),
                    ) =~= none);
                    assert(none.filter(
                        is_backfill(mapping.deep_view(), topic_ids.deep_view(), none),
                    ) =~= none);
                    assert(none + none =~= none);
                }
                return results;
            },
        };
        let ghost all = entries.deep_view();
        let ghost exact_of = is_exact(mapping.deep_view(), topic_ids.deep_view(), code.deep_view());
        assert(all == entries_of(self@, subject@));
        let mut i: usize = 0;
        proof {
            reveal(Seq::filter);
            assert(all.take(0).filter(exact_of) =~= Seq::empty());
            assert(results.deep_view() =~= Seq::empty());
        }
        while i < entries.len()
            invariant
                i <= entries.len(),
                all == entries.deep_view(),
                exact_of == is_exact(mapping.deep_view(), topic_ids.deep_view(), code.deep_view()),
                results.deep_view() == all.take(i as int).filter(exact_of),
            decreases entries.len() - i,
        {
            let entry = &entries[i];
            let ghost done = results.deep_view();
            proof {
                assert(all.take(i + 1) =~= all.take(i as int).push(all[i as int]));
                all.take(i as int).lemma_filter_push(all[i as int], exact_of);
                assert(all[i as int] == entry@);
            }
            let difficulty_ok = match code {
                Some(wanted) => same_text(entry.difficulty.as_str(), wanted),
                None => true,
            };
            if matches_topics(entry, mapping, topic_ids) && difficulty_ok {
                results.push(entry.clone());
                assert(results.deep_view() =~= done.push(entry@));
            }
            i += 1;
        }
        assert(all.take(entries.len() as int) =~= all);
        let ghost exact = results.deep_view();
        if results.len() < max_total && code.is_some() {
            let ghost backfill_of = is_backfill(
                mapping.deep_view(),
                topic_ids.deep_view(),
                exact,
            );
            let first_pass: usize = results.len();
            let mut k: usize = 0;
            proof {
                reveal(Seq::filter);
                assert(all.take(0).filter(backfill_of) =~= Seq::empty());
                assert(exact + Seq::empty() =~= exact);
            }
            while k < entries.len()
                invariant
                    k <= entries.len(),
                    all == entries.deep_view(),
                    first_pass <= results.len(),
                    first_pass == exact.len(),
                    backfill_of == is_backfill(mapping.deep_view(), topic_ids.deep_view(), exact),
                    results.deep_view() == exact + all.take(k as int).filter(backfill_of),
                decreases entries.len() - k,
            {
                let entry = &entries[k];
                let ghost done = results.deep_view();
                proof {
                    assert(all.take(k + 1) =~= all.take(k as int).push(all[k as int]));
                    all.take(k as int).lemma_filter_push(all[k as int], backfill_of);
                    assert(all[k as int] == entry@);
                    assert(done.take(first_pass as int) =~= exact);
                }
                if matches_topics(entry, mapping, topic_ids) && !is_among_first(
                    &results,
                    first_pass,
                    entry.id.as_str(),
                ) {
                    results.push(entry.clone());
                    assert(results.deep_view() =~= done.push(entry@));
                    assert(done.push(entry@) =~= exact + all.take(k as int).filter(
                        backfill_of,
                    ).push(entry@));
                }
                k += 1;
            }
            assert(all.take(entries.len() as int) =~= all);
        }
        if results.len() > max_total {
            results.truncate(max_total);
            assert(results.deep_view() =~= at_most(
                examples_in_order(
                    self@,
                    subject@,
                    topic_ids.deep_view(),
                    difficulty.deep_view(),
                    max_total as nat,
                ),
                max_total as nat,
            ));
        }
        results
    }
}

/// Tells whether an entry with this id is among the first `count` of the
/// chosen ones.
fn is_among_first(chosen: &Vec<QuestionBankEntry>, count: usize, id: &str) -> (r: bool)
    requires
        count <= chosen.len(),
    ensures
        r == id_among(chosen.deep_view().take(count as int), id@),
{
    let mut k: usize = 0;
    while k < count
        invariant
            k <= count <= chosen.len(),
            forall|j: int| 0 <= j < k ==> (#[trigger] chosen.deep_view()[j]).id != id@,
        decreases count - k,
    {
        if same_text(chosen[k].id.as_str(), id) {
            assert(chosen.deep_view().take(count as int)[k as int].id == id@);
            return true;
        }
        k += 1;
    }
    assert forall|j: int| 0 <= j < count implies (#[trigger] chosen.deep_view().take(
        count as int,
    )[j]).id != id@ by {
        assert(chosen.deep_view().take(count as int)[j] == chosen.deep_view()[j]);
    }
    false
}

/// Does no id occur twice among the entries?
pub open spec fn distinct_ids(entries: Seq<QuestionBankEntryView>) -> bool {
    forall|i: int, j: int| 0 <= i < j < entries.len() ==> entries[i].id != entries[j].id
}

/// Entries picked out of a list without repeated ids have no repeated ids.
proof fn lemma_filter_keeps_ids_distinct(
    entries: Seq<QuestionBankEntryView>,
    pred: spec_fn(QuestionBankEntryView) -> bool,
)
    requires
        distinct_ids(entries),
    ensures
        distinct_ids(entries.filter(pred)),
        forall|k: int|
            0 <= k < entries.filter(pred).len() ==> entries.contains(
                #[trigger] entries.filter(pred)[k],
            ),
    decreases entries.len(),
{
    reveal(Seq::filter);
    if entries.len() > 0 {
        let front = entries.drop_last();
        let last = entries.last();
        lemma_filter_keeps_ids_distinct(front, pred);
        let picked = front.filter(pred);
        assert forall|k: int| 0 <= k < picked.len() implies entries.contains(
            #[trigger] picked[k],
        ) && picked[k].id != last.id by {
            assert(front.contains(picked[k]));
            let at = choose|at: int| 0 <= at < front.len() && front[at] == picked[k];
            assert(entries[at] == picked[k]);
        }
        if pred(last) {
            assert(entries[entries.len() - 1] == last);
        }
    }
}

/// Where no id occurs twice among the entries of the subject, none occurs
/// twice among the examples: what the second pass adds was not chosen by
/// the first.
pub proof fn lemma_examples_are_distinct(
    kb: KnowledgeBaseView,
    subject: Seq<char>,
    topic_ids: Seq<Seq<char>>,
    difficulty: Option<Seq<char>>,
    max_total: nat,
)
    requires
        distinct_ids(entries_of(kb, subject)),
    ensures
        distinct_ids(examples_in_order(kb, subject, topic_ids, difficulty, max_total)),
        distinct_ids(bank_examples(kb, subject, topic_ids, difficulty, max_total)),
{
    let entries = entries_of(kb, subject);
    let mapping = lookup(kb.topic_code_mappings, subject);
    let code = difficulty_code(difficulty);
    let exact = entries.filter(is_exact(mapping, topic_ids, code));
    let backfill = entries.filter(is_backfill(mapping, topic_ids, exact));
    lemma_filter_keeps_ids_distinct(entries, is_exact(mapping, topic_ids, code));
    lemma_filter_keeps_ids_distinct(entries, is_backfill(mapping, topic_ids, exact));
    let both = exact + backfill;
    assert forall|i: int, j: int| 0 <= i < j < both.len() implies both[i].id != both[j].id by {
        if i < exact.len() && j >= exact.len() {
            let k = j - exact.len();
            entries.lemma_filter_pred(is_backfill(mapping, topic_ids, exact), k);
            assert(!id_among(exact, backfill[k].id));
        }
    }
}

/// Where no id occurs twice among the entries of the subject, the second
/// pass adds the entries of the requested topics that have another
/// difficulty than the one asked for.
pub proof fn lemma_backfill_is_other_difficulty(
    entries: Seq<QuestionBankEntryView>,
    mapping: Option<Seq<(Seq<char>, Seq<Seq<char>>)>>,
    topic_ids: Seq<Seq<char>>,
    code: Option<Seq<char>>,
    entry: QuestionBankEntryView,
)
    requires
        distinct_ids(entries),
        entries.contains(entry),
    ensures
        is_backfill(mapping, topic_ids, entries.filter(is_exact(mapping, topic_ids, code)))(entry)
            == (topic_matches(entry, mapping, topic_ids) && !difficulty_matches(entry, code)),
{
    let exact_of = is_exact(mapping, topic_ids, code);
    let exact = entries.filter(exact_of);
    lemma_filter_keeps_ids_distinct(entries, exact_of);
    let at = choose|at: int| 0 <= at < entries.len() && entries[at] == entry;
    if id_among(exact, entry.id) {
        let k = choose|k: int| 0 <= k < exact.len() && (#[trigger] exact[k]).id == entry.id;
        assert(entries.contains(exact[k]));
        let other = choose|other: int| 0 <= other < entries.len() && entries[other] == exact[k];
        assert(other == at);
        entries.lemma_filter_pred(exact_of, k);
    } else if exact_of(entry) {
        entries.lemma_filter_contains(exact_of, at);
        let k = choose|k: int| 0 <= k < exact.len() && exact[k] == entry;
        assert(exact[k].id == entry.id);
    }
}

} // verus!
