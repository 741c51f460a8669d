use rubrix::assets::{
    bank_entries_from_json, load_question_bank, load_topic_schema, parse_question_bank,
    parse_topic_schema, topic_items_from_json, AssetLoadError,
};
use rubrix::json::decode_json;
use rubrix::knowledge::{KnowledgeBase, SubjectAssets};
use rubrix::model::{DistractorInfo, QuestionBankEntry, TopicInfo};
use rubrix::table::{find_key, insert};

fn entry(id: &str, difficulty: &str, topics: &[&str]) -> QuestionBankEntry {
    QuestionBankEntry {
        id: id.to_string(),
        text: format!("text of {}", id),
        options: vec![],
        explanation: String::new(),
        difficulty: difficulty.to_string(),
        cognitive_level: "apply".to_string(),
        topics: topics.iter().map(|t| t.to_string()).collect(),
        skills: vec![],
        distractors: DistractorInfo { common_mistakes: vec![], common_errors: vec![] },
    }
}

fn store(entries: Vec<QuestionBankEntry>) -> KnowledgeBase {
    KnowledgeBase {
        subjects: vec![(
            "Computer Science".to_string(),
            vec![TopicInfo {
                id: "recursion".to_string(),
                name: "Recursion".to_string(),
                description: "2 questions available".to_string(),
                example_count: 2,
            }],
        )],
        bank_entries: vec![("Computer Science".to_string(), entries)],
        topic_code_mappings: vec![(
            "Computer Science".to_string(),
            vec![
                ("recursion".to_string(), vec!["T009".to_string()]),
                ("arrays".to_string(), vec!["T003".to_string(), "T004".to_string()]),
            ],
        )],
    }
}

fn ids(entries: &[QuestionBankEntry]) -> Vec<&str> {
    entries.iter().map(|e| e.id.as_str()).collect()
}

fn topics(names: &[&str]) -> Vec<String> {
    names.iter().map(|n| n.to_string()).collect()
}

#[test]
fn backfill_follows_the_exact_difficulty() {
    let kb = store(vec![entry("d2", "D2", &["T009"]), entry("d1", "D1", &["T009"])]);
    let found = kb.get_bank_examples("Computer Science", &topics(&["recursion"]), Some("medium"), 3);
    assert_eq!(ids(&found), vec!["d2", "d1"]);
    assert_eq!(found[0].difficulty, "D2");
    assert_eq!(found[1].difficulty, "D1");
    assert_eq!(found[0].text, "text of d2");
}

#[test]
fn exact_entries_come_first_whatever_the_bank_order() {
    let kb = store(vec![
        entry("a", "D1", &["T009"]),
        entry("b", "D2", &["T009"]),
        entry("c", "D3", &["T009"]),
        entry("d", "D2", &["T009"]),
        entry("e", "D1", &["T001"]),
        entry("f", "D1", &["T009", "T001"]),
    ]);
    let t = topics(&["recursion"]);
    let all = kb.get_bank_examples("Computer Science", &t, Some("medium"), 10);
    assert_eq!(ids(&all), vec!["b", "d", "a", "c", "f"]);
    let cut = kb.get_bank_examples("Computer Science", &t, Some("medium"), 3);
    assert_eq!(ids(&cut), vec!["b", "d", "a"]);
    // Enough exact entries: nothing is added.
    let enough = kb.get_bank_examples("Computer Science", &t, Some("medium"), 2);
    assert_eq!(ids(&enough), vec!["b", "d"]);
    let one = kb.get_bank_examples("Computer Science", &t, Some("medium"), 1);
    assert_eq!(ids(&one), vec!["b"]);
    assert!(kb.get_bank_examples("Computer Science", &t, Some("medium"), 0).is_empty());
}

#[test]
fn half_of_the_bank_has_the_difficulty() {
    let kb = store(vec![
        entry("e1", "D3", &["T009"]),
        entry("h1", "D1", &["T009"]),
        entry("e2", "D3", &["T009"]),
        entry("h2", "D2", &["T009"]),
    ]);
    let found = kb.get_bank_examples("Computer Science", &topics(&["recursion"]), Some("hard"), 3);
    assert_eq!(ids(&found), vec!["e1", "e2", "h1"]);
    let mut seen = ids(&found);
    seen.sort();
    seen.dedup();
    assert_eq!(seen.len(), found.len());
}

#[test]
fn without_a_difficulty_every_entry_of_the_topics_counts() {
    let kb = store(vec![
        entry("a", "D1", &["T009"]),
        entry("b", "D2", &["T003"]),
        entry("c", "D3", &["T004"]),
        entry("d", "D3", &["T777"]),
    ]);
    let both = topics(&["arrays", "recursion"]);
    assert_eq!(ids(&kb.get_bank_examples("Computer Science", &both, None, 10)), vec!["a", "b", "c"]);
    assert_eq!(ids(&kb.get_bank_examples("Computer Science", &both, None, 2)), vec!["a", "b"]);
    // A word that names no difficulty asks for none.
    assert_eq!(ids(&kb.get_bank_examples("Computer Science", &both, Some("brutal"), 10)), vec!["a", "b", "c"]);
    assert_eq!(ids(&kb.get_bank_examples("Computer Science", &topics(&["arrays"]), Some("easy"), 10)), vec!["b", "c"]);
}

#[test]
fn each_difficulty_word_has_its_code() {
    let kb = store(vec![
        entry("one", "D1", &["T009"]),
        entry("two", "D2", &["T009"]),
        entry("three", "D3", &["T009"]),
    ]);
    let t = topics(&["recursion"]);
    assert_eq!(ids(&kb.get_bank_examples("Computer Science", &t, Some("easy"), 1)), vec!["one"]);
    assert_eq!(ids(&kb.get_bank_examples("Computer Science", &t, Some("medium"), 1)), vec!["two"]);
    assert_eq!(ids(&kb.get_bank_examples("Computer Science", &t, Some("hard"), 1)), vec!["three"]);
}

#[test]
fn no_match_gives_an_empty_list() {
    let kb = store(vec![entry("a", "D1", &["T009"])]);
    assert!(kb.get_bank_examples("Calculus", &topics(&["recursion"]), Some("easy"), 3).is_empty());
    assert!(kb.get_bank_examples("Computer Science", &topics(&["unknown"]), Some("easy"), 3).is_empty());
    assert!(kb.get_bank_examples("Computer Science", &topics(&["arrays"]), None, 3).is_empty());
    assert!(kb.get_bank_examples("Computer Science", &[], None, 3).is_empty());
    // The topic id is looked up, not the code.
    assert!(kb.get_bank_examples("Computer Science", &topics(&["T009"]), None, 3).is_empty());
    // A subject with entries but without topic codes has no examples.
    let unmapped = KnowledgeBase {
        subjects: vec![],
        bank_entries: vec![("Computer Science".to_string(), vec![entry("a", "D1", &["T009"])])],
        topic_code_mappings: vec![],
    };
    assert!(unmapped.get_bank_examples("Computer Science", &topics(&["recursion"]), None, 3).is_empty());
}

#[test]
fn an_entry_that_shares_its_id_with_a_chosen_one_is_not_added() {
    let kb = store(vec![
        entry("same", "D2", &["T009"]),
        entry("same", "D1", &["T009"]),
        entry("other", "D1", &["T009"]),
    ]);
    let found = kb.get_bank_examples("Computer Science", &topics(&["recursion"]), Some("medium"), 5);
    assert_eq!(ids(&found), vec!["same", "other"]);
    assert_eq!(found[0].difficulty, "D2");
}

#[test]
fn subjects_and_topics_are_told() {
    let mut kb = store(vec![]);
    kb.subjects.push(("Calculus".to_string(), vec![]));
    let subjects = kb.get_subjects();
    assert_eq!(subjects.len(), 2);
    assert_eq!(subjects[0].id, "Computer Science");
    assert_eq!(subjects[0].name, "Computer Science");
    assert_eq!(subjects[0].topic_count, 1);
    assert_eq!(subjects[1].id, "Calculus");
    assert_eq!(subjects[1].topic_count, 0);
    let found = kb.get_topics("Computer Science");
    assert_eq!(found.len(), 1);
    assert_eq!(found[0].id, "recursion");
    assert_eq!(found[0].name, "Recursion");
    assert_eq!(found[0].description, "2 questions available");
    assert_eq!(found[0].example_count, 2);
    assert!(kb.get_topics("Calculus").is_empty());
    assert!(kb.get_topics("History").is_empty());
    assert!(KnowledgeBase::new().get_subjects().is_empty());
}

#[test]
fn tables_keep_each_name_once() {
    let mut table: Vec<(String, Vec<String>)> = Vec::new();
    insert(&mut table, "a".to_string(), vec!["1".to_string()]);
    insert(&mut table, "b".to_string(), vec!["2".to_string()]);
    insert(&mut table, "a".to_string(), vec!["3".to_string()]);
    assert_eq!(
        table,
        vec![("a".to_string(), vec!["3".to_string()]), ("b".to_string(), vec!["2".to_string()])]
    );
    assert_eq!(find_key(&table, "a"), Some(0));
    assert_eq!(find_key(&table, "b"), Some(1));
    assert_eq!(find_key(&table, "c"), None);
    assert_eq!(find_key(&table, ""), None);
}

const SCHEMA: &str = r#"{
  "version": 3,
  "topics": {
    "items": [
      {"id": "T009", "name": "recursion", "display": "Recursion"},
      {"id": "S001", "name": "skill", "display": "A skill, not a topic"},
      {"id": "T003", "name": "arrays", "display": "Arrays", "extra": [1, 2]},
      {"id": "T100", "name": "unused", "display": "No questions yet"},
      {"name": "nameless"},
      {"id": "", "name": "empty"}
    ]
  }
}"#;

const BANK: &str = r#"{
  "questions": [
    {
      "id": "Q1", "difficulty": "D2", "cognitive_level": "apply",
      "content": {
        "text": "What is f(2)?",
        "options": [
          {"id": "a", "text": "4", "is_correct": true},
          {"id": "b", "text": "2", "is_correct": false}
        ],
        "explanation": "Doubling."
      },
      "pedagogy": {"topics": ["T009", "T003"], "skills": ["tracing"]},
      "distractors": {
        "common_mistakes": [{"option_id": "b", "misconception": "returns the argument"}],
        "common_errors": ["off by one"]
      }
    },
    {
      "id": "Q2", "difficulty": "D1", "cognitive_level": "recall",
      "content": {"stem": "Named by its stem", "code": "x", "options": [], "explanation": ""},
      "pedagogy": {"topics": ["T009"], "skills": []},
      "distractors": {"common_mistakes": [], "common_errors": []}
    }
  ]
}"#;

#[test]
fn a_topic_schema_is_read() {
    let items = parse_topic_schema(SCHEMA).unwrap();
    assert_eq!(items.len(), 6);
    assert_eq!(items[0].id, "T009");
    assert_eq!(items[0].name, "recursion");
    assert_eq!(items[0].display, "Recursion");
    assert_eq!(items[4].id, "");
    assert_eq!(items[4].name, "nameless");
    assert_eq!(items[4].display, "");
    assert!(parse_topic_schema(r#"{"topics": {"items": []}}"#).unwrap().is_empty());
}

#[test]
fn a_malformed_topic_schema_is_reported() {
    match parse_topic_schema("{") {
        Err(AssetLoadError::Malformed { message }) => {
            assert_eq!(message, "EOF while parsing an object at line 1 column 1")
        }
        other => panic!("unexpected outcome {:?}", other),
    }
    for text in [
        "[]",
        "{}",
        r#"{"topics": []}"#,
        r#"{"topics": {}}"#,
        r#"{"topics": {"items": {}}}"#,
        r#"{"topics": {"items": [1]}}"#,
        r#"{"topics": {"items": [{"id": 1}]}}"#,
        r#"{"topics": {"items": [{"id": "T1", "name": null}]}}"#,
        r#"{"topics": {"items": [{"id": "T1"}, {"display": false}]}}"#,
    ] {
        match parse_topic_schema(text) {
            Err(AssetLoadError::Malformed { message }) => {
                assert_eq!(message, "the file does not have the expected shape")
            }
            other => panic!("unexpected outcome {:?} for {}", other, text),
        }
        assert!(topic_items_from_json(&decode_json(text).unwrap()).is_none());
    }
}

#[test]
fn a_question_bank_is_read() {
    let entries = parse_question_bank(BANK).unwrap();
    assert_eq!(entries.len(), 2);
    let first = &entries[0];
    assert_eq!(first.id, "Q1");
    assert_eq!(first.difficulty, "D2");
    assert_eq!(first.cognitive_level, "apply");
    assert_eq!(first.text, "What is f(2)?");
    assert_eq!(first.explanation, "Doubling.");
    assert_eq!(first.options.len(), 2);
    assert_eq!(first.options[0].id, "a");
    assert_eq!(first.options[0].text, "4");
    assert!(first.options[0].is_correct);
    assert!(!first.options[1].is_correct);
    assert_eq!(first.topics, vec!["T009".to_string(), "T003".to_string()]);
    assert_eq!(first.skills, vec!["tracing".to_string()]);
    assert_eq!(first.distractors.common_mistakes.len(), 1);
    assert_eq!(first.distractors.common_mistakes[0].option_id, "b");
    assert_eq!(first.distractors.common_mistakes[0].misconception, "returns the argument");
    assert_eq!(first.distractors.common_errors, vec!["off by one".to_string()]);
    assert_eq!(entries[1].text, "Named by its stem");
    assert!(entries[1].options.is_empty());
    assert!(parse_question_bank(r#"{"questions": []}"#).unwrap().is_empty());
}

#[test]
fn a_malformed_question_bank_is_reported() {
    assert!(matches!(parse_question_bank("not json"), Err(AssetLoadError::Malformed { .. })));
    let whole = BANK.to_string();
    for (from, to) in [
        ("\"id\": \"Q1\", ", ""),
        ("\"difficulty\": \"D2\"", "\"difficulty\": 2"),
        ("\"cognitive_level\": \"apply\",", ""),
        ("\"text\": \"What is f(2)?\",", ""),
        ("\"text\": \"What is f(2)?\"", "\"text\": null"),
        ("\"is_correct\": true", "\"is_correct\": \"true\""),
        ("{\"id\": \"b\", \"text\": \"2\", \"is_correct\": false}", "[]"),
        ("\"explanation\": \"Doubling.\"", "\"explained\": \"Doubling.\""),
        ("\"pedagogy\"", "\"pedagogics\""),
        ("\"skills\": [\"tracing\"]", "\"skills\": [\"tracing\", 1]"),
        ("\"topics\": [\"T009\", \"T003\"]", "\"topics\": \"T009\""),
        ("\"misconception\": \"returns the argument\"", "\"misconception\": {}"),
        ("\"common_errors\": [\"off by one\"]", "\"common_errors\": null"),
        ("\"distractors\": {\n        \"common_mistakes\"", "\"distractors\": {\n        \"mistakes\""),
        ("{\n  \"questions\": [", "{\n  \"items\": ["),
    ] {
        assert!(whole.contains(from), "{}", from);
        let broken = whole.replacen(from, to, 1);
        match parse_question_bank(&broken) {
            Err(AssetLoadError::Malformed { message }) => {
                assert_eq!(message, "the file does not have the expected shape", "{}", from)
            }
            other => panic!("unexpected outcome {:?} for {}", other, from),
        }
        assert!(bank_entries_from_json(&decode_json(&broken).unwrap()).is_none());
    }
}

fn assets(name: &str, schema: Option<&str>, bank: Option<&str>) -> SubjectAssets {
    SubjectAssets {
        name: name.to_string(),
        schema: schema.map(|s| s.to_string()),
        bank: bank.map(|s| s.to_string()),
    }
}

#[test]
fn the_store_is_built_from_the_files() {
    let kb = KnowledgeBase::load(&vec![assets("Computer Science", Some(SCHEMA), Some(BANK))]);
    let subjects = kb.get_subjects();
    assert_eq!(subjects.len(), 1);
    assert_eq!(subjects[0].id, "Computer Science");
    assert_eq!(subjects[0].topic_count, 2);
    let found = kb.get_topics("Computer Science");
    assert_eq!(found.len(), 2);
    assert_eq!(found[0].id, "recursion");
    assert_eq!(found[0].name, "Recursion");
    assert_eq!(found[0].description, "2 questions available");
    assert_eq!(found[0].example_count, 2);
    assert_eq!(found[1].id, "arrays");
    assert_eq!(found[1].name, "Arrays");
    assert_eq!(found[1].description, "1 questions available");
    assert_eq!(found[1].example_count, 1);
    assert_eq!(kb.bank_entries.len(), 1);
    assert_eq!(kb.bank_entries[0].1.len(), 2);
    // Every topic with a code is mapped, the ones without questions too.
    assert_eq!(
        kb.topic_code_mappings,
        vec![(
            "Computer Science".to_string(),
            vec![
                ("recursion".to_string(), vec!["T009".to_string()]),
                ("arrays".to_string(), vec!["T003".to_string()]),
                ("unused".to_string(), vec!["T100".to_string()]),
            ]
        )]
    );
    let examples = kb.get_bank_examples("Computer Science", &["arrays".to_string()], Some("easy"), 3);
    assert_eq!(ids(&examples), vec!["Q1"]);
    let examples = kb.get_bank_examples("Computer Science", &["recursion".to_string()], Some("easy"), 3);
    assert_eq!(ids(&examples), vec!["Q2", "Q1"]);
}

#[test]
fn a_subject_that_gives_nothing_is_left_out() {
    let kb = KnowledgeBase::load(&vec![
        assets("Missing", None, Some(BANK)),
        assets("Broken", Some("{ not json"), Some(BANK)),
        assets("Computer Science", Some(SCHEMA), Some(BANK)),
        assets("No topics", Some(r#"{"topics": {"items": [{"id": "S1", "name": "s"}]}}"#), Some(BANK)),
        assets("No bank", Some(SCHEMA), None),
        assets("Broken bank", Some(SCHEMA), Some("[")),
    ]);
    let subjects = kb.get_subjects();
    assert_eq!(subjects.len(), 1);
    assert_eq!(subjects[0].id, "Computer Science");
    assert_eq!(kb.topic_code_mappings.len(), 1);
    // A subject with topics keeps its bank, an empty one too.
    let banked: Vec<(&str, usize)> = kb.bank_entries.iter().map(|(n, e)| (n.as_str(), e.len())).collect();
    assert_eq!(banked, vec![("Computer Science", 2), ("No bank", 0), ("Broken bank", 0)]);
    assert!(kb.get_topics("No bank").is_empty());
    assert!(KnowledgeBase::load(&Vec::new()).get_subjects().is_empty());
}

#[test]
fn a_subject_that_comes_twice_is_stored_once() {
    let small = r#"{"questions": []}"#;
    let kb = KnowledgeBase::load(&vec![
        assets("Computer Science", Some(SCHEMA), Some(BANK)),
        assets("Calculus", Some(SCHEMA), Some(BANK)),
        assets("Computer Science", Some(SCHEMA), Some(small)),
    ]);
    let names: Vec<&str> = kb.bank_entries.iter().map(|(n, _)| n.as_str()).collect();
    assert_eq!(names, vec!["Computer Science", "Calculus"]);
    assert!(kb.bank_entries[0].1.is_empty());
    // The topics of the first reading stay, as no topic of the second has questions.
    assert_eq!(kb.get_topics("Computer Science").len(), 2);
    assert_eq!(kb.get_subjects().len(), 2);
}

#[test]
fn a_topic_name_that_comes_twice_keeps_its_last_code() {
    let schema = r#"{"topics": {"items": [
        {"id": "T1", "name": "same", "display": "First"},
        {"id": "T2", "name": "other", "display": "Other"},
        {"id": "T3", "name": "same", "display": "Second"}
    ]}}"#;
    let bank = r#"{"questions": [{
        "id": "Q", "difficulty": "D1", "cognitive_level": "c",
        "content": {"text": "t", "options": [], "explanation": "e"},
        "pedagogy": {"topics": ["T1", "T3"], "skills": []},
        "distractors": {"common_mistakes": [], "common_errors": []}
    }]}"#;
    let kb = KnowledgeBase::load(&vec![assets("S", Some(schema), Some(bank))]);
    assert_eq!(
        kb.topic_code_mappings[0].1,
        vec![("same".to_string(), vec!["T3".to_string()]), ("other".to_string(), vec!["T2".to_string()])]
    );
    let found = kb.get_topics("S");
    assert_eq!(found.iter().map(|t| t.name.as_str()).collect::<Vec<_>>(), vec!["First", "Second"]);
}

#[test]
fn a_missing_file_is_told_apart_from_a_malformed_one() {
    assert!(matches!(load_topic_schema(&None), Err(AssetLoadError::Missing)));
    assert!(matches!(load_question_bank(&None), Err(AssetLoadError::Missing)));
    assert!(matches!(load_topic_schema(&Some("[".to_string())), Err(AssetLoadError::Malformed { .. })));
    assert!(matches!(load_question_bank(&Some("{}".to_string())), Err(AssetLoadError::Malformed { .. })));
    assert_eq!(load_topic_schema(&Some(SCHEMA.to_string())).unwrap().len(), 6);
    assert_eq!(load_question_bank(&Some(BANK.to_string())).unwrap().len(), 2);
    assert_eq!(AssetLoadError::Missing.message(), "the file is missing");
    assert_eq!(
        AssetLoadError::Malformed { message: "bad".to_string() }.message(),
        "the file cannot be read: bad"
    );
}
