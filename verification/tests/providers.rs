use english2anki::error::AppError;
use english2anki::models::{Definition, Example, QueryStatus};
use english2anki::providers::ecdict::{
    build_definitions, ecdict_entry_at, empty_to_none, index_key, looks_like_pos, split_lines,
    split_pos_prefix, EcdictIndex, EcdictRecord,
};
use english2anki::providers::http_dictionary::{
    entry_from_payload_at, lookup_url, status_failure_at, ApiDefinition, ApiEntry, ApiMeaning,
    ApiPhonetic,
};
use english2anki::providers::mock::{render_template, MockDictionary, MockEntry, MockProvider};
use english2anki::providers::openai::{
    ai_entry_at, chat_completions_url, clean_json_content, first_choice_content,
    http_status_failure_at, ChatResponse, Choice, ChoiceMessage, OpenAiEntry, OpenAiProvider,
    ProviderEnvironment, PROMPT_HEAD, PROMPT_TAIL, SYSTEM_PROMPT,
};

fn s(x: &str) -> String {
    x.to_string()
}

fn record(word: &str, definition: Option<&str>, translation: Option<&str>, pos: Option<&str>) -> EcdictRecord {
    EcdictRecord {
        word: s(word),
        phonetic: Some(s(" ˈæpl ")),
        definition: definition.map(s),
        translation: translation.map(s),
        pos: pos.map(s),
    }
}

#[test]
fn ecdict_lines_and_tags() {
    assert_eq!(split_lines(Some(" a \r\n\n b\n")), vec![s("a"), s("b")]);
    assert!(split_lines(None).is_empty());
    assert!(looks_like_pos("n."));
    assert!(looks_like_pos(" vt "));
    assert!(!looks_like_pos("apple"));
    assert_eq!(split_pos_prefix("n. 苹果"), (Some(s("n.")), Some(s("苹果"))));
    assert_eq!(split_pos_prefix("苹果 树"), (None, Some(s("苹果 树"))));
    assert_eq!(split_pos_prefix("苹果"), (None, Some(s("苹果"))));
    assert_eq!(split_pos_prefix("adj  "), (Some(s("adj")), None));
    assert_eq!(empty_to_none(Some("  ")), None);
    assert_eq!(empty_to_none(Some(" x ")), Some(s("x")));
}

#[test]
fn ecdict_senses_pair_lines() {
    let r = record("apple", Some("n. fruit\nn. tree\nthird"), Some("n. 苹果\n苹果树"), Some("n"));
    let defs = build_definitions(&r);
    assert_eq!(defs.len(), 3);
    assert_eq!(defs[0].part_of_speech.as_deref(), Some("n."));
    assert_eq!(defs[0].source.as_deref(), Some("n. fruit"));
    assert_eq!(defs[0].target.as_deref(), Some("苹果"));
    assert_eq!(defs[1].part_of_speech.as_deref(), Some("n"));
    assert_eq!(defs[1].target.as_deref(), Some("苹果树"));
    assert_eq!(defs[2].target, None);
    assert_eq!(defs[2].source.as_deref(), Some("third"));
}

#[test]
fn ecdict_entries() {
    let found = ecdict_entry_at("Apple", Some(&record("apple", Some("fruit"), None, None)), "/c/e.csv", s("t"));
    assert_eq!(found.word, "apple");
    assert_eq!(found.phonetic.as_deref(), Some("ˈæpl"));
    assert_eq!(found.source, "ECDICT (/c/e.csv)");
    assert_eq!(found.status, QueryStatus::Success);
    let bare = ecdict_entry_at("x", Some(&record("x", None, Some("  "), None)), "p", s("t"));
    assert_eq!(bare.status, QueryStatus::PartialSuccess);
    assert_eq!(bare.error.as_deref(), Some("找到单词，但词条缺少释义"));
    let missing = ecdict_entry_at("zzz", None, "p", s("t"));
    assert_eq!(missing.status, QueryStatus::Failed);
    assert_eq!(missing.source, "ECDICT");
    assert_eq!(missing.error.as_deref(), Some("ECDICT 本地词库未找到该单词"));
    assert_eq!(index_key(&record("Apple", None, None, None)), Some(s("apple")));
    assert_eq!(index_key(&record("  ", None, None, None)), None);
}

fn mock() -> MockProvider {
    MockProvider::from_dictionary(MockDictionary {
        entries: vec![(
            s("Apple"),
            MockEntry {
                phonetic: Some(s("/a/")),
                definitions: vec![Definition {
                    part_of_speech: Some(s("n.")),
                    source: Some(s("{word} fruit")),
                    target: None,
                }],
                examples: vec![Example { source: s("I like {word}."), target: Some(s("{word}{word}")) }],
            },
        )],
        default_entry: MockEntry { phonetic: None, definitions: vec![], examples: vec![] },
    })
}

#[test]
fn mock_lookup_ignores_case_and_fills_in_the_word() {
    assert_eq!(render_template("{word}-{word}", "x"), "x-x");
    let m = mock();
    assert!(m.dictionary.entries.contains_key("apple"));
    assert!(!m.dictionary.entries.contains_key("Apple"));
    let e = m.lookup_at("APPLE", s("t"));
    assert_eq!(e.word, "APPLE");
    assert_eq!(e.phonetic.as_deref(), Some("/a/"));
    assert_eq!(e.definitions[0].source.as_deref(), Some("APPLE fruit"));
    assert_eq!(e.examples[0].source, "I like APPLE.");
    assert_eq!(e.examples[0].target.as_deref(), Some("APPLEAPPLE"));
    assert_eq!(e.source, "mock");
    let other = m.lookup("pear");
    assert_eq!(other.phonetic.as_deref(), Some("/pear/"));
    assert!(other.definitions.is_empty());
    assert_eq!(other.status, QueryStatus::Success);
}

fn env() -> ProviderEnvironment {
    ProviderEnvironment {
        ai_api_key: None,
        openai_api_key: Some(s("env-key")),
        ai_api_base_url: None,
        openai_api_base_url: None,
    }
}

#[test]
fn ai_provider_settings() {
    let p = OpenAiProvider::from_config(Some(s("  ")), None, None, s("English"), s("Simplified Chinese"), env()).unwrap();
    assert_eq!(p.api_key, "env-key");
    assert_eq!(p.model, "gpt-4o-mini");
    assert_eq!(p.api_base_url, "https://api.openai.com/v1");
    assert_eq!(p.source_label(), "openai-compatible (gpt-4o-mini)");
    let q = OpenAiProvider::from_config(Some(s("k")), Some(s("m")), Some(s("http://h/v1")), s("a"), s("b"), env()).unwrap();
    assert_eq!(q.api_key, "k");
    assert_eq!(q.api_base_url, "http://h/v1");
    match OpenAiProvider::from_config(None, None, None, s("a"), s("b"), ProviderEnvironment::default()) {
        Err(AppError::Config(m)) => assert!(m.contains("AI_API_KEY")),
        _ => panic!("expected a configuration error"),
    }
}

#[test]
fn ai_request_quotes_the_query_as_json() {
    let p = OpenAiProvider::from_config(Some(s("k")), None, None, s("English"), s("中文"), env()).unwrap();
    let req = p.chat_request("say \"hi\"").unwrap();
    assert_eq!(req.model, "gpt-4o-mini");
    assert_eq!(req.messages[0].role, "system");
    assert_eq!(req.messages[0].content, SYSTEM_PROMPT);
    assert_eq!(req.messages[1].role, "user");
    let content = &req.messages[1].content;
    assert!(content.starts_with(PROMPT_HEAD));
    assert!(content.ends_with(PROMPT_TAIL));
    assert!(content.contains(r#"{"query": "say \"hi\"", "source_language": "English", "target_language": "中文"}"#));
}

#[test]
fn ai_endpoint() {
    assert_eq!(chat_completions_url(" https://api.x.com/v1// "), "https://api.x.com/v1/chat/completions");
    assert_eq!(chat_completions_url("https://h/v1/chat/completions/"), "https://h/v1/chat/completions");
}

#[test]
fn ai_reply_cleaning() {
    assert_eq!(clean_json_content("  ```json\n{\"a\":1}\n```  "), "{\"a\":1}");
    assert_eq!(clean_json_content("```\n{}\n``````"), "{}");
    assert_eq!(clean_json_content(" {} "), "{}");
    let empty = ChatResponse { choices: vec![] };
    match first_choice_content(&empty) {
        Err(AppError::Parse(m)) => assert_eq!(m, "AI API 返回缺少 choices"),
        _ => panic!("expected a parse error"),
    }
    let one = ChatResponse { choices: vec![Choice { message: ChoiceMessage { content: s("x") } }] };
    assert_eq!(first_choice_content(&one).unwrap(), "x");
}

fn ai(status: Option<&str>) -> OpenAiEntry {
    OpenAiEntry {
        status: status.map(s),
        reason: Some(s("  not a word ")),
        word: Some(s("Apple")),
        query_type: Some(s("random_string")),
        phonetic: Some(s("/x/")),
        definitions: vec![Definition::default()],
        examples: vec![],
    }
}

#[test]
fn ai_answers() {
    assert_eq!(ai(None).invalid_reason(), "Invalid dictionary query (random_string): not a word");
    let mut plain = ai(None);
    plain.reason = None;
    plain.query_type = Some(s(" "));
    assert_eq!(plain.invalid_reason(), "Invalid dictionary query: Not a valid English dictionary query");
    let refused = ai_entry_at("apple", s("src"), ai(None), s("t"));
    assert_eq!(refused.status, QueryStatus::Failed);
    assert_eq!(refused.ai_status.as_deref(), Some("invalid"));
    assert_eq!(refused.error.as_deref(), Some("Invalid dictionary query (random_string): not a word"));
    assert!(refused.definitions.is_empty());
    let odd = ai_entry_at("apple", s("src"), ai(Some("maybe")), s("t"));
    assert_eq!(odd.error.as_deref(), Some("AI returned unknown dictionary status: maybe"));
    let ok = ai_entry_at("apple", s("src"), ai(Some("SUCCESS")), s("t"));
    assert_eq!(ok.status, QueryStatus::Success);
    assert_eq!(ok.word, "Apple");
    assert_eq!(ok.definitions.len(), 1);
    assert_eq!(ok.ai_reason.as_deref(), Some("  not a word "));
    let http = http_status_failure_at("apple", s("src"), "404 Not Found", s("t"));
    assert_eq!(http.error.as_deref(), Some("AI API HTTP 状态码 404 Not Found"));
}

#[test]
fn free_dictionary_replies() {
    assert_eq!(lookup_url("hello"), "https://api.dictionaryapi.dev/api/v2/entries/en/hello");
    match entry_from_payload_at("x", &vec![], s("t")) {
        Err(AppError::Parse(m)) => assert_eq!(m, "API 返回为空"),
        _ => panic!("expected a parse error"),
    }
    let payload = vec![ApiEntry {
        word: None,
        phonetic: None,
        phonetics: vec![ApiPhonetic { text: None }, ApiPhonetic { text: Some(s("/həˈləʊ/")) }],
        meanings: vec![
            ApiMeaning {
                part_of_speech: s("noun"),
                definitions: vec![
                    ApiDefinition { definition: s("a greeting"), example: Some(s("Hello!")) },
                    ApiDefinition { definition: s("a call"), example: None },
                ],
            },
            ApiMeaning {
                part_of_speech: s("verb"),
                definitions: vec![ApiDefinition { definition: s("to greet"), example: Some(s("I helloed.")) }],
            },
        ],
    }];
    let e = entry_from_payload_at("hello", &payload, s("t")).unwrap();
    assert_eq!(e.word, "hello");
    assert_eq!(e.phonetic.as_deref(), Some("/həˈləʊ/"));
    assert_eq!(e.definitions.len(), 3);
    assert_eq!(e.definitions[2].part_of_speech.as_deref(), Some("verb"));
    assert_eq!(e.definitions[1].source.as_deref(), Some("a call"));
    assert_eq!(e.examples.len(), 2);
    assert_eq!(e.examples[1].source, "I helloed.");
    assert_eq!(e.source, "dictionaryapi.dev");
    let failed = status_failure_at("x", "500 Internal Server Error", s("t"));
    assert_eq!(failed.error.as_deref(), Some("HTTP 状态码 500 Internal Server Error"));
}

#[test]
fn ecdict_index_keeps_the_last_record_of_each_word() {
    let mut index = EcdictIndex::new();
    index.add(record("Apple", Some("first"), None, None));
    index.add(record("  ", Some("blank"), None, None));
    index.add(record("pear", Some("pear"), None, None));
    index.add(record("apple", Some("second"), None, None));
    assert_eq!(index.find("APPLE").unwrap().definition.as_deref(), Some("second"));
    assert_eq!(index.find("Pear").unwrap().definition.as_deref(), Some("pear"));
    assert!(index.find("plum").is_none());
    assert!(index.find("  ").is_none());
}

#[test]
fn ai_request_escapes_control_characters() {
    let p = OpenAiProvider::from_config(Some(s("k")), None, None, s("English"), s("中文"), env()).unwrap();
    let req = p.chat_request("a\tb\\c\u{1}").unwrap();
    assert!(req.messages[1].content.contains(r#""query": "a\tb\\c\u0001""#));
}

#[test]
fn failures_carry_no_ai_fields() {
    let http = http_status_failure_at("apple", s("src"), "500", s("t"));
    assert!(http.phonetic.is_none());
    assert!(http.ai_status.is_none() && http.ai_reason.is_none() && http.query_type.is_none());
    assert_eq!(http.status, QueryStatus::Failed);
    let free = status_failure_at("apple", "404", s("t"));
    assert_eq!(free.error.as_deref(), Some("HTTP 状态码 404"));
    assert!(free.phonetic.is_none());
    assert!(free.ai_status.is_none() && free.ai_reason.is_none() && free.query_type.is_none());
}

#[test]
fn mock_words_that_meet_once_lower_cased_keep_the_first_entry() {
    let entry = |p: &str| MockEntry { phonetic: Some(s(p)), definitions: vec![], examples: vec![] };
    let m = MockProvider::from_dictionary(MockDictionary {
        entries: vec![(s("Apple"), entry("/first/")), (s("APPLE"), entry("/second/"))],
        default_entry: MockEntry { phonetic: None, definitions: vec![], examples: vec![] },
    });
    assert_eq!(m.lookup_at("apple", s("t")).phonetic.as_deref(), Some("/first/"));
}
