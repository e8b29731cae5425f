use english2anki::anki::{AnkiExportTemplate, AnkiField};
use english2anki::app::{
    ai_status_tone, anki_field_label, cjk_font_candidates, effective_concurrency, existing_keys,
    non_empty, phonetic_font_candidates, provider_label, query_words, resolve_ai_settings, should_skip,
    status_label, template_label, tr, upsert_entry, DictionaryLanguage, FileConfig, QueryLine,
    QueryMessage, QueryState, StatusTone, UiLanguage, UiText,
};
use english2anki::app::sorted_status_rows;
use english2anki::models::{
    current_timestamp, entry_or_failure, parse_words, queried_at_now, timestamp_text, QueryStatus,
    WordEntry,
};
use english2anki::text::lex_le_exec;
use english2anki::providers::ProviderKind;

fn s(x: &str) -> String {
    x.to_string()
}

fn entry(word: &str, source: &str) -> WordEntry {
    WordEntry::failed_at(s(word), s(source), s("boom"), s("t0"))
}

#[test]
fn parse_words_trims_lowercases_and_dedups() {
    assert_eq!(
        parse_words(" Apple, banana,apple ,, BANANA ,Network"),
        vec![s("apple"), s("banana"), s("network")]
    );
    assert!(parse_words(" , ,").is_empty());
    assert!(parse_words("").is_empty());
}

#[test]
fn parse_words_lowercases_beyond_ascii() {
    assert_eq!(parse_words("ÉCOLE"), vec![s("école")]);
}

#[test]
fn failed_entries_record_the_reason() {
    let e = WordEntry::failed(s("zzz"), s("ECDICT"), s("not found"));
    assert_eq!(e.word, "zzz");
    assert_eq!(e.status, QueryStatus::Failed);
    assert_eq!(e.error.as_deref(), Some("not found"));
    assert!(e.definitions.is_empty() && e.examples.is_empty());
    assert!(!e.queried_at.is_empty());
    let f = WordEntry::failed_at(s("a"), s("b"), s("c"), s("when"));
    assert_eq!(f.queried_at, "when");
}

#[test]
fn with_ai_result_sets_the_ai_fields() {
    let e = entry("x", "y").with_ai_result(Some(s("invalid")), Some(s("random")), Some(s("random_string")));
    assert_eq!(e.ai_status.as_deref(), Some("invalid"));
    assert_eq!(e.ai_reason.as_deref(), Some("random"));
    assert_eq!(e.query_type.as_deref(), Some("random_string"));
    assert_eq!(e.word, "x");
}

#[test]
fn status_display_text() {
    assert_eq!(QueryStatus::Success.display_text(), "成功");
    assert_eq!(QueryStatus::PartialSuccess.display_text(), "部分成功");
    assert_eq!(QueryStatus::Skipped.display_text(), "已跳过");
}

#[test]
fn interface_texts() {
    assert_eq!(tr(UiLanguage::ZhHans, UiText::Start), "开始查询");
    assert_eq!(tr(UiLanguage::En, UiText::Start), "Start Query");
    assert_eq!(tr(UiLanguage::En, UiText::InputEmpty), "Please enter at least one entry");
    assert_eq!(UiLanguage::ZhHans.label(), "简体中文");
    assert_eq!(DictionaryLanguage::Japanese.label(UiLanguage::ZhHans), "日语");
    assert_eq!(DictionaryLanguage::Japanese.label(UiLanguage::En), "Japanese");
    assert_eq!(DictionaryLanguage::ChineseSimplified.prompt_name(), "Simplified Chinese");
    assert_eq!(provider_label(ProviderKind::OpenAi, UiLanguage::En), "AI API (OpenAI-compatible)");
    assert_eq!(status_label(&QueryStatus::Failed, UiLanguage::En), "Failed");
    assert_eq!(template_label(AnkiExportTemplate::ChineseToEnglish, UiLanguage::ZhHans), "目标语言到源语言反向卡");
    assert_eq!(anki_field_label(AnkiField::Word, UiLanguage::En), "Entry");
    assert_eq!(phonetic_font_candidates().len(), 10);
    assert_eq!(cjk_font_candidates()[4], "/System/Library/Fonts/PingFang.ttc");
}

#[test]
fn non_empty_trims() {
    assert_eq!(non_empty(s("  key ")), Some(s("key")));
    assert_eq!(non_empty(s(" \t")), None);
}

#[test]
fn upsert_replaces_the_same_word_ignoring_ascii_case() {
    let mut entries = vec![entry("apple", "a"), entry("pear", "b")];
    upsert_entry(&mut entries, entry("APPLE", "c"));
    assert_eq!(entries.len(), 2);
    assert_eq!(entries[0].word, "APPLE");
    assert_eq!(entries[0].source, "c");
    upsert_entry(&mut entries, entry("plum", "d"));
    assert_eq!(entries.len(), 3);
    assert_eq!(entries[2].word, "plum");
}

#[test]
fn known_words_are_skipped_unless_refresh_is_forced() {
    let known = existing_keys(&[entry("Apple", "x")]);
    assert_eq!(known, vec![s("apple")]);
    assert!(should_skip(&known, &s("apple"), false));
    assert!(!should_skip(&known, &s("apple"), true));
    assert!(!should_skip(&known, &s("pear"), false));
    assert_eq!(effective_concurrency(0), 1);
    assert_eq!(effective_concurrency(4), 4);
}

#[test]
fn query_messages_drive_the_progress() {
    let mut state = QueryState::new();
    let mut entries = vec![entry("apple", "old")];
    assert!(!state.apply(&mut entries, QueryMessage::Started { total: 3 }));
    assert_eq!(state.progress_total, 3);
    assert!(!state.apply(&mut entries, QueryMessage::Skipped(s("apple"))));
    assert!(!state.apply(&mut entries, QueryMessage::Entry(entry("pear", "new"))));
    assert!(!state.apply(&mut entries, QueryMessage::Entry(entry("apple", "new"))));
    assert_eq!(state.progress_done, 3);
    assert_eq!(state.statuses.len(), 2);
    assert_eq!(state.statuses[0].word, "apple");
    assert_eq!(state.statuses[0].line.status, QueryStatus::Failed);
    assert_eq!(state.statuses[0].line.message(), "boom");
    assert_eq!(entries.len(), 2);
    assert_eq!(entries[0].source, "new");
    state.is_querying = true;
    assert!(state.apply(&mut entries, QueryMessage::Done));
    assert!(!state.is_querying);
    assert!(!state.apply(&mut entries, QueryMessage::Started { total: 1 }));
    assert!(state.statuses.is_empty());
    assert_eq!(state.progress_done, 0);
}

#[test]
fn skipped_lines_come_from_the_local_file() {
    let line = QueryLine::skipped();
    assert_eq!(line.status, QueryStatus::Skipped);
    assert_eq!(line.source, "local-json");
    assert_eq!(line.message(), "");
    let mut reasoned = line.clone();
    reasoned.ai_reason = Some(s("why"));
    assert_eq!(reasoned.message(), "why");
}

#[test]
fn ai_status_tones() {
    assert_eq!(ai_status_tone("SUCCESS"), StatusTone::Success);
    assert_eq!(ai_status_tone("Invalid"), StatusTone::Failure);
    assert_eq!(ai_status_tone("failure"), StatusTone::Failure);
    assert_eq!(ai_status_tone("pending"), StatusTone::Other);
}

#[test]
fn settings_come_from_the_interface_then_the_file() {
    let file = FileConfig {
        ai_api_key: Some(s("file-key")),
        ai_model: None,
        ai_api_base_url: None,
        source_language: Some(s("  German ")),
        target_language: Some(s("   ")),
        openai_api_key: Some(s("old-key")),
        openai_model: Some(s("old-model")),
        openai_api_base_url: None,
    };
    let r = resolve_ai_settings(
        "  ",
        " my-model ",
        "",
        file,
        DictionaryLanguage::English,
        DictionaryLanguage::Korean,
    );
    assert_eq!(r.api_key.as_deref(), Some("file-key"));
    assert_eq!(r.model.as_deref(), Some("my-model"));
    assert_eq!(r.api_base_url, None);
    assert_eq!(r.source_language, "German");
    assert_eq!(r.target_language, "Korean");
    let r2 = resolve_ai_settings("ui-key", "", "", FileConfig::default(), DictionaryLanguage::English, DictionaryLanguage::French);
    assert_eq!(r2.api_key.as_deref(), Some("ui-key"));
    assert_eq!(r2.model, None);
    assert_eq!(r2.source_language, "English");
}

#[test]
fn status_rows_are_listed_by_word() {
    let mut state = QueryState::new();
    let mut entries = Vec::new();
    for w in ["pear", "apple", "Zebra", "apples"] {
        state.apply(&mut entries, QueryMessage::Skipped(s(w)));
    }
    let order = sorted_status_rows(&state);
    let words: Vec<&str> = order.iter().map(|&i| state.statuses[i].word.as_str()).collect();
    assert_eq!(words, vec!["Zebra", "apple", "apples", "pear"]);
    assert!(lex_le_exec("ab", "abc"));
    assert!(!lex_le_exec("b", "abc"));
    assert!(lex_le_exec("", ""));
}

#[test]
fn unicode_white_space_is_trimmed() {
    assert_eq!(parse_words("\u{3000}Apple\u{a0},\u{2003}"), vec![s("apple")]);
    assert_eq!(english2anki::text::trim(" \t\u{85}x y\u{202f}"), "x y");
    assert!(english2anki::text::is_blank("\u{2028}\u{205f} "));
    assert!(!english2anki::text::is_blank("\u{200b}"));
}

#[test]
fn upsert_finds_the_same_word_beyond_ascii_case() {
    let mut entries = vec![entry("Éclair", "a"), entry("pear", "b")];
    upsert_entry(&mut entries, entry("éclair", "c"));
    assert_eq!(entries.len(), 2);
    assert_eq!(entries[0].word, "éclair");
    assert_eq!(entries[0].source, "c");
    assert_eq!(entries[1].word, "pear");
}

#[test]
fn every_interface_text_has_a_label_in_both_languages() {
    let keys = [
        UiText::Querying,
        UiText::InputEmpty,
        UiText::Start,
        UiText::ExportAnki,
        UiText::ResultPreviewSuffix,
        UiText::SafetyBody3,
    ];
    for key in keys {
        assert!(!tr(UiLanguage::ZhHans, key).is_empty());
        assert!(!tr(UiLanguage::En, key).is_empty());
    }
}

#[test]
fn a_query_needs_at_least_one_word() {
    assert_eq!(query_words(" , ,", UiLanguage::En), Err("Please enter at least one entry"));
    assert_eq!(query_words("", UiLanguage::ZhHans), Err("请输入至少一个词条"));
    assert_eq!(query_words("Apple, pear,apple", UiLanguage::En), Ok(vec![s("apple"), s("pear")]));
}

#[test]
fn starting_a_query_resets_the_progress() {
    let mut state = QueryState::new();
    let mut entries: Vec<WordEntry> = Vec::new();
    state.apply(&mut entries, QueryMessage::Started { total: 1 });
    state.apply(&mut entries, QueryMessage::Skipped(s("apple")));
    assert_eq!(state.progress_done, 1);
    state.start(3);
    assert!(state.is_querying);
    assert_eq!(state.progress_done, 0);
    assert_eq!(state.progress_total, 3);
    assert_eq!(state.statuses.len(), 1);
}

#[test]
fn a_written_word_list_reads_back_lower_cased_and_once() {
    let words = vec![s("Apple"), s("pear"), s("APPLE"), s("Éclair")];
    assert_eq!(
        parse_words(&words.join(",")),
        vec![s("apple"), s("pear"), s("éclair")]
    );
}

#[test]
fn the_present_time_is_written_in_rfc3339() {
    let t = current_timestamp().unwrap();
    assert!(t.ends_with("+00:00"));
    assert_eq!(t.as_bytes()[4], b'-');
    assert_eq!(t.as_bytes()[10], b'T');
    assert!(t.as_str() >= "2024");
    let q = queried_at_now();
    assert!(q.ends_with("+00:00"));
    let failed = WordEntry::failed(s("x"), s("src"), s("boom"));
    assert!(failed.queried_at.ends_with("+00:00"));
}

#[test]
fn timestamps_are_written_in_rfc3339_utc() {
    assert_eq!(timestamp_text(0, 0).as_deref(), Some("1970-01-01T00:00:00+00:00"));
    assert_eq!(
        timestamp_text(1_000_000_000, 500_000_000).as_deref(),
        Some("2001-09-09T01:46:40.500+00:00")
    );
    assert_eq!(timestamp_text(u64::MAX, 0), None);
}

#[test]
fn a_failed_lookup_becomes_a_failed_entry() {
    let found = entry_or_failure(s("apple"), "mock", Ok(entry("apple", "mock")));
    assert_eq!(found.source, "mock");
    assert_eq!(found.queried_at, "t0");
    assert_eq!(found.error.as_deref(), Some("boom"));
    let failed = entry_or_failure(s("apple"), "ECDICT", Err(s("网络错误")));
    assert_eq!(failed.word, "apple");
    assert_eq!(failed.source, "ECDICT");
    assert_eq!(failed.status, QueryStatus::Failed);
    assert_eq!(failed.error.as_deref(), Some("网络错误"));
    assert!(failed.definitions.is_empty() && failed.phonetic.is_none());
}
