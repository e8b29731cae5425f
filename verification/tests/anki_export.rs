use english2anki::anki::{
    chinese_prompt, chinese_to_english_back_fields, definitions_text, english_definitions_text,
    examples_text, export_anki, export_rows, fields_text, part_of_speech_text, render_row,
    csv_document, sanitize_common, sanitize_tsv, tsv_document, AnkiExportFormat, AnkiExportOptions,
    AnkiExportTemplate, AnkiField,
};
use english2anki::error::AppError;
use english2anki::models::{Definition, Example, QueryStatus, WordEntry};

fn s(x: &str) -> String {
    x.to_string()
}

fn def(pos: Option<&str>, source: Option<&str>, target: Option<&str>) -> Definition {
    Definition {
        part_of_speech: pos.map(s),
        source: source.map(s),
        target: target.map(s),
    }
}

fn entry(word: &str, definitions: Vec<Definition>, examples: Vec<Example>) -> WordEntry {
    WordEntry {
        word: s(word),
        phonetic: Some(s("/ˈæp.əl/")),
        definitions,
        examples,
        source: s("mock"),
        queried_at: s("2024-01-01T00:00:00+00:00"),
        status: QueryStatus::Success,
        error: None,
        ai_status: None,
        ai_reason: None,
        query_type: None,
    }
}

fn apple() -> WordEntry {
    entry(
        "apple",
        vec![
            def(Some("n."), Some("a round fruit"), Some("苹果")),
            def(Some("n."), Some("the tree"), Some("苹果树")),
        ],
        vec![Example { source: s("I eat an apple."), target: Some(s("我吃一个苹果。")) }],
    )
}

#[test]
fn labels_name_each_choice() {
    assert_eq!(AnkiExportTemplate::Detailed.label(), "词条详情模板");
    assert_eq!(AnkiExportTemplate::TypeAnswer.label(), "输入答案卡");
    assert_eq!(AnkiExportFormat::Tsv.label(), "TSV");
    assert_eq!(AnkiExportFormat::Csv.label(), "CSV");
    assert_eq!(AnkiField::ExampleTranslations.label(), "例句翻译");
    assert_eq!(AnkiExportTemplate::ALL.len(), 4);
    assert_eq!(AnkiField::ALL.len(), 8);
}

#[test]
fn default_options_put_the_word_on_the_front() {
    let o = AnkiExportOptions::default();
    assert!(o.include_phonetic && o.include_examples && o.include_source);
    assert!(!o.include_part_of_speech_hint);
    assert_eq!(o.front_fields, vec![AnkiField::Word]);
    assert_eq!(
        o.back_fields,
        vec![
            AnkiField::Phonetic,
            AnkiField::PartOfSpeech,
            AnkiField::ChineseDefinition,
            AnkiField::EnglishDefinition,
            AnkiField::Examples
        ]
    );
}

#[test]
fn definition_texts() {
    let e = apple();
    let o = AnkiExportOptions::default();
    assert_eq!(english_definitions_text(&e.definitions), "a round fruit; the tree");
    assert_eq!(part_of_speech_text(&e.definitions), "n.");
    assert_eq!(
        definitions_text(&e.definitions, &o),
        "n. 苹果 a round fruit<br>n. 苹果树 the tree"
    );
    let mut only_target = o.clone();
    only_target.include_english_definition = false;
    assert_eq!(definitions_text(&e.definitions, &only_target), "n. 苹果<br>n. 苹果树");
}

#[test]
fn part_of_speech_names_each_once() {
    let defs = vec![
        def(Some("n."), None, None),
        def(Some("v."), None, None),
        def(None, Some("x"), None),
        def(Some("n."), None, None),
    ];
    assert_eq!(part_of_speech_text(&defs), "n., v.");
}

#[test]
fn empty_definition_lines_are_left_out() {
    let defs = vec![def(None, Some("kept"), None), def(None, None, Some("hidden"))];
    let mut o = AnkiExportOptions::default();
    o.include_chinese_definition = false;
    assert_eq!(definitions_text(&defs, &o), "kept");
}

#[test]
fn examples_and_translations() {
    let examples = vec![
        Example { source: s("One."), target: Some(s("一。")) },
        Example { source: s("   "), target: None },
        Example { source: s("Two."), target: None },
    ];
    assert_eq!(examples_text(&examples, false), "Example: One.<br>Example: Two.");
    assert_eq!(examples_text(&examples, true), "一。");
}

#[test]
fn reverse_prompt_uses_target_definitions() {
    let e = apple();
    let mut o = AnkiExportOptions::default();
    assert_eq!(chinese_prompt(&e, &o), "苹果; 苹果树");
    o.include_part_of_speech_hint = true;
    assert_eq!(chinese_prompt(&e, &o), "n.. 苹果; n.. 苹果树");
    let english_only = entry("go", vec![def(None, Some("to move"), None)], vec![]);
    assert_eq!(chinese_prompt(&english_only, &o), "to move");
}

#[test]
fn reverse_back_fields_follow_the_hint() {
    let mut o = AnkiExportOptions::default();
    assert_eq!(
        chinese_to_english_back_fields(&o),
        vec![AnkiField::Word, AnkiField::Phonetic, AnkiField::EnglishDefinition, AnkiField::Examples]
    );
    o.include_part_of_speech_hint = true;
    assert_eq!(chinese_to_english_back_fields(&o).len(), 5);
    assert_eq!(chinese_to_english_back_fields(&o)[2], AnkiField::PartOfSpeech);
}

#[test]
fn fields_text_drops_blank_fields() {
    let e = apple();
    let mut o = AnkiExportOptions::default();
    o.include_phonetic = false;
    let fields = [AnkiField::Word, AnkiField::Phonetic, AnkiField::PartOfSpeech, AnkiField::Source];
    assert_eq!(fields_text(&e, &fields, &o), "apple<br>n.<br>mock");
}

#[test]
fn rows_of_each_template() {
    let e = apple();
    let o = AnkiExportOptions::default();
    let detailed = render_row(&e, AnkiExportTemplate::Detailed, &o);
    assert_eq!(
        detailed,
        vec![
            s("apple"),
            s("/ˈæp.əl/"),
            s("n. 苹果 a round fruit<br>n. 苹果树 the tree"),
            s("Example: I eat an apple."),
            s("我吃一个苹果。"),
            s("mock")
        ]
    );
    let basic = render_row(&e, AnkiExportTemplate::BasicFrontBack, &o);
    assert_eq!(basic.len(), 2);
    assert_eq!(basic[0], "apple");
    assert_eq!(
        basic[1],
        "/ˈæp.əl/<br>n.<br>苹果; 苹果树<br>a round fruit; the tree<br>Example: I eat an apple."
    );
    let reverse = render_row(&e, AnkiExportTemplate::ChineseToEnglish, &o);
    assert_eq!(reverse[0], "苹果; 苹果树");
    assert_eq!(
        reverse[1],
        "apple<br>/ˈæp.əl/<br>a round fruit; the tree<br>Example: I eat an apple."
    );
    let typed = render_row(&e, AnkiExportTemplate::TypeAnswer, &o);
    assert_eq!(typed.len(), 3);
    assert_eq!(typed[1], "apple");
    assert_eq!(
        typed[2],
        "/ˈæp.əl/<br>n.<br>a round fruit; the tree<br>Example: I eat an apple.<br>mock"
    );
}

#[test]
fn entries_without_content_are_not_exported() {
    let empty = entry("ghost", vec![], vec![]);
    let rows = export_rows(&[apple(), empty], AnkiExportTemplate::BasicFrontBack, &AnkiExportOptions::default());
    assert_eq!(rows.len(), 1);
    assert_eq!(rows[0][0], "apple");
}

#[test]
fn sanitizing_replaces_breaks_and_tabs() {
    assert_eq!(sanitize_common("a\r\nb\nc\rd\te"), "a<br>b<br>c<br>d\te");
    assert_eq!(sanitize_tsv("a\r\nb\nc\rd\te"), "a<br>b<br>c<br>d e");
    assert_eq!(sanitize_common("\r\r\n\n"), "<br><br><br>");
}

#[test]
fn tsv_export_is_exact() {
    let mut e = apple();
    e.examples[0].source = s("I eat\tan apple.\nYes.");
    let bytes = export_anki(
        &[e, entry("ghost", vec![], vec![])],
        AnkiExportTemplate::Detailed,
        AnkiExportFormat::Tsv,
        AnkiExportOptions::default(),
    )
    .unwrap();
    let text = String::from_utf8(bytes).unwrap();
    assert_eq!(
        text,
        "apple\t/ˈæp.əl/\tn. 苹果 a round fruit<br>n. 苹果树 the tree\tExample: I eat an apple.<br>Yes.\t我吃一个苹果。\tmock\n"
    );
}

#[test]
fn tsv_reads_back_as_the_fields() {
    let rows = vec![
        vec![s("a\tb"), s("c\nd")],
        vec![s(""), s("e")],
    ];
    let doc = tsv_document(&rows);
    let lines: Vec<&str> = doc.split('\n').collect();
    assert_eq!(lines, vec!["a b\tc<br>d", "\te", ""]);
    let fields: Vec<&str> = lines[0].split('\t').collect();
    assert_eq!(fields, vec!["a b", "c<br>d"]);
}

#[test]
fn csv_export_quotes_through_the_csv_writer() {
    let e = entry(
        "say \"hi\", please",
        vec![def(None, Some("line one\nline two"), None)],
        vec![],
    );
    let bytes = export_anki(
        &[e],
        AnkiExportTemplate::BasicFrontBack,
        AnkiExportFormat::Csv,
        AnkiExportOptions::default(),
    )
    .unwrap();
    assert_eq!(
        String::from_utf8(bytes).unwrap(),
        "\"say \"\"hi\"\", please\",/ˈæp.əl/<br>line one<br>line two\n"
    );
}

#[test]
fn ticking_and_unticking_fields() {
    let mut fields = vec![AnkiField::Word, AnkiField::Source, AnkiField::Word];
    english2anki::anki::set_field_enabled(&mut fields, AnkiField::Phonetic, true);
    assert_eq!(fields, vec![AnkiField::Word, AnkiField::Source, AnkiField::Word, AnkiField::Phonetic]);
    english2anki::anki::set_field_enabled(&mut fields, AnkiField::Word, false);
    assert_eq!(fields, vec![AnkiField::Source, AnkiField::Phonetic]);
}

#[test]
fn csv_reads_back_as_the_sanitized_fields() {
    let e = entry(
        "a, \"b\"\tc",
        vec![def(None, Some("x\r\ny"), None)],
        vec![],
    );
    let bytes = export_anki(
        &[e],
        AnkiExportTemplate::BasicFrontBack,
        AnkiExportFormat::Csv,
        AnkiExportOptions::default(),
    )
    .unwrap();
    let mut reader = csv::ReaderBuilder::new().has_headers(false).from_reader(bytes.as_slice());
    let rows: Vec<Vec<String>> = reader
        .records()
        .map(|r| r.unwrap().iter().map(|f| f.to_string()).collect())
        .collect();
    assert_eq!(rows, vec![vec![s("a, \"b\"\tc"), s("/ˈæp.əl/<br>x<br>y")]]);
}

#[test]
fn csv_rows_of_unequal_length_are_refused_by_the_writer() {
    let rows = vec![vec![s("a"), s("b")], vec![s("c")]];
    match csv_document(&rows) {
        Err(AppError::Csv(e)) => assert!(matches!(e.kind(), csv::ErrorKind::UnequalLengths { .. })),
        _ => panic!("expected a CSV error"),
    }
    let same = vec![vec![s("a"), s("b\nc")], vec![s(""), s("d,e")]];
    assert_eq!(
        String::from_utf8(csv_document(&same).unwrap()).unwrap(),
        "a,b<br>c\n,\"d,e\"\n"
    );
}
