use vstd::prelude::*;
use vstd::utf8::encode_utf8;

use crate::error::AppError;
use crate::models::{Definition, Example, WordEntry};
use crate::text::{
    concat, dedup, dedup_spec, is_blank, join, join_spec, lemma_dedup_distinct, lemma_join_absent, lemma_replace_keeps_absent,
    lemma_replace_removes, lemma_split_absent, lemma_split_append, lemma_split_join, non_empty_spec,
    replace, replace_spec, split_spec, starts_with_spec, trim_spec,
};

verus! {

/// The card layouts that an export can write.
#[derive(Debug, Clone, Copy, PartialEq, Eq, Structural)]
pub enum AnkiExportTemplate {
    Detailed,
    BasicFrontBack,
    ChineseToEnglish,
    TypeAnswer,
}

impl AnkiExportTemplate {
    pub const ALL: [AnkiExportTemplate; 4] = [
        AnkiExportTemplate::Detailed,
        AnkiExportTemplate::BasicFrontBack,
        AnkiExportTemplate::ChineseToEnglish,
        AnkiExportTemplate::TypeAnswer,
    ];

    /// The name of the layout.
    pub open spec fn label_spec(self) -> Seq<char> {
        match self {
            AnkiExportTemplate::Detailed => "词条详情模板"@,
            AnkiExportTemplate::BasicFrontBack => "Basic 正反面卡"@,
            AnkiExportTemplate::ChineseToEnglish => "中文到英文反向卡"@,
            AnkiExportTemplate::TypeAnswer => "输入答案卡"@,
        }
    }

    /// The name of the layout.
    pub fn label(self) -> (r: &'static str)
        ensures
            r@ == self.label_spec(),
    {
        match self {
            AnkiExportTemplate::Detailed => "词条详情模板",
            AnkiExportTemplate::BasicFrontBack => "Basic 正反面卡",
            AnkiExportTemplate::ChineseToEnglish => "中文到英文反向卡",
            AnkiExportTemplate::TypeAnswer => "输入答案卡",
        }
    }
}

/// The file formats that an export can write.
#[derive(Debug, Clone, Copy, PartialEq, Eq, Structural)]
pub enum AnkiExportFormat {
    Tsv,
    Csv,
}

impl AnkiExportFormat {
    /// The name of the format.
    pub open spec fn label_spec(self) -> Seq<char> {
        match self {
            AnkiExportFormat::Tsv => "TSV"@,
            AnkiExportFormat::Csv => "CSV"@,
        }
    }

    /// The name of the format.
    pub fn label(self) -> (r: &'static str)
        ensures
            r@ == self.label_spec(),
    {
        match self {
            AnkiExportFormat::Tsv => "TSV",
            AnkiExportFormat::Csv => "CSV",
        }
    }
}

/// The parts of an entry that a card side can show.
#[derive(Debug, Clone, Copy, PartialEq, Eq, Structural)]
pub enum AnkiField {
    Word,
    Phonetic,
    PartOfSpeech,
    EnglishDefinition,
    ChineseDefinition,
    Examples,
    ExampleTranslations,
    Source,
}

impl AnkiField {
    pub const ALL: [AnkiField; 8] = [
        AnkiField::Word,
        AnkiField::Phonetic,
        AnkiField::PartOfSpeech,
        AnkiField::EnglishDefinition,
        AnkiField::ChineseDefinition,
        AnkiField::Examples,
        AnkiField::ExampleTranslations,
        AnkiField::Source,
    ];

    /// The name of the field.
    pub open spec fn label_spec(self) -> Seq<char> {
        match self {
            AnkiField::Word => "单词"@,
            AnkiField::Phonetic => "音标"@,
            AnkiField::PartOfSpeech => "词性"@,
            AnkiField::EnglishDefinition => "英文释义"@,
            AnkiField::ChineseDefinition => "中文释义"@,
            AnkiField::Examples => "例句"@,
            AnkiField::ExampleTranslations => "例句翻译"@,
            AnkiField::Source => "来源"@,
        }
    }

    /// The name of the field.
    pub fn label(self) -> (r: &'static str)
        ensures
            r@ == self.label_spec(),
    {
        match self {
            AnkiField::Word => "单词",
            AnkiField::Phonetic => "音标",
            AnkiField::PartOfSpeech => "词性",
            AnkiField::EnglishDefinition => "英文释义",
            AnkiField::ChineseDefinition => "中文释义",
            AnkiField::Examples => "例句",
            AnkiField::ExampleTranslations => "例句翻译",
            AnkiField::Source => "来源",
        }
    }
}

/// What an export puts on the cards.
#[derive(Debug, Clone)]
pub struct AnkiExportOptions {
    pub include_phonetic: bool,
    pub include_examples: bool,
    pub include_english_definition: bool,
    pub include_chinese_definition: bool,
    pub include_source: bool,
    pub include_part_of_speech_hint: bool,
    pub front_fields: Vec<AnkiField>,
    pub back_fields: Vec<AnkiField>,
}

impl Default for AnkiExportOptions {
    /// Everything included but the part-of-speech hint; the word on the front,
    /// phonetic, part of speech, both definitions and the examples on the back.
    fn default() -> (r: Self)
        ensures
            r.include_phonetic,
            r.include_examples,
            r.include_english_definition,
            r.include_chinese_definition,
            r.include_source,
            !r.include_part_of_speech_hint,
            r.front_fields@ == seq![AnkiField::Word],
            r.back_fields@ == seq![
                AnkiField::Phonetic,
                AnkiField::PartOfSpeech,
                AnkiField::ChineseDefinition,
                AnkiField::EnglishDefinition,
                AnkiField::Examples,
            ],
    {
        AnkiExportOptions {
            include_phonetic: true,
            include_examples: true,
            include_english_definition: true,
            include_chinese_definition: true,
            include_source: true,
            include_part_of_speech_hint: false,
            front_fields: vec![AnkiField::Word],
            back_fields: vec![
                AnkiField::Phonetic,
                AnkiField::PartOfSpeech,
                AnkiField::ChineseDefinition,
                AnkiField::EnglishDefinition,
                AnkiField::Examples,
            ],
        }
    }
}


/// Ticks or unticks a field in a card side's field list: ticking adds it at
/// the end, unticking removes every occurrence of it.
pub fn set_field_enabled(fields: &mut Vec<AnkiField>, field: AnkiField, enabled: bool)
    ensures
        enabled ==> final(fields)@ == old(fields)@.push(field),
        !enabled ==> final(fields)@ == old(fields)@.filter(|f: AnkiField| f != field),
{
    if enabled {
        fields.push(field);
        return;
    }
    let ghost pred = |f: AnkiField| f != field;
    let ghost before = fields@;
    let n = fields.len();
    let mut kept: Vec<AnkiField> = Vec::new();
    let mut i: usize = 0;
    while i < n
        invariant
            n == fields@.len(),
            fields@ == before,
            pred == (|f: AnkiField| f != field),
            i <= n,
            kept@ == before.take(i as int).filter(pred),
        decreases n - i,
    {
        proof {
            before.take(i as int).lemma_filter_push(before[i as int], pred);
            assert(before.take(i + 1) == before.take(i as int).push(before[i as int]));
        }
        if fields[i] != field {
            kept.push(fields[i]);
        }
        i = i + 1;
    }
    assert(before.take(n as int) == before);
    *fields = kept;
}

/// The text of an optional string, empty when absent.
pub open spec fn opt_chars(o: Option<String>) -> Seq<char> {
    match o {
        Some(s) => s@,
        None => Seq::empty(),
    }
}

/// The text of an optional string as a list of zero or one part.
pub open spec fn opt_part(o: Option<String>) -> Seq<Seq<char>> {
    match o {
        Some(s) => seq![s@],
        None => Seq::empty(),
    }
}

/// The text of an optional string, or the empty string.
pub fn opt_string(o: &Option<String>) -> (r: String)
    ensures
        r@ == opt_chars(*o),
{
    match o {
        Some(s) => s.clone(),
        None => String::new(),
    }
}

/// The source-language definition of a sense, if it has one.
pub open spec fn english_of() -> spec_fn(Definition) -> Option<Seq<char>> {
    |d: Definition| d.source.deep_view()
}

/// The target-language definition of a sense, if it has one.
pub open spec fn chinese_of() -> spec_fn(Definition) -> Option<Seq<char>> {
    |d: Definition| d.target.deep_view()
}

/// The part of speech of a sense, if it has one.
pub open spec fn pos_of() -> spec_fn(Definition) -> Option<Seq<char>> {
    |d: Definition| d.part_of_speech.deep_view()
}

/// The source-language definitions that are present, joined with `"; "`.
pub open spec fn english_definitions_spec(defs: Seq<Definition>) -> Seq<char> {
    join_spec(defs.filter_map(english_of()), "; "@)
}

/// The target-language definitions that are present, joined with `"; "`.
pub open spec fn chinese_definitions_spec(defs: Seq<Definition>) -> Seq<char> {
    join_spec(defs.filter_map(chinese_of()), "; "@)
}

/// The parts of speech that are present, each once, joined with `", "`.
pub open spec fn part_of_speech_spec(defs: Seq<Definition>) -> Seq<char> {
    join_spec(dedup_spec(defs.filter_map(pos_of())), ", "@)
}

/// The present texts of the senses, in order: the parts of speech (0), the
/// target-language texts (1) or the source-language texts (2).
fn present_texts(defs: &[Definition], which: u8) -> (r: Vec<String>)
    requires
        which <= 2,
    ensures
        r.deep_view() == defs@.filter_map(
            if which == 0 {
                pos_of()
            } else if which == 1 {
                chinese_of()
            } else {
                english_of()
            },
        ),
{
    let ghost f = if which == 0 {
        pos_of()
    } else if which == 1 {
        chinese_of()
    } else {
        english_of()
    };
    let n = defs.len();
    let mut res: Vec<String> = Vec::new();
    let mut i: usize = 0;
    while i < n
        invariant
            n == defs@.len(),
            which <= 2,
            f == (if which == 0 {
                pos_of()
            } else if which == 1 {
                chinese_of()
            } else {
                english_of()
            }),
            i <= n,
            res.deep_view() == defs@.take(i as int).filter_map(f),
        decreases n - i,
    {
        proof {
            defs@.lemma_filter_map_take_succ(f, i as int);
        }
        let d = &defs[i];
        let o = if which == 0 {
            &d.part_of_speech
        } else if which == 1 {
            &d.target
        } else {
            &d.source
        };
        let ghost before = res.deep_view();
        match o {
            Some(t) => {
                res.push(t.clone());
                assert(res.deep_view() =~= before + seq![t@]);
            },
            None => {},
        }
        i = i + 1;
    }
    assert(defs@.take(n as int) == defs@);
    res
}

/// The source-language definitions that are present, joined with `"; "`.
pub fn english_definitions_text(definitions: &[Definition]) -> (r: String)
    ensures
        r@ == english_definitions_spec(definitions@),
{
    join(&present_texts(definitions, 2), "; ")
}

/// The target-language definitions that are present, joined with `"; "`.
pub fn chinese_definitions_text(definitions: &[Definition]) -> (r: String)
    ensures
        r@ == chinese_definitions_spec(definitions@),
{
    join(&present_texts(definitions, 1), "; ")
}

/// The distinct parts of speech, in order of first occurrence, joined with `", "`.
pub fn part_of_speech_text(definitions: &[Definition]) -> (r: String)
    ensures
        r@ == part_of_speech_spec(definitions@),
{
    join(&dedup(present_texts(definitions, 0)), ", ")
}

/// The texts that make up one sense's line: its part of speech, then its
/// target-language and source-language texts where the options include them.
pub open spec fn definition_parts(d: Definition, o: AnkiExportOptions) -> Seq<Seq<char>> {
    opt_part(d.part_of_speech) + (if o.include_chinese_definition {
        opt_part(d.target)
    } else {
        Seq::empty()
    }) + (if o.include_english_definition {
        opt_part(d.source)
    } else {
        Seq::empty()
    })
}

/// One sense's line, its parts joined with spaces, if it is not empty.
pub open spec fn definition_line(o: AnkiExportOptions) -> spec_fn(Definition) -> Option<Seq<char>> {
    |d: Definition| non_empty_spec(join_spec(definition_parts(d, o), " "@))
}

/// The non-empty sense lines joined with `"<br>"`.
pub open spec fn definitions_spec(defs: Seq<Definition>, o: AnkiExportOptions) -> Seq<char> {
    join_spec(defs.filter_map(definition_line(o)), "<br>"@)
}

fn push_opt(parts: &mut Vec<String>, o: &Option<String>)
    ensures
        final(parts).deep_view() == old(parts).deep_view() + opt_part(*o),
{
    let ghost before = parts.deep_view();
    match o {
        Some(t) => {
            parts.push(t.clone());
            assert(parts.deep_view() =~= before + opt_part(*o));
        },
        None => {
            assert(parts.deep_view() =~= before + opt_part(*o));
        },
    }
}

/// The lines of the senses (part of speech, target-language text, source-language
/// text, as the options include them, joined with spaces), empty lines left
/// out, joined with `"<br>"`.
pub fn definitions_text(definitions: &[Definition], options: &AnkiExportOptions) -> (r: String)
    ensures
        r@ == definitions_spec(definitions@, *options),
{
    let ghost f = definition_line(*options);
    let n = definitions.len();
    let mut lines: Vec<String> = Vec::new();
    let mut i: usize = 0;
    while i < n
        invariant
            n == definitions@.len(),
            f == definition_line(*options),
            i <= n,
            lines.deep_view() == definitions@.take(i as int).filter_map(f),
        decreases n - i,
    {
        proof {
            definitions@.lemma_filter_map_take_succ(f, i as int);
        }
        let d = &definitions[i];
        let mut parts: Vec<String> = Vec::new();
        assert(parts.deep_view() =~= Seq::<Seq<char>>::empty());
        push_opt(&mut parts, &d.part_of_speech);
        if options.include_chinese_definition {
            push_opt(&mut parts, &d.target);
        } else {
            assert(parts.deep_view() =~= parts.deep_view() + Seq::<Seq<char>>::empty());
        }
        if options.include_english_definition {
            push_opt(&mut parts, &d.source);
        } else {
            assert(parts.deep_view() =~= parts.deep_view() + Seq::<Seq<char>>::empty());
        }
        assert(parts.deep_view() =~= definition_parts(*d, *options));
        let line = join(&parts, " ");
        let ghost before = lines.deep_view();
        if !line.as_str().is_empty() {
            lines.push(line);
            assert(lines.deep_view() =~= before + seq![line@]);
        }
        i = i + 1;
    }
    assert(definitions@.take(n as int) == definitions@);
    join(&lines, "<br>")
}

/// One example's line: its translation when only translations are asked
/// for, else `"Example: "` and the sentence unless the sentence is blank.
pub open spec fn example_line(translations_only: bool) -> spec_fn(Example) -> Option<Seq<char>> {
    |e: Example|
        if translations_only {
            e.target.deep_view()
        } else if trim_spec(e.source@).len() == 0 {
            None
        } else {
            Some("Example: "@ + e.source@)
        }
}

/// The example lines joined with `"<br>"`.
pub open spec fn examples_spec(examples: Seq<Example>, translations_only: bool) -> Seq<char> {
    join_spec(examples.filter_map(example_line(translations_only)), "<br>"@)
}

/// The examples as `"Example: "` lines (blank sentences left out), or their
/// translations, joined with `"<br>"`.
pub fn examples_text(examples: &[Example], translations_only: bool) -> (r: String)
    ensures
        r@ == examples_spec(examples@, translations_only),
{
    let ghost f = example_line(translations_only);
    let n = examples.len();
    let mut lines: Vec<String> = Vec::new();
    let mut i: usize = 0;
    while i < n
        invariant
            n == examples@.len(),
            f == example_line(translations_only),
            i <= n,
            lines.deep_view() == examples@.take(i as int).filter_map(f),
        decreases n - i,
    {
        proof {
            examples@.lemma_filter_map_take_succ(f, i as int);
        }
        let e = &examples[i];
        let ghost before = lines.deep_view();
        if translations_only {
            match &e.target {
                Some(t) => {
                    lines.push(t.clone());
                    assert(lines.deep_view() =~= before + seq![t@]);
                },
                None => {},
            }
        } else if !is_blank(e.source.as_str()) {
            let line = concat("Example: ", e.source.as_str());
            lines.push(line);
            assert(lines.deep_view() =~= before + seq![line@]);
        }
        i = i + 1;
    }
    assert(examples@.take(n as int) == examples@);
    join(&lines, "<br>")
}

/// One sense's prompt line: its target-language text, after its part of
/// speech and `". "` when the hint is asked for and there is one.
pub open spec fn prompt_line(hint: bool) -> spec_fn(Definition) -> Option<Seq<char>> {
    |d: Definition|
        match d.target {
            None => None,
            Some(c) => Some(
                if hint {
                    match d.part_of_speech {
                        Some(p) => p@ + ". "@ + c@,
                        None => c@,
                    }
                } else {
                    c@
                },
            ),
        }
}

/// The reverse-card prompt: the prompt lines joined with `"; "`, or the
/// source-language definitions when there are none.
pub open spec fn chinese_prompt_spec(entry: WordEntry, o: AnkiExportOptions) -> Seq<char> {
    let t = join_spec(
        entry.definitions@.filter_map(prompt_line(o.include_part_of_speech_hint)),
        "; "@,
    );
    if t.len() == 0 {
        english_definitions_spec(entry.definitions@)
    } else {
        t
    }
}

/// The prompt of a reverse card: the target-language definitions (each after
/// its part of speech if the hint is on), or the source-language ones if there are none.
pub fn chinese_prompt(entry: &WordEntry, options: &AnkiExportOptions) -> (r: String)
    ensures
        r@ == chinese_prompt_spec(*entry, *options),
{
    let hint = options.include_part_of_speech_hint;
    let ghost f = prompt_line(hint);
    let defs = entry.definitions.as_slice();
    let n = defs.len();
    let mut lines: Vec<String> = Vec::new();
    let mut i: usize = 0;
    while i < n
        invariant
            n == defs@.len(),
            defs@ == entry.definitions@,
            f == prompt_line(hint),
            i <= n,
            lines.deep_view() == defs@.take(i as int).filter_map(f),
        decreases n - i,
    {
        proof {
            defs@.lemma_filter_map_take_succ(f, i as int);
        }
        let d = &defs[i];
        let ghost before = lines.deep_view();
        match &d.target {
            Some(c) => {
                let line = if hint {
                    match &d.part_of_speech {
                        Some(p) => concat(concat(p.as_str(), ". ").as_str(), c.as_str()),
                        None => c.clone(),
                    }
                } else {
                    c.clone()
                };
                lines.push(line);
                assert(lines.deep_view() =~= before + seq![line@]);
            },
            None => {},
        }
        i = i + 1;
    }
    assert(defs@.take(n as int) == defs@);
    let joined = join(&lines, "; ");
    if joined.as_str().is_empty() {
        english_definitions_text(defs)
    } else {
        joined
    }
}


/// The text that one field shows, before blank fields are dropped.
pub open spec fn field_text_spec(entry: WordEntry, field: AnkiField, o: AnkiExportOptions) -> Seq<
    char,
> {
    match field {
        AnkiField::Word => entry.word@,
        AnkiField::Phonetic => if o.include_phonetic {
            opt_chars(entry.phonetic)
        } else {
            Seq::empty()
        },
        AnkiField::PartOfSpeech => part_of_speech_spec(entry.definitions@),
        AnkiField::EnglishDefinition => if o.include_english_definition {
            english_definitions_spec(entry.definitions@)
        } else {
            Seq::empty()
        },
        AnkiField::ChineseDefinition => if o.include_chinese_definition {
            chinese_definitions_spec(entry.definitions@)
        } else {
            Seq::empty()
        },
        AnkiField::Examples => if o.include_examples {
            examples_spec(entry.examples@, false)
        } else {
            Seq::empty()
        },
        AnkiField::ExampleTranslations => if o.include_examples {
            examples_spec(entry.examples@, true)
        } else {
            Seq::empty()
        },
        AnkiField::Source => if o.include_source {
            entry.source@
        } else {
            Seq::empty()
        },
    }
}

/// A field's text, if it is not blank.
pub open spec fn field_piece(entry: WordEntry, o: AnkiExportOptions) -> spec_fn(AnkiField) -> Option<
    Seq<char>,
> {
    |f: AnkiField|
        if trim_spec(field_text_spec(entry, f, o)).len() > 0 {
            Some(field_text_spec(entry, f, o))
        } else {
            None
        }
}

/// The non-blank texts of the fields, in their order, joined with `"<br>"`.
pub open spec fn fields_spec(entry: WordEntry, fields: Seq<AnkiField>, o: AnkiExportOptions) -> Seq<
    char,
> {
    join_spec(fields.filter_map(field_piece(entry, o)), "<br>"@)
}

fn field_text(entry: &WordEntry, field: AnkiField, options: &AnkiExportOptions) -> (r: String)
    ensures
        r@ == field_text_spec(*entry, field, *options),
{
    match field {
        AnkiField::Word => entry.word.clone(),
        AnkiField::Phonetic => if options.include_phonetic {
            opt_string(&entry.phonetic)
        } else {
            String::new()
        },
        AnkiField::PartOfSpeech => part_of_speech_text(entry.definitions.as_slice()),
        AnkiField::EnglishDefinition => if options.include_english_definition {
            english_definitions_text(entry.definitions.as_slice())
        } else {
            String::new()
        },
        AnkiField::ChineseDefinition => if options.include_chinese_definition {
            chinese_definitions_text(entry.definitions.as_slice())
        } else {
            String::new()
        },
        AnkiField::Examples => if options.include_examples {
            examples_text(entry.examples.as_slice(), false)
        } else {
            String::new()
        },
        AnkiField::ExampleTranslations => if options.include_examples {
            examples_text(entry.examples.as_slice(), true)
        } else {
            String::new()
        },
        AnkiField::Source => if options.include_source {
            entry.source.clone()
        } else {
            String::new()
        },
    }
}

/// The texts of the given fields, blank ones left out, joined with `"<br>"`.
pub fn fields_text(entry: &WordEntry, fields: &[AnkiField], options: &AnkiExportOptions) -> (r:
    String)
    ensures
        r@ == fields_spec(*entry, fields@, *options),
{
    let ghost f = field_piece(*entry, *options);
    let n = fields.len();
    let mut texts: Vec<String> = Vec::new();
    let mut i: usize = 0;
    while i < n
        invariant
            n == fields@.len(),
            f == field_piece(*entry, *options),
            i <= n,
            texts.deep_view() == fields@.take(i as int).filter_map(f),
        decreases n - i,
    {
        proof {
            fields@.lemma_filter_map_take_succ(f, i as int);
        }
        let text = field_text(entry, fields[i], options);
        let ghost before = texts.deep_view();
        if !is_blank(text.as_str()) {
            texts.push(text);
            assert(texts.deep_view() =~= before + seq![text@]);
        }
        i = i + 1;
    }
    assert(fields@.take(n as int) == fields@);
    join(&texts, "<br>")
}

/// The back of a reverse card: word, phonetic, the part of speech if the
/// hint is on, the source-language definitions and the examples.
pub open spec fn reverse_back_fields_spec(o: AnkiExportOptions) -> Seq<AnkiField> {
    seq![AnkiField::Word, AnkiField::Phonetic] + (if o.include_part_of_speech_hint {
        seq![AnkiField::PartOfSpeech]
    } else {
        Seq::empty()
    }) + seq![AnkiField::EnglishDefinition, AnkiField::Examples]
}

/// The fields on the back of a reverse card.
pub fn chinese_to_english_back_fields(options: &AnkiExportOptions) -> (r: Vec<AnkiField>)
    ensures
        r@ == reverse_back_fields_spec(*options),
{
    let mut fields = vec![AnkiField::Word, AnkiField::Phonetic];
    if options.include_part_of_speech_hint {
        fields.push(AnkiField::PartOfSpeech);
    }
    fields.push(AnkiField::EnglishDefinition);
    fields.push(AnkiField::Examples);
    assert(fields@ =~= reverse_back_fields_spec(*options));
    fields
}

/// The extra side of a type-answer card.
pub open spec fn type_answer_extra_fields_spec() -> Seq<AnkiField> {
    seq![
        AnkiField::Phonetic,
        AnkiField::PartOfSpeech,
        AnkiField::EnglishDefinition,
        AnkiField::Examples,
        AnkiField::Source,
    ]
}

/// The columns of one entry's row under a template.
pub open spec fn render_row_spec(
    entry: WordEntry,
    template: AnkiExportTemplate,
    o: AnkiExportOptions,
) -> Seq<Seq<char>> {
    match template {
        AnkiExportTemplate::Detailed => seq![
            entry.word@,
            if o.include_phonetic {
                opt_chars(entry.phonetic)
            } else {
                Seq::empty()
            },
            definitions_spec(entry.definitions@, o),
            examples_spec(entry.examples@, false),
            examples_spec(entry.examples@, true),
            if o.include_source {
                entry.source@
            } else {
                Seq::empty()
            },
        ],
        AnkiExportTemplate::BasicFrontBack => seq![
            fields_spec(entry, o.front_fields@, o),
            fields_spec(entry, o.back_fields@, o),
        ],
        AnkiExportTemplate::ChineseToEnglish => seq![
            chinese_prompt_spec(entry, o),
            fields_spec(entry, reverse_back_fields_spec(o), o),
        ],
        AnkiExportTemplate::TypeAnswer => seq![
            chinese_prompt_spec(entry, o),
            entry.word@,
            fields_spec(entry, type_answer_extra_fields_spec(), o),
        ],
    }
}

/// The number of columns that a template's rows have.
pub open spec fn column_count(template: AnkiExportTemplate) -> nat {
    match template {
        AnkiExportTemplate::Detailed => 6,
        AnkiExportTemplate::BasicFrontBack => 2,
        AnkiExportTemplate::ChineseToEnglish => 2,
        AnkiExportTemplate::TypeAnswer => 3,
    }
}

/// The columns of one entry's row under a template.
pub fn render_row(entry: &WordEntry, template: AnkiExportTemplate, options: &AnkiExportOptions) -> (r:
    Vec<String>)
    ensures
        r.deep_view() == render_row_spec(*entry, template, *options),
        r@.len() == column_count(template),
{
    let row = match template {
        AnkiExportTemplate::Detailed => vec![
            entry.word.clone(),
            if options.include_phonetic {
                opt_string(&entry.phonetic)
            } else {
                String::new()
            },
            definitions_text(entry.definitions.as_slice(), options),
            examples_text(entry.examples.as_slice(), false),
            examples_text(entry.examples.as_slice(), true),
            if options.include_source {
                entry.source.clone()
            } else {
                String::new()
            },
        ],
        AnkiExportTemplate::BasicFrontBack => vec![
            fields_text(entry, options.front_fields.as_slice(), options),
            fields_text(entry, options.back_fields.as_slice(), options),
        ],
        AnkiExportTemplate::ChineseToEnglish => {
            let back = chinese_to_english_back_fields(options);
            vec![chinese_prompt(entry, options), fields_text(entry, back.as_slice(), options)]
        },
        AnkiExportTemplate::TypeAnswer => {
            let extra = vec![
                AnkiField::Phonetic,
                AnkiField::PartOfSpeech,
                AnkiField::EnglishDefinition,
                AnkiField::Examples,
                AnkiField::Source,
            ];
            assert(extra@ =~= type_answer_extra_fields_spec());
            vec![
                chinese_prompt(entry, options),
                entry.word.clone(),
                fields_text(entry, extra.as_slice(), options),
            ]
        },
    };
    assert(row.deep_view() =~= render_row_spec(*entry, template, *options));
    row
}

/// Whether an entry has anything to put on a card.
pub open spec fn exportable(e: WordEntry) -> bool {
    e.definitions@.len() > 0 || e.examples@.len() > 0
}

/// The row of an entry that has something to put on a card.
pub open spec fn row_of(t: AnkiExportTemplate, o: AnkiExportOptions) -> spec_fn(WordEntry) -> Option<
    Seq<Seq<char>>,
> {
    |e: WordEntry|
        if exportable(e) {
            Some(render_row_spec(e, t, o))
        } else {
            None
        }
}

/// The rows of an export: one per entry with definitions or examples, in order.
pub open spec fn export_rows_spec(
    entries: Seq<WordEntry>,
    t: AnkiExportTemplate,
    o: AnkiExportOptions,
) -> Seq<Seq<Seq<char>>> {
    entries.filter_map(row_of(t, o))
}

/// The rows of an export, one per entry that has definitions or examples.
pub fn export_rows(entries: &[WordEntry], template: AnkiExportTemplate, options: &AnkiExportOptions) -> (r:
    Vec<Vec<String>>)
    ensures
        r.deep_view() == export_rows_spec(entries@, template, *options),
        forall|i: int| 0 <= i < r@.len() ==> #[trigger] r@[i]@.len() == column_count(template),
{
    let ghost f = row_of(template, *options);
    let n = entries.len();
    let mut rows: Vec<Vec<String>> = Vec::new();
    let mut i: usize = 0;
    while i < n
        invariant
            n == entries@.len(),
            f == row_of(template, *options),
            i <= n,
            rows.deep_view() == entries@.take(i as int).filter_map(f),
            forall|j: int| 0 <= j < rows@.len() ==> #[trigger] rows@[j]@.len() == column_count(template),
        decreases n - i,
    {
        proof {
            entries@.lemma_filter_map_take_succ(f, i as int);
        }
        let e = &entries[i];
        let ghost before = rows.deep_view();
        if e.definitions.len() > 0 || e.examples.len() > 0 {
            let row = render_row(e, template, options);
            rows.push(row);
            assert(rows.deep_view() =~= before + seq![row.deep_view()]);
        }
        i = i + 1;
    }
    assert(entries@.take(n as int) == entries@);
    rows
}

/// A field with its line breaks (`"\r\n"`, then `"\n"`, then `"\r"`) made `"<br>"`.
pub open spec fn sanitize_common_spec(s: Seq<char>) -> Seq<char> {
    replace_spec(
        replace_spec(replace_spec(s, "\r\n"@, "<br>"@), "\n"@, "<br>"@),
        "\r"@,
        "<br>"@,
    )
}

/// A TSV field: line breaks made `"<br>"` and tabs made spaces.
pub open spec fn sanitize_tsv_spec(s: Seq<char>) -> Seq<char> {
    replace_spec(sanitize_common_spec(s), "\t"@, " "@)
}

/// A field with its line breaks made `"<br>"`.
pub fn sanitize_common(input: &str) -> (r: String)
    ensures
        r@ == sanitize_common_spec(input@),
{
    proof {
        reveal_strlit("\r\n");
        reveal_strlit("\n");
        reveal_strlit("\r");
    }
    let a = replace(input, "\r\n", "<br>");
    let b = replace(a.as_str(), "\n", "<br>");
    replace(b.as_str(), "\r", "<br>")
}

/// A TSV field: line breaks made `"<br>"` and tabs made spaces.
pub fn sanitize_tsv(input: &str) -> (r: String)
    ensures
        r@ == sanitize_tsv_spec(input@),
{
    proof {
        reveal_strlit("\t");
    }
    let a = sanitize_common(input);
    replace(a.as_str(), "\t", " ")
}

/// The fields of a row made TSV-safe.
pub open spec fn tsv_fields() -> spec_fn(Seq<char>) -> Seq<char> {
    |f: Seq<char>| sanitize_tsv_spec(f)
}

/// The fields of a row made CSV-safe.
pub open spec fn csv_fields() -> spec_fn(Seq<char>) -> Seq<char> {
    |f: Seq<char>| sanitize_common_spec(f)
}

/// The text of one TSV line: the sanitized fields joined with tabs.
pub open spec fn tsv_body(row: Seq<Seq<char>>) -> Seq<char> {
    join_spec(row.map_values(tsv_fields()), "\t"@)
}

/// One TSV line: the sanitized fields joined with tabs, then a newline.
pub open spec fn tsv_line_spec(row: Seq<Seq<char>>) -> Seq<char> {
    tsv_body(row) + "\n"@
}

/// A TSV document: the lines of the rows, in order.
pub open spec fn tsv_document_spec(rows: Seq<Seq<Seq<char>>>) -> Seq<char>
    decreases rows.len(),
{
    if rows.len() == 0 {
        Seq::empty()
    } else {
        tsv_document_spec(rows.drop_last()) + tsv_line_spec(rows.last())
    }
}

/// Whether the `csv` crate's default writer puts a field in quotes: it does
/// when the field holds a comma, a double quote, a carriage return or a newline.
pub open spec fn csv_needs_quotes(f: Seq<char>) -> bool {
    f.contains(',') || f.contains('"') || f.contains('\r') || f.contains('\n')
}

/// A field as the default CSV writer writes it: in double quotes, with each
/// double quote doubled, when it needs quotes; else as it is.
pub open spec fn csv_quote_field(f: Seq<char>) -> Seq<char> {
    if csv_needs_quotes(f) {
        seq!['"'] + replace_spec(f, seq!['"'], seq!['"', '"']) + seq!['"']
    } else {
        f
    }
}

/// Each field as the default CSV writer writes it.
pub open spec fn csv_quoted() -> spec_fn(Seq<char>) -> Seq<char> {
    |f: Seq<char>| csv_quote_field(f)
}

/// A CSV record without its terminator: the written fields joined with
/// commas; a record that would be empty (no field, or one empty field) is
/// written as `""`.
pub open spec fn csv_record_body(fields: Seq<Seq<char>>) -> Seq<char> {
    if fields.len() == 0 || (fields.len() == 1 && fields[0].len() == 0) {
        seq!['"', '"']
    } else {
        join_spec(fields.map_values(csv_quoted()), seq![','])
    }
}

/// A CSV record as the default writer writes it: its body, then a newline.
pub open spec fn csv_record_text(fields: Seq<Seq<char>>) -> Seq<char> {
    csv_record_body(fields) + seq!['\n']
}

/// The bytes that the `csv` crate's default writer writes for one record
/// with these fields: the record's text in UTF-8.
pub open spec fn csv_record_bytes(fields: Seq<Seq<char>>) -> Seq<u8> {
    encode_utf8(csv_record_text(fields))
}

/// The text of a CSV document: the records of the sanitized rows, in order.
pub open spec fn csv_text_spec(rows: Seq<Seq<Seq<char>>>) -> Seq<char>
    decreases rows.len(),
{
    if rows.len() == 0 {
        Seq::empty()
    } else {
        csv_text_spec(rows.drop_last()) + csv_record_text(rows.last().map_values(csv_fields()))
    }
}

/// A CSV document: its text in UTF-8.
pub open spec fn csv_document_spec(rows: Seq<Seq<Seq<char>>>) -> Seq<u8> {
    encode_utf8(csv_text_spec(rows))
}

/// UTF-8 encodes a text piece by piece.
pub proof fn lemma_encode_utf8_concat(a: Seq<char>, b: Seq<char>)
    ensures
        encode_utf8(a + b) == encode_utf8(a) + encode_utf8(b),
    decreases a.len(),
{
    if a.len() == 0 {
        assert(a + b =~= b);
    } else {
        lemma_encode_utf8_concat(a.drop_first(), b);
        assert((a + b).drop_first() =~= a.drop_first() + b);
        assert((a + b)[0] == a[0]);
    }
}

/// The bytes of an export in the chosen format.
pub open spec fn export_bytes_spec(
    entries: Seq<WordEntry>,
    t: AnkiExportTemplate,
    f: AnkiExportFormat,
    o: AnkiExportOptions,
) -> Seq<u8> {
    match f {
        AnkiExportFormat::Tsv => encode_utf8(tsv_document_spec(export_rows_spec(entries, t, o))),
        AnkiExportFormat::Csv => csv_document_spec(export_rows_spec(entries, t, o)),
    }
}

/// One TSV line of a row.
pub fn tsv_line(row: &Vec<String>) -> (r: String)
    ensures
        r@ == tsv_line_spec(row.deep_view()),
{
    let n = row.len();
    let mut fields: Vec<String> = Vec::new();
    let mut i: usize = 0;
    while i < n
        invariant
            n == row@.len(),
            i <= n,
            fields.deep_view() == row.deep_view().take(i as int).map_values(tsv_fields()),
        decreases n - i,
    {
        let ghost before = fields.deep_view();
        let x = sanitize_tsv(row[i].as_str());
        fields.push(x);
        assert(fields.deep_view() =~= before.push(x@));
        assert(row.deep_view()[i as int] == row@[i as int]@);
        assert(fields.deep_view() =~= row.deep_view().take(i + 1).map_values(tsv_fields()));
        i = i + 1;
    }
    assert(row.deep_view().take(n as int) == row.deep_view());
    let mut line = join(&fields, "\t");
    line.append("\n");
    line
}

/// A TSV document with one line per row.
pub fn tsv_document(rows: &Vec<Vec<String>>) -> (r: String)
    ensures
        r@ == tsv_document_spec(rows.deep_view()),
{
    let ghost v = rows.deep_view();
    let n = rows.len();
    let mut doc = String::new();
    let mut i: usize = 0;
    while i < n
        invariant
            n == rows@.len(),
            v == rows.deep_view(),
            i <= n,
            doc@ == tsv_document_spec(v.take(i as int)),
        decreases n - i,
    {
        assert(v.take(i + 1).drop_last() == v.take(i as int));
        assert(v.take(i + 1).last() == rows@[i as int].deep_view());
        let line = tsv_line(&rows[i]);
        doc.append(line.as_str());
        i = i + 1;
    }
    assert(v.take(n as int) == v);
    doc
}

/// The text of records as the default CSV writer writes them, one after another.
pub open spec fn csv_records_text(records: Seq<Seq<Seq<char>>>) -> Seq<char>
    decreases records.len(),
{
    if records.len() == 0 {
        Seq::empty()
    } else {
        csv_records_text(records.drop_last()) + csv_record_text(records.last())
    }
}

/// Each row with its fields sanitized for CSV.
pub open spec fn csv_sanitized(rows: Seq<Seq<Seq<char>>>) -> Seq<Seq<Seq<char>>> {
    rows.map_values(|row: Seq<Seq<char>>| row.map_values(csv_fields()))
}

/// Whether every row has as many fields as the first.
pub open spec fn same_lengths(rows: Seq<Seq<Seq<char>>>) -> bool {
    forall|i: int| 0 <= i < rows.len() ==> (#[trigger] rows[i]).len() == rows[0].len()
}

/// The `csv` crate's default writer over memory. Verus cannot take
/// `csv::Writer`'s declaration (its parameter is bound by `std::io::Write`),
/// so the writer is held in a field that Verus does not see.
#[verifier::external_body]
pub struct CsvRecordWriter {
    writer: csv::Writer<Vec<u8>>,
}

/// The records that a CSV writer has taken, in order.
pub uninterp spec fn csv_records(w: CsvRecordWriter) -> Seq<Seq<Seq<char>>>;

/// Calls `csv::Writer::from_writer` on an empty `Vec`: the default writer
/// (comma, `"\n"` terminator, quotes only where needed, doubled quotes, all
/// records of one length), with no record taken yet.
#[verifier::external_body]
fn csv_writer() -> (w: CsvRecordWriter)
    ensures
        csv_records(w) == Seq::<Seq<Seq<char>>>::empty(),
{
    CsvRecordWriter { writer: csv::Writer::from_writer(Vec::new()) }
}

/// Calls `csv::Writer::write_record`. Claimed: it fails exactly when an
/// earlier record was taken and this one has another number of fields than
/// the first (the writer's field-count check; writing into memory cannot fail
/// otherwise), and when it succeeds the writer has taken the record.
#[verifier::external_body]
fn csv_write_record(w: &mut CsvRecordWriter, fields: &Vec<String>) -> (r: Result<(), csv::Error>)
    ensures
        r is Err <==> (csv_records(*old(w)).len() > 0 && fields@.len() != csv_records(*old(w))[0].len()),
        r is Ok ==> csv_records(*final(w)) == csv_records(*old(w)).push(fields.deep_view()),
{
    w.writer.write_record(fields.iter())
}

/// Calls `csv::Writer::into_inner`, which flushes the writer and hands back
/// its `Vec`. Claimed: flushing into memory cannot fail, and the bytes are the
/// UTF-8 text of the records taken, each as `csv_record_text` gives it (the
/// writer works on the UTF-8 bytes, and the bytes that it looks at are all ASCII).
#[verifier::external_body]
fn csv_into_bytes(w: CsvRecordWriter) -> (r: Result<Vec<u8>, csv::Error>)
    ensures
        r is Ok,
        r matches Ok(bytes) ==> bytes@ == encode_utf8(csv_records_text(csv_records(w))),
{
    match w.writer.into_inner() {
        Ok(bytes) => Ok(bytes),
        Err(e) => Err(csv::Error::from(e.into_error())),
    }
}

proof fn lemma_csv_text_sanitized(rows: Seq<Seq<Seq<char>>>)
    ensures
        csv_records_text(csv_sanitized(rows)) == csv_text_spec(rows),
    decreases rows.len(),
{
    if rows.len() > 0 {
        lemma_csv_text_sanitized(rows.drop_last());
        assert(csv_sanitized(rows).drop_last() =~= csv_sanitized(rows.drop_last()));
    }
}

/// A CSV document with one record per row, fields sanitized, written by one
/// CSV writer; it fails with the writer's error when a row has another number
/// of fields than the first.
pub fn csv_document(rows: &Vec<Vec<String>>) -> (r: Result<Vec<u8>, AppError>)
    ensures
        r is Ok <==> same_lengths(rows.deep_view()),
        r matches Ok(bytes) ==> bytes@ == csv_document_spec(rows.deep_view()),
        r matches Err(e) ==> e is Csv,
{
    let ghost v = rows.deep_view();
    let n = rows.len();
    let mut writer = csv_writer();
    let mut i: usize = 0;
    assert(csv_sanitized(v.take(0)) =~= Seq::<Seq<Seq<char>>>::empty());
    while i < n
        invariant
            n == rows@.len(),
            v == rows.deep_view(),
            i <= n,
            csv_records(writer) == csv_sanitized(v.take(i as int)),
            forall|k: int| 0 <= k < i ==> (#[trigger] v[k]).len() == v[0].len(),
        decreases n - i,
    {
        let row = &rows[i];
        let m = row.len();
        let mut fields: Vec<String> = Vec::new();
        let mut j: usize = 0;
        while j < m
            invariant
                m == row@.len(),
                j <= m,
                fields.deep_view() == row.deep_view().take(j as int).map_values(csv_fields()),
            decreases m - j,
        {
            let ghost before = fields.deep_view();
            let x = sanitize_common(row[j].as_str());
            fields.push(x);
            assert(fields.deep_view() =~= before.push(x@));
            assert(row.deep_view()[j as int] == row@[j as int]@);
            assert(fields.deep_view() =~= row.deep_view().take(j + 1).map_values(csv_fields()));
            j = j + 1;
        }
        assert(row.deep_view().take(m as int) == row.deep_view());
        assert(v[i as int] == row.deep_view());
        let ghost old_records = csv_records(writer);
        match csv_write_record(&mut writer, &fields) {
            Ok(()) => {
                assert(csv_sanitized(v.take(i + 1)) =~= old_records.push(fields.deep_view()));
                assert(i > 0 ==> old_records[0] == v[0].map_values(csv_fields()));
            },
            Err(e) => {
                assert(old_records[0] == v[0].map_values(csv_fields()));
                assert(!same_lengths(v)) by {
                    assert(v[i as int].len() != v[0].len());
                }
                return Err(AppError::Csv(e));
            },
        }
        i = i + 1;
    }
    assert(v.take(n as int) == v);
    assert(same_lengths(v));
    proof {
        lemma_csv_text_sanitized(v);
    }
    match csv_into_bytes(writer) {
        Ok(bytes) => Ok(bytes),
        Err(e) => Err(AppError::Csv(e)),
    }
}

/// The file contents of an Anki export: one row per entry that has
/// definitions or examples, laid out by the template and written as UTF-8 TSV
/// or as CSV. It always succeeds.
pub fn export_anki(
    entries: &[WordEntry],
    template: AnkiExportTemplate,
    format: AnkiExportFormat,
    options: AnkiExportOptions,
) -> (r: Result<Vec<u8>, AppError>)
    ensures
        r matches Ok(bytes) && bytes@ == export_bytes_spec(entries@, template, format, options),
{
    let rows = export_rows(entries, template, &options);
    match format {
        AnkiExportFormat::Tsv => {
            let doc = tsv_document(&rows);
            Ok(doc.as_str().as_bytes_vec())
        },
        AnkiExportFormat::Csv => csv_document(&rows),
    }
}


/// A field made CSV-safe holds no line break: every `"\r\n"`, `"\n"` and
/// `"\r"` has become `"<br>"`.
pub proof fn lemma_sanitize_common_clean(s: Seq<char>)
    ensures
        !sanitize_common_spec(s).contains('\n'),
        !sanitize_common_spec(s).contains('\r'),
{
    reveal_strlit("\r\n");
    reveal_strlit("\n");
    reveal_strlit("\r");
    reveal_strlit("<br>");
    let br = "<br>"@;
    assert(!br.contains('\n') && !br.contains('\r')) by {
        assert(br =~= seq!['<', 'b', 'r', '>']);
    }
    let a = replace_spec(s, "\r\n"@, br);
    let b = replace_spec(a, "\n"@, br);
    assert("\n"@ =~= seq!['\n']);
    assert("\r"@ =~= seq!['\r']);
    lemma_replace_removes(a, '\n', br);
    lemma_replace_removes(b, '\r', br);
    lemma_replace_keeps_absent(b, "\r"@, br, '\n');
}

/// A field made TSV-safe holds no tab and no line break.
pub proof fn lemma_sanitize_tsv_clean(s: Seq<char>)
    ensures
        !sanitize_tsv_spec(s).contains('\t'),
        !sanitize_tsv_spec(s).contains('\n'),
        !sanitize_tsv_spec(s).contains('\r'),
{
    reveal_strlit("\t");
    reveal_strlit(" ");
    lemma_sanitize_common_clean(s);
    let c = sanitize_common_spec(s);
    let sp = " "@;
    assert(sp =~= seq![' ']);
    assert("\t"@ =~= seq!['\t']);
    assert(!sp.contains('\t') && !sp.contains('\n') && !sp.contains('\r')) by {
        assert(sp[0] == ' ');
    }
    lemma_replace_removes(c, '\t', sp);
    lemma_replace_keeps_absent(c, "\t"@, sp, '\n');
    lemma_replace_keeps_absent(c, "\t"@, sp, '\r');
}

proof fn lemma_tsv_body_clean(row: Seq<Seq<char>>)
    ensures
        !tsv_body(row).contains('\n'),
        forall|i: int|
            0 <= i < row.len() ==> !(#[trigger] row.map_values(tsv_fields())[i]).contains('\t'),
{
    reveal_strlit("\t");
    let f = row.map_values(tsv_fields());
    assert forall|i: int| 0 <= i < f.len() implies !(#[trigger] f[i]).contains('\n') && !f[i].contains(
        '\t',
    ) by {
        lemma_sanitize_tsv_clean(row[i]);
    }
    assert(!"\t"@.contains('\n')) by {
        assert("\t"@ =~= seq!['\t']);
    }
    lemma_join_absent(f, "\t"@, '\n');
}

/// Law: a TSV export reads back. Cut at newlines, the document gives the line
/// of each row in order (and the empty rest after the last newline); each line
/// cut at tabs gives that row's fields, sanitized.
pub proof fn lemma_tsv_reads_back(rows: Seq<Seq<Seq<char>>>)
    requires
        forall|i: int| 0 <= i < rows.len() ==> (#[trigger] rows[i]).len() > 0,
    ensures
        split_spec(tsv_document_spec(rows), '\n') == rows.map_values(|r: Seq<Seq<char>>| tsv_body(r)).push(
            Seq::empty(),
        ),
        forall|i: int|
            0 <= i < rows.len() ==> split_spec(tsv_body(#[trigger] rows[i]), '\t') == rows[i].map_values(
                tsv_fields(),
            ),
    decreases rows.len(),
{
    reveal_strlit("\n");
    reveal_strlit("\t");
    assert("\n"@ =~= seq!['\n']);
    assert("\t"@ =~= seq!['\t']);
    assert forall|i: int|
        0 <= i < rows.len() implies split_spec(tsv_body(#[trigger] rows[i]), '\t') == rows[i].map_values(
        tsv_fields(),
    ) by {
        lemma_tsv_body_clean(rows[i]);
        lemma_split_join(rows[i].map_values(tsv_fields()), '\t');
    }
    let bodies = rows.map_values(|r: Seq<Seq<char>>| tsv_body(r));
    if rows.len() == 0 {
        assert(tsv_document_spec(rows) =~= Seq::<char>::empty());
        assert(bodies.push(Seq::empty()) =~= seq![Seq::<char>::empty()]);
    } else {
        let init = rows.drop_last();
        assert forall|i: int| 0 <= i < init.len() implies (#[trigger] init[i]).len() > 0 by {
            assert(init[i] == rows[i]);
        }
        lemma_tsv_reads_back(init);
        let d = tsv_document_spec(init);
        let body = tsv_body(rows.last());
        lemma_tsv_body_clean(rows.last());
        let ib = init.map_values(|r: Seq<Seq<char>>| tsv_body(r));
        assert(split_spec(d + body, '\n') == ib.push(body)) by {
            if init.len() == 0 {
                assert(d =~= Seq::<char>::empty());
                assert(d + body =~= body);
                lemma_split_absent(body, '\n');
                assert(ib.push(body) =~= seq![body]);
            } else {
                let a = tsv_document_spec(init.drop_last()) + tsv_body(init.last());
                assert(d =~= a + seq!['\n']);
                lemma_split_append(a, Seq::empty(), '\n');
                assert(a + seq!['\n'] + Seq::<char>::empty() =~= d);
                lemma_split_append(a, body, '\n');
                assert(a + seq!['\n'] + body =~= d + body);
                let e = Seq::<char>::empty();
                assert(split_spec(d, '\n') == split_spec(a, '\n').push(e));
                assert(split_spec(a, '\n').push(e).drop_last() =~= split_spec(a, '\n'));
                assert(ib.push(e).drop_last() =~= ib);
                assert(split_spec(a, '\n') =~= ib);
            }
        }
        assert(tsv_document_spec(rows) =~= (d + body) + seq!['\n'] + Seq::<char>::empty());
        lemma_split_append(d + body, Seq::empty(), '\n');
        assert(bodies =~= ib.push(body));
    }
}


/// Law: the parts-of-speech field names each part of speech once.
pub proof fn lemma_part_of_speech_distinct(defs: Seq<Definition>)
    ensures
        dedup_spec(defs.filter_map(pos_of())).no_duplicates(),
        forall|p: Seq<char>|
            dedup_spec(defs.filter_map(pos_of())).contains(p) <==> defs.filter_map(pos_of()).contains(p),
{
    lemma_dedup_distinct(defs.filter_map(pos_of()));
}


/// Law: a type-answer card asks with the prompt of the reverse card and takes
/// the word as its answer. The prompt comes from the definitions alone: two
/// entries with the same definitions get the same prompt whatever their words,
/// and an entry without definitions gets an empty prompt.
pub proof fn lemma_type_answer_prompt(a: WordEntry, b: WordEntry, o: AnkiExportOptions)
    ensures
        render_row_spec(a, AnkiExportTemplate::TypeAnswer, o)[0] == render_row_spec(
            a,
            AnkiExportTemplate::ChineseToEnglish,
            o,
        )[0],
        render_row_spec(a, AnkiExportTemplate::TypeAnswer, o)[1] == a.word@,
        a.definitions@ == b.definitions@ ==> render_row_spec(a, AnkiExportTemplate::TypeAnswer, o)[0]
            == render_row_spec(b, AnkiExportTemplate::TypeAnswer, o)[0],
        a.definitions@.len() == 0 ==> render_row_spec(a, AnkiExportTemplate::TypeAnswer, o)[0].len()
            == 0,
{
    if a.definitions@.len() == 0 {
        assert(a.definitions@.filter_map(prompt_line(o.include_part_of_speech_hint)) =~= Seq::<
            Seq<char>,
        >::empty());
        assert(a.definitions@.filter_map(english_of()) =~= Seq::<Seq<char>>::empty());
    }
}

/// Every row of an export has the template's number of columns.
pub proof fn lemma_export_rows_columns(entries: Seq<WordEntry>, t: AnkiExportTemplate, o: AnkiExportOptions)
    ensures
        forall|i: int|
            0 <= i < export_rows_spec(entries, t, o).len() ==> (#[trigger] export_rows_spec(
                entries,
                t,
                o,
            )[i]).len() == column_count(t),
    decreases entries.len(),
{
    if entries.len() > 0 {
        lemma_export_rows_columns(entries.drop_last(), t, o);
        let rows = export_rows_spec(entries, t, o);
        let init = export_rows_spec(entries.drop_last(), t, o);
        assert forall|i: int| 0 <= i < rows.len() implies (#[trigger] rows[i]).len() == column_count(t) by {
            if i < init.len() {
                assert(rows[i] == init[i]);
            } else {
                assert(rows[i] == render_row_spec(entries.last(), t, o));
            }
        }
    }
}

/// Law: a TSV export reads back. Cut at newlines, the text of a TSV export
/// gives one line per entry that has definitions or examples, in order (and the
/// empty rest after the last newline); each line cut at tabs gives the
/// template's columns for that entry, sanitized.
pub proof fn lemma_tsv_export_reads_back(
    entries: Seq<WordEntry>,
    t: AnkiExportTemplate,
    o: AnkiExportOptions,
)
    ensures
        split_spec(tsv_document_spec(export_rows_spec(entries, t, o)), '\n') == export_rows_spec(
            entries,
            t,
            o,
        ).map_values(|r: Seq<Seq<char>>| tsv_body(r)).push(Seq::empty()),
        forall|i: int|
            0 <= i < export_rows_spec(entries, t, o).len() ==> split_spec(
                tsv_body(#[trigger] export_rows_spec(entries, t, o)[i]),
                '\t',
            ) == export_rows_spec(entries, t, o)[i].map_values(tsv_fields()),
{
    let rows = export_rows_spec(entries, t, o);
    lemma_export_rows_columns(entries, t, o);
    assert forall|i: int| 0 <= i < rows.len() implies (#[trigger] rows[i]).len() > 0 by {
        assert(rows[i].len() == column_count(t));
    }
    lemma_tsv_reads_back(rows);
}


/// Reading the rest of a quoted CSV field, after its opening quote: a doubled
/// quote stands for one quote and a single quote closes the field. Gives the
/// field and what follows the closing quote.
pub open spec fn csv_read_quoted(s: Seq<char>) -> (Seq<char>, Seq<char>)
    decreases s.len(),
{
    if s.len() == 0 {
        (Seq::empty(), Seq::empty())
    } else if s[0] == '"' {
        if s.len() > 1 && s[1] == '"' {
            let r = csv_read_quoted(s.skip(2));
            (seq!['"'] + r.0, r.1)
        } else {
            (Seq::empty(), s.drop_first())
        }
    } else {
        let r = csv_read_quoted(s.drop_first());
        (seq![s[0]] + r.0, r.1)
    }
}

/// Reading an unquoted CSV field: everything up to the next comma or newline.
pub open spec fn csv_read_plain(s: Seq<char>) -> (Seq<char>, Seq<char>)
    decreases s.len(),
{
    if s.len() == 0 || s[0] == ',' || s[0] == '\n' {
        (Seq::empty(), s)
    } else {
        let r = csv_read_plain(s.drop_first());
        (seq![s[0]] + r.0, r.1)
    }
}

/// Reading one CSV field (RFC 4180): quoted if it starts with a double quote,
/// else plain. Gives the field and the rest of the text.
pub open spec fn csv_read_field(s: Seq<char>) -> (Seq<char>, Seq<char>) {
    if s.len() > 0 && s[0] == '"' {
        csv_read_quoted(s.drop_first())
    } else {
        csv_read_plain(s)
    }
}

/// Reading one CSV record (RFC 4180): fields separated by commas, up to the
/// end of the record.
pub open spec fn csv_read_record(s: Seq<char>) -> Seq<Seq<char>>
    decreases s.len(),
{
    let r = csv_read_field(s);
    if r.1.len() > 0 && r.1[0] == ',' && r.1.len() <= s.len() {
        seq![r.0] + csv_read_record(r.1.drop_first())
    } else {
        seq![r.0]
    }
}

proof fn lemma_read_quoted(f: Seq<char>, rest: Seq<char>)
    requires
        rest.len() == 0 || rest[0] != '"',
    ensures
        csv_read_quoted(replace_spec(f, seq!['"'], seq!['"', '"']) + seq!['"'] + rest) == (f, rest),
    decreases f.len(),
{
    let q = seq!['"'];
    let qq = seq!['"', '"'];
    let t = replace_spec(f, q, qq) + q + rest;
    if f.len() == 0 {
        assert(t =~= q + rest);
        assert(t.drop_first() =~= rest);
        assert(f =~= Seq::<char>::empty());
    } else {
        let f1 = f.drop_first();
        lemma_read_quoted(f1, rest);
        let t1 = replace_spec(f1, q, qq) + q + rest;
        if f[0] == '"' {
            assert(starts_with_spec(f, q)) by {
                assert(f.take(1) =~= q);
            }
            assert(f.skip(1) =~= f1);
            assert(replace_spec(f, q, qq) == qq + replace_spec(f1, q, qq));
            assert(t =~= qq + t1);
            assert(t.skip(2) =~= t1);
            assert(seq!['"'] + f1 =~= f);
        } else {
            assert(!starts_with_spec(f, q)) by {
                if starts_with_spec(f, q) {
                    assert(f.take(1)[0] == f[0]);
                }
            }
            assert(replace_spec(f, q, qq) == seq![f[0]] + replace_spec(f1, q, qq));
            assert(t =~= seq![f[0]] + t1);
            assert(t.drop_first() =~= t1);
            assert(seq![f[0]] + f1 =~= f);
        }
    }
}

proof fn lemma_read_plain(f: Seq<char>, rest: Seq<char>)
    requires
        !f.contains(','),
        !f.contains('\n'),
        rest.len() == 0 || rest[0] == ',' || rest[0] == '\n',
    ensures
        csv_read_plain(f + rest) == (f, rest),
    decreases f.len(),
{
    if f.len() == 0 {
        assert(f + rest =~= rest);
        assert(f =~= Seq::<char>::empty());
    } else {
        let f1 = f.drop_first();
        assert(!f1.contains(',') && !f1.contains('\n')) by {
            if f1.contains(',') || f1.contains('\n') {
                let k = choose|k: int| 0 <= k < f1.len() && (f1[k] == ',' || f1[k] == '\n');
                assert(f[k + 1] == f1[k]);
            }
        }
        lemma_read_plain(f1, rest);
        assert(f[0] != ',' && f[0] != '\n') by {
            assert(f.contains(f[0]));
        }
        assert((f + rest)[0] == f[0]);
        assert((f + rest).drop_first() =~= f1 + rest);
        assert(seq![f[0]] + f1 =~= f);
    }
}

/// A field written by the CSV writer reads back as itself, when a comma, a
/// newline or nothing follows it.
proof fn lemma_read_field(f: Seq<char>, rest: Seq<char>)
    requires
        rest.len() == 0 || rest[0] == ',' || rest[0] == '\n',
    ensures
        csv_read_field(csv_quote_field(f) + rest) == (f, rest),
{
    let q = seq!['"'];
    if csv_needs_quotes(f) {
        let t = q + replace_spec(f, q, seq!['"', '"']) + q + rest;
        assert(csv_quote_field(f) + rest =~= t);
        assert(t[0] == '"');
        assert(t.drop_first() =~= replace_spec(f, q, seq!['"', '"']) + q + rest);
        lemma_read_quoted(f, rest);
    } else {
        lemma_read_plain(f, rest);
        if f.len() > 0 {
            assert(f[0] != '"') by {
                assert(f.contains(f[0]));
            }
            assert((f + rest)[0] == f[0]);
        }
    }
}

proof fn lemma_join_front(parts: Seq<Seq<char>>, sep: Seq<char>)
    requires
        parts.len() >= 2,
    ensures
        join_spec(parts, sep) == parts[0] + sep + join_spec(parts.drop_first(), sep),
    decreases parts.len(),
{
    let dl = parts.drop_last();
    let df = parts.drop_first();
    assert(join_spec(parts, sep) == join_spec(dl, sep) + sep + parts.last());
    if parts.len() > 2 {
        lemma_join_front(dl, sep);
        assert(dl.drop_first() =~= df.drop_last());
        assert(df.last() == parts.last());
        assert(dl[0] == parts[0]);
        assert(join_spec(df, sep) == join_spec(df.drop_last(), sep) + sep + df.last());
        assert(join_spec(parts, sep) =~= parts[0] + sep + join_spec(df, sep));
    } else {
        assert(dl.len() == 1 && dl[0] == parts[0]);
        assert(join_spec(dl, sep) == parts[0]);
        assert(df.len() == 1 && df[0] == parts[1]);
        assert(join_spec(df, sep) == parts[1]);
        assert(parts.last() == parts[1]);
    }
}

proof fn lemma_read_joined(fields: Seq<Seq<char>>, tail: Seq<char>)
    requires
        fields.len() > 0,
        tail.len() == 0 || tail[0] == '\n',
    ensures
        csv_read_record(join_spec(fields.map_values(csv_quoted()), seq![',']) + tail) == fields,
    decreases fields.len(),
{
    let qs = fields.map_values(csv_quoted());
    if fields.len() == 1 {
        assert(join_spec(qs, seq![',']) == qs[0]);
        lemma_read_field(fields[0], tail);
        assert(seq![fields[0]] =~= fields);
    } else {
        lemma_join_front(qs, seq![',']);
        let rest_fields = fields.drop_first();
        assert(qs.drop_first() =~= rest_fields.map_values(csv_quoted()));
        let jr = join_spec(rest_fields.map_values(csv_quoted()), seq![',']);
        let rest = seq![','] + jr + tail;
        lemma_read_field(fields[0], rest);
        let s = join_spec(qs, seq![',']) + tail;
        assert(s =~= csv_quote_field(fields[0]) + rest);
        lemma_read_joined(rest_fields, tail);
        assert(rest.drop_first() =~= jr + tail);
        assert(seq![fields[0]] + rest_fields =~= fields);
    }
}

/// Law: a CSV record written by the writer reads back as its fields, under the
/// RFC 4180 reading of quotes, commas and the end of the record.
pub proof fn lemma_csv_record_reads_back(fields: Seq<Seq<char>>)
    requires
        fields.len() > 0,
    ensures
        csv_read_record(csv_record_text(fields)) == fields,
{
    if fields.len() == 1 && fields[0].len() == 0 {
        let t = csv_record_text(fields);
        assert(t =~= seq!['"', '"', '\n']);
        assert(t.drop_first() =~= seq!['"', '\n']);
        assert(seq!['"', '\n'].drop_first() =~= seq!['\n']);
        assert(fields[0] =~= Seq::<char>::empty());
        assert(fields =~= seq![Seq::<char>::empty()]);
    } else {
        lemma_read_joined(fields, seq!['\n']);
    }
}

proof fn lemma_csv_body_clean(row: Seq<Seq<char>>)
    ensures
        !csv_record_body(row.map_values(csv_fields())).contains('\n'),
{
    let f = row.map_values(csv_fields());
    if f.len() == 0 || (f.len() == 1 && f[0].len() == 0) {
        assert(!seq!['"', '"'].contains('\n')) by {
            if seq!['"', '"'].contains('\n') {
                let k = choose|k: int| 0 <= k < 2 && seq!['"', '"'][k] == '\n';
            }
        }
    } else {
        let qs = f.map_values(csv_quoted());
        assert forall|i: int| 0 <= i < qs.len() implies !(#[trigger] qs[i]).contains('\n') by {
            lemma_sanitize_common_clean(row[i]);
            let g = f[i];
            if csv_needs_quotes(g) {
                let q = seq!['"'];
                let qq = seq!['"', '"'];
                assert(!qq.contains('\n')) by {
                    if qq.contains('\n') {
                        let k = choose|k: int| 0 <= k < 2 && qq[k] == '\n';
                    }
                }
                lemma_replace_keeps_absent(g, q, qq, '\n');
                let r = replace_spec(g, q, qq);
                assert(!(q + r + q).contains('\n')) by {
                    if (q + r + q).contains('\n') {
                        let k = choose|k: int| 0 <= k < (q + r + q).len() && (q + r + q)[k] == '\n';
                        if 1 <= k < 1 + r.len() {
                            assert(r[k - 1] == '\n');
                        }
                    }
                }
            }
        }
        assert(!seq![','].contains('\n')) by {
            if seq![','].contains('\n') {
                let k = choose|k: int| 0 <= k < 1 && seq![','][k] == '\n';
            }
        }
        lemma_join_absent(qs, seq![','], '\n');
    }
}

/// Law: a CSV export reads back. Cut at newlines, the text of a CSV export
/// gives one record per row, in order (and the empty rest after the last
/// newline); read as an RFC 4180 record, each gives back that row's fields,
/// sanitized. Commas and double quotes in fields survive through quoting, and
/// no field holds a raw line break.
pub proof fn lemma_csv_reads_back(rows: Seq<Seq<Seq<char>>>)
    requires
        forall|i: int| 0 <= i < rows.len() ==> (#[trigger] rows[i]).len() > 0,
    ensures
        split_spec(csv_text_spec(rows), '\n') == rows.map_values(
            |r: Seq<Seq<char>>| csv_record_body(r.map_values(csv_fields())),
        ).push(Seq::empty()),
        forall|i: int|
            0 <= i < rows.len() ==> csv_read_record(
                csv_record_text(#[trigger] rows[i].map_values(csv_fields())),
            ) == rows[i].map_values(csv_fields()),
    decreases rows.len(),
{
    assert forall|i: int| 0 <= i < rows.len() implies csv_read_record(
        csv_record_text(#[trigger] rows[i].map_values(csv_fields())),
    ) == rows[i].map_values(csv_fields()) by {
        lemma_csv_record_reads_back(rows[i].map_values(csv_fields()));
    }
    let bodies = rows.map_values(|r: Seq<Seq<char>>| csv_record_body(r.map_values(csv_fields())));
    if rows.len() == 0 {
        assert(csv_text_spec(rows) =~= Seq::<char>::empty());
        assert(bodies.push(Seq::empty()) =~= seq![Seq::<char>::empty()]);
    } else {
        let init = rows.drop_last();
        assert forall|i: int| 0 <= i < init.len() implies (#[trigger] init[i]).len() > 0 by {
            assert(init[i] == rows[i]);
        }
        lemma_csv_reads_back(init);
        let d = csv_text_spec(init);
        let body = csv_record_body(rows.last().map_values(csv_fields()));
        lemma_csv_body_clean(rows.last());
        let ib = init.map_values(|r: Seq<Seq<char>>| csv_record_body(r.map_values(csv_fields())));
        assert(split_spec(d + body, '\n') == ib.push(body)) by {
            if init.len() == 0 {
                assert(d =~= Seq::<char>::empty());
                assert(d + body =~= body);
                lemma_split_absent(body, '\n');
                assert(ib.push(body) =~= seq![body]);
            } else {
                let a = csv_text_spec(init.drop_last()) + csv_record_body(
                    init.last().map_values(csv_fields()),
                );
                assert(d =~= a + seq!['\n']);
                lemma_split_append(a, Seq::empty(), '\n');
                assert(a + seq!['\n'] + Seq::<char>::empty() =~= d);
                lemma_split_append(a, body, '\n');
                assert(a + seq!['\n'] + body =~= d + body);
                let e = Seq::<char>::empty();
                assert(split_spec(d, '\n') == split_spec(a, '\n').push(e));
                assert(split_spec(a, '\n').push(e).drop_last() =~= split_spec(a, '\n'));
                assert(ib.push(e).drop_last() =~= ib);
                assert(split_spec(a, '\n') =~= ib);
            }
        }
        assert(csv_text_spec(rows) =~= (d + body) + seq!['\n'] + Seq::<char>::empty());
        lemma_split_append(d + body, Seq::empty(), '\n');
        assert(bodies =~= ib.push(body));
    }
}

/// Law: a CSV export reads back. Cut at newlines, the text of a CSV export
/// gives one record per entry that has definitions or examples, in order;
/// read as RFC 4180 records, each gives the template's columns for that
/// entry, sanitized. The export's bytes are that text in UTF-8.
pub proof fn lemma_csv_export_reads_back(
    entries: Seq<WordEntry>,
    t: AnkiExportTemplate,
    o: AnkiExportOptions,
)
    ensures
        export_bytes_spec(entries, t, AnkiExportFormat::Csv, o) == encode_utf8(
            csv_text_spec(export_rows_spec(entries, t, o)),
        ),
        split_spec(csv_text_spec(export_rows_spec(entries, t, o)), '\n') == export_rows_spec(
            entries,
            t,
            o,
        ).map_values(|r: Seq<Seq<char>>| csv_record_body(r.map_values(csv_fields()))).push(
            Seq::empty(),
        ),
        forall|i: int|
            0 <= i < export_rows_spec(entries, t, o).len() ==> csv_read_record(
                csv_record_text(#[trigger] export_rows_spec(entries, t, o)[i].map_values(csv_fields())),
            ) == export_rows_spec(entries, t, o)[i].map_values(csv_fields()),
{
    let rows = export_rows_spec(entries, t, o);
    lemma_export_rows_columns(entries, t, o);
    assert forall|i: int| 0 <= i < rows.len() implies (#[trigger] rows[i]).len() > 0 by {
        assert(rows[i].len() == column_count(t));
    }
    lemma_csv_reads_back(rows);
}

} // verus!
