use vstd::prelude::*;

use crate::text::{
    dedup, dedup_spec, join_spec, lemma_dedup_distinct, lemma_split_join, lowercase, split_char, split_spec,
    to_lowercase, trim, trim_spec,
};

verus! {

/// How a lookup ended.
#[derive(Debug, Clone, Copy, PartialEq, Eq, Structural)]
pub enum QueryStatus {
    Success,
    Failed,
    PartialSuccess,
    Skipped,
}

impl QueryStatus {
    /// The text that the status is shown as.
    pub open spec fn display_spec(self) -> Seq<char> {
        match self {
            QueryStatus::Success => "成功"@,
            QueryStatus::Failed => "失败"@,
            QueryStatus::PartialSuccess => "部分成功"@,
            QueryStatus::Skipped => "已跳过"@,
        }
    }

    /// The text that the status is shown as (its `Display` form).
    pub fn display_text(&self) -> (r: &'static str)
        ensures
            r@ == self.display_spec(),
    {
        match self {
            QueryStatus::Success => "成功",
            QueryStatus::Failed => "失败",
            QueryStatus::PartialSuccess => "部分成功",
            QueryStatus::Skipped => "已跳过",
        }
    }
}

/// One sense of a word: its part of speech, the definition in the source
/// language and the definition or translation in the target language.
#[derive(Debug, Clone, Default)]
pub struct Definition {
    pub part_of_speech: Option<String>,
    pub source: Option<String>,
    pub target: Option<String>,
}

/// The texts of a sense.
pub struct DefinitionView {
    pub part_of_speech: Option<Seq<char>>,
    pub source: Option<Seq<char>>,
    pub target: Option<Seq<char>>,
}

impl DeepView for Definition {
    type V = DefinitionView;

    open spec fn deep_view(&self) -> DefinitionView {
        DefinitionView {
            part_of_speech: self.part_of_speech.deep_view(),
            source: self.source.deep_view(),
            target: self.target.deep_view(),
        }
    }
}

/// The texts of an example.
pub struct ExampleView {
    pub source: Seq<char>,
    pub target: Option<Seq<char>>,
}

impl DeepView for Example {
    type V = ExampleView;

    open spec fn deep_view(&self) -> ExampleView {
        ExampleView { source: self.source@, target: self.target.deep_view() }
    }
}

/// An example sentence and its translation.
#[derive(Debug, Clone, Default)]
pub struct Example {
    pub source: String,
    pub target: Option<String>,
}

/// What a lookup gives for one word.
#[derive(Debug, Clone)]
pub struct WordEntry {
    pub word: String,
    pub phonetic: Option<String>,
    pub definitions: Vec<Definition>,
    pub examples: Vec<Example>,
    pub source: String,
    pub queried_at: String,
    pub status: QueryStatus,
    pub error: Option<String>,
    pub ai_status: Option<String>,
    pub ai_reason: Option<String>,
    pub query_type: Option<String>,
}

#[verifier::external_type_specification]
#[verifier::external_body]
pub struct ExSystemTime(std::time::SystemTime);

/// `SystemTime::now` reads the system clock; nothing is claimed of the time.
pub assume_specification[ std::time::SystemTime::now ]() -> std::time::SystemTime;

/// `Duration::as_secs`: the whole seconds; nothing more is claimed.
pub assume_specification[ core::time::Duration::as_secs ](d: &core::time::Duration) -> u64;

/// `Duration::subsec_nanos`: the nanoseconds past the whole seconds, which
/// the documentation puts below one billion.
pub assume_specification[ core::time::Duration::subsec_nanos ](d: &core::time::Duration) -> (r: u32)
    ensures
        r < 1_000_000_000,
;

/// Calls `SystemTime::duration_since` with the Unix epoch: how long after 1970
/// `t` is, or `None` when `t` is earlier (the call's error). Nothing more is
/// claimed, as `t` is a reading of the clock.
#[verifier::external_body]
fn since_unix_epoch(t: &std::time::SystemTime) -> Option<core::time::Duration> {
    match t.duration_since(std::time::UNIX_EPOCH) {
        Ok(d) => Some(d),
        Err(_) => None,
    }
}

/// The present time as whole seconds and nanoseconds since the Unix epoch,
/// read from the clock; none when the clock reads before 1970.
fn unix_time_now() -> (r: Option<(u64, u32)>)
    ensures
        r matches Some(t) ==> t.1 < 1_000_000_000,
{
    let now = std::time::SystemTime::now();
    match since_unix_epoch(&now) {
        Some(d) => Some((d.as_secs(), d.subsec_nanos())),
        None => None,
    }
}

/// What `chrono` writes for the UTC time `secs` seconds and `nanos`
/// nanoseconds after the Unix epoch: its RFC 3339 text, or none when that
/// time is out of `chrono`'s range.
pub uninterp spec fn rfc3339_text(secs: i64, nanos: u32) -> Option<Seq<char>>;

/// Calls `chrono::DateTime::from_timestamp`, which gives `None` for a time
/// out of its range, and formats the time it gives with `to_rfc3339`; the
/// result is claimed to be `rfc3339_text` of the arguments.
#[verifier::external_body]
fn rfc3339_utc(secs: i64, nanos: u32) -> (r: Option<String>)
    ensures
        r.deep_view() == rfc3339_text(secs, nanos),
{
    match chrono::DateTime::from_timestamp(secs, nanos) {
        Some(t) => Some(t.to_rfc3339()),
        None => None,
    }
}

/// The RFC 3339 text of the UTC time `secs` seconds and `nanos` nanoseconds
/// after the Unix epoch; none when the seconds are too many for `chrono`.
pub fn timestamp_text(secs: u64, nanos: u32) -> (r: Option<String>)
    requires
        nanos < 1_000_000_000,
    ensures
        r.deep_view() == (if secs <= i64::MAX as u64 {
            rfc3339_text(secs as i64, nanos)
        } else {
            None
        }),
{
    if secs <= 9_223_372_036_854_775_807u64 {
        rfc3339_utc(secs as i64, nanos)
    } else {
        None
    }
}

/// The present time in RFC 3339 text, read from the clock; none when the
/// clock reads before 1970 or beyond what the text can show. What the clock
/// reads is handed to `timestamp_text`.
pub fn current_timestamp() -> (r: Option<String>)
    ensures
        r matches Some(t) ==> exists|secs: i64, nanos: u32|
            nanos < 1_000_000_000 && 0 <= secs && rfc3339_text(secs, nanos) == Some(t@),
{
    match unix_time_now() {
        Some((secs, nanos)) => {
            let r = timestamp_text(secs, nanos);
            proof {
                if r is Some {
                    assert(rfc3339_text(secs as i64, nanos) == Some(r->0@));
                }
            }
            r
        },
        None => None,
    }
}

/// Whether `t` is what an entry made now records as its time: the RFC 3339
/// text of a time since 1970, or the empty text.
pub open spec fn time_text(t: Seq<char>) -> bool {
    t.len() == 0 || exists|secs: i64, nanos: u32|
        nanos < 1_000_000_000 && 0 <= secs && rfc3339_text(secs, nanos) == Some(t)
}

/// The time that an entry made now records: the present time in RFC 3339
/// text, or the empty text when the clock cannot give it.
pub fn queried_at_now() -> (r: String)
    ensures
        time_text(r@),
{
    match current_timestamp() {
        Some(t) => t,
        None => String::new(),
    }
}

/// A copy of an optional string.
pub fn clone_opt(o: &Option<String>) -> (r: Option<String>)
    ensures
        r == *o,
{
    match o {
        Some(s) => Some(s.clone()),
        None => None,
    }
}

impl WordEntry {
    /// The entry that records a failed lookup made at `queried_at`: no
    /// definitions, no examples, status `Failed` and `error` as the reason.
    pub fn failed_at(word: String, source: String, error: String, queried_at: String) -> (r: Self)
        ensures
            r.word == word,
            r.phonetic is None,
            r.definitions@.len() == 0,
            r.examples@.len() == 0,
            r.source == source,
            r.queried_at == queried_at,
            r.status == QueryStatus::Failed,
            r.error == Some(error),
            r.ai_status is None,
            r.ai_reason is None,
            r.query_type is None,
    {
        WordEntry {
            word,
            phonetic: None,
            definitions: Vec::new(),
            examples: Vec::new(),
            source,
            queried_at,
            status: QueryStatus::Failed,
            error: Some(error),
            ai_status: None,
            ai_reason: None,
            query_type: None,
        }
    }

    /// The entry that records a failed lookup made now.
    pub fn failed(word: String, source: String, error: String) -> (r: Self)
        ensures
            r.word == word,
            r.phonetic is None,
            r.definitions@.len() == 0,
            r.examples@.len() == 0,
            r.source == source,
            r.status == QueryStatus::Failed,
            r.error == Some(error),
            r.ai_status is None,
            r.ai_reason is None,
            r.query_type is None,
            time_text(r.queried_at@),
    {
        Self::failed_at(word, source, error, queried_at_now())
    }

    /// The entry with the AI classification fields set to the given values.
    pub fn with_ai_result(
        self,
        ai_status: Option<String>,
        ai_reason: Option<String>,
        query_type: Option<String>,
    ) -> (r: Self)
        ensures
            r == (WordEntry { ai_status, ai_reason, query_type, ..self }),
    {
        let mut entry = self;
        entry.ai_status = ai_status;
        entry.ai_reason = ai_reason;
        entry.query_type = query_type;
        entry
    }
}

/// The entry that one lookup of `word` gives: the entry found, or, when the
/// lookup failed with `message`, the failed entry that records it, with the
/// source's name.
pub fn entry_or_failure(word: String, source: &str, result: Result<WordEntry, String>) -> (r: WordEntry)
    ensures
        result matches Ok(e) ==> r == e,
        result matches Err(message) ==> {
            &&& r.word == word
            &&& r.phonetic is None
            &&& r.definitions@.len() == 0
            &&& r.examples@.len() == 0
            &&& r.source@ == source@
            &&& r.status == QueryStatus::Failed
            &&& r.error == Some(message)
            &&& r.ai_status is None
            &&& r.ai_reason is None
            &&& r.query_type is None
            &&& time_text(r.queried_at@)
        },
{
    match result {
        Ok(entry) => entry,
        Err(message) => WordEntry::failed(word, String::from_str(source), message),
    }
}

/// The words of a comma-separated list: each piece trimmed, blank pieces
/// left out, the rest lower-cased, and each word kept once, at its first place.
pub open spec fn parse_words_spec(input: Seq<char>) -> Seq<Seq<char>> {
    dedup_spec(split_spec(input, ',').filter_map(word_of_piece()))
}

/// The word that a piece of the list gives, if it is not blank.
pub open spec fn word_of_piece() -> spec_fn(Seq<char>) -> Option<Seq<char>> {
    |piece: Seq<char>|
        if trim_spec(piece).len() > 0 {
            Some(lowercase(trim_spec(piece)))
        } else {
            None
        }
}

/// Splits a comma-separated list into distinct lower-case words.
pub fn parse_words(input: &str) -> (r: Vec<String>)
    ensures
        r.deep_view() == parse_words_spec(input@),
{
    let pieces = split_char(input, ',');
    let ghost v = pieces.deep_view();
    let n = pieces.len();
    let mut words: Vec<String> = Vec::new();
    let mut i: usize = 0;
    while i < n
        invariant
            n == pieces@.len(),
            v == pieces.deep_view(),
            i <= n,
            words.deep_view() == v.take(i as int).filter_map(word_of_piece()),
        decreases n - i,
    {
        proof {
            v.lemma_filter_map_take_succ(word_of_piece(), i as int);
        }
        let piece = trim(pieces[i].as_str());
        let ghost before = words.deep_view();
        if !piece.is_empty() {
            let word = to_lowercase(piece);
            words.push(word);
            assert(words.deep_view() =~= before + seq![lowercase(trim_spec(v[i as int]))]);
        }
        i = i + 1;
    }
    assert(v.take(n as int) == v);
    dedup(words)
}


/// Law: the word list has no word twice, and holds exactly the lower-cased,
/// trimmed, non-blank pieces of the input.
pub proof fn lemma_parse_words_distinct(input: Seq<char>)
    ensures
        parse_words_spec(input).no_duplicates(),
        forall|w: Seq<char>|
            parse_words_spec(input).contains(w) <==> split_spec(input, ',').filter_map(
                word_of_piece(),
            ).contains(w),
{
    lemma_dedup_distinct(split_spec(input, ',').filter_map(word_of_piece()));
}

/// Each word lower-cased.
pub open spec fn lowercased() -> spec_fn(Seq<char>) -> Seq<char> {
    |w: Seq<char>| lowercase(w)
}

/// Whether a word can be written into a comma-separated list and read back:
/// it is not blank, holds no comma and has no white space at either end.
pub open spec fn clean_word(w: Seq<char>) -> bool {
    &&& w.len() > 0
    &&& trim_spec(w) == w
    &&& !w.contains(',')
}

proof fn lemma_pieces_of_clean_words(words: Seq<Seq<char>>)
    requires
        forall|i: int| 0 <= i < words.len() ==> clean_word(#[trigger] words[i]),
    ensures
        words.filter_map(word_of_piece()) == words.map_values(lowercased()),
    decreases words.len(),
{
    if words.len() > 0 {
        let init = words.drop_last();
        assert forall|i: int| 0 <= i < init.len() implies clean_word(#[trigger] init[i]) by {
            assert(init[i] == words[i]);
        }
        lemma_pieces_of_clean_words(init);
        assert(clean_word(words[words.len() - 1]));
        assert(words.map_values(lowercased()) =~= init.map_values(lowercased()) + seq![
            lowercase(words.last()),
        ]);
    }
}

/// Law: words written with commas between them read back as those words
/// lower-cased, each kept once at its first place, when every word is clean
/// (not blank, no comma, no white space at either end).
pub proof fn lemma_parse_joined_words(words: Seq<Seq<char>>)
    requires
        forall|i: int| 0 <= i < words.len() ==> clean_word(#[trigger] words[i]),
    ensures
        parse_words_spec(join_spec(words, seq![','])) == dedup_spec(words.map_values(lowercased())),
{
    if words.len() == 0 {
        assert(join_spec(words, seq![',']) =~= Seq::<char>::empty());
        assert(split_spec(Seq::<char>::empty(), ',') == seq![Seq::<char>::empty()]);
        assert(trim_spec(Seq::<char>::empty()).len() == 0);
        assert(word_of_piece()(Seq::<char>::empty()) is None);
        Seq::<Seq<char>>::lemma_filter_map_singleton(Seq::<char>::empty(), word_of_piece());
        assert(words.map_values(lowercased()) =~= Seq::<Seq<char>>::empty());
    } else {
        assert forall|i: int| 0 <= i < words.len() implies !(#[trigger] words[i]).contains(',') by {
            assert(clean_word(words[i]));
        }
        lemma_split_join(words, ',');
        lemma_pieces_of_clean_words(words);
    }
}

} // verus!
