use vstd::prelude::*;

use crate::error::AppError;
use crate::models::{
    queried_at_now, time_text, Definition, DefinitionView, Example, ExampleView, QueryStatus,
    WordEntry,
};
use crate::text::concat;

verus! {

/// A phonetic spelling in a Free Dictionary API reply.
#[derive(Debug, Clone)]
pub struct ApiPhonetic {
    pub text: Option<String>,
}

/// A definition, with an optional example, in a Free Dictionary API reply.
#[derive(Debug, Clone)]
pub struct ApiDefinition {
    pub definition: String,
    pub example: Option<String>,
}

/// A part of speech and its definitions in a Free Dictionary API reply.
#[derive(Debug, Clone)]
pub struct ApiMeaning {
    pub part_of_speech: String,
    pub definitions: Vec<ApiDefinition>,
}

/// One entry of a Free Dictionary API reply.
#[derive(Debug, Clone)]
pub struct ApiEntry {
    pub word: Option<String>,
    pub phonetic: Option<String>,
    pub phonetics: Vec<ApiPhonetic>,
    pub meanings: Vec<ApiMeaning>,
}

/// The name of the Free Dictionary API source.
pub fn http_dictionary_name() -> (r: &'static str)
    ensures
        r@ == "dictionaryapi.dev"@,
{
    "dictionaryapi.dev"
}

/// The address that looks up `word`.
pub fn lookup_url(word: &str) -> (r: String)
    ensures
        r@ == "https://api.dictionaryapi.dev/api/v2/entries/en/"@ + word@,
{
    concat("https://api.dictionaryapi.dev/api/v2/entries/en/", word)
}

/// The text of a phonetic spelling, if it has one.
pub open spec fn phonetic_text() -> spec_fn(ApiPhonetic) -> Option<Seq<char>> {
    |p: ApiPhonetic| p.text.deep_view()
}

/// The phonetic of an entry: its own, else the first phonetic spelling with a text.
pub open spec fn phonetic_spec(e: ApiEntry) -> Option<Seq<char>> {
    match e.phonetic {
        Some(p) => Some(p@),
        None => {
            let texts = e.phonetics@.filter_map(phonetic_text());
            if texts.len() > 0 {
                Some(texts[0])
            } else {
                None
            }
        },
    }
}

/// The sense that a definition of a meaning gives.
pub open spec fn sense_of(pos: Seq<char>) -> spec_fn(ApiDefinition) -> DefinitionView {
    |d: ApiDefinition| DefinitionView { part_of_speech: Some(pos), source: Some(d.definition@), target: None }
}

/// The example that a definition gives, if it has one.
pub open spec fn example_of() -> spec_fn(ApiDefinition) -> Option<ExampleView> {
    |d: ApiDefinition|
        match d.example {
            Some(x) => Some(ExampleView { source: x@, target: None }),
            None => None,
        }
}

/// The senses of the meanings: each definition with its meaning's part of speech, in order.
pub open spec fn senses_spec(meanings: Seq<ApiMeaning>) -> Seq<DefinitionView>
    decreases meanings.len(),
{
    if meanings.len() == 0 {
        Seq::empty()
    } else {
        senses_spec(meanings.drop_last()) + meanings.last().definitions@.map_values(
            sense_of(meanings.last().part_of_speech@),
        )
    }
}

/// The examples of the meanings' definitions, in order.
pub open spec fn examples_spec(meanings: Seq<ApiMeaning>) -> Seq<ExampleView>
    decreases meanings.len(),
{
    if meanings.len() == 0 {
        Seq::empty()
    } else {
        examples_spec(meanings.drop_last()) + meanings.last().definitions@.filter_map(example_of())
    }
}

/// Whether `r` is the entry that a Free Dictionary API reply gives for `word`:
/// from its first entry, the word (or the query), the phonetic, every
/// definition with its part of speech, and the examples.
pub open spec fn api_entry_spec(word: Seq<char>, first: ApiEntry, r: WordEntry) -> bool {
    &&& r.word@ == (match first.word {
        Some(w) => w@,
        None => word,
    })
    &&& r.phonetic.deep_view() == phonetic_spec(first)
    &&& r.definitions.deep_view() == senses_spec(first.meanings@)
    &&& r.examples.deep_view() == examples_spec(first.meanings@)
    &&& r.source@ == "dictionaryapi.dev"@
    &&& r.status == QueryStatus::Success
    &&& r.error is None
    &&& r.ai_status is None
    &&& r.ai_reason is None
    &&& r.query_type is None
}

fn phonetic_of(e: &ApiEntry) -> (r: Option<String>)
    ensures
        r.deep_view() == phonetic_spec(*e),
{
    match &e.phonetic {
        Some(p) => Some(p.clone()),
        None => {
            let ps = &e.phonetics;
            let n = ps.len();
            let mut i: usize = 0;
            while i < n
                invariant
                    n == ps@.len(),
                    ps@ == e.phonetics@,
                    e.phonetic is None,
                    i <= n,
                    ps@.take(i as int).filter_map(phonetic_text()).len() == 0,
                decreases n - i,
            {
                proof {
                    ps@.lemma_filter_map_take_succ(phonetic_text(), i as int);
                }
                match &ps[i].text {
                    Some(t) => {
                        proof {
                            assert(phonetic_text()(ps@[i as int]) == Some(t@));
                            lemma_filter_map_first(ps@, phonetic_text(), i as int);
                            assert(e.phonetics@.filter_map(phonetic_text())[0] == t@);
                            assert(e.phonetic is None);
                            assert(phonetic_spec(*e) == Some(t@));
                        }
                        return Some(t.clone());
                    },
                    None => {},
                }
                i = i + 1;
            }
            assert(ps@.take(n as int) == ps@);
            None
        },
    }
}

proof fn lemma_filter_map_first<A, B>(s: Seq<A>, f: spec_fn(A) -> Option<B>, i: int)
    requires
        0 <= i < s.len(),
        s.take(i).filter_map(f).len() == 0,
        f(s[i]) is Some,
    ensures
        s.filter_map(f).len() > 0,
        s.filter_map(f)[0] == f(s[i])->Some_0,
    decreases s.len(),
{
    if i == s.len() - 1 {
        assert(s.take(i) == s.drop_last());
        assert(s.last() == s[i]);
    } else {
        assert(s.drop_last().take(i) == s.take(i));
        assert(s.drop_last()[i] == s[i]);
        lemma_filter_map_first(s.drop_last(), f, i);
    }
}

/// The entry for `word` that a Free Dictionary API reply gives at time
/// `queried_at`; an empty reply is a parse error.
pub fn entry_from_payload_at(word: &str, payload: &Vec<ApiEntry>, queried_at: String) -> (r: Result<
    WordEntry,
    AppError,
>)
    ensures
        payload@.len() == 0 <==> r is Err,
        r matches Err(e) ==> e matches AppError::Parse(m) && m@ == "API 返回为空"@,
        r matches Ok(entry) ==> api_entry_spec(word@, payload@[0], entry) && entry.queried_at
            == queried_at,
{
    if payload.len() == 0 {
        return Err(AppError::Parse(String::from_str("API 返回为空")));
    }
    let first = &payload[0];
    let meanings = &first.meanings;
    let m = meanings.len();
    let mut definitions: Vec<Definition> = Vec::new();
    let mut examples: Vec<Example> = Vec::new();
    let mut i: usize = 0;
    while i < m
        invariant
            m == meanings@.len(),
            meanings@ == first.meanings@,
            i <= m,
            definitions.deep_view() == senses_spec(meanings@.take(i as int)),
            examples.deep_view() == examples_spec(meanings@.take(i as int)),
        decreases m - i,
    {
        let meaning = &meanings[i];
        let ghost defs_before = definitions.deep_view();
        let ghost exs_before = examples.deep_view();
        let ds = &meaning.definitions;
        let k = ds.len();
        let mut j: usize = 0;
        while j < k
            invariant
                k == ds@.len(),
                ds@ == meaning.definitions@,
                j <= k,
                definitions.deep_view() == defs_before + ds@.take(j as int).map_values(
                    sense_of(meaning.part_of_speech@),
                ),
                examples.deep_view() == exs_before + ds@.take(j as int).filter_map(example_of()),
            decreases k - j,
        {
            proof {
                ds@.lemma_filter_map_take_succ(example_of(), j as int);
            }
            let d = &ds[j];
            let sense = Definition {
                part_of_speech: Some(meaning.part_of_speech.clone()),
                source: Some(d.definition.clone()),
                target: None,
            };
            let ghost before = definitions.deep_view();
            definitions.push(sense);
            assert(definitions.deep_view() =~= before.push(sense.deep_view()));
            assert(ds@.take(j + 1).map_values(sense_of(meaning.part_of_speech@)) =~= ds@.take(
                j as int,
            ).map_values(sense_of(meaning.part_of_speech@)).push(sense.deep_view()));
            assert(definitions.deep_view() =~= defs_before + ds@.take(j + 1).map_values(
                sense_of(meaning.part_of_speech@),
            ));
            let ghost before_ex = examples.deep_view();
            match &d.example {
                Some(x) => {
                    let ex = Example { source: x.clone(), target: None };
                    examples.push(ex);
                    assert(examples.deep_view() =~= before_ex.push(ex.deep_view()));
                    assert(examples.deep_view() =~= exs_before + ds@.take(j + 1).filter_map(
                        example_of(),
                    ));
                },
                None => {},
            }
            j = j + 1;
        }
        assert(ds@.take(k as int) == ds@);
        assert(meanings@.take(i + 1).drop_last() == meanings@.take(i as int));
        assert(meanings@.take(i + 1).last() == meaning);
        i = i + 1;
    }
    assert(meanings@.take(m as int) == meanings@);
    let word_out = match &first.word {
        Some(w) => w.clone(),
        None => String::from_str(word),
    };
    Ok(
        WordEntry {
            word: word_out,
            phonetic: phonetic_of(first),
            definitions,
            examples,
            source: String::from_str(http_dictionary_name()),
            queried_at,
            status: QueryStatus::Success,
            error: None,
            ai_status: None,
            ai_reason: None,
            query_type: None,
        },
    )
}

/// The entry for `word` that a Free Dictionary API reply gives, now.
pub fn entry_from_payload(word: &str, payload: &Vec<ApiEntry>) -> (r: Result<WordEntry, AppError>)
    ensures
        payload@.len() == 0 <==> r is Err,
        r matches Err(e) ==> e matches AppError::Parse(m) && m@ == "API 返回为空"@,
        r matches Ok(entry) ==> api_entry_spec(word@, payload@[0], entry) && time_text(entry.queried_at@),
{
    entry_from_payload_at(word, payload, queried_at_now())
}

/// The failure that an unsuccessful HTTP status gives, at time `queried_at`.
pub fn status_failure_at(word: &str, status: &str, queried_at: String) -> (r: WordEntry)
    ensures
        r.word@ == word@,
        r.source@ == "dictionaryapi.dev"@,
        r.status == QueryStatus::Failed,
        r.error.deep_view() == Some("HTTP 状态码 "@ + status@),
        r.queried_at == queried_at,
        r.definitions@.len() == 0,
        r.examples@.len() == 0,
        r.phonetic is None,
        r.ai_status is None,
        r.ai_reason is None,
        r.query_type is None,
{
    WordEntry::failed_at(
        String::from_str(word),
        String::from_str(http_dictionary_name()),
        concat("HTTP 状态码 ", status),
        queried_at,
    )
}

/// The failure that an unsuccessful HTTP status gives, now.
pub fn status_failure(word: &str, status: &str) -> (r: WordEntry)
    ensures
        r.word@ == word@,
        r.source@ == "dictionaryapi.dev"@,
        r.status == QueryStatus::Failed,
        r.error.deep_view() == Some("HTTP 状态码 "@ + status@),
        r.definitions@.len() == 0,
        r.examples@.len() == 0,
        r.phonetic is None,
        r.ai_status is None,
        r.ai_reason is None,
        r.query_type is None,
        time_text(r.queried_at@),
{
    status_failure_at(word, status, queried_at_now())
}

} // verus!
