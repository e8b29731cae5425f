use vstd::hash_map::StringHashMap;
use vstd::prelude::*;

use crate::models::{
    clone_opt, queried_at_now, time_text, Definition, DefinitionView, Example, ExampleView, QueryStatus,
    WordEntry,
};
use crate::text::{concat, lowercase, replace, replace_spec, starts_with_spec, to_lowercase};

verus! {

/// What the offline dictionary holds for one word; `{word}` in its texts
/// stands for the word looked up.
#[derive(Debug, Clone)]
pub struct MockEntry {
    pub phonetic: Option<String>,
    pub definitions: Vec<Definition>,
    pub examples: Vec<Example>,
}

/// The offline dictionary as its file gives it: entries by word, and the
/// entry used for any other word.
#[derive(Debug, Clone)]
pub struct MockDictionary {
    pub entries: Vec<(String, MockEntry)>,
    pub default_entry: MockEntry,
}

/// The table that the dictionary's entries give: each entry under its word
/// lower-cased; where two words are the same once lower-cased, the entry that
/// comes first in the list is the one kept.
pub open spec fn mock_table(entries: Seq<(String, MockEntry)>) -> Map<Seq<char>, MockEntry>
    decreases entries.len(),
{
    if entries.len() == 0 {
        Map::empty()
    } else {
        mock_table(entries.drop_first()).insert(lowercase(entries[0].0@), entries[0].1)
    }
}

/// The dictionary ready for lookups: its entries by lower-cased word, and the
/// entry used for any other word.
pub struct MockTable {
    pub entries: StringHashMap<MockEntry>,
    pub default_entry: MockEntry,
}

impl View for MockTable {
    type V = Map<Seq<char>, MockEntry>;

    open spec fn view(&self) -> Map<Seq<char>, MockEntry> {
        self.entries@
    }
}

/// The dictionary with every word lower-cased, so that lookups ignore case.
pub fn normalize_dictionary(dictionary: MockDictionary) -> (r: MockTable)
    ensures
        r@ == mock_table(dictionary.entries@),
        r.default_entry == dictionary.default_entry,
{
    let MockDictionary { entries, default_entry } = dictionary;
    let ghost all = entries@;
    let n = entries.len();
    let mut rest = entries;
    let mut table: StringHashMap<MockEntry> = StringHashMap::new();
    let mut k: usize = 0;
    assert(all.subrange(n as int, n as int) =~= Seq::<(String, MockEntry)>::empty());
    while k < n
        invariant
            n == all.len(),
            k <= n,
            rest@ == all.take(n - k),
            table@ == mock_table(all.subrange(n - k, n as int)),
        decreases n - k,
    {
        let ghost before = rest@;
        let (word, entry) = rest.pop().unwrap();
        assert(before.last() == all[n - k - 1]);
        assert(rest@ =~= all.take(n - k - 1));
        assert(all.subrange(n - k - 1, n as int).drop_first() =~= all.subrange(n - k, n as int));
        let key = to_lowercase(word.as_str());
        table.insert(key, entry);
        k = k + 1;
    }
    assert(all.subrange(0, n as int) =~= all);
    MockTable { entries: table, default_entry }
}

/// A text with every `{word}` replaced by the word.
pub open spec fn render_template_spec(value: Seq<char>, word: Seq<char>) -> Seq<char> {
    replace_spec(value, "{word}"@, word)
}

/// A text with every `{word}` replaced by the word.
pub fn render_template(value: &str, word: &str) -> (r: String)
    ensures
        r@ == render_template_spec(value@, word@),
{
    proof {
        reveal_strlit("{word}");
    }
    replace(value, "{word}", word)
}

fn render_opt(value: &Option<String>, word: &str) -> (r: Option<String>)
    ensures
        r.deep_view() == (match value {
            Some(v) => Some(render_template_spec(v@, word@)),
            None => None,
        }),
{
    match value {
        Some(v) => Some(render_template(v.as_str(), word)),
        None => None,
    }
}

/// A sense with `{word}` in its definitions filled in.
pub open spec fn render_definition_spec(word: Seq<char>) -> spec_fn(DefinitionView) -> DefinitionView {
    |d: DefinitionView|
        DefinitionView {
            part_of_speech: d.part_of_speech,
            source: match d.source {
                Some(v) => Some(render_template_spec(v, word)),
                None => None,
            },
            target: match d.target {
                Some(v) => Some(render_template_spec(v, word)),
                None => None,
            },
        }
}

/// An example with `{word}` filled in.
pub open spec fn render_example_spec(word: Seq<char>) -> spec_fn(ExampleView) -> ExampleView {
    |e: ExampleView|
        ExampleView {
            source: render_template_spec(e.source, word),
            target: match e.target {
                Some(v) => Some(render_template_spec(v, word)),
                None => None,
            },
        }
}

/// The senses with `{word}` in their definitions filled in.
pub fn render_definitions(definitions: &[Definition], word: &str) -> (r: Vec<Definition>)
    ensures
        r.deep_view() == definitions.deep_view().map_values(render_definition_spec(word@)),
{
    let n = definitions.len();
    let mut res: Vec<Definition> = Vec::new();
    let mut i: usize = 0;
    while i < n
        invariant
            n == definitions@.len(),
            i <= n,
            res.deep_view() == definitions.deep_view().take(i as int).map_values(
                render_definition_spec(word@),
            ),
        decreases n - i,
    {
        let d = &definitions[i];
        let rendered = Definition {
            part_of_speech: clone_opt(&d.part_of_speech),
            source: render_opt(&d.source, word),
            target: render_opt(&d.target, word),
        };
        let ghost before = res.deep_view();
        res.push(rendered);
        assert(res.deep_view() =~= before.push(rendered.deep_view()));
        assert(definitions.deep_view()[i as int] == d.deep_view());
        assert(res.deep_view() =~= definitions.deep_view().take(i + 1).map_values(
            render_definition_spec(word@),
        ));
        i = i + 1;
    }
    assert(definitions.deep_view().take(n as int) == definitions.deep_view());
    res
}

/// The examples with `{word}` filled in.
pub fn render_examples(examples: &[Example], word: &str) -> (r: Vec<Example>)
    ensures
        r.deep_view() == examples.deep_view().map_values(render_example_spec(word@)),
{
    let n = examples.len();
    let mut res: Vec<Example> = Vec::new();
    let mut i: usize = 0;
    while i < n
        invariant
            n == examples@.len(),
            i <= n,
            res.deep_view() == examples.deep_view().take(i as int).map_values(
                render_example_spec(word@),
            ),
        decreases n - i,
    {
        let e = &examples[i];
        let rendered = Example {
            source: render_template(e.source.as_str(), word),
            target: render_opt(&e.target, word),
        };
        let ghost before = res.deep_view();
        res.push(rendered);
        assert(res.deep_view() =~= before.push(rendered.deep_view()));
        assert(examples.deep_view()[i as int] == e.deep_view());
        assert(res.deep_view() =~= examples.deep_view().take(i + 1).map_values(
            render_example_spec(word@),
        ));
        i = i + 1;
    }
    assert(examples.deep_view().take(n as int) == examples.deep_view());
    res
}

/// The entry that the table gives for `key`: the one under it, else the default entry.
pub open spec fn mock_entry_spec(t: MockTable, key: Seq<char>) -> MockEntry {
    if t@.contains_key(key) {
        t@[key]
    } else {
        t.default_entry
    }
}

/// The offline dictionary source.
pub struct MockProvider {
    pub dictionary: MockTable,
}

/// Whether `r` is what the offline source gives for `word` from dictionary `d`.
pub open spec fn mock_lookup_spec(d: MockTable, word: Seq<char>, r: WordEntry) -> bool {
    let e = mock_entry_spec(d, lowercase(word));
    &&& r.word@ == word
    &&& r.phonetic.deep_view() == Some(
        match e.phonetic {
            Some(p) => p@,
            None => "/"@ + word + "/"@,
        },
    )
    &&& r.definitions.deep_view() == e.definitions.deep_view().map_values(
        render_definition_spec(word),
    )
    &&& r.examples.deep_view() == e.examples.deep_view().map_values(render_example_spec(word))
    &&& r.source@ == "mock"@
    &&& r.status == QueryStatus::Success
    &&& r.error is None
    &&& r.ai_status is None
    &&& r.ai_reason is None
    &&& r.query_type is None
}

impl MockProvider {
    /// The source over a dictionary, its words lower-cased.
    pub fn from_dictionary(dictionary: MockDictionary) -> (r: Self)
        ensures
            r.dictionary@ == mock_table(dictionary.entries@),
            r.dictionary.default_entry == dictionary.default_entry,
    {
        MockProvider { dictionary: normalize_dictionary(dictionary) }
    }

    /// The name of the offline source.
    pub fn name(&self) -> (r: &'static str)
        ensures
            r@ == "mock"@,
    {
        "mock"
    }

    fn entry_for(&self, key: &String) -> (r: &MockEntry)
        ensures
            *r == mock_entry_spec(self.dictionary, key@),
    {
        match self.dictionary.entries.get(key.as_str()) {
            Some(entry) => entry,
            None => &self.dictionary.default_entry,
        }
    }

    /// The entry for `word` at time `queried_at`: the dictionary's entry for
    /// the lower-cased word, or the default one, with `{word}` filled in, and
    /// `/word/` as phonetic when the entry has none.
    pub fn lookup_at(&self, word: &str, queried_at: String) -> (r: WordEntry)
        ensures
            mock_lookup_spec(self.dictionary, word@, r),
            r.queried_at == queried_at,
    {
        let key = to_lowercase(word);
        let entry = self.entry_for(&key);
        let phonetic = match &entry.phonetic {
            Some(p) => p.clone(),
            None => {
                let mut s = concat("/", word);
                s.append("/");
                s
            },
        };
        WordEntry {
            word: String::from_str(word),
            phonetic: Some(phonetic),
            definitions: render_definitions(entry.definitions.as_slice(), word),
            examples: render_examples(entry.examples.as_slice(), word),
            source: String::from_str(self.name()),
            queried_at,
            status: QueryStatus::Success,
            error: None,
            ai_status: None,
            ai_reason: None,
            query_type: None,
        }
    }

    /// The entry for `word`, looked up now.
    pub fn lookup(&self, word: &str) -> (r: WordEntry)
        ensures
            mock_lookup_spec(self.dictionary, word@, r),
            time_text(r.queried_at@),
    {
        self.lookup_at(word, queried_at_now())
    }
}

/// Whether `out` is `text` with the word filled in: both absent, or `out` is
/// `text` rendered for `word`.
pub open spec fn filled_in(out: Option<Seq<char>>, text: Option<Seq<char>>, word: Seq<char>) -> bool {
    match text {
        Some(t) => out == Some(render_template_spec(t, word)),
        None => out is None,
    }
}

/// Law: a lookup in the offline dictionary fills the looked-up word into
/// every text of the dictionary's entry for it (or of the default entry):
/// each sense keeps its part of speech and has its source and target text
/// rendered for the word, and so has each example, in the same order.
pub proof fn lemma_mock_lookup_fills_every_text(d: MockTable, word: Seq<char>, r: WordEntry)
    requires
        mock_lookup_spec(d, word, r),
    ensures
        r.definitions.deep_view().len() == mock_entry_spec(d, lowercase(word)).definitions.deep_view().len(),
        forall|i: int|
            0 <= i < r.definitions.deep_view().len() ==> {
                let out = #[trigger] r.definitions.deep_view()[i];
                let def = mock_entry_spec(d, lowercase(word)).definitions.deep_view()[i];
                &&& out.part_of_speech == def.part_of_speech
                &&& filled_in(out.source, def.source, word)
                &&& filled_in(out.target, def.target, word)
            },
        r.examples.deep_view().len() == mock_entry_spec(d, lowercase(word)).examples.deep_view().len(),
        forall|i: int|
            0 <= i < r.examples.deep_view().len() ==> {
                let out = #[trigger] r.examples.deep_view()[i];
                let ex = mock_entry_spec(d, lowercase(word)).examples.deep_view()[i];
                &&& out.source == render_template_spec(ex.source, word)
                &&& filled_in(out.target, ex.target, word)
            },
{
}

/// Law: text without a `{` comes out of `render_template` as it went in.
pub proof fn lemma_render_keeps_plain_text(v: Seq<char>, word: Seq<char>)
    requires
        !v.contains('{'),
    ensures
        render_template_spec(v, word) == v,
    decreases v.len(),
{
    reveal_strlit("{word}");
    if v.len() > 0 {
        assert(!starts_with_spec(v, "{word}"@)) by {
            assert(v[0] != '{');
            if 6 <= v.len() {
                assert(v.take(6)[0] == v[0]);
                assert("{word}"@[0] == '{');
            }
        }
        assert(!v.drop_first().contains('{')) by {
            assert forall|i: int| 0 <= i < v.drop_first().len() implies v.drop_first()[i] != '{' by {
                assert(v.drop_first()[i] == v[i + 1]);
            }
        }
        lemma_render_keeps_plain_text(v.drop_first(), word);
        assert(seq![v[0]] + v.drop_first() =~= v);
    }
}

/// Law: `render_template` puts the word where the first `{word}` stands:
/// text before it without a `{` stays, and the rest is rendered in turn.
pub proof fn lemma_render_fills_the_first_placeholder(a: Seq<char>, b: Seq<char>, word: Seq<char>)
    requires
        !a.contains('{'),
    ensures
        render_template_spec(a + "{word}"@ + b, word) == a + word + render_template_spec(b, word),
    decreases a.len(),
{
    reveal_strlit("{word}");
    let s = a + "{word}"@ + b;
    if a.len() == 0 {
        assert(s =~= "{word}"@ + b);
        assert(s.take(6) =~= "{word}"@);
        assert(s.skip(6) =~= b);
        assert(a + word =~= word);
    } else {
        assert(s[0] == a[0]);
        assert(!starts_with_spec(s, "{word}"@)) by {
            assert(s.take(6)[0] == a[0]);
            assert("{word}"@[0] == '{');
        }
        let a2 = a.drop_first();
        assert(!a2.contains('{')) by {
            assert forall|i: int| 0 <= i < a2.len() implies a2[i] != '{' by {
                assert(a2[i] == a[i + 1]);
            }
        }
        lemma_render_fills_the_first_placeholder(a2, b, word);
        assert(s.drop_first() =~= a2 + "{word}"@ + b);
        assert(seq![a[0]] + (a2 + word + render_template_spec(b, word)) =~= a + word
            + render_template_spec(b, word));
    }
}

} // verus!
