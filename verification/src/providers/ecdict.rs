use vstd::prelude::*;

use vstd::hash_map::StringHashMap;

use crate::models::{queried_at_now, time_text, Definition, DefinitionView, QueryStatus, WordEntry};
use crate::text::{
    ends_with_spec, is_white_space, lemma_trim_ends_in_text, lemma_trim_keeps_text, lowercase, non_empty_spec, non_empty_trimmed, split_char,
    split_spec, str_eq, to_lowercase, trim, trim_spec,
};

verus! {

/// One row of the ECDICT word list, as far as lookups read it.
#[derive(Debug, Clone)]
pub struct EcdictRecord {
    pub word: String,
    pub phonetic: Option<String>,
    pub definition: Option<String>,
    pub translation: Option<String>,
    pub pos: Option<String>,
}

/// The name of the ECDICT source.
pub open spec fn ecdict_name_spec() -> Seq<char> {
    "ECDICT"@
}

/// The name of the ECDICT source.
pub fn ecdict_name() -> (r: &'static str)
    ensures
        r@ == ecdict_name_spec(),
{
    "ECDICT"
}

/// The text of an optional string.
pub open spec fn opt_text(value: Option<Seq<char>>) -> Seq<char> {
    match value {
        Some(v) => v,
        None => Seq::empty(),
    }
}

/// The trimmed text, if the value is present and not blank.
pub open spec fn empty_to_none_spec(value: Option<Seq<char>>) -> Option<Seq<char>> {
    match value {
        Some(v) => non_empty_spec(trim_spec(v)),
        None => None,
    }
}

/// The trimmed text, if the value is present and not blank.
pub fn empty_to_none(value: Option<&str>) -> (r: Option<String>)
    ensures
        r.deep_view() == empty_to_none_spec(value.deep_view()),
{
    match value {
        Some(v) => non_empty_trimmed(v),
        None => None,
    }
}

/// A line of a multi-line field, trimmed, if it is not blank.
pub open spec fn kept_line() -> spec_fn(Seq<char>) -> Option<Seq<char>> {
    |line: Seq<char>| non_empty_spec(trim_spec(line))
}

/// The non-blank lines of a field, trimmed. (`str::lines` cuts at `"\n"` and
/// drops a `"\r"` before it; trimming removes that `"\r"` anyway, and the empty
/// piece after a final newline is blank, so cutting at `"\n"` gives the same.)
pub open spec fn split_lines_spec(value: Option<Seq<char>>) -> Seq<Seq<char>> {
    split_spec(opt_text(value), '\n').filter_map(kept_line())
}

/// The non-blank lines of a field, trimmed.
pub fn split_lines(value: Option<&str>) -> (r: Vec<String>)
    ensures
        r.deep_view() == split_lines_spec(value.deep_view()),
{
    let pieces = match value {
        Some(v) => split_char(v, '\n'),
        None => split_char("", '\n'),
    };
    proof {
        if value is None {
            reveal_strlit("");
            assert(""@ =~= Seq::<char>::empty());
        }
    }
    let ghost v = pieces.deep_view();
    let n = pieces.len();
    let mut lines: Vec<String> = Vec::new();
    let mut i: usize = 0;
    while i < n
        invariant
            n == pieces@.len(),
            v == pieces.deep_view(),
            i <= n,
            lines.deep_view() == v.take(i as int).filter_map(kept_line()),
        decreases n - i,
    {
        proof {
            v.lemma_filter_map_take_succ(kept_line(), i as int);
        }
        let ghost before = lines.deep_view();
        match non_empty_trimmed(pieces[i].as_str()) {
            Some(line) => {
                lines.push(line);
                assert(lines.deep_view() =~= before + seq![line@]);
            },
            None => {},
        }
        i = i + 1;
    }
    assert(v.take(n as int) == v);
    lines
}

/// Whether a word is a part-of-speech tag: after trimming, it ends with `'.'`
/// or is one of `n`, `v`, `vi`, `vt`, `adj`, `adv`, `prep`.
pub open spec fn looks_like_pos_spec(value: Seq<char>) -> bool {
    let t = trim_spec(value);
    ||| ends_with_spec(t, seq!['.'])
    ||| t == "n"@
    ||| t == "v"@
    ||| t == "vi"@
    ||| t == "vt"@
    ||| t == "adj"@
    ||| t == "adv"@
    ||| t == "prep"@
}

/// Whether a word is a part-of-speech tag.
pub fn looks_like_pos(value: &str) -> (r: bool)
    ensures
        r == looks_like_pos_spec(value@),
{
    let t = trim(value);
    let n = t.unicode_len();
    let ends_with_dot = n > 0 && t.get_char(n - 1) == '.';
    proof {
        assert(ends_with_dot == ends_with_spec(t@, seq!['.'])) by {
            if n > 0 {
                assert(t@.skip(n - 1) =~= seq![t@[n - 1]]);
                assert(seq![t@[n - 1]][0] == t@[n - 1]);
                assert(t@[n - 1] == '.' ==> seq![t@[n - 1]] =~= seq!['.']);
            }
        }
    }
    ends_with_dot || str_eq(t, "n") || str_eq(t, "v") || str_eq(t, "vi") || str_eq(t, "vt") || str_eq(
        t,
        "adj",
    ) || str_eq(t, "adv") || str_eq(t, "prep")
}

/// Whether `k` is the first place of `c` in `s`.
pub open spec fn first_index_of(s: Seq<char>, c: char, k: int) -> bool {
    0 <= k < s.len() && s[k] == c && forall|j: int| 0 <= j < k ==> s[j] != c
}

/// A translation line cut into its part-of-speech tag and the rest: at the
/// first space, when what comes before it looks like a tag; else no tag and
/// the whole line. Texts are trimmed and dropped when blank.
pub open spec fn split_pos_prefix_spec(line: Seq<char>) -> (Option<Seq<char>>, Option<Seq<char>>) {
    if exists|k: int| first_index_of(line, ' ', k) {
        let k = choose|k: int| first_index_of(line, ' ', k);
        let first = line.take(k);
        if looks_like_pos_spec(first) {
            (Some(first), non_empty_spec(trim_spec(line.skip(k + 1))))
        } else {
            (None, non_empty_spec(trim_spec(line)))
        }
    } else {
        (None, non_empty_spec(trim_spec(line)))
    }
}

/// A translation line cut into its part-of-speech tag and the rest.
pub fn split_pos_prefix(line: &str) -> (r: (Option<String>, Option<String>))
    ensures
        (r.0.deep_view(), r.1.deep_view()) == split_pos_prefix_spec(line@),
{
    let n = line.unicode_len();
    let mut k: usize = 0;
    while k < n && line.get_char(k) != ' '
        invariant
            n == line@.len(),
            k <= n,
            forall|j: int| 0 <= j < k ==> line@[j] != ' ',
        decreases n - k,
    {
        k = k + 1;
    }
    if k == n {
        assert(!exists|k: int| first_index_of(line@, ' ', k));
        return (None, non_empty_trimmed(line));
    }
    assert(first_index_of(line@, ' ', k as int));
    assert forall|m: int| first_index_of(line@, ' ', m) implies m == k by {
        if m < k {
        } else if m > k {
            assert(line@[k as int] == ' ');
        }
    }
    let first = line.substring_char(0, k);
    let rest = line.substring_char(k + 1, n);
    assert(first@ == line@.take(k as int));
    assert(rest@ == line@.skip(k + 1));
    if looks_like_pos(first) {
        (Some(String::from_str(first)), non_empty_trimmed(rest))
    } else {
        (None, non_empty_trimmed(line))
    }
}

/// The sense that the lines at place `i` make: the source-language line, the
/// translation line cut at its tag, and the tag or else the record's part of
/// speech; kept if it has a source-language or a target-language text.
pub open spec fn sense_at(
    chinese: Seq<Seq<char>>,
    english: Seq<Seq<char>>,
    fallback: Option<Seq<char>>,
) -> spec_fn(int) -> Option<DefinitionView> {
    |i: int|
        {
            let source = if i < english.len() {
                Some(english[i])
            } else {
                None
            };
            let cut = if i < chinese.len() {
                split_pos_prefix_spec(chinese[i])
            } else {
                (None, None)
            };
            let pos = match cut.0 {
                Some(p) => Some(p),
                None => fallback,
            };
            if source is Some || cut.1 is Some {
                Some(DefinitionView { part_of_speech: pos, source, target: cut.1 })
            } else {
                None
            }
        }
}

/// The senses of a record: line `i` of the translations goes with line `i` of
/// the definitions, as many as the longer of the two has.
pub open spec fn build_definitions_spec(record: EcdictRecord) -> Seq<DefinitionView> {
    let chinese = split_lines_spec(record.translation.deep_view());
    let english = split_lines_spec(record.definition.deep_view());
    let fallback = empty_to_none_spec(record.pos.deep_view());
    let len = if chinese.len() > english.len() {
        chinese.len()
    } else {
        english.len()
    };
    Seq::new(len, |i: int| i).filter_map(sense_at(chinese, english, fallback))
}

proof fn lemma_lines_end_in_text(value: Option<Seq<char>>)
    ensures
        forall|i: int|
            0 <= i < split_lines_spec(value).len() ==> (#[trigger] split_lines_spec(value)[i]).len() > 0
                && !is_white_space(split_lines_spec(value)[i].last()),
{
    let pieces = split_spec(opt_text(value), '\n');
    let lines = split_lines_spec(value);
    assert forall|i: int| 0 <= i < lines.len() implies (#[trigger] lines[i]).len() > 0
        && !is_white_space(lines[i].last()) by {
        assert(lines.contains(lines[i]));
        pieces.lemma_filter_map_contains(kept_line(), lines[i]);
        let t = choose|t: Seq<char>| #[trigger] pieces.contains(t) && kept_line()(t) == Some(lines[i]);
        lemma_trim_ends_in_text(t);
    }
}

proof fn lemma_translation_line_has_text(line: Seq<char>)
    requires
        line.len() > 0,
        !is_white_space(line.last()),
    ensures
        split_pos_prefix_spec(line).1 is Some,
{
    lemma_trim_keeps_text(line);
    if exists|k: int| first_index_of(line, ' ', k) {
        let k = choose|k: int| first_index_of(line, ' ', k);
        if looks_like_pos_spec(line.take(k)) {
            let rest = line.skip(k + 1);
            assert(is_white_space(line[k]));
            assert(k + 1 < line.len());
            assert(rest.last() == line.last());
            lemma_trim_keeps_text(rest);
        }
    }
}

proof fn lemma_all_kept(len: nat, f: spec_fn(int) -> Option<DefinitionView>)
    requires
        forall|i: int| 0 <= i < len ==> (#[trigger] f(i)) is Some,
    ensures
        Seq::new(len, |i: int| i).filter_map(f).len() == len,
        forall|i: int|
            0 <= i < len ==> Seq::new(len, |i: int| i).filter_map(f)[i] == (#[trigger] f(i))->0,
    decreases len,
{
    if len > 0 {
        let n = (len - 1) as nat;
        lemma_all_kept(n, f);
        assert(Seq::new(len, |i: int| i).drop_last() =~= Seq::new(n, |i: int| i));
        assert(Seq::new(len, |i: int| i).last() == n as int);
    }
}

/// Law: every non-blank line of a record's translations and of its
/// definitions makes a sense. A record has as many senses as its longer field
/// has lines; sense `i` takes definition line `i` as its source, and the text
/// of translation line `i` after its part-of-speech tag as its target.
pub proof fn lemma_every_line_makes_a_sense(record: EcdictRecord)
    ensures
        build_definitions_spec(record).len() == if split_lines_spec(record.translation.deep_view()).len()
            > split_lines_spec(record.definition.deep_view()).len() {
            split_lines_spec(record.translation.deep_view()).len()
        } else {
            split_lines_spec(record.definition.deep_view()).len()
        },
        forall|i: int|
            0 <= i < split_lines_spec(record.translation.deep_view()).len()
                ==> #[trigger] build_definitions_spec(record)[i].target == split_pos_prefix_spec(
                split_lines_spec(record.translation.deep_view())[i],
            ).1,
        forall|i: int|
            0 <= i < split_lines_spec(record.translation.deep_view()).len()
                ==> (#[trigger] build_definitions_spec(record)[i]).target is Some,
        forall|i: int|
            0 <= i < split_lines_spec(record.definition.deep_view()).len() ==> build_definitions_spec(
                record,
            )[i].source == Some(#[trigger] split_lines_spec(record.definition.deep_view())[i]),
{
    let chinese = split_lines_spec(record.translation.deep_view());
    let english = split_lines_spec(record.definition.deep_view());
    let fallback = empty_to_none_spec(record.pos.deep_view());
    let longest = if english.len() < chinese.len() {
        chinese.len()
    } else {
        english.len()
    };
    let f = sense_at(chinese, english, fallback);
    lemma_lines_end_in_text(record.translation.deep_view());
    assert forall|i: int| 0 <= i < longest implies (#[trigger] f(i)) is Some by {
        if i < chinese.len() {
            lemma_translation_line_has_text(chinese[i]);
        }
    }
    lemma_all_kept(longest, f);
    assert forall|i: int| 0 <= i < chinese.len() implies (#[trigger] build_definitions_spec(record)[i]).target
        == split_pos_prefix_spec(chinese[i]).1 && split_pos_prefix_spec(chinese[i]).1 is Some by {
        lemma_translation_line_has_text(chinese[i]);
        assert(f(i) is Some);
    }
    assert forall|i: int| 0 <= i < english.len() implies build_definitions_spec(record)[i].source
        == Some(#[trigger] english[i]) by {
        assert(f(i) is Some);
    }
}

fn as_opt_str(o: &Option<String>) -> (r: Option<&str>)
    ensures
        r.deep_view() == o.deep_view(),
{
    match o {
        Some(s) => Some(s.as_str()),
        None => None,
    }
}

/// The senses of a record, pairing translation lines with definition lines.
pub fn build_definitions(record: &EcdictRecord) -> (r: Vec<Definition>)
    ensures
        r.deep_view() == build_definitions_spec(*record),
{
    let chinese_lines = split_lines(as_opt_str(&record.translation));
    let english_lines = split_lines(as_opt_str(&record.definition));
    let fallback_pos = empty_to_none(as_opt_str(&record.pos));
    let ghost c = chinese_lines.deep_view();
    let ghost e = english_lines.deep_view();
    let ghost fb = fallback_pos.deep_view();
    let len = if chinese_lines.len() > english_lines.len() {
        chinese_lines.len()
    } else {
        english_lines.len()
    };
    let ghost idx = Seq::new(len as nat, |i: int| i);
    let ghost f = sense_at(c, e, fb);
    let mut defs: Vec<Definition> = Vec::new();
    let mut i: usize = 0;
    while i < len
        invariant
            c == chinese_lines.deep_view(),
            e == english_lines.deep_view(),
            fb == fallback_pos.deep_view(),
            idx == Seq::new(len as nat, |i: int| i),
            f == sense_at(c, e, fb),
            i <= len,
            defs.deep_view() == idx.take(i as int).filter_map(f),
        decreases len - i,
    {
        proof {
            idx.lemma_filter_map_take_succ(f, i as int);
        }
        let english = if i < english_lines.len() {
            Some(english_lines[i].clone())
        } else {
            None
        };
        let cut = if i < chinese_lines.len() {
            split_pos_prefix(chinese_lines[i].as_str())
        } else {
            (None, None)
        };
        let (pos, chinese) = cut;
        let part_of_speech = match pos {
            Some(p) => Some(p),
            None => match &fallback_pos {
                Some(p) => Some(p.clone()),
                None => None,
            },
        };
        let ghost before = defs.deep_view();
        if english.is_some() || chinese.is_some() {
            let d = Definition { part_of_speech, source: english, target: chinese };
            defs.push(d);
            assert(defs.deep_view() =~= before + seq![d.deep_view()]);
        }
        i = i + 1;
    }
    assert(idx.take(len as int) == idx);
    defs
}

/// The key under which a record is indexed: its word lower-cased, or none
/// when the word is blank.
pub open spec fn index_key_spec(record: EcdictRecord) -> Option<Seq<char>> {
    if trim_spec(record.word@).len() == 0 {
        None
    } else {
        Some(lowercase(record.word@))
    }
}

/// The key under which a record is indexed, or none when its word is blank.
pub fn index_key(record: &EcdictRecord) -> (r: Option<String>)
    ensures
        r.deep_view() == index_key_spec(*record),
{
    if trim(record.word.as_str()).is_empty() {
        None
    } else {
        Some(to_lowercase(record.word.as_str()))
    }
}


/// The index after `record` is read: the record under its key, in place of
/// any earlier record with that key; a record without a key changes nothing.
pub open spec fn index_add(index: Map<Seq<char>, EcdictRecord>, record: EcdictRecord) -> Map<
    Seq<char>,
    EcdictRecord,
> {
    match index_key_spec(record) {
        Some(k) => index.insert(k, record),
        None => index,
    }
}

/// The index of a list of records read in order.
pub open spec fn index_of_records(records: Seq<EcdictRecord>) -> Map<Seq<char>, EcdictRecord>
    decreases records.len(),
{
    if records.len() == 0 {
        Map::empty()
    } else {
        index_add(index_of_records(records.drop_last()), records.last())
    }
}

/// The word list indexed by lower-cased word.
pub struct EcdictIndex {
    map: StringHashMap<EcdictRecord>,
}

impl View for EcdictIndex {
    type V = Map<Seq<char>, EcdictRecord>;

    closed spec fn view(&self) -> Map<Seq<char>, EcdictRecord> {
        self.map@
    }
}

impl EcdictIndex {
    /// The index of no records.
    pub fn new() -> (r: EcdictIndex)
        ensures
            r@ == Map::<Seq<char>, EcdictRecord>::empty(),
    {
        EcdictIndex { map: StringHashMap::new() }
    }

    /// Reads one more record into the index.
    pub fn add(&mut self, record: EcdictRecord)
        ensures
            final(self)@ == index_add(old(self)@, record),
    {
        match index_key(&record) {
            Some(key) => self.map.insert(key, record),
            None => {},
        }
    }

    /// The record that a lookup of `word` finds: the one under `word` lower-cased.
    pub fn find(&self, word: &str) -> (r: Option<&EcdictRecord>)
        ensures
            match r {
                Some(rec) => self@.contains_key(lowercase(word@)) && *rec == self@[lowercase(word@)],
                None => !self@.contains_key(lowercase(word@)),
            },
    {
        let key = to_lowercase(word);
        self.map.get(key.as_str())
    }
}

/// Law: the index holds, under each key, the last record with that key, and
/// no key that no record has.
pub proof fn lemma_index_last_record_wins(records: Seq<EcdictRecord>, k: Seq<char>)
    ensures
        index_of_records(records).contains_key(k) <==> exists|i: int|
            0 <= i < records.len() && #[trigger] index_key_spec(records[i]) == Some(k),
        index_of_records(records).contains_key(k) ==> exists|i: int|
            {
                &&& 0 <= i < records.len()
                &&& #[trigger] index_key_spec(records[i]) == Some(k)
                &&& index_of_records(records)[k] == records[i]
                &&& forall|j: int| i < j < records.len() ==> index_key_spec(records[j]) != Some(k)
            },
    decreases records.len(),
{
    if records.len() > 0 {
        let init = records.drop_last();
        let n = records.len() - 1;
        lemma_index_last_record_wins(init, k);
        if index_key_spec(records[n]) == Some(k) {
            assert(index_key_spec(records[n]) == Some(k));
        } else {
            if exists|i: int| 0 <= i < records.len() && #[trigger] index_key_spec(records[i]) == Some(k) {
                let i = choose|i: int| 0 <= i < records.len() && #[trigger] index_key_spec(records[i]) == Some(k);
                assert(init[i] == records[i]);
                assert(index_key_spec(init[i]) == Some(k));
            }
            if index_of_records(init).contains_key(k) {
                let i = choose|i: int|
                    {
                        &&& 0 <= i < init.len()
                        &&& #[trigger] index_key_spec(init[i]) == Some(k)
                        &&& index_of_records(init)[k] == init[i]
                        &&& forall|j: int| i < j < init.len() ==> index_key_spec(init[j]) != Some(k)
                    };
                assert(records[i] == init[i]);
                assert(index_key_spec(records[i]) == Some(k));
                assert forall|j: int| i < j < records.len() implies index_key_spec(records[j]) != Some(k) by {
                    if j < n {
                        assert(records[j] == init[j]);
                    }
                }
            }
        }
    }
}

/// Whether `r` is what an ECDICT lookup of `word` gives when the word list
/// has no row for it.
pub open spec fn ecdict_not_found(r: WordEntry, word: Seq<char>) -> bool {
    &&& r.word@ == word
    &&& r.status == QueryStatus::Failed
    &&& r.error.deep_view() == Some("ECDICT 本地词库未找到该单词"@)
    &&& r.source@ == ecdict_name_spec()
    &&& r.phonetic is None
    &&& r.definitions@.len() == 0
    &&& r.examples@.len() == 0
    &&& r.ai_status is None
    &&& r.ai_reason is None
    &&& r.query_type is None
}

/// Whether `r` is what an ECDICT lookup gives for the row `record`, read
/// from the word list at `cache_path`: the row's word, phonetic and senses;
/// partly successful, with a note, when the row has no senses.
pub open spec fn ecdict_found(r: WordEntry, record: EcdictRecord, cache_path: Seq<char>) -> bool {
    let defs = build_definitions_spec(record);
    &&& r.word == record.word
    &&& r.phonetic.deep_view() == empty_to_none_spec(record.phonetic.deep_view())
    &&& r.definitions.deep_view() == defs
    &&& r.examples@.len() == 0
    &&& r.source@ == ecdict_name_spec() + " ("@ + cache_path + ")"@
    &&& r.status == (if defs.len() == 0 {
        QueryStatus::PartialSuccess
    } else {
        QueryStatus::Success
    })
    &&& r.error.deep_view() == (if defs.len() == 0 {
        Some("找到单词，但词条缺少释义"@)
    } else {
        None
    })
    &&& r.ai_status is None
    &&& r.ai_reason is None
    &&& r.query_type is None
}

/// The entry that an ECDICT lookup of `word` gives at time `queried_at`, given
/// the row that the word list holds for it, if any.
pub fn ecdict_entry_at(
    word: &str,
    record: Option<&EcdictRecord>,
    cache_path: &str,
    queried_at: String,
) -> (r: WordEntry)
    ensures
        r.queried_at == queried_at,
        record is None ==> ecdict_not_found(r, word@),
        record matches Some(rec) ==> ecdict_found(r, *rec, cache_path@),
{
    match record {
        None => WordEntry::failed_at(
            String::from_str(word),
            String::from_str(ecdict_name()),
            String::from_str("ECDICT 本地词库未找到该单词"),
            queried_at,
        ),
        Some(rec) => {
            let definitions = build_definitions(rec);
            let empty = definitions.len() == 0;
            let mut source = String::from_str(ecdict_name());
            source.append(" (");
            source.append(cache_path);
            source.append(")");
            WordEntry {
                word: rec.word.clone(),
                phonetic: empty_to_none(as_opt_str(&rec.phonetic)),
                definitions,
                examples: Vec::new(),
                source,
                queried_at,
                status: if empty {
                    QueryStatus::PartialSuccess
                } else {
                    QueryStatus::Success
                },
                error: if empty {
                    Some(String::from_str("找到单词，但词条缺少释义"))
                } else {
                    None
                },
                ai_status: None,
                ai_reason: None,
                query_type: None,
            }
        },
    }
}

/// The entry that an ECDICT lookup of `word` gives now.
pub fn ecdict_entry(word: &str, record: Option<&EcdictRecord>, cache_path: &str) -> (r: WordEntry)
    ensures
        record is None ==> ecdict_not_found(r, word@),
        record matches Some(rec) ==> ecdict_found(r, *rec, cache_path@),
        time_text(r.queried_at@),
{
    ecdict_entry_at(word, record, cache_path, queried_at_now())
}

} // verus!
