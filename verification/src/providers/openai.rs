use vstd::prelude::*;

use crate::error::AppError;
use crate::models::{queried_at_now, time_text, Definition, Example, QueryStatus, WordEntry};
use crate::text::{
    ascii_lowercase_spec, concat, ends_with, ends_with_spec, eq_ignore_ascii_case, eq_ignore_ascii_case_spec,
    non_empty_spec, starts_with_spec, strip_prefix, trim, trim_end_matches, trim_end_matches_spec,
    trim_spec,
};

verus! {

/// The start of the user message, before the JSON-quoted query.
pub const PROMPT_HEAD: &'static str = r#"
You are a strict multilingual dictionary engine.

The user input is JSON:
{"query": "#;

/// What stands between the query and the source language.
pub const PROMPT_SOURCE: &'static str = r#", "source_language": "#;

/// What stands between the source and the target language.
pub const PROMPT_TARGET: &'static str = r#", "target_language": "#;

/// The rest of the user message: the task, the schema and the rules.
pub const PROMPT_TAIL: &'static str = r#"}

Task:
1. First classify the query.
2. Only create a dictionary entry if the query is a real word, lexical item, or common phrase in source_language.
3. Do not invent meanings.
4. Do not explain random strings, hashes, tokens, code, shell commands, URLs, memes, unsafe commands, or text that is not in source_language as dictionary words.
5. If the query is invalid for the requested dictionary, return status "invalid".

Return strict JSON only. No markdown.

Schema:
{
  "status": "success" | "invalid",
  "reason": "...",
  "word": "...",
  "query_type": "word" | "phrase" | "proper_noun" | "slang" | "code_or_command" | "random_string" | "non_source_language" | "unsafe" | "unknown",
  "phonetic": null,
  "definitions": [
    {
      "part_of_speech": "n.|v.|adj.|adv.|phr.|...",
      "source": "definition in source_language",
      "target": "definition or translation in target_language"
    }
  ],
  "examples": [
    {
      "source": "example sentence in source_language",
      "target": "example translation in target_language"
    }
  ]
}

For success, fill phonetic, definitions, and examples.
For invalid, definitions and examples must be empty arrays.
For invalid, phonetic must be null.
For proper nouns, return invalid unless it is commonly used as a lexical item in source_language.
If unsure, return invalid.
"#;

/// The system message.
pub const SYSTEM_PROMPT: &'static str = "You are a strict multilingual dictionary engine. Return strict JSON only, without markdown fences.";

/// The lower-case hexadecimal digit of `n`, for `0 <= n < 16`.
pub open spec fn hex_digit(n: u32) -> char {
    if n < 10 {
        (('0' as u32) + n) as char
    } else {
        (('a' as u32) + n - 10) as char
    }
}

/// How a JSON string literal writes one character: a quote, a backslash and
/// the control characters are escaped (with the short forms `\b`, `\t`,
/// `\n`, `\f`, `\r` where JSON has them, else `\u00` and two hex digits);
/// every other character stands for itself.
pub open spec fn json_escape_char(c: char) -> Seq<char> {
    let n = c as u32;
    if c == '"' {
        seq!['\\', '"']
    } else if c == '\\' {
        seq!['\\', '\\']
    } else if n == 8 {
        seq!['\\', 'b']
    } else if n == 9 {
        seq!['\\', 't']
    } else if n == 10 {
        seq!['\\', 'n']
    } else if n == 12 {
        seq!['\\', 'f']
    } else if n == 13 {
        seq!['\\', 'r']
    } else if n < 32 {
        seq!['\\', 'u', '0', '0', hex_digit(n / 16), hex_digit(n % 16)]
    } else {
        seq![c]
    }
}

/// The characters of `s`, each written as `json_escape_char` writes it.
pub open spec fn json_escaped(s: Seq<char>) -> Seq<char>
    decreases s.len(),
{
    if s.len() == 0 {
        Seq::empty()
    } else {
        json_escaped(s.drop_last()) + json_escape_char(s.last())
    }
}

/// The JSON string literal of `s`: its escaped characters between double quotes.
pub open spec fn json_string(s: Seq<char>) -> Seq<char> {
    seq!['"'] + json_escaped(s) + seq!['"']
}

/// Calls `serde_json::to_string` on a string slice. Serialising a `&str`
/// into memory cannot fail; the result is the quoted string with `"`, `\\`
/// and the control characters escaped, which is `json_string` of its characters.
#[verifier::external_body]
fn to_json_string(s: &str) -> (r: Result<String, serde_json::Error>)
    ensures
        r is Ok,
        r matches Ok(j) ==> j@ == json_string(s@),
{
    serde_json::to_string(s)
}

/// One chat message.
#[derive(Debug, Clone)]
pub struct Message {
    pub role: String,
    pub content: String,
}

/// A chat-completions request.
#[derive(Debug, Clone)]
pub struct ChatRequest {
    pub model: String,
    pub messages: Vec<Message>,
}

/// The text of a chat reply.
#[derive(Debug, Clone)]
pub struct ChoiceMessage {
    pub content: String,
}

/// One choice of a chat reply.
#[derive(Debug, Clone)]
pub struct Choice {
    pub message: ChoiceMessage,
}

/// A chat-completions reply.
#[derive(Debug, Clone)]
pub struct ChatResponse {
    pub choices: Vec<Choice>,
}

/// The dictionary entry that the AI writes as JSON.
#[derive(Debug, Clone)]
pub struct OpenAiEntry {
    pub status: Option<String>,
    pub reason: Option<String>,
    pub word: Option<String>,
    pub query_type: Option<String>,
    pub phonetic: Option<String>,
    pub definitions: Vec<Definition>,
    pub examples: Vec<Example>,
}

/// The values of the environment variables that the AI settings fall back on.
#[derive(Debug, Clone, Default)]
pub struct ProviderEnvironment {
    pub ai_api_key: Option<String>,
    pub openai_api_key: Option<String>,
    pub ai_api_base_url: Option<String>,
    pub openai_api_base_url: Option<String>,
}

/// The AI dictionary source (an OpenAI-compatible chat-completions service).
#[derive(Debug, Clone)]
pub struct OpenAiProvider {
    pub api_key: String,
    pub model: String,
    pub api_base_url: String,
    pub source_language: String,
    pub target_language: String,
}

/// The user message for a query: the query and the two languages, each as
/// a JSON string, inside the fixed instructions.
pub open spec fn user_prompt_spec(word: Seq<char>, source: Seq<char>, target: Seq<char>) -> Seq<char> {
    PROMPT_HEAD@ + json_string(word) + PROMPT_SOURCE@ + json_string(source) + PROMPT_TARGET@
        + json_string(target) + PROMPT_TAIL@
}

/// A value given in the interface, kept if it is not blank.
pub open spec fn given(value: Option<String>) -> Option<Seq<char>> {
    match value {
        Some(v) => if trim_spec(v@).len() > 0 {
            Some(v@)
        } else {
            None
        },
        None => None,
    }
}

/// The first of three optional values that is present.
pub open spec fn first_of(a: Option<Seq<char>>, b: Option<Seq<char>>, c: Option<Seq<char>>) -> Option<
    Seq<char>,
> {
    match a {
        Some(x) => Some(x),
        None => match b {
            Some(y) => Some(y),
            None => c,
        },
    }
}

/// The API key: the one given, if not blank, else `AI_API_KEY`, else `OPENAI_API_KEY`.
pub open spec fn api_key_spec(api_key: Option<String>, env: ProviderEnvironment) -> Option<Seq<char>> {
    first_of(given(api_key), env.ai_api_key.deep_view(), env.openai_api_key.deep_view())
}

/// The base URL: the one given, if not blank, else `AI_API_BASE_URL`, else
/// `OPENAI_API_BASE_URL`, else the OpenAI one.
pub open spec fn api_base_url_spec(api_base_url: Option<String>, env: ProviderEnvironment) -> Seq<char> {
    match first_of(given(api_base_url), env.ai_api_base_url.deep_view(), env.openai_api_base_url.deep_view()) {
        Some(u) => u,
        None => "https://api.openai.com/v1"@,
    }
}

fn given_value(value: Option<String>) -> (r: Option<String>)
    ensures
        r.deep_view() == given(value),
{
    match value {
        Some(v) => if trim(v.as_str()).is_empty() {
            None
        } else {
            Some(v)
        },
        None => None,
    }
}

fn first_of_three(a: Option<String>, b: Option<String>, c: Option<String>) -> (r: Option<String>)
    ensures
        r.deep_view() == first_of(a.deep_view(), b.deep_view(), c.deep_view()),
{
    match a {
        Some(x) => Some(x),
        None => match b {
            Some(y) => Some(y),
            None => c,
        },
    }
}

impl OpenAiProvider {
    /// The source from its settings, falling back on the environment for the
    /// key and the base URL, and on `gpt-4o-mini` for the model. Fails with a
    /// configuration error exactly when no key can be found.
    pub fn from_config(
        api_key: Option<String>,
        model: Option<String>,
        api_base_url: Option<String>,
        source_language: String,
        target_language: String,
        env: ProviderEnvironment,
    ) -> (r: Result<Self, AppError>)
        ensures
            r is Err <==> api_key_spec(api_key, env) is None,
            r matches Err(e) ==> e matches AppError::Config(m) && m@
                == "缺少 AI API Key，可在界面输入或设置 AI_API_KEY / OPENAI_API_KEY"@,
            r matches Ok(p) ==> {
                &&& Some(p.api_key@) == api_key_spec(api_key, env)
                &&& p.api_base_url@ == api_base_url_spec(api_base_url, env)
                &&& p.model@ == (match model {
                    Some(m) => m@,
                    None => "gpt-4o-mini"@,
                })
                &&& p.source_language == source_language
                &&& p.target_language == target_language
            },
    {
        let key = first_of_three(given_value(api_key), env.ai_api_key, env.openai_api_key);
        let key = match key {
            Some(k) => k,
            None => {
                return Err(
                    AppError::Config(
                        String::from_str(
                            "缺少 AI API Key，可在界面输入或设置 AI_API_KEY / OPENAI_API_KEY",
                        ),
                    ),
                );
            },
        };
        let base = match first_of_three(
            given_value(api_base_url),
            env.ai_api_base_url,
            env.openai_api_base_url,
        ) {
            Some(u) => u,
            None => String::from_str("https://api.openai.com/v1"),
        };
        let model = match model {
            Some(m) => m,
            None => String::from_str("gpt-4o-mini"),
        };
        Ok(OpenAiProvider {
            api_key: key,
            model,
            api_base_url: base,
            source_language,
            target_language,
        })
    }

    /// The name of the AI source.
    pub fn name(&self) -> (r: &'static str)
        ensures
            r@ == "openai-compatible"@,
    {
        "openai-compatible"
    }

    /// The source that entries from this provider record: its name and model.
    pub fn source_label(&self) -> (r: String)
        ensures
            r@ == "openai-compatible ("@ + self.model@ + ")"@,
    {
        let mut s = String::from_str("openai-compatible (");
        s.append(self.model.as_str());
        s.append(")");
        s
    }

    /// The chat request for a query: the model, the system message, and the
    /// user message with the query and the languages as JSON strings.
    pub fn chat_request(&self, word: &str) -> (r: Result<ChatRequest, AppError>)
        ensures
            r matches Ok(req) ==> {
                &&& req.model == self.model
                &&& req.messages@.len() == 2
                &&& req.messages@[0].role@ == "system"@
                &&& req.messages@[0].content@ == SYSTEM_PROMPT@
                &&& req.messages@[1].role@ == "user"@
                &&& req.messages@[1].content@ == user_prompt_spec(
                    word@,
                    self.source_language@,
                    self.target_language@,
                )
            },
            r is Ok,
    {
        let word_json = match to_json_string(word) {
            Ok(j) => j,
            Err(e) => {
                return Err(AppError::Json(e));
            },
        };
        let source_json = match to_json_string(self.source_language.as_str()) {
            Ok(j) => j,
            Err(e) => {
                return Err(AppError::Json(e));
            },
        };
        let target_json = match to_json_string(self.target_language.as_str()) {
            Ok(j) => j,
            Err(e) => {
                return Err(AppError::Json(e));
            },
        };
        let mut content = String::from_str(PROMPT_HEAD);
        content.append(word_json.as_str());
        content.append(PROMPT_SOURCE);
        content.append(source_json.as_str());
        content.append(PROMPT_TARGET);
        content.append(target_json.as_str());
        content.append(PROMPT_TAIL);
        let system = Message {
            role: String::from_str("system"),
            content: String::from_str(SYSTEM_PROMPT),
        };
        let user = Message { role: String::from_str("user"), content };
        let messages = vec![system, user];
        Ok(ChatRequest { model: self.model.clone(), messages })
    }
}


/// The chat-completions endpoint for a base URL: the base trimmed of white
/// space and trailing slashes, with `/chat/completions` added unless it ends so.
pub open spec fn chat_completions_url_spec(api_base_url: Seq<char>) -> Seq<char> {
    let t = trim_end_matches_spec(trim_spec(api_base_url), "/"@);
    if ends_with_spec(t, "/chat/completions"@) {
        t
    } else {
        t + "/chat/completions"@
    }
}

/// The chat-completions endpoint for a base URL.
pub fn chat_completions_url(api_base_url: &str) -> (r: String)
    ensures
        r@ == chat_completions_url_spec(api_base_url@),
{
    let trimmed = trim_end_matches(trim(api_base_url), "/");
    if ends_with(trimmed, "/chat/completions") {
        String::from_str(trimmed)
    } else {
        concat(trimmed, "/chat/completions")
    }
}

/// The text of the first choice of a reply; a reply without choices is a
/// parse error.
pub fn first_choice_content(chat: &ChatResponse) -> (r: Result<&str, AppError>)
    ensures
        chat.choices@.len() == 0 <==> r is Err,
        r matches Ok(c) ==> c@ == chat.choices@[0].message.content@,
        r matches Err(e) ==> e matches AppError::Parse(m) && m@ == "AI API 返回缺少 choices"@,
{
    if chat.choices.len() == 0 {
        Err(AppError::Parse(String::from_str("AI API 返回缺少 choices")))
    } else {
        Ok(chat.choices[0].message.content.as_str())
    }
}

/// The part of a fenced reply inside the fence.
pub open spec fn unfence_spec(stripped: Seq<char>) -> Seq<char> {
    trim_spec(trim_end_matches_spec(trim_spec(stripped), "```"@))
}

/// A reply with white space trimmed and a Markdown code fence (`"```json"`
/// or `"```"` ... `"```"`) taken off.
pub open spec fn clean_json_content_spec(content: Seq<char>) -> Seq<char> {
    let t = trim_spec(content);
    if starts_with_spec(t, "```json"@) {
        unfence_spec(t.skip("```json"@.len() as int))
    } else if starts_with_spec(t, "```"@) {
        unfence_spec(t.skip("```"@.len() as int))
    } else {
        t
    }
}

/// A reply with white space and a Markdown code fence taken off.
pub fn clean_json_content(content: &str) -> (r: &str)
    ensures
        r@ == clean_json_content_spec(content@),
{
    let trimmed = trim(content);
    if let Some(stripped) = strip_prefix(trimmed, "```json") {
        return trim(trim_end_matches(trim(stripped), "```"));
    }
    if let Some(stripped) = strip_prefix(trimmed, "```") {
        return trim(trim_end_matches(trim(stripped), "```"));
    }
    trimmed
}

/// A text trimmed, if it is present and not blank.
pub open spec fn trimmed_present(value: Option<String>) -> Option<Seq<char>> {
    match value {
        Some(v) => non_empty_spec(trim_spec(v@)),
        None => None,
    }
}

impl OpenAiEntry {
    /// Why the AI refused a query: its reason (or a stock one), after the
    /// query type in brackets when there is one.
    pub open spec fn invalid_reason_spec(self) -> Seq<char> {
        let reason = match trimmed_present(self.reason) {
            Some(r) => r,
            None => "Not a valid English dictionary query"@,
        };
        match trimmed_present(self.query_type) {
            Some(q) => "Invalid dictionary query ("@ + q + "): "@ + reason,
            None => "Invalid dictionary query: "@ + reason,
        }
    }

    /// Why the AI refused a query.
    pub fn invalid_reason(&self) -> (r: String)
        ensures
            r@ == self.invalid_reason_spec(),
    {
        let reason: &str = match &self.reason {
            Some(r) => {
                let t = trim(r.as_str());
                if t.is_empty() {
                    "Not a valid English dictionary query"
                } else {
                    t
                }
            },
            None => "Not a valid English dictionary query",
        };
        let query_type: Option<&str> = match &self.query_type {
            Some(q) => {
                let t = trim(q.as_str());
                if t.is_empty() {
                    None
                } else {
                    Some(t)
                }
            },
            None => None,
        };
        match query_type {
            Some(q) => {
                let mut s = String::from_str("Invalid dictionary query (");
                s.append(q);
                s.append("): ");
                s.append(reason);
                s
            },
            None => concat("Invalid dictionary query: ", reason),
        }
    }
}

/// The status that the AI gave, `"invalid"` when it gave none.
pub open spec fn ai_status_spec(parsed: OpenAiEntry) -> Seq<char> {
    match parsed.status {
        Some(s) => s@,
        None => "invalid"@,
    }
}

/// Whether `r` is the entry that the AI's answer `parsed` to a query for
/// `word` gives: a failure with the refusal reason when the status is
/// `invalid`, a failure naming the status when it is neither `invalid` nor
/// `success`, else the AI's word (or the query), phonetic, senses and
/// examples; in every case with the AI's status, reason and query type
/// (ASCII case is ignored in the status).
pub open spec fn ai_entry_spec(
    word: Seq<char>,
    source: Seq<char>,
    parsed: OpenAiEntry,
    r: WordEntry,
) -> bool {
    let status = ai_status_spec(parsed);
    &&& r.source@ == source
    &&& r.ai_status.deep_view() == Some(status)
    &&& r.ai_reason == parsed.reason
    &&& r.query_type == parsed.query_type
    &&& if eq_ignore_ascii_case_spec(status, "invalid"@) {
        &&& r.word@ == word
        &&& r.status == QueryStatus::Failed
        &&& r.error.deep_view() == Some(parsed.invalid_reason_spec())
        &&& r.phonetic is None
        &&& r.definitions@.len() == 0
        &&& r.examples@.len() == 0
    } else if !eq_ignore_ascii_case_spec(status, "success"@) {
        &&& r.word@ == word
        &&& r.status == QueryStatus::Failed
        &&& r.error.deep_view() == Some("AI returned unknown dictionary status: "@ + status)
        &&& r.phonetic is None
        &&& r.definitions@.len() == 0
        &&& r.examples@.len() == 0
    } else {
        &&& r.word@ == (match parsed.word {
            Some(w) => w@,
            None => word,
        })
        &&& r.status == QueryStatus::Success
        &&& r.error is None
        &&& r.phonetic == parsed.phonetic
        &&& r.definitions == parsed.definitions
        &&& r.examples == parsed.examples
    }
}

/// The entry that the AI's answer to a query gives, at time `queried_at`.
pub fn ai_entry_at(word: &str, source: String, parsed: OpenAiEntry, queried_at: String) -> (r:
    WordEntry)
    ensures
        ai_entry_spec(word@, source@, parsed, r),
        r.queried_at == queried_at,
{
    proof {
        reveal_strlit("invalid");
    }
    let status = match &parsed.status {
        Some(s) => s.clone(),
        None => String::from_str("invalid"),
    };
    let ai_status = Some(status.clone());
    if eq_ignore_ascii_case(status.as_str(), "invalid") {
        let reason = parsed.invalid_reason();
        return WordEntry::failed_at(String::from_str(word), source, reason, queried_at).with_ai_result(
            ai_status,
            parsed.reason,
            parsed.query_type,
        );
    }
    if !eq_ignore_ascii_case(status.as_str(), "success") {
        let message = concat("AI returned unknown dictionary status: ", status.as_str());
        return WordEntry::failed_at(String::from_str(word), source, message, queried_at).with_ai_result(
            ai_status,
            parsed.reason,
            parsed.query_type,
        );
    }
    WordEntry {
        word: match parsed.word {
            Some(w) => w,
            None => String::from_str(word),
        },
        phonetic: parsed.phonetic,
        definitions: parsed.definitions,
        examples: parsed.examples,
        source,
        queried_at,
        status: QueryStatus::Success,
        error: None,
        ai_status,
        ai_reason: parsed.reason,
        query_type: parsed.query_type,
    }
}

/// The entry that the AI's answer to a query gives, now.
pub fn ai_entry(word: &str, source: String, parsed: OpenAiEntry) -> (r: WordEntry)
    ensures
        ai_entry_spec(word@, source@, parsed, r),
        time_text(r.queried_at@),
{
    ai_entry_at(word, source, parsed, queried_at_now())
}

/// The failure that an unsuccessful HTTP status gives, at time `queried_at`.
pub fn http_status_failure_at(word: &str, source: String, status: &str, queried_at: String) -> (r:
    WordEntry)
    ensures
        r.word@ == word@,
        r.source == source,
        r.status == QueryStatus::Failed,
        r.error.deep_view() == Some("AI API HTTP 状态码 "@ + status@),
        r.queried_at == queried_at,
        r.definitions@.len() == 0,
        r.examples@.len() == 0,
        r.phonetic is None,
        r.ai_status is None,
        r.ai_reason is None,
        r.query_type is None,
{
    WordEntry::failed_at(
        String::from_str(word),
        source,
        concat("AI API HTTP 状态码 ", status),
        queried_at,
    )
}

/// The failure that an unsuccessful HTTP status gives, now.
pub fn http_status_failure(word: &str, source: String, status: &str) -> (r: WordEntry)
    ensures
        r.word@ == word@,
        r.source == source,
        r.status == QueryStatus::Failed,
        r.error.deep_view() == Some("AI API HTTP 状态码 "@ + status@),
        r.definitions@.len() == 0,
        r.examples@.len() == 0,
        r.phonetic is None,
        r.ai_status is None,
        r.ai_reason is None,
        r.query_type is None,
        time_text(r.queried_at@),
{
    http_status_failure_at(word, source, status, queried_at_now())
}


/// Law: an answer whose status is `success` (in any ASCII case) makes a
/// successful entry that carries exactly the AI's phonetic, senses and
/// examples, with no error.
pub proof fn lemma_ai_success_keeps_the_answer(
    word: Seq<char>,
    source: Seq<char>,
    parsed: OpenAiEntry,
    r: WordEntry,
)
    requires
        ai_entry_spec(word, source, parsed, r),
        parsed.status matches Some(s) && eq_ignore_ascii_case_spec(s@, "success"@),
    ensures
        r.status == QueryStatus::Success,
        r.error is None,
        r.phonetic == parsed.phonetic,
        r.definitions == parsed.definitions,
        r.examples == parsed.examples,
{
    reveal_strlit("success");
    reveal_strlit("invalid");
    let status = ai_status_spec(parsed);
    assert(ascii_lowercase_spec(status) == ascii_lowercase_spec("success"@));
    assert(ascii_lowercase_spec("success"@)[0] == 's');
    assert(ascii_lowercase_spec("invalid"@)[0] == 'i');
    assert(!eq_ignore_ascii_case_spec(status, "invalid"@));
}

/// Law: a base URL that is filled in is the one used; one left out or blank
/// falls back on `AI_API_BASE_URL` when it is set, else on
/// `OPENAI_API_BASE_URL` when it is set, and only when neither is set on the
/// OpenAI address. The API key falls back in the same order.
pub proof fn lemma_settings_fall_back_on_the_environment(
    api_key: Option<String>,
    api_base_url: Option<String>,
    env: ProviderEnvironment,
)
    ensures
        api_base_url is Some && trim_spec(api_base_url->0@).len() > 0 ==> api_base_url_spec(
            api_base_url,
            env,
        ) == api_base_url->0@,
        (api_base_url is None || trim_spec(api_base_url->0@).len() == 0) ==> api_base_url_spec(
            api_base_url,
            env,
        ) == (match env.ai_api_base_url {
            Some(u) => u@,
            None => match env.openai_api_base_url {
                Some(u) => u@,
                None => "https://api.openai.com/v1"@,
            },
        }),
        api_key is Some && trim_spec(api_key->0@).len() > 0 ==> api_key_spec(api_key, env) == Some(
            api_key->0@,
        ),
        (api_key is None || trim_spec(api_key->0@).len() == 0) ==> api_key_spec(api_key, env) == (
        match env.ai_api_key {
            Some(k) => Some(k@),
            None => match env.openai_api_key {
                Some(k) => Some(k@),
                None => None,
            },
        }),
{
}

/// Law: the endpoint always ends with `/chat/completions`.
pub proof fn lemma_chat_completions_url_suffix(api_base_url: Seq<char>)
    ensures
        ends_with_spec(chat_completions_url_spec(api_base_url), "/chat/completions"@),
{
    let t = trim_end_matches_spec(trim_spec(api_base_url), "/"@);
    let p = "/chat/completions"@;
    if !ends_with_spec(t, p) {
        assert((t + p).skip((t + p).len() - p.len()) =~= p);
    }
}

} // verus!
