use vstd::prelude::*;

use crate::config::LlmConfig;
use crate::speech::hex_digit;
use crate::state::text_result_view;
use vstd::utf8::{decode_utf8, encode_utf8, encode_utf8_decode_utf8, is_char_boundary};
use crate::text::{
    after_last, after_last_str, contains_seq, is_white_space, lemma_after_last_is_free,
    lemma_infix_keeps_absence, lemma_strip_trailing, lemma_trim_shape, strip_trailing,
    strip_trailing_str, trim, trim_str,
};

verus! {

/// How many requests one chat exchange may send at most.
pub const MAX_ATTEMPTS: u32 = 3;

/// The HTTP status on which a chat request is sent again.
pub const RETRY_STATUS: u16 = 502;

/// A JSON document as the chat service sends it back.
pub enum JsonValue {
    Null,
    Bool(bool),
    /// A number, kept in its textual form.
    Number(String),
    Str(String),
    Array(Vec<JsonValue>),
    /// The members of an object, in order; a parsed object has no key twice.
    Object(Vec<(String, JsonValue)>),
}

/// The value of member `key` among `entries` (the first one of that name), or
/// `Null` where there is none.
pub open spec fn field_of(entries: Seq<(String, JsonValue)>, key: Seq<char>) -> JsonValue {
    if exists|i: int| 0 <= i < entries.len() && entries[i].0@ == key {
        let i = choose|i: int|
            0 <= i < entries.len() && entries[i].0@ == key && forall|j: int|
                0 <= j < i ==> entries[j].0@ != key;
        entries[i].1
    } else {
        JsonValue::Null
    }
}

/// `v[key]` as serde_json indexes a value by a string: the member of an object,
/// and `Null` for a missing member or a value that is no object.
pub open spec fn json_get(v: JsonValue, key: Seq<char>) -> JsonValue {
    match v {
        JsonValue::Object(entries) => field_of(entries@, key),
        _ => JsonValue::Null,
    }
}

/// `v.as_str()`: the text of a JSON string, `None` for any other value.
pub open spec fn json_as_str(v: JsonValue) -> Option<Seq<char>> {
    match v {
        JsonValue::Str(s) => Some(s@),
        _ => None,
    }
}

/// The marker after which a reasoning model puts its final answer.
pub open spec fn thinking_marker() -> Seq<char> {
    "Thinking Process:"@
}

/// The answer text of a message: its `content` when that is a string, else its
/// `reasoning_content` when that is a string, else empty; of that, the part after
/// the last thinking marker, trimmed.
pub open spec fn answer_of_message(msg: JsonValue) -> Seq<char> {
    let raw = match json_as_str(json_get(msg, "content"@)) {
        Some(t) => t,
        None => match json_as_str(json_get(msg, "reasoning_content"@)) {
            Some(t) => t,
            None => Seq::<char>::empty(),
        },
    };
    trim(after_last(raw, thinking_marker()))
}

/// The document names `choices` as an array with no element.
pub open spec fn has_empty_choices(data: JsonValue) -> bool {
    match json_get(data, "choices"@) {
        JsonValue::Array(items) => items@.len() == 0,
        _ => false,
    }
}

/// What a chat exchange returns for the parsed reply `data`.
pub open spec fn completion_reply(data: JsonValue) -> Result<Seq<char>, Seq<char>> {
    match json_get(data, "choices"@) {
        JsonValue::Array(items) => Ok(answer_of_message(json_get(items@[0], "message"@))),
        _ => Err("no choices"@),
    }
}

/// The member `key` of `v` where `v` is an object that has it; `None` stands for
/// the `Null` that indexing gives otherwise.
pub fn get_field<'a>(v: &'a JsonValue, key: &String) -> (r: Option<&'a JsonValue>)
    ensures
        match r {
            Some(x) => *x == json_get(*v, key@),
            None => json_get(*v, key@) == JsonValue::Null,
        },
{
    match v {
        JsonValue::Object(entries) => {
            let n = entries.len();
            let mut i: usize = 0;
            while i < n
                invariant
                    i <= n,
                    n == entries@.len(),
                    *v == JsonValue::Object(*entries),
                    forall|j: int| 0 <= j < i ==> entries@[j].0@ != key@,
                decreases n - i,
            {
                if entries[i].0 == *key {
                    let ghost e = entries@;
                    assert(0 <= i < e.len() && e[i as int].0@ == key@ && forall|j: int|
                        0 <= j < i ==> e[j].0@ != key@);
                    let ghost c = choose|c: int|
                        0 <= c < e.len() && e[c].0@ == key@ && forall|j: int|
                            0 <= j < c ==> e[j].0@ != key@;
                    assert(c == i);
                    assert(field_of(e, key@) == e[i as int].1);
                    assert(json_get(*v, key@) == field_of(e, key@));
                    return Some(&entries[i].1);
                }
                i += 1;
            }
            None
        },
        _ => None,
    }
}

/// The text of `v` where it is a JSON string (`Value::as_str`).
pub fn as_text(v: Option<&JsonValue>) -> (r: Option<String>)
    ensures
        r matches Some(t) ==> v matches Some(x) && json_as_str(*x) == Some(t@),
        r is None ==> v is None || json_as_str(*v.unwrap()) is None,
{
    match v {
        Some(JsonValue::Str(s)) => Some(s.clone()),
        _ => None,
    }
}

/// The answer text of one reply message (see `answer_of_message`).
pub fn answer_from_message(msg: Option<&JsonValue>) -> (r: String)
    ensures
        r@ == answer_of_message(
            match msg {
                Some(m) => *m,
                None => JsonValue::Null,
            },
        ),
{
    let content_key = String::from_str("content");
    let reasoning_key = String::from_str("reasoning_content");
    let (content, reasoning) = match msg {
        Some(m) => (as_text(get_field(m, &content_key)), as_text(get_field(m, &reasoning_key))),
        None => (None, None),
    };
    let raw = match content {
        Some(t) => t,
        None => match reasoning {
            Some(t) => t,
            None => String::new(),
        },
    };
    let marker = "Thinking Process:";
    proof {
        reveal_strlit("Thinking Process:");
    }
    let tail = after_last_str(raw.as_str(), marker);
    trim_str(tail.as_str())
}

/// Whether the reply names `choices` as an empty array, on which the exchange
/// cannot pick a first choice.
pub fn completion_has_empty_choices(data: &JsonValue) -> (r: bool)
    ensures
        r == has_empty_choices(*data),
{
    let choices_key = String::from_str("choices");
    match get_field(data, &choices_key) {
        Some(JsonValue::Array(items)) => items.len() == 0,
        _ => false,
    }
}

/// The reply of a chat exchange from the parsed response document: the answer
/// of the first choice's message, or the error "no choices" where the document
/// has no `choices` array.
pub fn reply_from_completion(data: &JsonValue) -> (r: Result<String, String>)
    requires
        !has_empty_choices(*data),
    ensures
        match (r, completion_reply(*data)) {
            (Ok(a), Ok(b)) => a@ == b,
            (Err(a), Err(b)) => a@ == b,
            _ => false,
        },
{
    let choices_key = String::from_str("choices");
    let message_key = String::from_str("message");
    match get_field(data, &choices_key) {
        Some(JsonValue::Array(items)) => {
            let msg = get_field(&items[0], &message_key);
            Ok(answer_from_message(msg))
        },
        _ => Err(String::from_str("no choices")),
    }
}

#[verifier::external_type_specification]
#[verifier::external_body]
pub struct ExSerdeJsonValue(serde_json::Value);

/// Name for the document that `serde_json::from_str::<serde_json::Value>` reads
/// from `text`, in the library's model (`None` where the text is not JSON).
pub uninterp spec fn json_document(text: Seq<char>) -> Option<JsonValue>;

/// Name for the text (`Display`) of the error that `serde_json::from_str` reports
/// for `text`.
pub uninterp spec fn json_error_text(text: Seq<char>) -> Seq<char>;

/// One serde_json value in the library's model, variant by variant (numbers in
/// their textual form).
#[verifier::external_body]
fn json_from_value(v: serde_json::Value) -> JsonValue {
    match v {
        serde_json::Value::Null => JsonValue::Null,
        serde_json::Value::Bool(b) => JsonValue::Bool(b),
        serde_json::Value::Number(n) => JsonValue::Number(n.to_string()),
        serde_json::Value::String(t) => JsonValue::Str(t),
        serde_json::Value::Array(items) => JsonValue::Array(items.into_iter().map(json_from_value).collect()),
        serde_json::Value::Object(m) => JsonValue::Object(m.into_iter().map(|(k, x)| (k, json_from_value(x))).collect()),
    }
}

/// `serde_json::from_str::<serde_json::Value>`: the document that `text` holds,
/// or the text of the error. Both are named: the contract ties them to `text`
/// and says nothing of how JSON is read.
#[verifier::external_body]
fn parse_json(text: &str) -> (r: Result<JsonValue, String>)
    ensures
        match r {
            Ok(v) => json_document(text@) == Some(v),
            Err(e) => json_document(text@) is None && e@ == json_error_text(text@),
        },
{
    match serde_json::from_str::<serde_json::Value>(text) {
        Ok(v) => Ok(json_from_value(v)),
        Err(e) => Err(e.to_string()),
    }
}

/// The characters whose UTF-8 encoding is the first `n` bytes of that of `s`.
pub open spec fn utf8_prefix(s: Seq<char>, n: int) -> Seq<char> {
    decode_utf8(encode_utf8(s).subrange(0, n))
}

/// How many bytes of a body an error message quotes: at most 300.
pub open spec fn quoted_body_len(body: Seq<char>) -> int {
    if encode_utf8(body).len() < 300 {
        encode_utf8(body).len() as int
    } else {
        300
    }
}

/// The error of a body that is not JSON: serde's error text and the first 300
/// bytes of the body.
pub open spec fn parse_error_message(body: Seq<char>) -> Seq<char> {
    "JSON parse error: "@ + json_error_text(body) + " — body: "@ + utf8_prefix(
        body,
        quoted_body_len(body),
    )
}

/// What a chat exchange returns for the response body `body`: the reply of the
/// parsed document, or the parse error.
pub open spec fn body_reply(body: Seq<char>) -> Result<Seq<char>, Seq<char>> {
    match json_document(body) {
        Some(d) => completion_reply(d),
        None => Err(parse_error_message(body)),
    }
}

/// What becomes of a response body.
pub enum BodyReply {
    /// The reply, or the error the exchange returns.
    Reply(Result<String, String>),
    /// The document names `choices` as an empty array: there is no first choice.
    EmptyChoices,
    /// The body is not JSON, and its first 300 bytes end inside a character, so
    /// the error message cannot quote them.
    CutInsideChar,
}

/// The outcome of the chat exchange for the response body `body` (see
/// `body_reply`); the two cases in which no message can be formed are told apart.
pub fn reply_from_body(body: &str) -> (r: BodyReply)
    ensures
        match r {
            BodyReply::Reply(res) => {
                &&& text_result_view(res) == body_reply(body@)
                &&& json_document(body@) matches Some(d) ==> !has_empty_choices(d)
                &&& json_document(body@) is None ==> is_char_boundary(encode_utf8(body@), quoted_body_len(body@))
            },
            BodyReply::EmptyChoices => json_document(body@) matches Some(d) && has_empty_choices(d),
            BodyReply::CutInsideChar => json_document(body@) is None && !is_char_boundary(
                encode_utf8(body@),
                quoted_body_len(body@),
            ),
        },
{
    match parse_json(body) {
        Ok(data) => {
            if completion_has_empty_choices(&data) {
                BodyReply::EmptyChoices
            } else {
                BodyReply::Reply(reply_from_completion(&data))
            }
        },
        Err(e) => {
            let n = body.as_bytes().len();
            let cut: usize = if n < 300 { n } else { 300 };
            if !body.is_char_boundary(cut) {
                return BodyReply::CutInsideChar;
            }
            let (prefix, _rest) = body.split_at(cut);
            assert(n == encode_utf8(body@).len());
            assert(cut == quoted_body_len(body@));
            assert(encode_utf8(prefix@) == encode_utf8(body@).subrange(0, cut as int));
            proof {
                encode_utf8_decode_utf8(prefix@);
            }
            assert(prefix@ == utf8_prefix(body@, quoted_body_len(body@)));
            let mut msg = String::from_str("JSON parse error: ");
            msg.append(e.as_str());
            msg.append(" — body: ");
            msg.append(prefix);
            BodyReply::Reply(Err(msg))
        },
    }
}

/// Whether a chat request that got `status` on its `attempts`-th try is sent again.
pub fn should_retry(status: u16, attempts: u32) -> (r: bool)
    ensures
        r == (status == RETRY_STATUS && attempts < MAX_ATTEMPTS),
        r == (status == 502 && attempts < 3),
{
    status == RETRY_STATUS && attempts < MAX_ATTEMPTS
}

/// A reply is clean: it holds no thinking marker, and neither starts nor ends
/// with white space.
pub proof fn lemma_reply_is_clean(data: JsonValue)
    ensures
        completion_reply(data) matches Ok(t) ==> {
            &&& !contains_seq(t, thinking_marker())
            &&& t.len() > 0 ==> !is_white_space(t[0]) && !is_white_space(t.last())
        },
{
    reveal_strlit("Thinking Process:");
    if let JsonValue::Array(items) = json_get(data, "choices"@) {
        let msg = json_get(items@[0], "message"@);
        let raw = match json_as_str(json_get(msg, "content"@)) {
            Some(t) => t,
            None => match json_as_str(json_get(msg, "reasoning_content"@)) {
                Some(t) => t,
                None => Seq::<char>::empty(),
            },
        };
        let tail = after_last(raw, thinking_marker());
        lemma_after_last_is_free(raw, thinking_marker());
        lemma_trim_shape(tail);
        lemma_infix_keeps_absence(trim(tail), tail, thinking_marker());
    }
}

/// Where the first choice's message has a string `content`, the reply is that
/// content after its last thinking marker, trimmed, whatever else the message
/// holds (its `reasoning_content` among it).
pub proof fn lemma_content_is_the_answer(data: JsonValue, c: String)
    requires
        json_get(data, "choices"@) matches JsonValue::Array(items) && items@.len() > 0 && json_get(
            json_get(items@[0], "message"@),
            "content"@,
        ) == JsonValue::Str(c),
    ensures
        completion_reply(data) == Ok::<Seq<char>, Seq<char>>(
            trim(after_last(c@, "Thinking Process:"@)),
        ),
{
}

/// `reasoning_content` is read only where `content` is not a string: then a
/// string `reasoning_content` gives the reply, and without either the reply
/// is empty.
pub proof fn lemma_reasoning_is_only_the_fallback(data: JsonValue)
    requires
        json_get(data, "choices"@) matches JsonValue::Array(items) && items@.len() > 0 && !(json_get(
            json_get(items@[0], "message"@),
            "content"@,
        ) is Str),
    ensures
        json_get(data, "choices"@) matches JsonValue::Array(items) && (json_get(
            json_get(items@[0], "message"@),
            "reasoning_content"@,
        ) matches JsonValue::Str(r) ==> completion_reply(data) == Ok::<Seq<char>, Seq<char>>(
            trim(after_last(r@, "Thinking Process:"@)),
        )),
        json_get(data, "choices"@) matches JsonValue::Array(items) && (!(json_get(
            json_get(items@[0], "message"@),
            "reasoning_content"@,
        ) is Str) ==> completion_reply(data) == Ok::<Seq<char>, Seq<char>>(Seq::<char>::empty())),
{
    reveal_strlit("Thinking Process:");
    let ghost e = Seq::<char>::empty();
    assert(trim(after_last(e, thinking_marker())) == e) by {
        assert(!contains_seq(e, thinking_marker()));
    }
}

/// Without a `choices` array the exchange fails with "no choices".
pub proof fn lemma_no_choices_is_an_error(data: JsonValue)
    requires
        !(json_get(data, "choices"@) is Array),
    ensures
        completion_reply(data) == Err::<Seq<char>, Seq<char>>("no choices"@),
{
}

/// Trailing slashes of the base URL do not change where requests go, and the
/// part before `/chat/completions` never ends with a slash.
pub proof fn lemma_chat_url_slashes(base_url: Seq<char>)
    ensures
        chat_url(base_url.push('/')) == chat_url(base_url),
        chat_url(strip_trailing(base_url, '/')) == chat_url(base_url),
        strip_trailing(base_url, '/').len() > 0 ==> strip_trailing(base_url, '/').last() != '/',
{
    assert(base_url.push('/').drop_last() == base_url);
    lemma_strip_trailing(base_url, '/');
}

/// How serde_json writes one character inside a string literal: `"` and `\`
/// behind a backslash; backspace, tab, line feed, form feed and carriage return
/// as `\b`, `\t`, `\n`, `\f`, `\r`; the other characters below U+0020 as
/// `\u00` and two lowercase hexadecimal digits; every other character as it is.
pub open spec fn json_escape_char(c: char) -> Seq<char> {
    let u = c as u32;
    if c == '"' {
        seq!['\\', '"']
    } else if c == '\\' {
        seq!['\\', '\\']
    } else if u == 0x08 {
        seq!['\\', 'b']
    } else if u == 0x09 {
        seq!['\\', 't']
    } else if u == 0x0a {
        seq!['\\', 'n']
    } else if u == 0x0c {
        seq!['\\', 'f']
    } else if u == 0x0d {
        seq!['\\', 'r']
    } else if u < 0x20 {
        seq!['\\', 'u', '0', '0', hex_digit((u / 16) as nat), hex_digit((u % 16) as nat)]
    } else {
        seq![c]
    }
}

/// The characters of `s`, each written as `json_escape_char` writes it.
pub open spec fn json_escaped(s: Seq<char>) -> Seq<char>
    decreases s.len(),
{
    if s.len() == 0 {
        Seq::<char>::empty()
    } else {
        json_escaped(s.drop_last()) + json_escape_char(s.last())
    }
}

/// The JSON string literal of `s`: its escaped characters between double quotes.
pub open spec fn json_quoted(s: Seq<char>) -> Seq<char> {
    seq!['"'] + json_escaped(s) + seq!['"']
}

/// `serde_json::to_string` on a `str`: the JSON string literal of the text, as
/// `format_escaped_str` writes it (see `json_escape_char`). Serializing a string
/// into memory does not fail, so the error arm is not taken.
#[verifier::external_body]
fn json_quote(s: &str) -> (r: String)
    ensures
        r@ == json_quoted(s@),
{
    match serde_json::to_string(s) {
        Ok(t) => t,
        Err(_) => String::new(),
    }
}

/// Where a chat request goes: the base URL without trailing slashes, then
/// `/chat/completions`.
pub open spec fn chat_url(base_url: Seq<char>) -> Seq<char> {
    strip_trailing(base_url, '/') + "/chat/completions"@
}

/// The `Authorization` header of a chat request.
pub open spec fn chat_authorization(api_key: Seq<char>) -> Seq<char> {
    "Bearer "@ + api_key
}

/// The JSON body of a chat request: one user message, at most 2048 tokens, no
/// streaming; members in the sorted order in which serde_json writes an object.
pub open spec fn chat_body(model: Seq<char>, text: Seq<char>) -> Seq<char> {
    "{\"max_tokens\":2048,\"messages\":[{\"content\":"@ + json_quoted(text)
        + ",\"role\":\"user\"}],\"model\":"@ + json_quoted(model) + ",\"stream\":false}"@
}

/// One chat-completion request, ready to send.
pub struct ChatRequest {
    pub url: String,
    pub authorization: String,
    pub body: String,
}

/// The request that asks the configured model to answer `text`.
pub fn build_chat_request(llm: &LlmConfig, text: &str) -> (r: ChatRequest)
    ensures
        r.url@ == chat_url(llm.base_url@),
        r.authorization@ == chat_authorization(llm.api_key@),
        r.body@ == chat_body(llm.model@, text@),
{
    let mut url = strip_trailing_str(llm.base_url.as_str(), '/');
    url.append("/chat/completions");
    let mut authorization = String::from_str("Bearer ");
    authorization.append(llm.api_key.as_str());
    let mut body = String::from_str("{\"max_tokens\":2048,\"messages\":[{\"content\":");
    let quoted_text = json_quote(text);
    body.append(quoted_text.as_str());
    body.append(",\"role\":\"user\"}],\"model\":");
    let quoted_model = json_quote(llm.model.as_str());
    body.append(quoted_model.as_str());
    body.append(",\"stream\":false}");
    ChatRequest { url, authorization, body }
}

} // verus!
