//! Decoding of one transcript line into a neutral record.
//!
//! A transcript line is NDJSON. The outside crate decodes the raw JSON text
//! into [`Json`], a tree of plain values; everything after that point —
//! field lookup, type filtering, usage and tool extraction — is verified
//! against the spec functions below.

use vstd::prelude::*;

use crate::text::str_eq;

verus! {

/// Token counts carried by one transcript message, and also the cumulative
/// component-wise sum of such counts. The neutral element is all zeros.
#[derive(Debug, Clone, Copy, PartialEq, Eq, Structural)]
pub struct TokenUsage {
    pub input_tokens: u64,
    pub output_tokens: u64,
    pub cache_read_input_tokens: u64,
    pub cache_creation_input_tokens: u64,
}

impl TokenUsage {
    /// Mathematical sum of the four counts.
    pub open spec fn total(self) -> int {
        self.input_tokens + self.output_tokens + self.cache_read_input_tokens
            + self.cache_creation_input_tokens
    }

    pub open spec fn spec_zero() -> TokenUsage {
        TokenUsage {
            input_tokens: 0,
            output_tokens: 0,
            cache_read_input_tokens: 0,
            cache_creation_input_tokens: 0,
        }
    }
}

impl Default for TokenUsage {
    fn default() -> (r: Self)
        ensures
            r == TokenUsage::spec_zero(),
    {
        TokenUsage {
            input_tokens: 0,
            output_tokens: 0,
            cache_read_input_tokens: 0,
            cache_creation_input_tokens: 0,
        }
    }
}

/// A decoded JSON document as plain values. Numbers that are not exact
/// unsigned 64-bit integers are kept only as `NonUInt`, since the record
/// shape uses no other numbers.
#[derive(Debug)]
pub enum Json {
    Null,
    Bool(bool),
    UInt(u64),
    NonUInt,
    Str(String),
    Arr(Vec<Json>),
    Obj(Vec<(String, Json)>),
}

/// First entry with the given key, searched front to back.
pub open spec fn obj_lookup(entries: Seq<(String, Json)>, key: Seq<char>) -> Option<Json>
    decreases entries.len(),
{
    if entries.len() == 0 {
        None
    } else if entries[0].0@ == key {
        Some(entries[0].1)
    } else {
        obj_lookup(entries.drop_first(), key)
    }
}

/// Field lookup; anything but an object has no fields.
pub open spec fn json_get(j: Json, key: Seq<char>) -> Option<Json> {
    match j {
        Json::Obj(entries) => obj_lookup(entries@, key),
        _ => None,
    }
}

/// Lookup through an optional object, as for the `message` subobject.
pub open spec fn opt_get(j: Option<Json>, key: Seq<char>) -> Option<Json> {
    match j {
        Some(m) => json_get(m, key),
        None => None,
    }
}

/// String content of a field, where present and a string.
pub open spec fn opt_str(j: Option<Json>) -> Option<Seq<char>> {
    match j {
        Some(Json::Str(s)) => Some(s@),
        _ => None,
    }
}

/// String content of a field, with the empty string as default.
pub open spec fn str_or_empty(j: Option<Json>) -> Seq<char> {
    match j {
        Some(Json::Str(s)) => s@,
        _ => Seq::empty(),
    }
}

/// Unsigned integer content of a field, with zero as default.
pub open spec fn u64_or_zero(j: Option<Json>) -> u64 {
    match j {
        Some(Json::UInt(u)) => u,
        _ => 0,
    }
}

/// The four usage counts of a `usage` subobject; missing or ill-typed
/// fields count zero.
pub open spec fn spec_usage_of(u: Json) -> TokenUsage {
    TokenUsage {
        input_tokens: u64_or_zero(json_get(u, "input_tokens"@)),
        output_tokens: u64_or_zero(json_get(u, "output_tokens"@)),
        cache_read_input_tokens: u64_or_zero(json_get(u, "cache_read_input_tokens"@)),
        cache_creation_input_tokens: u64_or_zero(json_get(u, "cache_creation_input_tokens"@)),
    }
}

/// An item of a content array that sets the text fragment.
pub open spec fn is_text_item(item: Json) -> bool {
    opt_str(json_get(item, "type"@)) == Some("text"@) && opt_str(json_get(item, "text"@)) is Some
}

/// An item of a content array that contributes a tool name.
pub open spec fn is_tool_item(item: Json) -> bool {
    opt_str(json_get(item, "type"@)) == Some("tool_use"@) && opt_str(json_get(item, "name"@))
        is Some
}

/// Last text fragment of a content array, in input order.
pub open spec fn spec_content_text(items: Seq<Json>) -> Option<Seq<char>>
    decreases items.len(),
{
    if items.len() == 0 {
        None
    } else if is_text_item(items.last()) {
        opt_str(json_get(items.last(), "text"@))
    } else {
        spec_content_text(items.drop_last())
    }
}

/// Every tool-use name of a content array, in input order.
pub open spec fn spec_tool_names(items: Seq<Json>) -> Seq<Seq<char>>
    decreases items.len(),
{
    if items.len() == 0 {
        Seq::empty()
    } else if is_tool_item(items.last()) {
        spec_tool_names(items.drop_last()).push(
            opt_str(json_get(items.last(), "name"@)).unwrap(),
        )
    } else {
        spec_tool_names(items.drop_last())
    }
}

/// Reading the four counts out of a usage object loses nothing: a usage
/// subobject whose four fields carry these counts yields exactly them.
pub proof fn lemma_usage_extraction(
    u: Json,
    input: u64,
    output: u64,
    cache_read: u64,
    cache_creation: u64,
)
    requires
        json_get(u, "input_tokens"@) == Some(Json::UInt(input)),
        json_get(u, "output_tokens"@) == Some(Json::UInt(output)),
        json_get(u, "cache_read_input_tokens"@) == Some(Json::UInt(cache_read)),
        json_get(u, "cache_creation_input_tokens"@) == Some(Json::UInt(cache_creation)),
    ensures
        spec_usage_of(u) == (TokenUsage {
            input_tokens: input,
            output_tokens: output,
            cache_read_input_tokens: cache_read,
            cache_creation_input_tokens: cache_creation,
        }),
{
}

/// Result of decoding one transcript line.
#[derive(Debug, Clone)]
pub struct ParsedMessage {
    pub message_type: String,
    pub session_id: String,
    pub timestamp: String,
    pub model: Option<String>,
    pub usage: Option<TokenUsage>,
    pub content_text: Option<String>,
    pub tool_calls: Vec<String>,
}

/// Mathematical image of a [`ParsedMessage`].
#[verifier::ext_equal]
pub struct ParsedMessageView {
    pub message_type: Seq<char>,
    pub session_id: Seq<char>,
    pub timestamp: Seq<char>,
    pub model: Option<Seq<char>>,
    pub usage: Option<TokenUsage>,
    pub content_text: Option<Seq<char>>,
    pub tool_calls: Seq<Seq<char>>,
}

impl View for ParsedMessage {
    type V = ParsedMessageView;

    open spec fn view(&self) -> ParsedMessageView {
        ParsedMessageView {
            message_type: self.message_type@,
            session_id: self.session_id@,
            timestamp: self.timestamp@,
            model: match self.model {
                Some(m) => Some(m@),
                None => None,
            },
            usage: self.usage,
            content_text: match self.content_text {
                Some(t) => Some(t@),
                None => None,
            },
            tool_calls: Seq::new(self.tool_calls@.len(), |i: int| self.tool_calls@[i]@),
        }
    }
}

/// The record a decoded document yields: `None` for a document without a
/// string `type` field and for the filtered `file-history-snapshot` type.
pub open spec fn spec_parse_record(j: Json) -> Option<ParsedMessageView> {
    match json_get(j, "type"@) {
        Some(Json::Str(ty)) => if ty@ == "file-history-snapshot"@ {
            None
        } else {
            let msg = json_get(j, "message"@);
            Some(
                ParsedMessageView {
                    message_type: ty@,
                    session_id: str_or_empty(json_get(j, "sessionId"@)),
                    timestamp: str_or_empty(json_get(j, "timestamp"@)),
                    model: opt_str(opt_get(msg, "model"@)),
                    usage: match opt_get(msg, "usage"@) {
                        Some(u) => Some(spec_usage_of(u)),
                        None => None,
                    },
                    content_text: match opt_get(msg, "content"@) {
                        Some(Json::Arr(items)) => spec_content_text(items@),
                        Some(Json::Str(s)) => Some(s@),
                        _ => None,
                    },
                    tool_calls: match opt_get(msg, "content"@) {
                        Some(Json::Arr(items)) => spec_tool_names(items@),
                        _ => Seq::empty(),
                    },
                },
            )
        },
        _ => None,
    }
}

/// What parsing one line yields, through the name of the decoder's result.
pub open spec fn spec_parse_line(line: Seq<char>) -> Option<ParsedMessageView> {
    match spec_json_of(line) {
        Some(j) => spec_parse_record(j),
        None => None,
    }
}

/// View of an optional parsed message, for stating the parser's contract.
pub open spec fn opt_message_view(r: Option<ParsedMessage>) -> Option<ParsedMessageView> {
    match r {
        Some(p) => Some(p@),
        None => None,
    }
}

#[verifier::external_type_specification]
#[verifier::external_body]
pub struct ExValue(serde_json::Value);

/// The document that decoding a line yields, where it is well-formed JSON.
/// The result depends on the characters of the line alone.
pub uninterp spec fn spec_json_of(s: Seq<char>) -> Option<Json>;

/// Relies on `serde_json::from_str::<serde_json::Value>`: decodes one JSON
/// document, `Err` where the text is not JSON (in particular on the empty
/// string). `json_of_value` reshapes the document into plain values.
#[verifier::external_body]
fn decode_json(s: &str) -> (r: Option<Json>)
    ensures
        r == spec_json_of(s@),
{
    serde_json::from_str::<serde_json::Value>(s).ok().map(json_of_value)
}

/// Conversion half of `decode_json`: relies on the variants of
/// `serde_json::Value` and on `serde_json::Number::as_u64`, which is `Some`
/// exactly on integers that fit `u64`. One arm per variant, moving values.
#[verifier::external_body]
fn json_of_value(v: serde_json::Value) -> Json {
    match v {
        serde_json::Value::Null => Json::Null,
        serde_json::Value::Bool(b) => Json::Bool(b),
        serde_json::Value::Number(n) => match n.as_u64() {
            Some(u) => Json::UInt(u),
            None => Json::NonUInt,
        },
        serde_json::Value::String(s) => Json::Str(s),
        serde_json::Value::Array(a) => Json::Arr(a.into_iter().map(json_of_value).collect()),
        serde_json::Value::Object(o) => Json::Obj(
            o.into_iter().map(|(k, x)| (k, json_of_value(x))).collect(),
        ),
    }
}

/// First field with the given key, front to back, as `obj_lookup` says.
fn get_field<'a>(j: &'a Json, key: &str) -> (r: Option<&'a Json>)
    ensures
        match r {
            Some(f) => json_get(*j, key@) == Some(*f),
            None => json_get(*j, key@) is None,
        },
{
    match j {
        Json::Obj(entries) => {
            assert(json_get(*j, key@) == obj_lookup(entries@, key@));
            let n = entries.len();
            let mut i: usize = 0;
            assert(entries@.skip(0) =~= entries@);
            while i < n
                invariant
                    i <= n,
                    n == entries@.len(),
                    json_get(*j, key@) == obj_lookup(entries@, key@),
                    obj_lookup(entries@, key@) == obj_lookup(entries@.skip(i as int), key@),
                decreases n - i,
            {
                if str_eq(entries[i].0.as_str(), key) {
                    proof {
                        assert(entries@.skip(i as int)[0] == entries@[i as int]);
                        assert(obj_lookup(entries@.skip(i as int), key@) == Some(
                            entries@[i as int].1,
                        ));
                    }
                    let found = &entries[i].1;
                    assert(*found == entries@[i as int].1);
                    assert(json_get(*j, key@) == Some(*found));
                    return Some(found);
                }
                assert(entries@.skip(i as int).drop_first() =~= entries@.skip(i as int + 1));
                i = i + 1;
            }
            assert(entries@.skip(n as int) =~= Seq::<(String, Json)>::empty());
            None
        },
        _ => None,
    }
}

/// Unsigned integer field with zero as default, as `u64_or_zero` says.
fn get_u64_field(j: &Json, key: &str) -> (r: u64)
    ensures
        r == u64_or_zero(json_get(*j, key@)),
{
    match get_field(j, key) {
        Some(Json::UInt(u)) => *u,
        _ => 0,
    }
}

/// String field cloned out, `None` where absent or not a string.
fn get_str_field(j: &Json, key: &str) -> (r: Option<String>)
    ensures
        match r {
            Some(s) => opt_str(json_get(*j, key@)) == Some(s@),
            None => opt_str(json_get(*j, key@)) is None,
        },
{
    match get_field(j, key) {
        Some(Json::Str(s)) => Some(s.clone()),
        _ => None,
    }
}

/// Decode one line of a transcript. `None` for text that is not a JSON
/// document, for a document without a string `type` field, and for the
/// `file-history-snapshot` records the collector filters out. Missing
/// optional fields default; ill-typed fields are skipped, not fatal.
pub fn parse_jsonl_line(line: &str) -> (r: Option<ParsedMessage>)
    ensures
        opt_message_view(r) == spec_parse_line(line@),
{
    match decode_json(line) {
        None => None,
        Some(j) => parse_record(&j),
    }
}

/// The verified half of the parser: folds one decoded document into a
/// record exactly as `spec_parse_record` says.
pub fn parse_record(j: &Json) -> (r: Option<ParsedMessage>)
    ensures
        opt_message_view(r) == spec_parse_record(*j),
{
    let ty: String = match get_field(j, "type") {
        Some(Json::Str(s)) => s.clone(),
        _ => {
            return None;
        },
    };
    if str_eq(ty.as_str(), "file-history-snapshot") {
        return None;
    }
    let session_id: String = match get_str_field(j, "sessionId") {
        Some(s) => s,
        None => String::new(),
    };
    let timestamp: String = match get_str_field(j, "timestamp") {
        Some(s) => s,
        None => String::new(),
    };
    let msg: Option<&Json> = get_field(j, "message");
    proof {
        let msg_spec = json_get(*j, "message"@);
        assert(match msg {
            Some(m) => msg_spec == Some(*m),
            None => msg_spec is None,
        });
    }
    let model: Option<String> = match msg {
        Some(m) => get_str_field(m, "model"),
        None => None,
    };
    let usage: Option<TokenUsage> = match msg {
        Some(m) => match get_field(m, "usage") {
            Some(u) => Some(
                TokenUsage {
                    input_tokens: get_u64_field(u, "input_tokens"),
                    output_tokens: get_u64_field(u, "output_tokens"),
                    cache_read_input_tokens: get_u64_field(u, "cache_read_input_tokens"),
                    cache_creation_input_tokens: get_u64_field(u, "cache_creation_input_tokens"),
                },
            ),
            None => None,
        },
        None => None,
    };
    let mut content_text: Option<String> = None;
    let mut tool_calls: Vec<String> = Vec::new();
    let content: Option<&Json> = match msg {
        Some(m) => get_field(m, "content"),
        None => None,
    };
    match content {
        Some(Json::Arr(items)) => {
            let n = items.len();
            let mut i: usize = 0;
            while i < n
                invariant
                    i <= n,
                    n == items@.len(),
                    (match content_text {
                        Some(t) => Some(t@),
                        None => None,
                    }) == spec_content_text(items@.take(i as int)),
                    Seq::new(tool_calls@.len(), |k: int| tool_calls@[k]@) == spec_tool_names(
                        items@.take(i as int),
                    ),
                decreases n - i,
            {
                let item = &items[i];
                proof {
                    reveal_strlit("text");
                    reveal_strlit("tool_use");
                    assert(items@.take(i as int + 1).drop_last() =~= items@.take(i as int));
                    assert(items@.take(i as int + 1).last() == items@[i as int]);
                }
                let ghost prev_tools = Seq::new(tool_calls@.len(), |k: int| tool_calls@[k]@);
                match get_str_field(item, "type") {
                    Some(item_type) => {
                        if str_eq(item_type.as_str(), "text") {
                            proof {
                                reveal_strlit("text");
                                reveal_strlit("tool_use");
                                assert("text"@.len() != "tool_use"@.len());
                                assert(!is_tool_item(items@[i as int]));
                            }
                            match get_str_field(item, "text") {
                                Some(t) => {
                                    proof {
                                        assert(is_text_item(items@[i as int]));
                                    }
                                    content_text = Some(t);
                                },
                                None => {
                                    proof {
                                        assert(!is_text_item(items@[i as int]));
                                    }
                                },
                            }
                        } else if str_eq(item_type.as_str(), "tool_use") {
                            proof {
                                reveal_strlit("text");
                                reveal_strlit("tool_use");
                                assert("text"@.len() != "tool_use"@.len());
                                assert(!is_text_item(items@[i as int]));
                            }
                            match get_str_field(item, "name") {
                                Some(nm) => {
                                    proof {
                                        assert(is_tool_item(items@[i as int]));
                                        assert(spec_tool_names(items@.take(i as int + 1))
                                            == spec_tool_names(items@.take(i as int)).push(nm@));
                                    }
                                    tool_calls.push(nm);
                                },
                                None => {
                                    proof {
                                        assert(!is_tool_item(items@[i as int]));
                                    }
                                },
                            }
                        } else {
                            proof {
                                assert(!is_text_item(items@[i as int]));
                                assert(!is_tool_item(items@[i as int]));
                            }
                        }
                    },
                    None => {
                        proof {
                            assert(!is_text_item(items@[i as int]));
                            assert(!is_tool_item(items@[i as int]));
                        }
                    },
                }
                i = i + 1;
                assert(Seq::new(tool_calls@.len(), |k: int| tool_calls@[k]@) =~= spec_tool_names(
                    items@.take(i as int),
                ));
            }
            assert(items@.take(n as int) =~= items@);
        },
        Some(Json::Str(s)) => {
            content_text = Some(s.clone());
        },
        _ => {},
    }
    let result = ParsedMessage {
        message_type: ty,
        session_id,
        timestamp,
        model,
        usage,
        content_text,
        tool_calls,
    };
    proof {
        assert(result@.tool_calls =~= spec_parse_record(*j).unwrap().tool_calls);
        assert(result@ =~= spec_parse_record(*j).unwrap());
    }
    Some(result)
}

} // verus!
