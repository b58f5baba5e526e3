use vstd::prelude::*;

use crate::chat::Generation;
use crate::config::{core_error_text, lookup, AppConfig, CoreError};
use crate::openai::{
    is_model_object, join_pieces, is_stream, ChatCompletionChunk, ChatCompletionRequest,
    ChatCompletionResponse, ModelListResponse, ModelObject, text_is, usage_of,
};
use crate::text::{chars_of, push_char, replace, replace_all, views};

verus! {

/// An HTTP error answer: a status code and a message.
#[derive(Debug, Clone, PartialEq, Eq)]
pub struct AppError {
    pub status: u16,
    pub message: String,
}

impl AppError {
    /// A `400 Bad Request` answer.
    pub fn bad_request(message: &str) -> (r: AppError)
        ensures
            r.status == 400,
            r.message@ == message@,
    {
        AppError { status: 400, message: message.to_owned() }
    }

    /// A `404 Not Found` answer.
    pub fn not_found(message: &str) -> (r: AppError)
        ensures
            r.status == 404,
            r.message@ == message@,
    {
        AppError { status: 404, message: message.to_owned() }
    }

    /// A `500 Internal Server Error` answer.
    pub fn internal(message: &str) -> (r: AppError)
        ensures
            r.status == 500,
            r.message@ == message@,
    {
        AppError { status: 500, message: message.to_owned() }
    }

    /// The answer to a configuration error: a client error for an unknown
    /// backend or an unsupported kind, a server error otherwise.
    pub fn from_core_error(error: &CoreError) -> (r: AppError)
        ensures
            r.status == match error {
                CoreError::UnknownBackendName { .. } => 400u16,
                CoreError::UnsupportedBackendKind { .. } => 400u16,
                _ => 500u16,
            },
            r.message@ == core_error_text(*error),
    {
        let message = error.message();
        match error {
            CoreError::UnknownBackendName { .. } | CoreError::UnsupportedBackendKind { .. } => {
                AppError { status: 400, message }
            },
            _ => AppError { status: 500, message },
        }
    }
}

/// Refuses a chat completion request without messages.
pub fn validate_chat_request(request: &ChatCompletionRequest) -> (r: Result<(), AppError>)
    ensures
        request.messages@.len() == 0 ==> (r matches Err(e) && e.status == 400 && e.message@
            == "messages cannot be empty"@),
        request.messages@.len() > 0 ==> r is Ok,
{
    if request.messages.len() == 0 {
        Err(AppError::bad_request("messages cannot be empty"))
    } else {
        Ok(())
    }
}

/// The model named in the answer: the one requested, else the backend the
/// server was started with, else the configured default.
pub fn response_model(
    request_model: &Option<String>,
    server_backend: &Option<String>,
    default_backend: &str,
) -> (r: String)
    ensures
        r@ == match request_model {
            Some(m) => m@,
            None => match server_backend {
                Some(b) => b@,
                None => default_backend@,
            },
        },
{
    match request_model {
        Some(m) => m.clone(),
        None => match server_backend {
            Some(b) => b.clone(),
            None => default_backend.to_owned(),
        },
    }
}

/// Whether `c` is a lowercase hexadecimal digit.
pub open spec fn is_lower_hex(c: char) -> bool {
    (48 <= (c as u32) && (c as u32) <= 57) || (97 <= (c as u32) && (c as u32) <= 102)
}

/// The text of a random (version 4, RFC 4122 variant) UUID in hyphenated
/// lowercase form: 36 characters in groups of 8-4-4-4-12 hex digits, the
/// version digit `4`, and a variant digit among `8`, `9`, `a`, `b`.
pub open spec fn is_v4_uuid_text(s: Seq<char>) -> bool {
    &&& s.len() == 36
    &&& forall|i: int|
        0 <= i < 36 ==> if i == 8 || i == 13 || i == 18 || i == 23 {
            #[trigger] s[i] == '-'
        } else {
            is_lower_hex(s[i])
        }
    &&& s[14] == '4'
    &&& (s[19] == '8' || s[19] == '9' || s[19] == 'a' || s[19] == 'b')
}

/// Calls `uuid::Uuid::new_v4` and formats it with `Display`. The UUID is
/// random; as uuid's source shows (`Uuid::new_v4` sets the version and
/// variant bits, `Display` writes the lowercase hyphenated form), the text
/// is always a version 4 UUID in hyphenated lowercase form. It panics only
/// when the system's random source fails, which no argument can rule out.
#[verifier::external_body]
fn random_uuid_text() -> (r: String)
    ensures
        is_v4_uuid_text(r@),
{
    uuid::Uuid::new_v4().to_string()
}

/// The identifier of a completion, made from a unique suffix.
pub fn completion_id(unique: &str) -> (r: String)
    ensures
        r@ == "chatcmpl-"@ + unique@,
{
    let mut id = "chatcmpl-".to_owned();
    id.append(unique);
    id
}

/// A fresh completion identifier: `chatcmpl-` followed by a random UUID.
pub fn new_completion_id() -> (r: String)
    ensures
        r@.len() == 45,
        r@.take(9) == "chatcmpl-"@,
        is_v4_uuid_text(r@.skip(9)),
{
    let unique = random_uuid_text();
    let id = completion_id(unique.as_str());
    proof {
        reveal_strlit("chatcmpl-");
        assert(id@.take(9) =~= "chatcmpl-"@);
        assert(id@.skip(9) =~= unique@);
    }
    id
}

/// Declares `std::time::SystemTime` to the verifier.
#[verifier::external_type_specification]
#[verifier::external_body]
pub struct ExSystemTime(std::time::SystemTime);

/// Calls `std::time::SystemTime::now`; the time is not known to the verifier.
#[verifier::external_body]
fn system_time_now() -> (r: std::time::SystemTime) {
    std::time::SystemTime::now()
}

/// Calls `SystemTime::duration_since(UNIX_EPOCH)` and takes whole seconds;
/// `None` when the time is before the epoch. Nothing is stated of the value.
#[verifier::external_body]
fn seconds_since_unix_epoch(t: &std::time::SystemTime) -> (r: Option<u64>) {
    t.duration_since(std::time::UNIX_EPOCH).ok().map(|d| d.as_secs())
}

/// Whole seconds since the Unix epoch from the clock's reading: the
/// seconds when the time is not before the epoch, else 0.
pub fn timestamp_or_zero(seconds: Option<u64>) -> (r: u64)
    ensures
        r == match seconds {
            Some(s) => s,
            None => 0,
        },
{
    match seconds {
        Some(secs) => secs,
        None => 0,
    }
}

/// The current time in whole seconds since the Unix epoch (0 before it).
/// The clock's value is not known to the verifier; what is done with it is
/// `timestamp_or_zero`.
pub fn unix_timestamp() -> (r: u64) {
    let now = system_time_now();
    timestamp_or_zero(seconds_since_unix_epoch(&now))
}

/// The non-streamed answer to a generation: its pieces joined into one
/// assistant message, with the generation's usage.
pub fn completion_response(id: &str, created: u64, model: &str, generation: &Generation) -> (r:
    ChatCompletionResponse)
    ensures
        r.id@ == id@,
        r.object_type@ == "chat.completion"@,
        r.created == created,
        r.model@ == model@,
        r.choices@.len() == 1,
        r.choices@[0].index == 0,
        r.choices@[0].message.role@ == "assistant"@,
        r.choices@[0].message.content@ == views(generation.pieces@).flatten(),
        text_is(r.choices@[0].finish_reason, "stop"@),
        r.usage == usage_of(generation.stats),
{
    let text = join_pieces(&generation.pieces);
    ChatCompletionResponse::new(id, created, model, text.as_str(), generation.stats)
}

/// The text a client reads from a stream: the contents of the chunks' first
/// choices, in order.
pub open spec fn streamed_text(chunks: Seq<ChatCompletionChunk>) -> Seq<char>
    decreases chunks.len(),
{
    if chunks.len() == 0 {
        Seq::empty()
    } else {
        let c = chunks.last();
        let piece = if c.choices@.len() > 0 && c.choices@[0].delta.content is Some {
            c.choices@[0].delta.content->0@
        } else {
            Seq::empty()
        };
        streamed_text(chunks.drop_last()) + piece
    }
}

proof fn lemma_streamed_prefix(
    chunks: Seq<ChatCompletionChunk>,
    id: Seq<char>,
    created: u64,
    model: Seq<char>,
    pieces: Seq<Seq<char>>,
    usage: Option<crate::openai::ChatCompletionUsage>,
    k: int,
)
    requires
        is_stream(chunks, id, created, model, pieces, usage),
        0 <= k <= pieces.len(),
    ensures
        streamed_text(chunks.take(k + 1)) == pieces.take(k).flatten(),
    decreases k,
{
    if k == 0 {
        let t = chunks.take(1);
        assert(t.drop_last() =~= Seq::<ChatCompletionChunk>::empty());
        assert(pieces.take(0) =~= Seq::<Seq<char>>::empty());
        assert(t.last() == chunks[0]);
        assert(streamed_text(t.drop_last()) == Seq::<char>::empty());
        assert(streamed_text(t) == Seq::<char>::empty() + Seq::<char>::empty());
    } else {
        lemma_streamed_prefix(chunks, id, created, model, pieces, usage, k - 1);
        let t = chunks.take(k + 1);
        assert(t.drop_last() =~= chunks.take(k));
        assert(t.last() == chunks[k]);
        assert(crate::openai::is_token_chunk(chunks[(k - 1) + 1], id, created, model, pieces[k - 1]));
        assert(pieces.take(k) =~= pieces.take(k - 1).push(pieces[k - 1]));
        pieces.take(k - 1).lemma_flatten_push(pieces[k - 1]);
    }
}

/// Reading a stream gives back exactly the text of the non-streamed answer:
/// the contents of the chunks of a stream of `pieces` concatenate to the
/// pieces' concatenation.
pub proof fn lemma_stream_text_is_completion_text(
    chunks: Seq<ChatCompletionChunk>,
    id: Seq<char>,
    created: u64,
    model: Seq<char>,
    pieces: Seq<Seq<char>>,
    usage: Option<crate::openai::ChatCompletionUsage>,
)
    requires
        is_stream(chunks, id, created, model, pieces, usage),
    ensures
        streamed_text(chunks) == pieces.flatten(),
{
    let n = pieces.len() as int;
    lemma_streamed_prefix(chunks, id, created, model, pieces, usage, n);
    assert(pieces.take(n) =~= pieces);
    let upto_done = chunks.take(n + 2);
    assert(upto_done.drop_last() =~= chunks.take(n + 1));
    assert(upto_done.last() == chunks[n + 1]);
    assert(streamed_text(upto_done) == streamed_text(chunks.take(n + 1)) + Seq::<char>::empty());
    if usage is Some {
        assert(chunks.take(n + 3) =~= chunks);
        assert(chunks.drop_last() =~= upto_done);
        assert(streamed_text(chunks) == streamed_text(upto_done) + Seq::<char>::empty());
    } else {
        assert(upto_done =~= chunks);
    }
}

/// The index of the last occurrence of `c` in `s`.
pub open spec fn last_index_of(s: Seq<char>, c: char) -> Option<int>
    decreases s.len(),
{
    if s.len() == 0 {
        None
    } else if s.last() == c {
        Some(s.len() - 1)
    } else {
        last_index_of(s.drop_last(), c)
    }
}

/// The model name of a downloaded model file's stem: its last `_` becomes `:`.
pub open spec fn registry_name_of(stem: Seq<char>) -> Seq<char> {
    match last_index_of(stem, '_') {
        Some(i) => stem.update(i, ':'),
        None => stem,
    }
}

/// The model name of a downloaded model file's stem.
pub fn registry_model_name(stem: &str) -> (r: String)
    ensures
        r@ == registry_name_of(stem@),
{
    let cs = chars_of(stem);
    let mut i = cs.len();
    assert(stem@.take(i as int) == stem@);
    while i > 0
        invariant
            cs@ == stem@,
            i <= cs@.len(),
            last_index_of(stem@, '_') == last_index_of(stem@.take(i as int), '_'),
        decreases i,
    {
        assert(stem@.take(i as int).drop_last() == stem@.take(i - 1));
        if cs[i - 1] == '_' {
            let mut out = String::new();
            let mut k: usize = 0;
            while k < cs.len()
                invariant
                    cs@ == stem@,
                    0 < i <= cs@.len(),
                    k <= cs@.len(),
                    out@ == stem@.update(i - 1, ':').take(k as int),
                decreases cs.len() - k,
            {
                let c = if k == i - 1 {
                    ':'
                } else {
                    cs[k]
                };
                assert(stem@.update(i - 1, ':').take(k + 1) == stem@.update(i - 1, ':').take(
                    k as int,
                ).push(c));
                push_char(&mut out, c);
                k += 1;
            }
            assert(stem@.update(i - 1, ':').take(cs@.len() as int) == stem@.update(i - 1, ':'));
            return out;
        }
        i -= 1;
    }
    assert(stem@.take(0) =~= Seq::<char>::empty());
    stem.to_owned()
}

/// The model name of a downloaded model file's stem, unless the
/// configuration already names a backend so.
pub fn unlisted_registry_model(config: &AppConfig, stem: &str) -> (r: Option<String>)
    ensures
        lookup(config.backends@, registry_name_of(stem@)) is None ==> (r matches Some(name)
            && name@ == registry_name_of(stem@)),
        lookup(config.backends@, registry_name_of(stem@)) is Some ==> r is None,
{
    let name = registry_model_name(stem);
    if config.backends.contains_key(name.as_str()) {
        None
    } else {
        Some(name)
    }
}

/// The file name a downloaded model is stored under: its `:` become `_`,
/// and `.gguf` is appended (the listing turns the last `_` back into `:`).
pub fn model_filename(model: &str) -> (r: String)
    ensures
        r@ == replace_all(model@, ":"@, "_"@) + ".gguf"@,
{
    proof {
        reveal_strlit(":");
    }
    let mut name = replace(model, ":", "_");
    name.append(".gguf");
    name
}

/// The ids of the downloaded models that the configuration does not already name.
pub open spec fn registry_ids(config: Seq<(Seq<char>, crate::config::BackendConfig)>, stems: Seq<Seq<char>>) -> Seq<Seq<char>>
    decreases stems.len(),
{
    if stems.len() == 0 {
        Seq::empty()
    } else {
        let name = registry_name_of(stems.last());
        let rest = registry_ids(config, stems.drop_last());
        if lookup(config, name) is None {
            rest.push(name)
        } else {
            rest
        }
    }
}

/// The models served: the configured backends in name order, then the
/// downloaded models (from their file stems) that the configuration does
/// not name.
pub fn model_list(config: &AppConfig, registry_stems: &Vec<String>, created: u64) -> (r:
    ModelListResponse)
    ensures
        r.object@ == "list"@,
        ({
            let ids = config.backends@.map_values(|e: (Seq<char>, crate::config::BackendConfig)| e.0)
                + registry_ids(config.backends@, views(registry_stems@));
            &&& r.data@.len() == ids.len()
            &&& forall|i: int| 0 <= i < ids.len() ==> is_model_object(#[trigger] r.data@[i], ids[i], created)
        }),
{
    let mut data: Vec<ModelObject> = Vec::new();
    let keys = config.backends.keys();
    let ghost key_ids = config.backends@.map_values(|e: (Seq<char>, crate::config::BackendConfig)| e.0);
    let mut i: usize = 0;
    while i < keys.len()
        invariant
            keys@.len() == config.backends@.len(),
            forall|k: int| 0 <= k < keys@.len() ==> #[trigger] keys@[k]@ == config.backends@[k].0,
            key_ids == config.backends@.map_values(|e: (Seq<char>, crate::config::BackendConfig)| e.0),
            i <= keys@.len(),
            data@.len() == i,
            forall|k: int| 0 <= k < i ==> is_model_object(#[trigger] data@[k], key_ids[k], created),
        decreases keys.len() - i,
    {
        data.push(ModelObject::new(keys[i].as_str(), created));
        i += 1;
    }
    let mut j: usize = 0;
    while j < registry_stems.len()
        invariant
            key_ids.len() == keys@.len(),
            j <= registry_stems@.len(),
            ({
                let ids = key_ids + registry_ids(config.backends@, views(registry_stems@.take(j as int)));
                &&& data@.len() == ids.len()
                &&& forall|k: int| 0 <= k < ids.len() ==> is_model_object(#[trigger] data@[k], ids[k], created)
            }),
        decreases registry_stems.len() - j,
    {
        proof {
            assert(views(registry_stems@.take(j + 1)).drop_last() == views(registry_stems@.take(j as int)));
            assert(views(registry_stems@.take(j + 1)).last() == registry_stems@[j as int]@);
        }
        let ghost before = registry_ids(config.backends@, views(registry_stems@.take(j as int)));
        if let Some(name) = unlisted_registry_model(config, registry_stems[j].as_str()) {
            data.push(ModelObject::new(name.as_str(), created));
            assert(key_ids + before.push(name@) == (key_ids + before).push(name@));
        }
        j += 1;
    }
    assert(registry_stems@.take(registry_stems@.len() as int) == registry_stems@);
    ModelListResponse { object: "list".to_owned(), data }
}

/// The entry of one model: found when the configuration names it or its
/// downloaded file exists (`on_disk`), otherwise a `404` answer.
pub fn retrieve_model(config: &AppConfig, name: &str, on_disk: bool, created: u64) -> (r: Result<
    ModelObject,
    AppError,
>)
    ensures
        (lookup(config.backends@, name@) is Some || on_disk) ==> (r matches Ok(m)
            && is_model_object(m, name@, created)),
        !(lookup(config.backends@, name@) is Some || on_disk) ==> (r matches Err(e) && e.status
            == 404 && e.message@ == "model '"@ + name@ + "' not found"@),
{
    if config.backends.contains_key(name) || on_disk {
        Ok(ModelObject::new(name, created))
    } else {
        let mut message = "model '".to_owned();
        message.append(name);
        message.append("' not found");
        Err(AppError::not_found(message.as_str()))
    }
}

} // verus!
