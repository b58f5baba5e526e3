use vstd::prelude::*;

use crate::chat::{ChatMessage, GenerateRequest, GenerateStats};
use crate::text::views;

verus! {

/// Streaming options of a chat completion request.
#[derive(Debug, Clone, Copy, PartialEq, Eq)]
pub struct StreamOptions {
    pub include_usage: bool,
}

/// A chat completion request of the OpenAI API. `temperature` and `top_p`
/// hold the IEEE-754 bit patterns of the `f32` values the client sent.
#[derive(Debug, Clone, PartialEq, Eq)]
pub struct ChatCompletionRequest {
    pub messages: Vec<ChatMessage>,
    pub model: Option<String>,
    pub max_tokens: Option<u32>,
    pub temperature: Option<u32>,
    pub top_p: Option<u32>,
    pub stream: bool,
    pub stream_options: Option<StreamOptions>,
}

impl ChatCompletionRequest {
    /// The generation request the completion request asks for.
    pub fn into_generate_request(self) -> (r: GenerateRequest)
        ensures
            r.messages == self.messages,
            r.max_tokens == self.max_tokens,
            r.temperature == self.temperature,
            r.top_p == self.top_p,
    {
        GenerateRequest {
            messages: self.messages,
            max_tokens: self.max_tokens,
            temperature: self.temperature,
            top_p: self.top_p,
        }
    }

    /// Whether a usage chunk was asked for (`stream_options.include_usage`).
    pub fn include_usage(&self) -> (r: bool)
        ensures
            r == match self.stream_options {
                Some(o) => o.include_usage,
                None => false,
            },
    {
        match self.stream_options {
            Some(o) => o.include_usage,
            None => false,
        }
    }
}

/// Token usage as reported to the client.
#[derive(Debug, Clone, Copy, PartialEq, Eq)]
pub struct ChatCompletionUsage {
    pub prompt_tokens: u32,
    pub completion_tokens: u32,
    pub total_tokens: u32,
}

/// The usage that reports `stats`.
pub open spec fn usage_of(stats: GenerateStats) -> ChatCompletionUsage {
    ChatCompletionUsage {
        prompt_tokens: stats.prompt_tokens,
        completion_tokens: stats.completion_tokens,
        total_tokens: stats.total_tokens,
    }
}

impl From<GenerateStats> for ChatCompletionUsage {
    fn from(stats: GenerateStats) -> (r: ChatCompletionUsage)
        ensures
            r.prompt_tokens == stats.prompt_tokens,
            r.completion_tokens == stats.completion_tokens,
            r.total_tokens == stats.total_tokens,
    {
        ChatCompletionUsage {
            prompt_tokens: stats.prompt_tokens,
            completion_tokens: stats.completion_tokens,
            total_tokens: stats.total_tokens,
        }
    }
}

impl vstd::std_specs::convert::FromSpecImpl<GenerateStats> for ChatCompletionUsage {
    open spec fn obeys_from_spec() -> bool {
        true
    }

    open spec fn from_spec(stats: GenerateStats) -> ChatCompletionUsage {
        usage_of(stats)
    }
}

/// One choice of a chat completion.
#[derive(Debug, Clone, PartialEq, Eq)]
pub struct ChatCompletionResponseChoice {
    pub index: u32,
    pub message: ChatMessage,
    pub finish_reason: Option<String>,
}

/// A complete (non-streamed) chat completion.
#[derive(Debug, Clone, PartialEq, Eq)]
pub struct ChatCompletionResponse {
    pub id: String,
    pub object_type: String,
    pub created: u64,
    pub model: String,
    pub choices: Vec<ChatCompletionResponseChoice>,
    pub usage: ChatCompletionUsage,
}

/// `s` is the text `t`, when present.
pub open spec fn text_is(s: Option<String>, t: Seq<char>) -> bool {
    s matches Some(x) && x@ == t
}

impl ChatCompletionResponse {
    /// A completion with one assistant message, finished with `stop`.
    pub fn new(id: &str, created: u64, model: &str, content: &str, stats: GenerateStats) -> (r:
        ChatCompletionResponse)
        ensures
            r.id@ == id@,
            r.object_type@ == "chat.completion"@,
            r.created == created,
            r.model@ == model@,
            r.choices@.len() == 1,
            r.choices@[0].index == 0,
            r.choices@[0].message.role@ == "assistant"@,
            r.choices@[0].message.content@ == content@,
            text_is(r.choices@[0].finish_reason, "stop"@),
            r.usage == usage_of(stats),
            r.usage.prompt_tokens == stats.prompt_tokens,
            r.usage.completion_tokens == stats.completion_tokens,
            r.usage.total_tokens == stats.total_tokens,
    {
        let mut choices: Vec<ChatCompletionResponseChoice> = Vec::new();
        choices.push(
            ChatCompletionResponseChoice {
                index: 0,
                message: ChatMessage::new("assistant", content),
                finish_reason: Some("stop".to_owned()),
            },
        );
        ChatCompletionResponse {
            id: id.to_owned(),
            object_type: "chat.completion".to_owned(),
            created,
            model: model.to_owned(),
            choices,
            usage: ChatCompletionUsage::from(stats),
        }
    }
}

/// What a streamed chunk adds to the message.
#[derive(Debug, Clone, PartialEq, Eq)]
pub struct ChatCompletionChunkDelta {
    pub role: Option<String>,
    pub content: Option<String>,
}

/// One choice of a streamed chunk.
#[derive(Debug, Clone, PartialEq, Eq)]
pub struct ChatCompletionChunkChoice {
    pub index: u32,
    pub delta: ChatCompletionChunkDelta,
    pub finish_reason: Option<String>,
}

/// One chunk of a streamed chat completion.
#[derive(Debug, Clone, PartialEq, Eq)]
pub struct ChatCompletionChunk {
    pub id: String,
    pub object_type: String,
    pub created: u64,
    pub model: String,
    pub choices: Vec<ChatCompletionChunkChoice>,
    pub usage: Option<ChatCompletionUsage>,
}

/// The fields every chunk of one completion shares.
pub open spec fn chunk_header(c: ChatCompletionChunk, id: Seq<char>, created: u64, model: Seq<char>) -> bool {
    &&& c.id@ == id
    &&& c.object_type@ == "chat.completion.chunk"@
    &&& c.created == created
    &&& c.model@ == model
}

/// A chunk with a single choice at index 0 with the given delta and finish reason.
pub open spec fn single_choice(c: ChatCompletionChunk) -> bool {
    &&& c.choices@.len() == 1
    &&& c.choices@[0].index == 0
    &&& c.usage is None
}

/// The opening chunk: the assistant role with empty content.
pub open spec fn is_first_chunk(c: ChatCompletionChunk, id: Seq<char>, created: u64, model: Seq<char>) -> bool {
    &&& chunk_header(c, id, created, model)
    &&& single_choice(c)
    &&& text_is(c.choices@[0].delta.role, "assistant"@)
    &&& text_is(c.choices@[0].delta.content, Seq::empty())
    &&& c.choices@[0].finish_reason is None
}

/// A chunk that carries the text `content`.
pub open spec fn is_token_chunk(
    c: ChatCompletionChunk,
    id: Seq<char>,
    created: u64,
    model: Seq<char>,
    content: Seq<char>,
) -> bool {
    &&& chunk_header(c, id, created, model)
    &&& single_choice(c)
    &&& c.choices@[0].delta.role is None
    &&& text_is(c.choices@[0].delta.content, content)
    &&& c.choices@[0].finish_reason is None
}

/// The chunk that ends the message with `stop`.
pub open spec fn is_done_chunk(c: ChatCompletionChunk, id: Seq<char>, created: u64, model: Seq<char>) -> bool {
    &&& chunk_header(c, id, created, model)
    &&& single_choice(c)
    &&& c.choices@[0].delta.role is None
    &&& c.choices@[0].delta.content is None
    &&& text_is(c.choices@[0].finish_reason, "stop"@)
}

/// The chunk that reports usage, with no choices.
pub open spec fn is_usage_chunk(
    c: ChatCompletionChunk,
    id: Seq<char>,
    created: u64,
    model: Seq<char>,
    usage: ChatCompletionUsage,
) -> bool {
    &&& chunk_header(c, id, created, model)
    &&& c.choices@.len() == 0
    &&& c.usage == Some(usage)
}

impl ChatCompletionChunk {
    fn with_choice(
        id: &str,
        created: u64,
        model: &str,
        role: Option<String>,
        content: Option<String>,
        finish_reason: Option<String>,
    ) -> (r: ChatCompletionChunk)
        ensures
            chunk_header(r, id@, created, model@),
            single_choice(r),
            r.choices@[0].delta.role == role,
            r.choices@[0].delta.content == content,
            r.choices@[0].finish_reason == finish_reason,
    {
        let mut choices: Vec<ChatCompletionChunkChoice> = Vec::new();
        choices.push(
            ChatCompletionChunkChoice {
                index: 0,
                delta: ChatCompletionChunkDelta { role, content },
                finish_reason,
            },
        );
        ChatCompletionChunk {
            id: id.to_owned(),
            object_type: "chat.completion.chunk".to_owned(),
            created,
            model: model.to_owned(),
            choices,
            usage: None,
        }
    }

    /// The chunk that opens a streamed message: role `assistant`, empty content.
    pub fn first_chunk(id: &str, created: u64, model: &str) -> (r: ChatCompletionChunk)
        ensures
            is_first_chunk(r, id@, created, model@),
    {
        Self::with_choice(id, created, model, Some("assistant".to_owned()), Some(String::new()), None)
    }

    /// A chunk that carries one piece of the message.
    pub fn token(id: &str, created: u64, model: &str, content: &str) -> (r: ChatCompletionChunk)
        ensures
            is_token_chunk(r, id@, created, model@, content@),
    {
        Self::with_choice(id, created, model, None, Some(content.to_owned()), None)
    }

    /// The chunk that ends a streamed message.
    pub fn done(id: &str, created: u64, model: &str) -> (r: ChatCompletionChunk)
        ensures
            is_done_chunk(r, id@, created, model@),
    {
        Self::with_choice(id, created, model, None, None, Some("stop".to_owned()))
    }

    /// The chunk that reports token usage; it has no choices.
    pub fn usage_chunk(id: &str, created: u64, model: &str, usage: ChatCompletionUsage) -> (r:
        ChatCompletionChunk)
        ensures
            is_usage_chunk(r, id@, created, model@, usage),
    {
        ChatCompletionChunk {
            id: id.to_owned(),
            object_type: "chat.completion.chunk".to_owned(),
            created,
            model: model.to_owned(),
            choices: Vec::new(),
            usage: Some(usage),
        }
    }
}

/// The chunks of a streamed completion of `pieces`: the opening chunk, one
/// chunk per piece, the closing chunk, and the usage chunk when asked for.
pub open spec fn is_stream(
    chunks: Seq<ChatCompletionChunk>,
    id: Seq<char>,
    created: u64,
    model: Seq<char>,
    pieces: Seq<Seq<char>>,
    usage: Option<ChatCompletionUsage>,
) -> bool {
    let n = pieces.len() as int;
    &&& chunks.len() == n + 2 + if usage is Some {
        1int
    } else {
        0int
    }
    &&& is_first_chunk(chunks[0], id, created, model)
    &&& forall|i: int|
        0 <= i < n ==> is_token_chunk(#[trigger] chunks[i + 1], id, created, model, pieces[i])
    &&& is_done_chunk(chunks[n + 1], id, created, model)
    &&& (usage matches Some(u) ==> is_usage_chunk(chunks[n + 2], id, created, model, u))
}

/// The chunks that stream a generation's pieces to the client.
pub fn stream_chunks(
    id: &str,
    created: u64,
    model: &str,
    pieces: &Vec<String>,
    stats: GenerateStats,
    include_usage: bool,
) -> (r: Vec<ChatCompletionChunk>)
    ensures
        is_stream(
            r@,
            id@,
            created,
            model@,
            views(pieces@),
            if include_usage {
                Some(usage_of(stats))
            } else {
                None
            },
        ),
{
    let mut chunks: Vec<ChatCompletionChunk> = Vec::new();
    chunks.push(ChatCompletionChunk::first_chunk(id, created, model));
    let mut i: usize = 0;
    while i < pieces.len()
        invariant
            i <= pieces@.len(),
            chunks@.len() == i + 1,
            is_first_chunk(chunks@[0], id@, created, model@),
            forall|k: int|
                0 <= k < i ==> is_token_chunk(
                    #[trigger] chunks@[k + 1],
                    id@,
                    created,
                    model@,
                    pieces@[k]@,
                ),
        decreases pieces.len() - i,
    {
        chunks.push(ChatCompletionChunk::token(id, created, model, pieces[i].as_str()));
        i += 1;
    }
    chunks.push(ChatCompletionChunk::done(id, created, model));
    if include_usage {
        chunks.push(ChatCompletionChunk::usage_chunk(id, created, model, ChatCompletionUsage::from(stats)));
    }
    chunks
}

/// The line that ends a server-sent event stream.
pub fn sse_done_line() -> (r: &'static str)
    ensures
        r@ == "data: [DONE]\n\n"@,
{
    "data: [DONE]\n\n"
}

/// A server-sent event carrying `json`.
pub fn sse_data_line(json: &str) -> (r: String)
    ensures
        r@ == "data: "@ + json@ + "\n\n"@,
{
    let mut line = "data: ".to_owned();
    line.append(json);
    line.append("\n\n");
    line
}

/// The events carrying each of `jsons`, one after the other.
pub open spec fn sse_frames(jsons: Seq<Seq<char>>) -> Seq<char>
    decreases jsons.len(),
{
    if jsons.len() == 0 {
        Seq::empty()
    } else {
        sse_frames(jsons.drop_last()) + ("data: "@ + jsons.last() + "\n\n"@)
    }
}

/// The body of a streamed completion: one event per serialized chunk, then the done line.
pub fn stream_body(chunk_jsons: &Vec<String>) -> (r: String)
    ensures
        r@ == sse_frames(views(chunk_jsons@)) + "data: [DONE]\n\n"@,
{
    let mut body = String::new();
    let mut i: usize = 0;
    while i < chunk_jsons.len()
        invariant
            i <= chunk_jsons@.len(),
            body@ == sse_frames(views(chunk_jsons@.take(i as int))),
        decreases chunk_jsons.len() - i,
    {
        let line = sse_data_line(chunk_jsons[i].as_str());
        proof {
            assert(views(chunk_jsons@.take(i + 1)).drop_last() == views(chunk_jsons@.take(i as int)));
        }
        body.append(line.as_str());
        i += 1;
    }
    assert(chunk_jsons@.take(chunk_jsons@.len() as int) == chunk_jsons@);
    body.append(sse_done_line());
    body
}

/// The text made of all `pieces`, in order.
pub fn join_pieces(pieces: &Vec<String>) -> (r: String)
    ensures
        r@ == views(pieces@).flatten(),
{
    let mut text = String::new();
    let mut i: usize = 0;
    while i < pieces.len()
        invariant
            i <= pieces@.len(),
            text@ == views(pieces@.take(i as int)).flatten(),
        decreases pieces.len() - i,
    {
        proof {
            let before = views(pieces@.take(i as int));
            assert(views(pieces@.take(i + 1)) == before.push(pieces@[i as int]@));
            before.lemma_flatten_push(pieces@[i as int]@);
        }
        text.append(pieces[i].as_str());
        i += 1;
    }
    assert(pieces@.take(pieces@.len() as int) == pieces@);
    text
}

/// One model as listed by the API.
#[derive(Debug, Clone, PartialEq, Eq)]
pub struct ModelObject {
    pub id: String,
    pub object: String,
    pub created: u64,
    pub owned_by: String,
}

/// The list of models served.
#[derive(Debug, Clone, PartialEq, Eq)]
pub struct ModelListResponse {
    pub object: String,
    pub data: Vec<ModelObject>,
}

/// A model entry with the given id.
pub open spec fn is_model_object(m: ModelObject, id: Seq<char>, created: u64) -> bool {
    &&& m.id@ == id
    &&& m.object@ == "model"@
    &&& m.created == created
    &&& m.owned_by@ == "elitelm"@
}

impl ModelObject {
    /// The entry of a model owned by `elitelm`.
    pub fn new(id: &str, created: u64) -> (r: ModelObject)
        ensures
            is_model_object(r, id@, created),
    {
        ModelObject {
            id: id.to_owned(),
            object: "model".to_owned(),
            created,
            owned_by: "elitelm".to_owned(),
        }
    }
}


/// The usage reported for a generation carries its counts field by field:
/// prompt tokens as prompt tokens, completion tokens as completion tokens.
pub proof fn lemma_usage_reports_stats(stats: GenerateStats)
    ensures
        usage_of(stats).prompt_tokens == stats.prompt_tokens,
        usage_of(stats).completion_tokens == stats.completion_tokens,
        usage_of(stats).total_tokens == stats.total_tokens,
{
}

} // verus!
