use vstd::prelude::*;

use crate::order::str_eq;
use crate::text::{count_tokens, stream_pieces, stream_pieces_of, token_count, views};

verus! {

/// One message of a chat: who speaks, and what is said.
#[derive(Debug, PartialEq, Eq)]
pub struct ChatMessage {
    pub role: String,
    pub content: String,
}

impl Clone for ChatMessage {
    fn clone(&self) -> (r: Self)
        ensures
            r == *self,
    {
        ChatMessage { role: self.role.clone(), content: self.content.clone() }
    }
}

impl ChatMessage {
    /// A message with the given role and content.
    pub fn new(role: &str, content: &str) -> (r: ChatMessage)
        ensures
            r.role@ == role@,
            r.content@ == content@,
    {
        ChatMessage { role: role.to_owned(), content: content.to_owned() }
    }
}

/// A generation request: the chat so far and the sampling settings.
/// `temperature` and `top_p` hold the IEEE-754 bit patterns of the `f32`
/// values a client sent; the library carries them unchanged.
#[derive(Debug, Clone, PartialEq, Eq)]
pub struct GenerateRequest {
    pub messages: Vec<ChatMessage>,
    pub max_tokens: Option<u32>,
    pub temperature: Option<u32>,
    pub top_p: Option<u32>,
}

/// Token counts of one generation.
#[derive(Debug, Clone, Copy, PartialEq, Eq)]
pub struct GenerateStats {
    pub prompt_tokens: u32,
    pub completion_tokens: u32,
    pub total_tokens: u32,
}

/// Statistics whose total is the sum of its parts.
pub open spec fn stats_of(prompt: u32, completion: u32) -> GenerateStats {
    GenerateStats {
        prompt_tokens: prompt,
        completion_tokens: completion,
        total_tokens: (prompt + completion) as u32,
    }
}

/// Errors of a generation that the library itself detects.
#[derive(Debug, Clone, PartialEq, Eq)]
pub enum GenerateError {
    EmptyMessages,
}

impl GenerateError {
    /// The message that describes the error.
    pub fn message(&self) -> (r: String)
        ensures
            r@ == "messages cannot be empty"@,
    {
        "messages cannot be empty".to_owned()
    }
}

/// The index of the last message whose role is `user`, among the first `n`.
pub open spec fn last_user_index(msgs: Seq<ChatMessage>, n: int) -> Option<int>
    decreases n,
{
    if n <= 0 {
        None
    } else if msgs[n - 1].role@ == "user"@ {
        Some(n - 1)
    } else {
        last_user_index(msgs, n - 1)
    }
}

/// The message a backend answers: the last user message, or else the last one.
pub open spec fn prompt_index(msgs: Seq<ChatMessage>) -> Option<int> {
    match last_user_index(msgs, msgs.len() as int) {
        Some(i) => Some(i),
        None => if msgs.len() > 0 {
            Some(msgs.len() - 1)
        } else {
            None
        },
    }
}

proof fn lemma_last_user_index_bounds(msgs: Seq<ChatMessage>, n: int)
    ensures
        last_user_index(msgs, n) matches Some(i) ==> 0 <= i < n,
    decreases n,
{
    if n > 0 {
        lemma_last_user_index_bounds(msgs, n - 1);
    }
}

/// The message a backend answers, if there is any message.
pub fn select_prompt(messages: &Vec<ChatMessage>) -> (r: Option<&ChatMessage>)
    ensures
        prompt_index(messages@) is None <==> r is None,
        r matches Some(m) ==> prompt_index(messages@) matches Some(i) && 0 <= i < messages@.len()
            && *m == messages@[i],
{
    let n = messages.len();
    let mut i = n;
    while i > 0
        invariant
            n == messages@.len(),
            i <= n,
            last_user_index(messages@, n as int) == last_user_index(messages@, i as int),
        decreases i,
    {
        if str_eq(messages[i - 1].role.as_str(), "user") {
            proof {
                lemma_last_user_index_bounds(messages@, n as int);
            }
            return Some(&messages[i - 1]);
        }
        i -= 1;
    }
    if n > 0 {
        Some(&messages[n - 1])
    } else {
        None
    }
}

/// The sum of the token counts of the messages' contents.
pub open spec fn prompt_token_sum(msgs: Seq<ChatMessage>) -> nat
    decreases msgs.len(),
{
    if msgs.len() == 0 {
        0
    } else {
        prompt_token_sum(msgs.drop_last()) + token_count(msgs.last().content@) as nat
    }
}

/// The prompt token count of a request, or `None` when it exceeds `u32::MAX`.
pub fn prompt_tokens(messages: &Vec<ChatMessage>) -> (r: Option<u32>)
    ensures
        r matches Some(n) ==> n == prompt_token_sum(messages@),
        r is None <==> prompt_token_sum(messages@) > u32::MAX,
{
    let mut sum: u32 = 0;
    let mut i: usize = 0;
    while i < messages.len()
        invariant
            i <= messages@.len(),
            sum == prompt_token_sum(messages@.take(i as int)),
        decreases messages.len() - i,
    {
        let c = count_tokens(messages[i].content.as_str());
        assert(messages@.take(i + 1).drop_last() == messages@.take(i as int));
        if sum > u32::MAX - c {
            proof {
                lemma_prompt_sum_prefix(messages@, i + 1);
            }
            return None;
        }
        sum = sum + c;
        i += 1;
    }
    assert(messages@.take(messages@.len() as int) == messages@);
    Some(sum)
}

/// The token sum of a prefix is at most that of the whole.
pub proof fn lemma_prompt_sum_prefix(msgs: Seq<ChatMessage>, k: int)
    requires
        0 <= k <= msgs.len(),
    ensures
        prompt_token_sum(msgs.take(k)) <= prompt_token_sum(msgs),
    decreases msgs.len() - k,
{
    if k < msgs.len() {
        lemma_prompt_sum_prefix(msgs, k + 1);
        assert(msgs.take(k + 1).drop_last() == msgs.take(k));
    } else {
        assert(msgs.take(k) == msgs);
    }
}

/// What a generation produced: the streamed pieces and the statistics.
#[derive(Debug, Clone, PartialEq, Eq)]
pub struct Generation {
    pub pieces: Vec<String>,
    pub stats: GenerateStats,
}

/// A backend that answers with a fixed prefix followed by the prompt.
#[derive(Debug, Clone)]
pub struct FakeBackend {
    name: String,
    response_prefix: String,
}

impl FakeBackend {
    /// The backend's name.
    pub closed spec fn name_view(&self) -> Seq<char> {
        self.name@
    }

    /// The text put before every answer.
    pub closed spec fn prefix_view(&self) -> Seq<char> {
        self.response_prefix@
    }

    /// The answer to `msgs`, when there is a message to answer.
    pub open spec fn response_to(&self, msgs: Seq<ChatMessage>) -> Option<Seq<char>> {
        match prompt_index(msgs) {
            Some(i) => Some(self.prefix_view() + msgs[i].content@),
            None => None,
        }
    }

    /// Whether the token counts of answering `msgs` fit in `u32`.
    pub open spec fn counts_fit(&self, msgs: Seq<ChatMessage>) -> bool {
        match self.response_to(msgs) {
            Some(text) => prompt_token_sum(msgs) + token_count(text) <= u32::MAX,
            None => true,
        }
    }

    /// A fake backend; the prefix defaults to `EliteLM fake response: `.
    pub fn new(name: &str, response_prefix: Option<&str>) -> (r: FakeBackend)
        ensures
            r.name_view() == name@,
            r.prefix_view() == match response_prefix {
                Some(p) => p@,
                None => "EliteLM fake response: "@,
            },
    {
        let prefix = match response_prefix {
            Some(p) => p.to_owned(),
            None => "EliteLM fake response: ".to_owned(),
        };
        FakeBackend { name: name.to_owned(), response_prefix: prefix }
    }

    /// The backend's name.
    pub fn name(&self) -> (r: &str)
        ensures
            r@ == self.name_view(),
    {
        self.name.as_str()
    }

    /// The answer: the prefix followed by the last user message (or the last message).
    pub fn response_for(&self, request: &GenerateRequest) -> (r: Result<String, GenerateError>)
        ensures
            match self.response_to(request.messages@) {
                Some(text) => r matches Ok(s) && s@ == text,
                None => r == Err::<String, GenerateError>(GenerateError::EmptyMessages),
            },
    {
        match select_prompt(&request.messages) {
            Some(message) => {
                let mut text = self.response_prefix.clone();
                text.append(message.content.as_str());
                Ok(text)
            },
            None => Err(GenerateError::EmptyMessages),
        }
    }

    /// Whether the token counts of answering `request` fit in `u32`.
    pub fn can_count(&self, request: &GenerateRequest) -> (r: bool)
        ensures
            r == self.counts_fit(request.messages@),
    {
        match self.response_for(request) {
            Ok(text) => match prompt_tokens(&request.messages) {
                Some(p) => count_tokens(text.as_str()) <= u32::MAX - p,
                None => {
                    proof {
                        assert(prompt_token_sum(request.messages@) > u32::MAX);
                    }
                    false
                },
            },
            Err(_) => true,
        }
    }

    /// Answers `request`: the pieces of the answer, in the order they are
    /// streamed, and the token counts of prompt and answer.
    pub fn generate(&mut self, request: GenerateRequest) -> (r: Result<Generation, GenerateError>)
        requires
            old(self).counts_fit(request.messages@),
        ensures
            *final(self) == *old(self),
            match old(self).response_to(request.messages@) {
                Some(text) => r matches Ok(g) && views(g.pieces@) == stream_pieces_of(text)
                    && g.stats == stats_of(
                    prompt_token_sum(request.messages@) as u32,
                    token_count(text),
                ),
                None => r == Err::<Generation, GenerateError>(GenerateError::EmptyMessages),
            },
    {
        let response = self.response_for(&request)?;
        let prompt = match prompt_tokens(&request.messages) {
            Some(p) => p,
            None => vstd::pervasive::unreached(),
        };
        let completion = count_tokens(response.as_str());
        let pieces = stream_pieces(response.as_str());
        Ok(
            Generation {
                pieces,
                stats: GenerateStats {
                    prompt_tokens: prompt,
                    completion_tokens: completion,
                    total_tokens: prompt + completion,
                },
            },
        )
    }
}

} // verus!
