//! Decisions around requests to the language model.

use chat_gpt_rs::api::Api;
use vstd::prelude::*;
use vstd::string::StringExecFns;
use crate::models::{GptFailure, MyError, gpt_error, gpt_failure_text, site_error_text};

verus! {

/// What a request to the model came to: `None` where no API token was set;
/// else what the API answered: nothing, or an answer that did or did not
/// read as the expected JSON.
pub open spec fn gpt_outcome_failure<T>(answer: Option<Option<Option<T>>>) -> Option<GptFailure> {
    match answer {
        None => Some(GptFailure::NotConnected),
        Some(None) => Some(GptFailure::NoResponse),
        Some(Some(None)) => Some(GptFailure::Parse),
        Some(Some(Some(_))) => None,
    }
}

/// The result of a request to the model: the parsed answer, or the error
/// that names what failed.
pub fn gpt_outcome<T>(answer: Option<Option<Option<T>>>, time: &str) -> (r: Result<T, MyError>)
    ensures
        match answer {
            Some(Some(Some(t))) => r == Ok::<T, MyError>(t),
            _ => match r {
                Err(e) => e.text() == site_error_text(
                    "GPT"@,
                    time@,
                    gpt_failure_text(gpt_outcome_failure(answer).unwrap()),
                ),
                Ok(_) => false,
            },
        },
{
    match answer {
        None => Err(gpt_error(GptFailure::NotConnected, time)),
        Some(None) => Err(gpt_error(GptFailure::NoResponse, time)),
        Some(Some(None)) => Err(gpt_error(GptFailure::Parse, time)),
        Some(Some(Some(t))) => Ok(t),
    }
}

/// The language models that requests go to.
#[derive(Debug, PartialEq, Eq, Structural, Clone, Copy)]
pub enum ChatModel {
    Gpt4,
}

/// One message of a chat request.
#[derive(Debug)]
pub struct ChatMessage {
    pub role: String,
    pub content: String,
}

/// A chat request: the model and the messages, with every other setting of
/// the API left at its default.
#[derive(Debug)]
pub struct ChatRequest {
    pub model: ChatModel,
    pub messages: Vec<ChatMessage>,
}

/// The request that a prompt is sent in: to GPT-4, as the one message, from
/// the user.
pub fn chat_request(prompt: String) -> (r: ChatRequest)
    ensures
        r.model == ChatModel::Gpt4,
        r.messages@.len() == 1,
        r.messages@[0].role@ == "user"@,
        r.messages@[0].content@ == prompt@,
{
    let mut messages: Vec<ChatMessage> = Vec::new();
    messages.push(ChatMessage { role: String::from_str("user"), content: prompt });
    ChatRequest { model: ChatModel::Gpt4, messages }
}

#[verifier::external_type_specification]
#[verifier::external_body]
pub struct ExApi(chat_gpt_rs::api::Api);

/// Whether every byte of `"Bearer " + token` may stand in an HTTP header
/// value: no control character but the tab. (Characters beyond ASCII encode
/// to bytes that may.)
pub open spec fn header_value_ok(token: Seq<char>) -> bool {
    forall|i: int|
        0 <= i < token.len() ==> (#[trigger] token[i] == '\t' || ((token[i] as u32) >= 32
            && (token[i] as u32) != 127))
}

/// A client of the language model, with the API token it authenticates with.
pub struct ChatClient {
    api: Api,
    token: String,
}

impl ChatClient {
    /// The API token that the client sends as `Authorization: Bearer {token}`.
    pub closed spec fn token(&self) -> Seq<char> {
        self.token@
    }

    /// The HTTP client.
    pub fn api(&self) -> &Api {
        &self.api
    }
}

/// Calls `chat_gpt_rs::api::Api::new(chat_gpt_rs::token::Token::new(token))`,
/// which builds the HTTPS client that sends `Authorization: Bearer {token}`
/// with every request, and keeps the token beside it. Claimed: the token
/// kept is the argument. Nothing more is claimed of the client. The source
/// panics where the token makes an invalid header value, which `requires`
/// rules out, and where the TLS backend of `reqwest` cannot be set up, which
/// no argument decides.
#[verifier::external_body]
fn new_chat_api(token: String) -> (r: ChatClient)
    requires
        header_value_ok(token@),
    ensures
        r.token() == token@,
{
    let api = Api::new(chat_gpt_rs::token::Token::new(token.as_str()));
    ChatClient { api, token }
}

/// The client of the language model, once an API token was given.
pub struct GptModule {
    api: Option<ChatClient>,
}

impl GptModule {
    /// The API token of the client, where one was given.
    pub closed spec fn token(&self) -> Option<Seq<char>> {
        match self.api {
            Some(c) => Some(c.token()),
            None => None,
        }
    }

    pub open spec fn is_connected(&self) -> bool {
        self.token() is Some
    }

    /// A client without an API token.
    pub fn new() -> (r: Self)
        ensures
            r.token() is None,
    {
        Self { api: None }
    }

    /// Sets the API token.
    pub fn connect(&mut self, token: String)
        requires
            header_value_ok(token@),
        ensures
            final(self).token() == Some(token@),
    {
        self.api = Some(new_chat_api(token));
    }

    /// The API client, where a token was given.
    pub fn api(&self) -> (r: Option<&Api>)
        ensures
            r is Some <==> self.is_connected(),
    {
        match &self.api {
            Some(c) => Some(c.api()),
            None => None,
        }
    }
}

} // verus!
