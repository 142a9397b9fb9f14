//! What is asked of the language model, and where its answer stands in what
//! the endpoint returns.

use crate::text::{truncate, truncated};
use vstd::prelude::*;
use vstd::string::*;

verus! {

/// The model is shown at most this many characters of context.
pub const CONTEXT_LIMIT: usize = 2000;

/// The instruction that opens every exchange.
pub const SYSTEM_PROMPT: &'static str =
    "<|system|>You are a stellar web scraping api. you determine if a name and title are present that match a given email. you always return results in <name></name> and <title></title> tags that have a persons name and job title/position. if None are found, you return NONE</s>";

/// What stands before the address in the question.
pub const USER_PROMPT_HEAD: &'static str =
    "<|user|>Extract the contact information for this email: ";

/// What stands between the address and the context in the question.
pub const USER_PROMPT_MIDDLE: &'static str = " from this snippet: ";

/// What closes the question.
pub const USER_PROMPT_TAIL: &'static str = "</s>";

/// Who speaks in a message.
#[derive(Debug, Clone, Copy, PartialEq, Eq, Structural)]
pub enum Role {
    System,
    User,
}

/// Mathematical content of a [`ChatMessage`].
pub struct ChatMessageView {
    pub role: Role,
    pub content: Seq<char>,
}

/// One message of an exchange with the model.
#[derive(Debug, Clone, PartialEq, Eq)]
pub struct ChatMessage {
    pub role: Role,
    pub content: String,
}

impl View for ChatMessage {
    type V = ChatMessageView;

    open spec fn view(&self) -> ChatMessageView {
        ChatMessageView { role: self.role, content: self.content@ }
    }
}

/// The views of `messages`, in order.
pub open spec fn messages_view(messages: Seq<ChatMessage>) -> Seq<ChatMessageView> {
    messages.map_values(|m: ChatMessage| m@)
}

/// The question about `email`: the address and the first
/// [`CONTEXT_LIMIT`] characters of `context`, set into the fixed wording.
pub open spec fn user_prompt(context: Seq<char>, email: Seq<char>) -> Seq<char> {
    USER_PROMPT_HEAD@ + email + USER_PROMPT_MIDDLE@ + truncated(context, CONTEXT_LIMIT as nat)
        + USER_PROMPT_TAIL@
}

/// The two messages that ask the model about `email`: the fixed instruction,
/// then the question.
pub open spec fn request_for(context: Seq<char>, email: Seq<char>) -> Seq<ChatMessageView> {
    seq![
        ChatMessageView { role: Role::System, content: SYSTEM_PROMPT@ },
        ChatMessageView { role: Role::User, content: user_prompt(context, email) },
    ]
}

/// The messages that ask the model for the name and the title that belong to
/// `email` in `context`.
pub fn extraction_request(context: &str, email: &str) -> (messages: Vec<ChatMessage>)
    ensures
        messages_view(messages@) == request_for(context@, email@),
{
    let shown = truncate(context, CONTEXT_LIMIT);
    let mut question = USER_PROMPT_HEAD.to_owned();
    question.append(email);
    question.append(USER_PROMPT_MIDDLE);
    question.append(shown.as_str());
    question.append(USER_PROMPT_TAIL);
    let mut messages: Vec<ChatMessage> = Vec::new();
    messages.push(ChatMessage { role: Role::System, content: SYSTEM_PROMPT.to_owned() });
    messages.push(ChatMessage { role: Role::User, content: question });
    assert(messages_view(messages@) =~= request_for(context@, email@));
    messages
}

/// Why an answer of the endpoint holds no reply.
#[derive(Debug, Clone, Copy, PartialEq, Eq, Structural)]
pub enum EndpointError {
    /// The answer lists no choice.
    NoChoice,
    /// The first choice has no content.
    NoContent,
}

/// One choice in an answer of the endpoint: the content of its message, if
/// it has any.
#[derive(Debug, Clone, PartialEq, Eq)]
pub struct Choice {
    pub content: Option<String>,
}

/// An answer of the endpoint.
#[derive(Debug, Clone, PartialEq, Eq)]
pub struct Completion {
    pub choices: Vec<Choice>,
}

/// The reply in an answer of the endpoint: the content of its first choice.
pub fn reply_text(completion: &Completion) -> (r: Result<&String, EndpointError>)
    ensures
        match r {
            Ok(text) => completion.choices.len() > 0 && completion.choices[0].content == Some(
                *text,
            ),
            Err(EndpointError::NoChoice) => completion.choices.len() == 0,
            Err(EndpointError::NoContent) => completion.choices.len() > 0
                && completion.choices[0].content is None,
        },
{
    if completion.choices.len() == 0 {
        return Err(EndpointError::NoChoice);
    }
    match &completion.choices[0].content {
        Some(text) => Ok(text),
        None => Err(EndpointError::NoContent),
    }
}

} // verus!
