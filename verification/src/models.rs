//! The shapes of chat requests and answers, and of a cached exchange.

use vstd::prelude::*;

verus! {

/// An image referred to by a message.
#[derive(Debug, Clone)]
pub struct ImageUrl {
    pub url: String,
    pub detail: Option<String>,
}

/// One part of a message made of several.
#[derive(Debug, Clone)]
pub struct ContentPart {
    pub content_type: String,
    pub text: Option<String>,
    pub image_url: Option<ImageUrl>,
}

/// What a message says: plain text, or parts.
#[derive(Debug, Clone)]
pub enum MessageContent {
    Text(String),
    Array(Vec<ContentPart>),
}

/// One message of a conversation.
#[derive(Debug, Clone)]
pub struct Message {
    pub role: String,
    pub content: MessageContent,
}

/// One answer among those a completion offers.
#[derive(Debug)]
pub struct Choice {
    pub index: u32,
    pub message: Message,
    pub finish_reason: Option<String>,
}

/// Token counts of a completion.
#[derive(Debug, Clone, Copy, PartialEq, Eq, Structural)]
pub struct Usage {
    pub prompt_tokens: u32,
    pub completion_tokens: u32,
    pub total_tokens: u32,
}

/// A complete, non-streamed completion.
#[derive(Debug)]
pub struct ChatResponse {
    pub id: String,
    pub object: String,
    pub created: u64,
    pub model: String,
    pub choices: Vec<Choice>,
    pub usage: Option<Usage>,
}

/// A stored exchange: the fingerprint of the request's messages and the
/// answer they got.
#[derive(Debug)]
pub struct AIRequest {
    pub id: i64,
    pub messages: String,
    pub response: String,
}

impl ChatResponse {
    /// The text of the first answer, where the completion has one and it is
    /// plain text.
    pub fn first_text(&self) -> (text: Option<&String>)
        ensures
            match text {
                Some(t) => self.choices@.len() > 0 && self.choices@[0].message.content
                    == MessageContent::Text(*t),
                None => self.choices@.len() == 0 || !(self.choices@[0].message.content
                    is Text),
            },
    {
        if self.choices.len() == 0 {
            return None;
        }
        match &self.choices[0].message.content {
            MessageContent::Text(t) => Some(t),
            MessageContent::Array(_) => None,
        }
    }
}

} // verus!
