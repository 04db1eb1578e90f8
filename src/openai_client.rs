//! The chat panel's data and the choice of the model provider's endpoint.
use vstd::prelude::*;
use crate::numeric::same_text;

verus! {

/// The endpoint of the OpenAI API.
pub const OPENAI_BASE_URL: &'static str = "https://api.openai.com/v1";

/// The endpoint of the DeepSeek API.
pub const DEEPSEEK_BASE_URL: &'static str = "https://api.deepseek.com";

/// Where a chat message is in its life.
#[derive(Debug, Clone, Copy, PartialEq, Eq, Structural)]
pub enum MessageStatus {
    Sending,
    Sent,
    Failed,
    Received,
}

/// Who wrote a chat message.
#[derive(Debug, Clone, Copy, PartialEq, Eq, Structural)]
pub enum ChatMessageRole {
    User,
    Bot,
}

/// One message of a chat.
#[derive(Debug)]
pub struct ChatMessage {
    pub id: String,
    pub status: MessageStatus,
    pub content: String,
    pub role: ChatMessageRole,
}

/// A chat with one provider.
#[derive(Debug)]
pub struct Chat {
    pub id: String,
    pub provider: String,
    pub messages: Vec<ChatMessage>,
}

/// The stored chats and the one that is open.
#[derive(Debug)]
pub struct ChatStore {
    pub active_chat: Option<Chat>,
    pub chats: Vec<Chat>,
}

/// The endpoint for a provider: DeepSeek's for `DEEP_SEEK`, OpenAI's for any other.
pub open spec fn base_url_of(provider: Seq<char>) -> Seq<char> {
    if provider == "DEEP_SEEK"@ {
        DEEPSEEK_BASE_URL@
    } else {
        OPENAI_BASE_URL@
    }
}

/// Picks the endpoint for a provider (see `base_url_of`).
pub fn get_base_url(provider: &str) -> (r: &'static str)
    ensures
        r@ == base_url_of(provider@),
{
    if same_text(provider, "DEEP_SEEK") {
        DEEPSEEK_BASE_URL
    } else {
        OPENAI_BASE_URL
    }
}

/// The address that describes a model of a provider: `<endpoint>/models/<model>`.
pub fn model_url(provider: &str, model: &str) -> (r: String)
    ensures
        r@ == base_url_of(provider@) + "/models/"@ + model@,
{
    let mut r = get_base_url(provider).to_owned();
    r.append("/models/");
    r.append(model);
    r
}

} // verus!
