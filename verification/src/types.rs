//! The plain data that the bot works on.

use vstd::prelude::*;

verus! {

/// Settings of a bot that only connects.
pub struct Config {
    pub discord_token: String,
}

/// Settings of the bot.
#[derive(Clone, Debug)]
pub struct BotConfig {
    pub interaction_table_name: String,
    pub interaction_table_user_index_name: String,
    pub openai_api_key: String,
    pub discord_token: String,
}

/// One message of a conversation with the language model.
pub struct ChatMessage {
    pub role: String,
    pub content: String,
}

/// A request for the next message of a conversation.
pub struct OpenAIChatCompletionRequest {
    pub model: String,
    pub max_tokens: Option<i64>,
    pub messages: Vec<ChatMessage>,
}

/// One of the messages that the language model offers.
pub struct OpenAIChatChoice {
    pub message: ChatMessage,
}

/// What a completion has cost.
pub struct OpenAIUsage {
    pub total_tokens: i64,
}

/// The answer to an [`OpenAIChatCompletionRequest`].
pub struct OpenAIChatCompletionResponse {
    pub choices: Vec<OpenAIChatChoice>,
    pub usage: OpenAIUsage,
}

/// What is kept of an interaction: the prompt and the full answer to it.
pub struct InteractionValue {
    pub openai_response: String,
    pub prompt: String,
}

/// A member of Discord.
pub struct User {
    pub id: u64,
    pub name: String,
    pub discriminator: u16,
    pub avatar: Option<Avatar>,
    pub accent_color: Option<u32>,
}

/// The hash of a user's picture, as packed bytes.
pub struct Avatar {
    pub bytes: [u8; 16],
    pub animated: bool,
}

} // verus!
