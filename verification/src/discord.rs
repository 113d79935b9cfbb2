//! What Discord is asked to show, and how.

use vstd::prelude::*;

verus! {

/// How a button looks.
#[derive(PartialEq, Eq, Structural, Clone, Copy, Debug)]
pub enum ButtonStyle {
    Primary,
    Secondary,
    Success,
    Danger,
    Link,
}

/// A button under a message.
pub struct Button {
    /// The id that comes back when the button is pressed.
    pub custom_id: Option<String>,
    /// Whether the button cannot be pressed.
    pub disabled: bool,
    /// An emoji on the button.
    pub emoji: Option<String>,
    pub label: Option<String>,
    pub style: ButtonStyle,
    /// Where a button that is a link leads.
    pub url: Option<String>,
}

/// Buttons side by side.
pub struct ActionRow {
    pub components: Vec<Button>,
}

/// How an interaction is responded to.
#[derive(PartialEq, Eq, Structural, Clone, Copy, Debug)]
pub enum ResponseKind {
    Pong,
    /// With a message.
    ChannelMessageWithSource,
    /// With a message that is still to come.
    DeferredChannelMessageWithSource,
    /// With a change of the message that is still to come.
    DeferredUpdateMessage,
    /// With a change of the message.
    UpdateMessage,
    ApplicationCommandAutocompleteResult,
    Modal,
}

/// What an interaction with the bot is about.
pub enum InteractionData {
    /// A component of a message, by the id that the bot gave it.
    MessageComponent { custom_id: String },
    /// Anything else.
    Other,
}

/// What identifies an interaction towards Discord.
pub struct InteractionHandle {
    pub application_id: u64,
    pub id: u64,
    pub token: String,
}

/// An interaction with the bot.
pub struct Interaction {
    pub handle: InteractionHandle,
    pub data: Option<InteractionData>,
}

} // verus!
