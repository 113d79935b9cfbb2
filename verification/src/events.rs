//! What the bot does with the events that it receives.

use vstd::prelude::*;

verus! {

/// What an interaction is.
#[derive(PartialEq, Eq, Structural, Clone, Copy, Debug)]
pub enum InteractionKind {
    /// A user gave one of the bot's commands.
    ApplicationCommand,
    /// A user pressed a button.
    MessageComponent,
    /// Anything else.
    Other,
}

/// An event of the gateway, as far as the bot tells events apart.
#[derive(PartialEq, Eq, Structural, Clone, Copy, Debug)]
pub enum GatewayEvent {
    /// No event could be received.
    Failed,
    /// The gateway is alive.
    HeartbeatAck,
    /// The connection is ready.
    Ready,
    /// A message was written.
    MessageCreate,
    /// A message was changed.
    MessageUpdate,
    /// Somebody turned to the bot.
    InteractionCreate(InteractionKind),
    /// Any other event.
    Other,
}

/// Where an event goes.
#[derive(PartialEq, Eq, Structural, Clone, Copy, Debug)]
pub enum EventRoute {
    /// Nowhere; that it failed is worth a warning.
    Warn,
    /// Nowhere.
    Skip,
    /// To the cache alone.
    Cache,
    /// To the cache alone; that the bot is connected is worth a note.
    CacheAndAnnounce,
    /// To the cache, and then to be handled.
    CacheAndHandle,
}

/// Where an event goes.
pub open spec fn route_of(event: GatewayEvent) -> EventRoute {
    match event {
        GatewayEvent::Failed => EventRoute::Warn,
        GatewayEvent::HeartbeatAck => EventRoute::Skip,
        GatewayEvent::Ready => EventRoute::CacheAndAnnounce,
        GatewayEvent::MessageCreate => EventRoute::Cache,
        GatewayEvent::MessageUpdate => EventRoute::Cache,
        GatewayEvent::InteractionCreate(_) => EventRoute::CacheAndHandle,
        GatewayEvent::Other => EventRoute::CacheAndHandle,
    }
}

/// Says where an event goes.
pub fn route_event(event: GatewayEvent) -> (route: EventRoute)
    ensures
        route == route_of(event),
{
    match event {
        GatewayEvent::Failed => EventRoute::Warn,
        GatewayEvent::HeartbeatAck => EventRoute::Skip,
        GatewayEvent::Ready => EventRoute::CacheAndAnnounce,
        GatewayEvent::MessageCreate => EventRoute::Cache,
        GatewayEvent::MessageUpdate => EventRoute::Cache,
        GatewayEvent::InteractionCreate(_) => EventRoute::CacheAndHandle,
        GatewayEvent::Other => EventRoute::CacheAndHandle,
    }
}

/// How an event is handled.
#[derive(PartialEq, Eq, Structural, Clone, Copy, Debug)]
pub enum EventHandling {
    /// The command framework takes it.
    RunCommand,
    /// The press of a button is answered.
    AnswerPress,
    /// Nothing is done; that the interaction was ignored is worth a note.
    IgnoreInteraction,
    /// Nothing is done.
    Nothing,
}

/// How an event is handled.
pub open spec fn handling_of(event: GatewayEvent) -> EventHandling {
    match event {
        GatewayEvent::InteractionCreate(InteractionKind::ApplicationCommand) =>
            EventHandling::RunCommand,
        GatewayEvent::InteractionCreate(InteractionKind::MessageComponent) =>
            EventHandling::AnswerPress,
        GatewayEvent::InteractionCreate(InteractionKind::Other) =>
            EventHandling::IgnoreInteraction,
        _ => EventHandling::Nothing,
    }
}

/// Says how an event is handled.
pub fn handle_event(event: GatewayEvent) -> (handling: EventHandling)
    ensures
        handling == handling_of(event),
{
    match event {
        GatewayEvent::InteractionCreate(kind) => match kind {
            InteractionKind::ApplicationCommand => EventHandling::RunCommand,
            InteractionKind::MessageComponent => EventHandling::AnswerPress,
            InteractionKind::Other => EventHandling::IgnoreInteraction,
        },
        _ => EventHandling::Nothing,
    }
}

/// No event that calls for an action is dropped on its way to be handled, and
/// interactions are the events that do.
pub proof fn law_interactions_are_handled(event: GatewayEvent)
    ensures
        handling_of(event) != EventHandling::Nothing ==> route_of(event)
            == EventRoute::CacheAndHandle,
        handling_of(event) != EventHandling::Nothing <==> event is InteractionCreate,
{
}

} // verus!
