//! The button under a shortened reply: read the interaction that it carries the
//! id of, and show all of the response, in as many messages as it takes.
//!
//! [`PressState::start`] gives the first action, and [`PressState::resume`]
//! takes the outcome of each action and gives the next. The first failure ends
//! it.

use crate::discord::{Interaction, InteractionData, InteractionHandle, ResponseKind};
use crate::text::{
    joined, law_piece_holds_its_part, law_piece_lengths, law_pieces_cover_the_text,
    law_pieces_rejoin, pieces, split_pieces, views,
};
use crate::types::{BotConfig, InteractionValue};
use crate::MAX_DISCORD_MESSAGE_LEN;
use vstd::prelude::*;

verus! {

/// How far the press of a button has been answered.
pub enum PressState {
    /// The interaction is being read from the table.
    Fetching { handle: InteractionHandle },
    /// The message `messages[at]` is being sent.
    Sending { handle: InteractionHandle, messages: Vec<String>, at: usize },
    /// All of the response has been shown.
    Done,
}

/// What to do next. A message that is `ephemeral` is for the eyes of the one who
/// pressed alone.
pub enum PressAction {
    /// Read the item with this key from a table.
    Fetch { table_name: String, key: String },
    /// Answer the press, the interaction `id`, with a message.
    Respond {
        application_id: u64,
        id: u64,
        token: String,
        kind: ResponseKind,
        content: String,
        ephemeral: bool,
    },
    /// Send one more message.
    FollowUp { application_id: u64, token: String, content: String, ephemeral: bool },
    /// Nothing is left to do.
    Finish,
}

/// What came of an action.
pub enum PressEvent<E> {
    Fetched(Result<InteractionValue, E>),
    Sent(Result<(), E>),
}

/// Why a press was not answered, or not to the end.
pub enum PressError<E> {
    /// An action failed.
    Outside(E),
    /// The interaction is about nothing.
    NoData,
    /// The interaction is not about a component of a message.
    NotAComponent,
}

impl<E> PressError<E> {
    /// The text of the bot's own refusals.
    pub fn message(&self) -> (text: Option<&'static str>)
        ensures
            match *self {
                PressError::Outside(_) => text is None,
                PressError::NoData => text matches Some(t) && t@ == "no interaction data"@,
                PressError::NotAComponent => text matches Some(t) && t@
                    == "this should not happen"@,
            },
    {
        match self {
            PressError::Outside(_) => None,
            PressError::NoData => Some("no interaction data"),
            PressError::NotAComponent => Some("this should not happen"),
        }
    }
}

/// What follows from an event.
pub type PressNext<E> = Result<(PressState, PressAction), PressError<E>>;

/// The messages that show `response`.
pub open spec fn shown(response: Seq<char>) -> Seq<Seq<char>> {
    pieces(response, MAX_DISCORD_MESSAGE_LEN as nat)
}

/// Cuts a response into the messages that show it.
pub fn response_messages(response: &str) -> (messages: Vec<String>)
    ensures
        views(messages@) == shown(response@),
        forall|i: int, j: int|
            0 <= i < messages@.len() && 0 <= j < messages@[i]@.len()
                ==> #[trigger] messages@[i]@[j] == response@[i * 2000 + j],
        forall|i: int|
            0 <= i < messages@.len() ==> (#[trigger] messages@[i])@.len() == (if (i + 1) * 2000
                <= response@.len() {
                2000
            } else {
                response@.len() - i * 2000
            }),
        response@.len() > 0 ==> (messages@.len() - 1) * 2000 < response@.len() <= messages@.len()
            * 2000,
        response@.len() == 0 ==> messages@.len() == 0,
{
    split_pieces(response, MAX_DISCORD_MESSAGE_LEN)
}

/// The messages that show a response make it up, put one after the other.
pub proof fn law_messages_make_up_the_response(response: Seq<char>)
    ensures
        joined(shown(response)) == response,
{
    law_pieces_rejoin(response, MAX_DISCORD_MESSAGE_LEN as nat);
}

/// Character `j` of message `i` is character `2000 * i + j` of the response, and
/// the messages reach to its end and no further.
pub proof fn law_messages_keep_every_character_in_place(response: Seq<char>)
    ensures
        forall|i: int, j: int|
            0 <= i < shown(response).len() && 0 <= j < shown(response)[i].len()
                ==> #[trigger] shown(response)[i][j] == response[i * 2000 + j],
        forall|i: int|
            0 <= i < shown(response).len() ==> (#[trigger] shown(response)[i]).len() == (if (i + 1)
                * 2000 <= response.len() {
                2000
            } else {
                response.len() - i * 2000
            }),
        response.len() > 0 ==> (shown(response).len() - 1) * 2000 < response.len() <= shown(
            response,
        ).len() * 2000,
        response.len() == 0 ==> shown(response).len() == 0,
{
    law_pieces_cover_the_text(response, MAX_DISCORD_MESSAGE_LEN as nat);
    assert forall|i: int, j: int|
        0 <= i < shown(response).len() && 0 <= j < shown(response)[i].len()
            implies #[trigger] shown(response)[i][j] == response[i * 2000 + j] by {
        law_piece_holds_its_part(response, MAX_DISCORD_MESSAGE_LEN as nat, i);
    }
    assert forall|i: int| 0 <= i < shown(response).len() implies (
    #[trigger] shown(response)[i]).len() == (if (i + 1) * 2000 <= response.len() {
        2000
    } else {
        response.len() - i * 2000
    }) by {
        law_piece_holds_its_part(response, MAX_DISCORD_MESSAGE_LEN as nat, i);
    }
}

/// No message is empty or longer than a message may be, and none but the last
/// is shorter.
pub proof fn law_messages_fit(response: Seq<char>, i: int)
    requires
        0 <= i < shown(response).len(),
    ensures
        1 <= shown(response)[i].len() <= MAX_DISCORD_MESSAGE_LEN,
        i + 1 < shown(response).len() ==> shown(response)[i].len() == MAX_DISCORD_MESSAGE_LEN,
{
    law_piece_lengths(response, MAX_DISCORD_MESSAGE_LEN as nat, i);
}

/// Whether `action` sends `content` as message number `at` to the one who
/// pressed, and to nobody else: the first message as the response to the press,
/// and every other behind it.
pub open spec fn is_message(
    action: PressAction,
    handle: InteractionHandle,
    at: int,
    content: Seq<char>,
) -> bool {
    if at == 0 {
        action matches PressAction::Respond {
            application_id,
            id,
            token,
            kind,
            content: text,
            ephemeral,
        } && application_id == handle.application_id && id == handle.id && token == handle.token
            && kind == ResponseKind::ChannelMessageWithSource && text@ == content && ephemeral
    } else {
        action matches PressAction::FollowUp { application_id, token, content: text, ephemeral }
            && application_id == handle.application_id && token == handle.token && text@ == content
            && ephemeral
    }
}

impl PressState {
    /// Whether the state names the message that it waits for.
    pub open spec fn well_formed(self) -> bool {
        self matches PressState::Sending { handle, messages, at } ==> at < messages@.len()
    }

    /// Whether the state waits for an event of this sort.
    pub open spec fn expects<E>(self, event: PressEvent<E>) -> bool {
        match self {
            PressState::Fetching { .. } => event is Fetched,
            PressState::Sending { .. } => event is Sent,
            PressState::Done => false,
        }
    }

    /// Whether `next` sends message number `at`, or is over where there is no
    /// such message.
    pub open spec fn sends<E>(
        next: PressNext<E>,
        handle: InteractionHandle,
        messages: Seq<Seq<char>>,
        at: int,
    ) -> bool {
        if at >= messages.len() {
            next == Ok::<_, PressError<E>>((PressState::Done, PressAction::Finish))
        } else {
            &&& next matches Ok((PressState::Sending { handle: to, messages: list, at: i }, action))
            &&& to == handle
            &&& views(list@) == messages
            &&& i == at
            &&& is_message(action, handle, at, messages[at])
        }
    }

    /// Whether `next` is what follows from `event` in this state.
    pub open spec fn follows<E>(self, event: PressEvent<E>, next: PressNext<E>) -> bool {
        match (self, event) {
            (PressState::Fetching { handle }, PressEvent::Fetched(Ok(value))) => Self::sends(
                next,
                handle,
                shown(value.openai_response@),
                0,
            ),
            (PressState::Sending { handle, messages, at }, PressEvent::Sent(Ok(_))) => Self::sends(
                next,
                handle,
                views(messages@),
                at + 1,
            ),
            (_, PressEvent::Fetched(Err(e))) => next == Err::<(PressState, PressAction), _>(
                PressError::Outside(e),
            ),
            (_, PressEvent::Sent(Err(e))) => next == Err::<(PressState, PressAction), _>(
                PressError::Outside(e),
            ),
            _ => true,
        }
    }

    fn send<E>(handle: InteractionHandle, messages: Vec<String>, at: usize) -> (next: PressNext<E>)
        ensures
            Self::sends(next, handle, views(messages@), at as int),
            next matches Ok((after, _)) ==> after.well_formed(),
    {
        if at >= messages.len() {
            return Ok((PressState::Done, PressAction::Finish));
        }
        let content = messages[at].clone();
        let application_id: u64 = handle.application_id;
        let token = handle.token.clone();
        let action = if at == 0 {
            PressAction::Respond {
                application_id,
                id: handle.id,
                token,
                kind: ResponseKind::ChannelMessageWithSource,
                content,
                ephemeral: true,
            }
        } else {
            PressAction::FollowUp { application_id, token, content, ephemeral: true }
        };
        Ok((PressState::Sending { handle, messages, at }, action))
    }

    /// Whether `next` is how the answer to `interaction` begins, where
    /// `table_name` is the table of interactions.
    pub open spec fn begins<E>(
        interaction: Interaction,
        table_name: Seq<char>,
        next: PressNext<E>,
    ) -> bool {
        match interaction.data {
            None => next == Err::<(PressState, PressAction), _>(PressError::<E>::NoData),
            Some(InteractionData::Other) => next == Err::<(PressState, PressAction), _>(
                PressError::<E>::NotAComponent,
            ),
            Some(InteractionData::MessageComponent { custom_id }) => next matches Ok((
                PressState::Fetching { handle },
                PressAction::Fetch { table_name: table, key },
            )) && handle == interaction.handle && table@ == table_name && key == custom_id,
        }
    }

    /// Whatever comes of the action that a state waits for is taken.
    pub proof fn law_every_outcome_is_taken<E>(self, event: PressEvent<E>)
        ensures
            self.expects(event) <==> ((self is Fetching && event is Fetched) || (self is Sending
                && event is Sent)),
            self is Fetching ==> self.well_formed(),
            self matches PressState::Sending { handle, messages, at } ==> (at < messages@.len()
                ==> self.well_formed()),
    {
    }

    /// The press of a component is answered by a look at the item under the very
    /// id that the component carries; anything else is refused.
    pub proof fn law_press_is_looked_up_by_its_id<E>(
        interaction: Interaction,
        table_name: Seq<char>,
        next: PressNext<E>,
    )
        requires
            Self::begins(interaction, table_name, next),
        ensures
            interaction.data is None ==> next == Err::<(PressState, PressAction), _>(
                PressError::<E>::NoData,
            ),
            interaction.data matches Some(InteractionData::Other) ==> next == Err::<
                (PressState, PressAction),
                _,
            >(PressError::<E>::NotAComponent),
            interaction.data matches Some(InteractionData::MessageComponent { custom_id }) ==> {
                &&& next matches Ok((PressState::Fetching { handle }, action))
                &&& handle == interaction.handle
                &&& action matches PressAction::Fetch { table_name: table, key }
                &&& table@ == table_name
                &&& key@ == custom_id@
            },
    {
    }

    /// An action that fails ends the answer with its own failure, and nothing else
    /// does.
    pub proof fn law_only_failures_end_the_answer<E>(self, event: PressEvent<E>, next: PressNext<E>)
        requires
            self.well_formed(),
            self.expects(event),
            self.follows(event, next),
        ensures
            match event {
                PressEvent::Fetched(Err(e)) => next == Err::<(PressState, PressAction), _>(
                    PressError::Outside(e),
                ),
                PressEvent::Sent(Err(e)) => next == Err::<(PressState, PressAction), _>(
                    PressError::Outside(e),
                ),
                _ => next is Ok,
            },
    {
    }

    /// Starts to answer the press of a button.
    pub fn start<E>(interaction: Interaction, config: &BotConfig) -> (next: PressNext<E>)
        ensures
            Self::begins(interaction, config.interaction_table_name@, next),
    {
        match interaction.data {
            None => Err(PressError::NoData),
            Some(InteractionData::Other) => Err(PressError::NotAComponent),
            Some(InteractionData::MessageComponent { custom_id }) => Ok(
                (
                    PressState::Fetching { handle: interaction.handle },
                    PressAction::Fetch {
                        table_name: config.interaction_table_name.clone(),
                        key: custom_id,
                    },
                ),
            ),
        }
    }

    /// Goes on after an action.
    pub fn resume<E>(self, event: PressEvent<E>) -> (next: PressNext<E>)
        requires
            self.well_formed(),
            self.expects(event),
        ensures
            self.follows(event, next),
            next matches Ok((after, _)) ==> after.well_formed(),
    {
        match (self, event) {
            (PressState::Fetching { handle }, PressEvent::Fetched(outcome)) => match outcome {
                Ok(value) => Self::send(
                    handle,
                    response_messages(value.openai_response.as_str()),
                    0,
                ),
                Err(e) => Err(PressError::Outside(e)),
            },
            (PressState::Sending { handle, messages, at }, PressEvent::Sent(outcome)) => match outcome {
                Ok(_) => {
                    assert(at < messages.len());
                    Self::send(handle, messages, at + 1)
                },
                Err(e) => Err(PressError::Outside(e)),
            },
            _ => vstd::pervasive::unreached(),
        }
    }
}

} // verus!
