//! The `chatgpt` command: ask the language model, keep the interaction, reply.
//!
//! The command goes step by step: [`ChatState::start`] gives the first action,
//! and [`ChatState::resume`] takes the outcome of each action and gives the
//! next. The first failure ends it.

use crate::completion::{asks, make_openai_request};
use crate::db::{interaction_record, item_model, record_model, Item, RecordError};
use crate::discord::{ActionRow, Button, ButtonStyle};
use crate::text::{
    byte_len, first_chars, first_of, law_first_characters_stay_in_place, lemma_chars_fit_bytes,
};
use crate::types::{
    BotConfig, InteractionValue, OpenAIChatCompletionRequest, OpenAIChatCompletionResponse,
};
use crate::{BUTTON_THRESHOLD, MAX_DISCORD_MESSAGE_LEN};
use uuid::Uuid;
use vstd::prelude::*;
use vstd::utf8::encode_utf8;

verus! {

/// The label of the button under a shortened reply.
pub const BUTTON_LABEL: &'static str = "Click to see all";

/// What the user who asked gets to see.
pub struct ChatReply {
    pub content: String,
    /// The rows of buttons under the content; none are mentioned where there
    /// are none.
    pub components: Option<Vec<ActionRow>>,
}

/// Whether `button` leads to the whole response, which is kept under `id`: it
/// can be pressed, carries the id, and is plain but for its label.
pub open spec fn leads_to(button: Button, id: Seq<char>) -> bool {
    &&& button.custom_id matches Some(custom_id) && custom_id@ == id
    &&& !button.disabled
    &&& button.emoji is None
    &&& button.label matches Some(label) && label@ == BUTTON_LABEL@
    &&& button.style == ButtonStyle::Primary
    &&& button.url is None
}

/// Whether `rows` hold one button, which leads to the whole response.
pub open spec fn one_button(rows: Seq<ActionRow>, id: Seq<char>) -> bool {
    &&& rows.len() == 1
    &&& rows[0].components@.len() == 1
    &&& leads_to(rows[0].components@[0], id)
}

/// Whether `reply` shows `response`, which is kept under `id`: whole where it
/// is short, else its beginning and a button that leads to the rest.
pub open spec fn shows(reply: ChatReply, id: Seq<char>, response: Seq<char>) -> bool {
    if encode_utf8(response).len() > BUTTON_THRESHOLD {
        &&& reply.content@ == first_of(response, BUTTON_THRESHOLD as nat) + "..."@
        &&& reply.components matches Some(rows) && one_button(rows@, id)
    } else {
        &&& reply.content@ == response
        &&& reply.components is None
    }
}

/// Makes the reply that shows `response`.
pub fn chat_reply(id: String, response: String) -> (reply: ChatReply)
    ensures
        shows(reply, id@, response@),
{
    if byte_len(response.as_str()) > BUTTON_THRESHOLD {
        let mut components: Vec<Button> = Vec::new();
        components.push(
            Button {
                custom_id: Some(id),
                disabled: false,
                emoji: None,
                label: Some(BUTTON_LABEL.to_owned()),
                style: ButtonStyle::Primary,
                url: None,
            },
        );
        let mut rows: Vec<ActionRow> = Vec::new();
        rows.push(ActionRow { components });
        ChatReply {
            content: first_chars(response.as_str(), BUTTON_THRESHOLD).concat("..."),
            components: Some(rows),
        }
    } else {
        ChatReply { content: response, components: None }
    }
}

/// A reply is never longer than a message may be.
pub proof fn law_reply_fits_a_message(reply: ChatReply, id: Seq<char>, response: Seq<char>)
    requires
        shows(reply, id, response),
    ensures
        reply.content@.len() <= MAX_DISCORD_MESSAGE_LEN,
{
    reveal_strlit("...");
    lemma_chars_fit_bytes(response);
}

/// A reply without a button is the whole response; any other begins as the
/// response does, and has one button, which carries the id.
pub proof fn law_reply_without_button_is_whole(
    reply: ChatReply,
    id: Seq<char>,
    response: Seq<char>,
)
    requires
        shows(reply, id, response),
    ensures
        reply.components is None ==> reply.content@ == response,
        reply.components matches Some(rows) ==> one_button(rows@, id) && first_of(
            response,
            BUTTON_THRESHOLD as nat,
        ).is_prefix_of(reply.content@) && first_of(
            response,
            BUTTON_THRESHOLD as nat,
        ).is_prefix_of(response),
{
}

/// A response of at most 1000 bytes is shown as it is. Of any other the first
/// 1000 characters are shown, or all of them where there are fewer, each at its
/// place, with three dots behind them, and one button under them.
pub proof fn law_reply_shows_the_response_in_place(
    reply: ChatReply,
    id: Seq<char>,
    response: Seq<char>,
)
    requires
        shows(reply, id, response),
    ensures
        encode_utf8(response).len() <= 1000 ==> reply.content@ == response && reply.components
            is None,
        encode_utf8(response).len() > 1000 ==> {
            let kept: int = if response.len() < 1000 {
                response.len() as int
            } else {
                1000
            };
            &&& reply.content@.len() == kept + 3
            &&& forall|i: int| 0 <= i < kept ==> #[trigger] reply.content@[i] == response[i]
            &&& forall|i: int| kept <= i < kept + 3 ==> #[trigger] reply.content@[i] == '.'
            &&& reply.components matches Some(rows)
            &&& rows@.len() == 1
            &&& rows@[0].components@.len() == 1
            &&& rows@[0].components@[0].custom_id matches Some(custom_id)
            &&& custom_id@ == id
            &&& rows@[0].components@[0].label matches Some(label)
            &&& label@ == "Click to see all"@
            &&& !rows@[0].components@[0].disabled
            &&& rows@[0].components@[0].emoji is None
            &&& rows@[0].components@[0].style == ButtonStyle::Primary
            &&& rows@[0].components@[0].url is None
        },
{
    reveal_strlit("...");
    law_first_characters_stay_in_place(response, BUTTON_THRESHOLD as nat);
}

/// Whether a character is a hexadecimal digit in lower case.
pub open spec fn is_lower_hex(c: char) -> bool {
    ('0' <= c && c <= '9') || ('a' <= c && c <= 'f')
}

/// Whether a text is a random UUID with its hyphens, in lower case.
pub open spec fn is_random_uuid(text: Seq<char>) -> bool {
    &&& text.len() == 36
    &&& forall|i: int|
        0 <= i < 36 ==> if i == 8 || i == 13 || i == 18 || i == 23 {
            #[trigger] text[i] == '-'
        } else {
            is_lower_hex(text[i])
        }
    &&& text[14] == '4'
    &&& text[19] == '8' || text[19] == '9' || text[19] == 'a' || text[19] == 'b'
}

/// `uuid::Uuid::new_v4`, written with hyphens: a UUID of the random version,
/// in lower case. Which one it is rests on chance.
#[verifier::external_body]
fn new_interaction_id() -> (id: String)
    ensures
        is_random_uuid(id@),
{
    Uuid::new_v4().as_hyphenated().to_string()
}

/// How far the command has come.
pub enum ChatState {
    /// Discord is being told that the reply will take a while.
    Deferring { prompt: String, author: Option<u64> },
    /// The language model is being asked.
    Asking { prompt: String, author: Option<u64> },
    /// The interaction is being encoded for the table.
    Encoding { id: String, response: String, author: Option<u64> },
    /// The interaction is being written to the table.
    Storing { id: String, response: String },
    /// The reply is being sent.
    Replying,
    /// The command is over.
    Done,
}

/// What to do next.
pub enum ChatAction<M> {
    /// Tell Discord that the reply will take a while, and whether it is for
    /// the eyes of the one who asks alone.
    Defer { ephemeral: bool },
    /// Ask the language model.
    Ask(OpenAIChatCompletionRequest),
    /// Encode the interaction and the whole response as maps of the table.
    Encode { interaction: InteractionValue, raw: OpenAIChatCompletionResponse },
    /// Write an item to a table.
    Store { table_name: String, item: Item<M> },
    /// Put the reply in its place.
    Reply(ChatReply),
    /// Nothing is left to do.
    Finish,
}

/// What came of an action.
pub enum ChatEvent<M, E> {
    Deferred(Result<(), E>),
    Answered(Result<OpenAIChatCompletionResponse, E>),
    Encoded { interaction: Result<M, E>, raw: Result<M, E> },
    Stored(Result<(), E>),
    Replied(Result<(), E>),
}

/// Why the command failed.
pub enum ChatError<E> {
    /// An action failed.
    Outside(E),
    /// The language model offered no message.
    NoResponse,
    /// The user who asked is not known.
    NoUserId,
}

impl<E> ChatError<E> {
    /// The text of the bot's own refusals.
    pub fn message(&self) -> (text: Option<&'static str>)
        ensures
            match *self {
                ChatError::Outside(_) => text is None,
                ChatError::NoResponse => text matches Some(t) && t@ == "no response"@,
                ChatError::NoUserId => text matches Some(t) && t@ == "no user id"@,
            },
    {
        match self {
            ChatError::Outside(_) => None,
            ChatError::NoResponse => Some("no response"),
            ChatError::NoUserId => Some("no user id"),
        }
    }
}

/// What follows from an event.
pub type ChatNext<M, E> = Result<(ChatState, ChatAction<M>), ChatError<E>>;

/// Whether `next` takes up `answer`, with `id` for the interaction: it keeps
/// the first message that was offered, and fails where there is none.
pub open spec fn takes_up<M, E>(
    id: String,
    prompt: String,
    author: Option<u64>,
    answer: OpenAIChatCompletionResponse,
    next: ChatNext<M, E>,
) -> bool {
    if answer.choices@.len() == 0 {
        next == Err::<(ChatState, ChatAction<M>), _>(ChatError::<E>::NoResponse)
    } else {
        let content = answer.choices@[0].message.content;
        next == Ok::<_, ChatError<E>>(
            (
                ChatState::Encoding { id, response: content, author },
                ChatAction::<M>::Encode {
                    interaction: InteractionValue { openai_response: content, prompt },
                    raw: answer,
                },
            ),
        )
    }
}

/// Takes up the answer of the language model, with `id` for the interaction.
pub fn take_up_answer<M, E>(
    id: String,
    prompt: String,
    author: Option<u64>,
    answer: OpenAIChatCompletionResponse,
) -> (next: ChatNext<M, E>)
    ensures
        takes_up(id, prompt, author, answer, next),
        answer.choices@.len() == 0 ==> next == Err::<(ChatState, ChatAction<M>), _>(
            ChatError::<E>::NoResponse,
        ),
        answer.choices@.len() > 0 ==> {
            &&& next matches Ok((state, action))
            &&& state == (ChatState::Encoding {
                id,
                response: answer.choices@[0].message.content,
                author,
            })
            &&& action matches ChatAction::Encode { interaction, raw }
            &&& interaction.openai_response == answer.choices@[0].message.content
            &&& interaction.prompt == prompt
            &&& raw == answer
        },
{
    if answer.choices.len() == 0 {
        return Err(ChatError::NoResponse);
    }
    let response = answer.choices[0].message.content.clone();
    let interaction = InteractionValue { openai_response: response.clone(), prompt };
    Ok(
        (
            ChatState::Encoding { id, response, author },
            ChatAction::Encode { interaction, raw: answer },
        ),
    )
}

impl ChatState {
    /// Whether the state waits for an event of this sort.
    pub open spec fn expects<M, E>(self, event: ChatEvent<M, E>) -> bool {
        match self {
            ChatState::Deferring { .. } => event is Deferred,
            ChatState::Asking { .. } => event is Answered,
            ChatState::Encoding { .. } => event is Encoded,
            ChatState::Storing { .. } => event is Stored,
            ChatState::Replying => event is Replied,
            ChatState::Done => false,
        }
    }

    /// Whether `next` is what follows from `event` in this state, where
    /// `table_name` is the table of interactions.
    pub open spec fn follows<M, E>(
        self,
        table_name: Seq<char>,
        event: ChatEvent<M, E>,
        next: ChatNext<M, E>,
    ) -> bool {
        match (self, event) {
            (ChatState::Deferring { prompt, author }, ChatEvent::Deferred(Ok(_))) => next matches Ok((
                state,
                ChatAction::Ask(request),
            )) && state == (ChatState::Asking { prompt, author }) && asks(request, prompt@),
            (
                ChatState::Asking { prompt, author },
                ChatEvent::Answered(Ok(answer)),
            ) => if answer.choices@.len() == 0 {
                next == Err::<(ChatState, ChatAction<M>), _>(ChatError::<E>::NoResponse)
            } else {
                exists|id: String|
                    is_random_uuid(id@) && #[trigger] takes_up(id, prompt, author, answer, next)
            },
            (
                ChatState::Encoding { id, response, author },
                ChatEvent::Encoded { interaction, raw },
            ) => match (interaction, author, raw) {
                (Err(e), _, _) => next == Err::<(ChatState, ChatAction<M>), _>(
                    ChatError::Outside(e),
                ),
                (Ok(_), None, _) => next == Err::<(ChatState, ChatAction<M>), _>(
                    ChatError::<E>::NoUserId,
                ),
                (Ok(_), Some(_), Err(e)) => next == Err::<(ChatState, ChatAction<M>), _>(
                    ChatError::Outside(e),
                ),
                (Ok(m), Some(a), Ok(r)) => next matches Ok((
                    state,
                    ChatAction::Store { table_name: table, item },
                )) && state == (ChatState::Storing { id, response }) && table@ == table_name
                    && item_model(item) == record_model(id@, m, a, r),
            },
            (ChatState::Storing { id, response }, ChatEvent::Stored(Ok(_))) => next matches Ok((
                ChatState::Replying,
                ChatAction::Reply(reply),
            )) && shows(reply, id@, response@),
            (ChatState::Replying, ChatEvent::Replied(Ok(_))) => next == Ok::<_, ChatError<E>>(
                (ChatState::Done, ChatAction::<M>::Finish),
            ),
            (_, ChatEvent::Deferred(Err(e))) => next == Err::<(ChatState, ChatAction<M>), _>(
                ChatError::Outside(e),
            ),
            (_, ChatEvent::Answered(Err(e))) => next == Err::<(ChatState, ChatAction<M>), _>(
                ChatError::Outside(e),
            ),
            (_, ChatEvent::Stored(Err(e))) => next == Err::<(ChatState, ChatAction<M>), _>(
                ChatError::Outside(e),
            ),
            (_, ChatEvent::Replied(Err(e))) => next == Err::<(ChatState, ChatAction<M>), _>(
                ChatError::Outside(e),
            ),
            _ => true,
        }
    }

    /// Whatever comes of the action that a state waits for is taken.
    pub proof fn law_every_outcome_is_taken<M, E>(self, event: ChatEvent<M, E>)
        ensures
            self.expects(event) <==> ((self is Deferring && event is Deferred) || (self is Asking
                && event is Answered) || (self is Encoding && event is Encoded) || (self is Storing
                && event is Stored) || (self is Replying && event is Replied)),
    {
    }

    /// An action that fails ends the command with its own failure. The command
    /// also ends where there is no message to take up, or nobody to keep it for;
    /// of several reasons the interaction comes first, then the user, then the
    /// response. Anything else goes on.
    pub proof fn law_only_failures_end_the_command<M, E>(
        self,
        table_name: Seq<char>,
        event: ChatEvent<M, E>,
        next: ChatNext<M, E>,
    )
        requires
            self.expects(event),
            self.follows(table_name, event, next),
        ensures
            match event {
                ChatEvent::Deferred(Err(e)) => next == Err::<(ChatState, ChatAction<M>), _>(
                    ChatError::Outside(e),
                ),
                ChatEvent::Answered(Err(e)) => next == Err::<(ChatState, ChatAction<M>), _>(
                    ChatError::Outside(e),
                ),
                ChatEvent::Answered(Ok(answer)) => (next matches Err(error) ==> answer.choices@.len()
                    == 0 && error == ChatError::<E>::NoResponse) && (answer.choices@.len() == 0
                    ==> next is Err),
                ChatEvent::Encoded { interaction: Err(e), raw: _ } => next == Err::<
                    (ChatState, ChatAction<M>),
                    _,
                >(ChatError::Outside(e)),
                ChatEvent::Encoded { interaction: Ok(_), raw } => match self {
                    ChatState::Encoding { id: _, response: _, author: None } => next == Err::<
                        (ChatState, ChatAction<M>),
                        _,
                    >(ChatError::<E>::NoUserId),
                    _ => match raw {
                        Err(e) => next == Err::<(ChatState, ChatAction<M>), _>(
                            ChatError::Outside(e),
                        ),
                        Ok(_) => next is Ok,
                    },
                },
                ChatEvent::Stored(Err(e)) => next == Err::<(ChatState, ChatAction<M>), _>(
                    ChatError::Outside(e),
                ),
                ChatEvent::Replied(Err(e)) => next == Err::<(ChatState, ChatAction<M>), _>(
                    ChatError::Outside(e),
                ),
                _ => next is Ok,
            },
    {
    }

    /// Starts the command for `prompt`. The reply will be for all to see.
    pub fn start<M>(prompt: String, author: Option<u64>) -> (first: (ChatState, ChatAction<M>))
        ensures
            first == (
                ChatState::Deferring { prompt, author },
                ChatAction::<M>::Defer { ephemeral: false },
            ),
    {
        (ChatState::Deferring { prompt, author }, ChatAction::Defer { ephemeral: false })
    }

    /// Goes on after an action.
    pub fn resume<M, E>(self, config: &BotConfig, event: ChatEvent<M, E>) -> (next: ChatNext<M, E>)
        requires
            self.expects(event),
        ensures
            self.follows(config.interaction_table_name@, event, next),
    {
        match (self, event) {
            (ChatState::Deferring { prompt, author }, ChatEvent::Deferred(outcome)) => match outcome {
                Ok(_) => {
                    let request = make_openai_request(prompt.as_str());
                    Ok((ChatState::Asking { prompt, author }, ChatAction::Ask(request)))
                },
                Err(e) => Err(ChatError::Outside(e)),
            },
            (ChatState::Asking { prompt, author }, ChatEvent::Answered(outcome)) => match outcome {
                Ok(answer) => if answer.choices.len() == 0 {
                    Err(ChatError::NoResponse)
                } else {
                    take_up_answer(new_interaction_id(), prompt, author, answer)
                },
                Err(e) => Err(ChatError::Outside(e)),
            },
            (
                ChatState::Encoding { id, response, author },
                ChatEvent::Encoded { interaction, raw },
            ) => match interaction_record(id.clone(), interaction, author, raw) {
                Ok(item) => Ok(
                    (
                        ChatState::Storing { id, response },
                        ChatAction::Store {
                            table_name: config.interaction_table_name.clone(),
                            item,
                        },
                    ),
                ),
                Err(RecordError::Encode(e)) => Err(ChatError::Outside(e)),
                Err(RecordError::NoUserId) => Err(ChatError::NoUserId),
            },
            (ChatState::Storing { id, response }, ChatEvent::Stored(outcome)) => match outcome {
                Ok(_) => Ok((ChatState::Replying, ChatAction::Reply(chat_reply(id, response)))),
                Err(e) => Err(ChatError::Outside(e)),
            },
            (ChatState::Replying, ChatEvent::Replied(outcome)) => match outcome {
                Ok(_) => Ok((ChatState::Done, ChatAction::Finish)),
                Err(e) => Err(ChatError::Outside(e)),
            },
            _ => vstd::pervasive::unreached(),
        }
    }
}

} // verus!
