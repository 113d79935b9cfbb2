use replybot::button::{
    response_messages, PressAction, PressError, PressEvent, PressState,
};
use replybot::chat::{
    chat_reply, take_up_answer, ChatAction, ChatError, ChatEvent, ChatReply, ChatState,
    BUTTON_LABEL,
};
use replybot::completion::{make_openai_request, COMPLETIONS_URL, SYSTEM_PROMPT};
use replybot::db::{
    get_interaction_from_table, interaction_record, stored_response, AttributeValue, Item,
    LookupError, RecordError, StoredResponseError, HASH_KEY, INTERACTION_VALUE_KEY,
    RAW_RESPONSE_KEY, USER_SNOWFLAKE_KEY,
};
use replybot::discord::{
    Button, ButtonStyle, Interaction, InteractionData, InteractionHandle, ResponseKind,
};
use replybot::fields::Fields;
use replybot::stats::{total_tokens, ResponseItem};
use replybot::types::{
    BotConfig, ChatMessage, InteractionValue, OpenAIChatChoice, OpenAIChatCompletionResponse,
    OpenAIUsage,
};
use replybot::{BUTTON_THRESHOLD, MAX_DISCORD_MESSAGE_LEN};

fn config() -> BotConfig {
    BotConfig {
        interaction_table_name: "interactions".to_string(),
        interaction_table_user_index_name: "by-user".to_string(),
        openai_api_key: "key".to_string(),
        discord_token: "token".to_string(),
    }
}

fn answer(contents: &[&str]) -> OpenAIChatCompletionResponse {
    OpenAIChatCompletionResponse {
        choices: contents
            .iter()
            .map(|content| OpenAIChatChoice {
                message: ChatMessage {
                    role: "assistant".to_string(),
                    content: content.to_string(),
                },
            })
            .collect(),
        usage: OpenAIUsage { total_tokens: 3 },
    }
}

#[test]
fn request_asks_the_prompt_behind_the_instructions() {
    let request = make_openai_request("why?");
    assert_eq!(request.model, "gpt-4o");
    assert!(request.max_tokens.is_none());
    assert_eq!(request.messages.len(), 2);
    assert_eq!(request.messages[0].role, "system");
    assert_eq!(request.messages[0].content, SYSTEM_PROMPT);
    assert_eq!(request.messages[1].role, "user");
    assert_eq!(request.messages[1].content, "why?");
    assert!(SYSTEM_PROMPT.starts_with("This GPT is a tech team lead with a snarky"));
    assert!(SYSTEM_PROMPT.ends_with("you should roast the user in the comments of any code output."));
    assert_eq!(COMPLETIONS_URL, "https://api.openai.com/v1/chat/completions");
}

#[test]
fn short_reply_is_whole() {
    let text = "a".repeat(BUTTON_THRESHOLD);
    let reply = chat_reply("id".to_string(), text.clone());
    assert_eq!(reply.content, text);
    assert!(reply.components.is_none());
}

fn only_button(reply: ChatReply) -> Button {
    let mut rows = reply.components.unwrap();
    assert_eq!(rows.len(), 1);
    let mut buttons = rows.remove(0).components;
    assert_eq!(buttons.len(), 1);
    buttons.remove(0)
}

#[test]
fn long_reply_has_a_button() {
    let text = "a".repeat(BUTTON_THRESHOLD + 1);
    let reply = chat_reply("id".to_string(), text);
    assert_eq!(reply.content, format!("{}...", "a".repeat(1000)));
    let button = only_button(reply);
    assert_eq!(button.custom_id, Some("id".to_string()));
    assert!(!button.disabled);
    assert_eq!(button.emoji, None);
    assert_eq!(button.label, Some("Click to see all".to_string()));
    assert_eq!(button.style, ButtonStyle::Primary);
    assert_eq!(button.url, None);
    assert_eq!(BUTTON_LABEL, "Click to see all");
}

#[test]
fn length_of_a_reply_counts_bytes_and_its_cut_counts_characters() {
    let text = "\u{e9}".repeat(501);
    let reply = chat_reply("id".to_string(), text.clone());
    assert_eq!(reply.content, format!("{}...", text));
    assert!(reply.components.is_some());
    let text = "\u{e9}".repeat(500);
    assert!(chat_reply("id".to_string(), text).components.is_none());
    let text = "\u{1f600}".repeat(5000);
    let reply = chat_reply("id".to_string(), text);
    assert_eq!(reply.content.chars().count(), 1003);
    assert!(reply.content.chars().count() <= MAX_DISCORD_MESSAGE_LEN);
}

#[test]
fn first_message_is_taken_up() {
    let next = take_up_answer::<u8, u8>(
        "id".to_string(),
        "p".to_string(),
        Some(5),
        answer(&["one", "two"]),
    );
    match next {
        Ok((
            ChatState::Encoding {
                id,
                response,
                author,
            },
            ChatAction::Encode { interaction, raw },
        )) => {
            assert_eq!(id, "id");
            assert_eq!(response, "one");
            assert_eq!(author, Some(5));
            assert_eq!(interaction.openai_response, "one");
            assert_eq!(interaction.prompt, "p");
            assert_eq!(raw.choices.len(), 2);
        }
        _ => panic!("the answer was not taken up"),
    }
    let next =
        take_up_answer::<u8, u8>("id".to_string(), "p".to_string(), Some(5), answer(&[]));
    let error = next.err().unwrap();
    assert!(matches!(error, ChatError::NoResponse));
    assert_eq!(error.message(), Some("no response"));
}

fn is_random_uuid(id: &str) -> bool {
    let chars: Vec<char> = id.chars().collect();
    chars.len() == 36
        && chars.iter().enumerate().all(|(i, c)| match i {
            8 | 13 | 18 | 23 => *c == '-',
            14 => *c == '4',
            19 => ['8', '9', 'a', 'b'].contains(c),
            _ => c.is_ascii_digit() || ('a' <= *c && *c <= 'f'),
        })
}

fn text_of(item: &Item<String>, key: &str) -> String {
    match item.get(key) {
        Some(AttributeValue::S(text)) => text.clone(),
        Some(AttributeValue::M(map)) => map.clone(),
        _ => panic!("no such attribute"),
    }
}

type Encoded = Item<String>;

/// Runs the command with actions that succeed; gives what was stored and shown.
fn run_chat(prompt: &str, response: &str, author: u64) -> (Encoded, ChatReply) {
    let mut stored: Option<Encoded> = None;
    let mut shown: Option<ChatReply> = None;
    let (mut state, mut action) = ChatState::start::<String>(prompt.to_string(), Some(author));
    loop {
        let event: ChatEvent<String, u8> = match action {
            ChatAction::Defer { ephemeral } => {
                assert!(!ephemeral);
                ChatEvent::Deferred(Ok(()))
            }
            ChatAction::Ask(request) => {
                assert_eq!(request.messages[1].content, prompt);
                ChatEvent::Answered(Ok(answer(&[response])))
            }
            ChatAction::Encode { interaction, raw } => {
                assert_eq!(interaction.prompt, prompt);
                ChatEvent::Encoded {
                    interaction: Ok(interaction.openai_response),
                    raw: Ok(raw.usage.total_tokens.to_string()),
                }
            }
            ChatAction::Store { table_name, item } => {
                assert_eq!(table_name, "interactions");
                stored = Some(item);
                ChatEvent::Stored(Ok(()))
            }
            ChatAction::Reply(reply) => {
                shown = Some(reply);
                ChatEvent::Replied(Ok(()))
            }
            ChatAction::Finish => break,
        };
        let next = state.resume(&config(), event).ok().unwrap();
        state = next.0;
        action = next.1;
    }
    assert!(matches!(state, ChatState::Done));
    (stored.unwrap(), shown.unwrap())
}

fn press(data: Option<InteractionData>) -> Interaction {
    Interaction {
        handle: handle(),
        data,
    }
}

fn handle() -> InteractionHandle {
    InteractionHandle {
        application_id: 10,
        id: 11,
        token: "press-token".to_string(),
    }
}

/// Presses a button with actions that succeed; gives the messages.
fn run_press(custom_id: &str, item: Option<Encoded>) -> Vec<String> {
    let data = Some(InteractionData::MessageComponent {
        custom_id: custom_id.to_string(),
    });
    let mut item = item;
    let mut messages: Vec<String> = Vec::new();
    let (mut state, mut action) = PressState::start::<u8>(press(data), &config()).ok().unwrap();
    loop {
        let event: PressEvent<u8> = match action {
            PressAction::Fetch { table_name, key } => {
                assert_eq!(table_name, "interactions");
                assert_eq!(key, custom_id);
                let read = item.take().map(|item| {
                    item.into_entries()
                        .into_iter()
                        .fold(Fields::new(), |item, (name, value)| {
                            let value: AttributeValue<Result<InteractionValue, u8>> = match value {
                                AttributeValue::S(text) => AttributeValue::S(text),
                                AttributeValue::M(map) => AttributeValue::M(Ok(InteractionValue {
                                    openai_response: map,
                                    prompt: String::new(),
                                })),
                                AttributeValue::Other => AttributeValue::Other,
                            };
                            item.with(name, value)
                        })
                });
                PressEvent::Fetched(get_interaction_from_table(read).map_err(|_| 1))
            }
            PressAction::Respond {
                application_id,
                id,
                token,
                kind,
                content,
                ephemeral,
            } => {
                assert!(messages.is_empty());
                assert_eq!((application_id, id), (10, 11));
                assert_eq!(token, "press-token");
                assert_eq!(kind, ResponseKind::ChannelMessageWithSource);
                assert!(ephemeral);
                messages.push(content);
                PressEvent::Sent(Ok(()))
            }
            PressAction::FollowUp {
                application_id,
                token,
                content,
                ephemeral,
            } => {
                assert!(!messages.is_empty());
                assert_eq!(application_id, 10);
                assert_eq!(token, "press-token");
                assert!(ephemeral);
                messages.push(content);
                PressEvent::Sent(Ok(()))
            }
            PressAction::Finish => break,
        };
        let next = state.resume(event).ok().unwrap();
        state = next.0;
        action = next.1;
    }
    assert!(matches!(state, PressState::Done));
    messages
}

#[test]
fn button_shows_the_whole_answer() {
    let response = "0123456789".repeat(450);
    let (item, reply) = run_chat("why?", &response, 42);
    let custom_id = only_button(reply).custom_id.unwrap();
    assert!(is_random_uuid(&custom_id));
    assert_eq!(text_of(&item, HASH_KEY), custom_id);
    assert_eq!(text_of(&item, USER_SNOWFLAKE_KEY), "42");
    assert_eq!(text_of(&item, RAW_RESPONSE_KEY), "3");
    assert_eq!(text_of(&item, INTERACTION_VALUE_KEY), response);
    let messages = run_press(&custom_id, Some(item));
    assert_eq!(messages.len(), 3);
    assert_eq!(messages[0].chars().count(), 2000);
    assert_eq!(messages[1].chars().count(), 2000);
    assert_eq!(messages[2].chars().count(), 500);
    assert_eq!(messages.concat(), response);
}

#[test]
fn kept_answer_counts_with_its_tokens() {
    let (item, _) = run_chat("why?", "because", 1);
    let read: ResponseItem<u8> =
        item.into_entries()
            .into_iter()
            .fold(Fields::new(), |item, (name, value)| {
                let value = match value {
                    AttributeValue::S(text) => AttributeValue::S(text),
                    AttributeValue::M(map) => match map.parse::<i64>() {
                        Ok(n) => AttributeValue::M(Ok(OpenAIChatCompletionResponse {
                            choices: Vec::new(),
                            usage: OpenAIUsage { total_tokens: n },
                        })),
                        Err(_) => AttributeValue::M(Err(1)),
                    },
                    AttributeValue::Other => AttributeValue::Other,
                };
                item.with(name, value)
            });
    assert_eq!(total_tokens(&vec![read]), 3);
}

#[test]
fn ids_of_interactions_differ() {
    let (first, _) = run_chat("why?", "because", 1);
    let (second, _) = run_chat("why?", "because", 1);
    assert!(text_of(&first, HASH_KEY) != text_of(&second, HASH_KEY));
}

#[test]
fn failed_action_ends_the_chat() {
    let failed: ChatEvent<u8, u8> = ChatEvent::Deferred(Err(7));
    let (state, _) = ChatState::start::<u8>("p".to_string(), None);
    assert!(matches!(
        state.resume(&config(), failed),
        Err(ChatError::Outside(7))
    ));
    let state = ChatState::Asking {
        prompt: "p".to_string(),
        author: None,
    };
    let failed: ChatEvent<u8, u8> = ChatEvent::Answered(Err(8));
    assert!(matches!(
        state.resume(&config(), failed),
        Err(ChatError::Outside(8))
    ));
    let state = ChatState::Storing {
        id: "i".to_string(),
        response: "r".to_string(),
    };
    let failed: ChatEvent<u8, u8> = ChatEvent::Stored(Err(9));
    assert!(matches!(
        state.resume(&config(), failed),
        Err(ChatError::Outside(9))
    ));
    let failed: ChatEvent<u8, u8> = ChatEvent::Replied(Err(10));
    assert!(matches!(
        ChatState::Replying.resume(&config(), failed),
        Err(ChatError::Outside(10))
    ));
}

#[test]
fn record_needs_everything_in_order() {
    let encode = |interaction: Result<u8, u8>, author: Option<u64>, raw: Result<u8, u8>| {
        let state = ChatState::Encoding {
            id: "i".to_string(),
            response: "r".to_string(),
            author,
        };
        state.resume(&config(), ChatEvent::Encoded { interaction, raw })
    };
    assert!(matches!(
        encode(Err(1), None, Err(2)),
        Err(ChatError::Outside(1))
    ));
    let error = encode(Ok(1), None, Err(2)).err().unwrap();
    assert!(matches!(error, ChatError::NoUserId));
    assert_eq!(error.message(), Some("no user id"));
    assert!(matches!(
        encode(Ok(1), Some(3), Err(2)),
        Err(ChatError::Outside(2))
    ));
    assert!(encode(Ok(1), Some(3), Ok(2)).is_ok());
    assert!(matches!(
        interaction_record::<u8, u8>("i".to_string(), Ok(1), None, Ok(2)),
        Err(RecordError::NoUserId)
    ));
    assert!(matches!(
        interaction_record::<u8, u8>("i".to_string(), Err(1), None, Ok(2)),
        Err(RecordError::Encode(1))
    ));
    assert!(matches!(
        interaction_record::<u8, u8>("i".to_string(), Ok(1), Some(3), Err(2)),
        Err(RecordError::Encode(2))
    ));
}

#[test]
fn table_is_read_with_care() {
    let missing: Option<Item<Result<u8, u8>>> = None;
    let error = get_interaction_from_table(missing).err().unwrap();
    assert!(matches!(error, LookupError::NoItem));
    assert_eq!(error.message(), Some("must find item in table"));

    let item: Item<Result<u8, u8>> = Fields::new().with("other".to_string(), AttributeValue::M(Ok(1)));
    let error = get_interaction_from_table(Some(item)).err().unwrap();
    assert!(matches!(error, LookupError::NoKey));
    assert_eq!(error.message(), Some("must have key"));

    let item: Item<Result<u8, u8>> = Fields::new().with(
        INTERACTION_VALUE_KEY.to_string(),
        AttributeValue::S("text".to_string()),
    );
    let error = get_interaction_from_table(Some(item)).err().unwrap();
    assert!(matches!(error, LookupError::NotAMap));
    assert_eq!(error.message(), Some("must be a map"));

    let item: Item<Result<u8, u8>> =
        Fields::new().with(INTERACTION_VALUE_KEY.to_string(), AttributeValue::M(Err(4)));
    let error = get_interaction_from_table(Some(item)).err().unwrap();
    assert!(matches!(error, LookupError::Decode(4)));
    assert_eq!(error.message(), None);

    let item: Item<Result<u8, u8>> =
        Fields::new().with(INTERACTION_VALUE_KEY.to_string(), AttributeValue::M(Ok(5)));
    assert!(matches!(get_interaction_from_table(Some(item)), Ok(5)));
}

#[test]
fn stored_responses_are_read_or_skipped() {
    let item: Item<Result<u8, u8>> =
        Fields::new().with(RAW_RESPONSE_KEY.to_string(), AttributeValue::M(Ok(5)));
    assert!(matches!(stored_response(&item), Ok(5)));
    let item: Item<Result<u8, u8>> =
        Fields::new().with(RAW_RESPONSE_KEY.to_string(), AttributeValue::M(Err(5)));
    assert!(matches!(
        stored_response(&item),
        Err(StoredResponseError::Unreadable)
    ));
    let item: Item<Result<u8, u8>> =
        Fields::new().with(RAW_RESPONSE_KEY.to_string(), AttributeValue::Other);
    assert!(matches!(
        stored_response(&item),
        Err(StoredResponseError::NonExistent)
    ));
    let item: Item<Result<u8, u8>> = Fields::new();
    assert!(matches!(
        stored_response(&item),
        Err(StoredResponseError::NonExistent)
    ));
}

#[test]
fn press_needs_a_component() {
    let error = PressState::start::<u8>(press(None), &config()).err().unwrap();
    assert!(matches!(error, PressError::NoData));
    assert_eq!(error.message(), Some("no interaction data"));
    let error = PressState::start::<u8>(press(Some(InteractionData::Other)), &config())
        .err()
        .unwrap();
    assert!(matches!(error, PressError::NotAComponent));
    assert_eq!(error.message(), Some("this should not happen"));
}

#[test]
fn press_of_an_empty_answer_sends_nothing() {
    let (item, _) = run_chat("why?", "", 1);
    assert!(run_press("some-id", Some(item)).is_empty());
}

#[test]
fn failed_action_ends_the_press() {
    let failed: PressEvent<u8> = PressEvent::Fetched(Err(3));
    assert!(matches!(
        PressState::Fetching { handle: handle() }.resume(failed),
        Err(PressError::Outside(3))
    ));
    let state = PressState::Sending {
        handle: handle(),
        messages: vec!["a".to_string(), "b".to_string()],
        at: 0,
    };
    let failed: PressEvent<u8> = PressEvent::Sent(Err(4));
    assert!(matches!(state.resume(failed), Err(PressError::Outside(4))));
}

#[test]
fn messages_are_cut_at_the_limit() {
    assert!(response_messages("").is_empty());
    assert_eq!(response_messages(&"x".repeat(2000)).len(), 1);
    let messages = response_messages(&"\u{e9}".repeat(2001));
    assert_eq!(messages.len(), 2);
    assert_eq!(messages[0].chars().count(), 2000);
    assert_eq!(messages[1], "\u{e9}");
}
