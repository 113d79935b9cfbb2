use replybot::db::{AttributeValue, RAW_RESPONSE_KEY};
use replybot::events::{
    handle_event, route_event, EventHandling, EventRoute, GatewayEvent, InteractionKind,
};
use replybot::fields::Fields;
use replybot::stats::{
    can_total_tokens, stats_embed, stats_query, stats_subject, total_tokens, PageReply,
    ResponseItem, StatsAction, StatsError, StatsEvent, StatsState, DEFAULT_COLOR,
};
use replybot::types::{Avatar, BotConfig, OpenAIChatCompletionResponse, OpenAIUsage, User};
use replybot::{CACHE_KEY_PREFIX, REDIS_KEY_TTL};
use twilight_model::util::ImageHash;

fn config() -> BotConfig {
    BotConfig {
        interaction_table_name: "interactions".to_string(),
        interaction_table_user_index_name: "by-user".to_string(),
        openai_api_key: "key".to_string(),
        discord_token: "token".to_string(),
    }
}

fn user(id: u64, avatar: Option<Avatar>, accent_color: Option<u32>) -> User {
    User {
        id,
        name: "julian".to_string(),
        discriminator: 42,
        avatar,
        accent_color,
    }
}

fn avatar(text: &str) -> Avatar {
    let hash = ImageHash::parse(text.as_bytes()).unwrap();
    Avatar {
        bytes: hash.bytes(),
        animated: hash.is_animated(),
    }
}

fn tokens(n: i64) -> ResponseItem<u8> {
    Fields::new().with(
        RAW_RESPONSE_KEY.to_string(),
        AttributeValue::M(Ok(OpenAIChatCompletionResponse {
            choices: vec![],
            usage: OpenAIUsage { total_tokens: n },
        })),
    )
}

fn unreadable() -> ResponseItem<u8> {
    Fields::new().with(RAW_RESPONSE_KEY.to_string(), AttributeValue::M(Err(1)))
}

fn textual() -> ResponseItem<u8> {
    Fields::new().with(
        RAW_RESPONSE_KEY.to_string(),
        AttributeValue::S("12".to_string()),
    )
}

#[test]
fn totals_skip_what_cannot_be_read() {
    let none: Vec<ResponseItem<u8>> = vec![];
    assert_eq!(total_tokens(&none), 0);
    let items = vec![tokens(5), unreadable(), textual(), Fields::new(), tokens(37)];
    assert!(can_total_tokens(&items));
    assert_eq!(total_tokens(&items), 42);
}

#[test]
fn totals_that_overflow_are_told() {
    assert!(!can_total_tokens(&vec![tokens(i64::MAX), tokens(1)]));
    assert!(!can_total_tokens(&vec![tokens(i64::MAX), tokens(1), tokens(-1)]));
    assert!(!can_total_tokens(&vec![tokens(i64::MIN), tokens(-1)]));
    let items = vec![tokens(-1), tokens(i64::MAX), tokens(1)];
    assert!(can_total_tokens(&items));
    assert_eq!(total_tokens(&items), i64::MAX);
}

#[test]
fn query_names_the_user() {
    let query = stats_query(&config(), 7);
    assert_eq!(query.table_name, "interactions");
    assert_eq!(query.index_name, "by-user");
    assert_eq!(query.condition, "#user = :user_id");
    assert_eq!(query.attribute, ("#user".to_string(), "discord_id".to_string()));
    assert_eq!(query.value, (":user_id".to_string(), "7".to_string()));
}

#[test]
fn subject_is_the_named_user_or_the_author() {
    let pick = |requested: Option<User>, author: Option<User>| stats_subject::<u8>(requested, author);
    assert!(matches!(pick(Some(user(1, None, None)), Some(user(2, None, None))), Ok(u) if u.id == 1));
    assert!(matches!(pick(None, Some(user(2, None, None))), Ok(u) if u.id == 2));
    let error = pick(Some(user(1, None, None)), None).err().unwrap();
    assert!(matches!(error, StatsError::NoAuthor));
    assert_eq!(error.message(), Some("must have author"));
    assert!(matches!(pick(None, None), Err(StatsError::NoAuthor)));
    let error: StatsError<u8> = StatsError::ImageUrl;
    assert_eq!(
        error.message(),
        Some("the provided URL's protocol is unsupported by Discord")
    );
}

#[test]
fn embed_shows_user_price_and_tokens() {
    let embed = stats_embed::<u8>(
        &user(9, None, None),
        "$0.0120".to_string(),
        "1200".to_string(),
    )
    .ok()
    .unwrap();
    assert_eq!(embed.color, DEFAULT_COLOR);
    assert_eq!(embed.color, 10830402);
    assert!(embed.thumbnail.is_none());
    let lines: Vec<(String, String)> = embed
        .fields
        .into_iter()
        .map(|field| (field.name, field.value))
        .collect();
    assert_eq!(
        lines,
        vec![
            ("User".to_string(), "julian#42".to_string()),
            ("Price".to_string(), "$0.0120".to_string()),
            ("Total Tokens".to_string(), "1200".to_string()),
        ]
    );
}

#[test]
fn embed_shows_the_picture_of_the_user() {
    for hash in [
        "1acefe340fafb4ecefae407f3abdb323",
        "a_b2a6536641da91a0b59bd66557c56c36",
        "clyde",
    ] {
        let embed = stats_embed::<u8>(
            &user(123, Some(avatar(hash)), Some(5)),
            String::new(),
            String::new(),
        )
        .ok()
        .unwrap();
        assert_eq!(embed.color, 5);
        let url = format!("https://cdn.discordapp.com/avatars/123/{}.png", hash);
        assert_eq!(embed.thumbnail, Some(url));
    }
}

fn run(replies: Vec<PageReply<u8>>) -> (i64, usize) {
    let mut replies = replies.into_iter();
    let mut total: i64 = 0;
    let mut read: usize = 0;
    let (mut state, mut action) =
        StatsState::<u8>::start(None, Some(user(9, None, None)));
    loop {
        let event: StatsEvent<u8, u8> = match action {
            StatsAction::Defer { ephemeral } => {
                assert!(!ephemeral);
                StatsEvent::Deferred(Ok(()))
            }
            StatsAction::Query(query) => {
                assert_eq!(query.value.1, "9");
                read += 1;
                StatsEvent::Paged(replies.next().unwrap())
            }
            StatsAction::NextPage => {
                read += 1;
                StatsEvent::Paged(replies.next().unwrap())
            }
            StatsAction::Price { total_tokens } => {
                total = total_tokens;
                StatsEvent::Priced {
                    price: "$1".to_string(),
                    tokens: total_tokens.to_string(),
                }
            }
            StatsAction::Reply(embed) => {
                assert!(embed.fields.iter().all(|field| !field.inline));
                assert_eq!(embed.fields[1].value, "$1");
                assert_eq!(embed.fields[2].value, total.to_string());
                StatsEvent::Replied(Ok(()))
            }
            StatsAction::Finish => break,
        };
        assert!(state.can_total());
        let next = state.resume(&config(), event).ok().unwrap();
        state = next.0;
        action = next.1;
    }
    assert!(matches!(state, StatsState::Done));
    (total, read)
}

#[test]
fn price_covers_all_pages() {
    assert_eq!(run(vec![PageReply::End]), (0, 1));
    assert_eq!(
        run(vec![
            PageReply::Page(Some(vec![tokens(1), unreadable()])),
            PageReply::Page(None),
            PageReply::Page(Some(vec![tokens(10), tokens(100)])),
            PageReply::End,
        ]),
        (111, 4)
    );
}

#[test]
fn page_that_fails_ends_the_reading() {
    assert_eq!(
        run(vec![
            PageReply::Page(Some(vec![tokens(1)])),
            PageReply::Failed,
            PageReply::Page(Some(vec![tokens(10)])),
        ]),
        (1, 2)
    );
}

#[test]
fn failed_action_ends_the_stats() {
    let (state, _) = StatsState::<u8>::start(None, Some(user(9, None, None)));
    let failed: StatsEvent<u8, u8> = StatsEvent::Deferred(Err(2));
    let error = state.resume(&config(), failed).err().unwrap();
    assert!(matches!(error, StatsError::Outside(2)));
    assert_eq!(error.message(), None);
    let failed: StatsEvent<u8, u8> = StatsEvent::Replied(Err(3));
    assert!(matches!(
        StatsState::<u8>::Replying.resume(&config(), failed),
        Err(StatsError::Outside(3))
    ));
    let (state, _) = StatsState::<u8>::start(Some(user(9, None, None)), None);
    let deferred: StatsEvent<u8, u8> = StatsEvent::Deferred(Ok(()));
    assert!(matches!(
        state.resume(&config(), deferred),
        Err(StatsError::NoAuthor)
    ));
}

#[test]
fn events_go_where_they_belong() {
    assert_eq!(route_event(GatewayEvent::Failed), EventRoute::Warn);
    assert_eq!(route_event(GatewayEvent::HeartbeatAck), EventRoute::Skip);
    assert_eq!(route_event(GatewayEvent::Ready), EventRoute::CacheAndAnnounce);
    assert_eq!(route_event(GatewayEvent::MessageCreate), EventRoute::Cache);
    assert_eq!(route_event(GatewayEvent::MessageUpdate), EventRoute::Cache);
    assert_eq!(route_event(GatewayEvent::Other), EventRoute::CacheAndHandle);
    assert_eq!(handle_event(GatewayEvent::Other), EventHandling::Nothing);
    for (kind, handling) in [
        (InteractionKind::ApplicationCommand, EventHandling::RunCommand),
        (InteractionKind::MessageComponent, EventHandling::AnswerPress),
        (InteractionKind::Other, EventHandling::IgnoreInteraction),
    ] {
        let event = GatewayEvent::InteractionCreate(kind);
        assert_eq!(route_event(event), EventRoute::CacheAndHandle);
        assert_eq!(handle_event(event), handling);
    }
}

#[test]
fn constants_of_the_bot() {
    assert_eq!(CACHE_KEY_PREFIX, "REPLYBOT");
    assert_eq!(REDIS_KEY_TTL, 86400);
}
