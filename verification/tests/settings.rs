use replybot::extensions::{SecretError, SecretReply, SecretsManagerExtensions};
use replybot::fields::Fields;
use replybot::headers::completion_headers;
use replybot::source::{
    bot_sources, CollectAction, CollectEvent, CollectState, SecretsManagerSource, SourceError,
    ENVIRONMENT_PREFIX, SECRETS_ORIGIN,
};
use replybot::types::BotConfig;
use std::collections::BTreeMap;

fn config(api_key: &str) -> BotConfig {
    BotConfig {
        interaction_table_name: "interactions".to_string(),
        interaction_table_user_index_name: "by-user".to_string(),
        openai_api_key: api_key.to_string(),
        discord_token: "token".to_string(),
    }
}

type Collected = Result<BTreeMap<String, String>, SourceError<u8>>;

fn run(
    source: &SecretsManagerSource,
    listed: Result<Option<Vec<Option<&str>>>, u8>,
    secrets: &[(&str, Result<&str, u8>)],
) -> (Vec<String>, Collected) {
    let mut fetched: Vec<String> = Vec::new();
    let (mut state, mut action) = source.collect();
    loop {
        let event = match action {
            CollectAction::List { prefix } => {
                assert_eq!(prefix, source.prefix);
                CollectEvent::Listed(match &listed {
                    Ok(Some(names)) => Ok(Some(
                        names.iter().map(|n| n.map(|n| n.to_string())).collect(),
                    )),
                    Ok(None) => Ok(None),
                    Err(e) => Err(*e),
                })
            }
            CollectAction::Fetch { name } => {
                fetched.push(name.clone());
                let reply = match secrets.iter().find(|s| s.0 == name) {
                    Some((_, Ok(text))) => SecretReply::Answered(Some(text.to_string())),
                    Some((_, Err(e))) => SecretReply::Failed(*e),
                    None => SecretReply::Answered(None),
                };
                assert!(source.accepts_name(&name));
                CollectEvent::Fetched(reply.get_secret())
            }
            CollectAction::Finish { entries } => {
                assert!(matches!(state, CollectState::Done));
                return (fetched, Ok(entries.into_entries().into_iter().collect()));
            }
        };
        match source.resume(state, event) {
            Ok(next) => {
                state = next.0;
                action = next.1;
            }
            Err(e) => return (fetched, Err(e)),
        }
    }
}

fn collected(pairs: &[(&str, &str)]) -> BTreeMap<String, String> {
    pairs
        .iter()
        .map(|(k, v)| (k.to_string(), v.to_string()))
        .collect()
}

#[test]
fn fields_keep_one_value_for_each_key() {
    let fields = Fields::new()
        .with("a".to_string(), 1)
        .with("b".to_string(), 2)
        .with("a".to_string(), 3);
    assert_eq!(fields.get("a"), Some(&3));
    assert_eq!(fields.get("b"), Some(&2));
    assert_eq!(fields.get("c"), None);
    assert_eq!(
        fields.into_entries(),
        vec![("a".to_string(), 3), ("b".to_string(), 2)]
    );
    assert_eq!(Fields::new().with("a".to_string(), 1).take("a"), Some(1));
    assert_eq!(Fields::new().with("a".to_string(), 1).take("b"), None);
}

#[test]
fn secrets_are_texts_or_errors() {
    let reply: SecretReply<u8> = SecretReply::Answered(Some("s".to_string()));
    assert!(matches!(reply.get_secret(), Ok(text) if text == "s"));
    let reply: SecretReply<u8> = SecretReply::Answered(None);
    let error = reply.get_secret().err().unwrap();
    assert!(matches!(error, SecretError::NoText));
    assert_eq!(error.message(), "must get secret value");
    let reply: SecretReply<u8> = SecretReply::Failed(4);
    let error = reply.get_secret().err().unwrap();
    assert!(matches!(error, SecretError::Failed(4)));
    assert_eq!(error.message(), "must get secret value");
}

#[test]
fn sources_of_the_bot() {
    let sources = bot_sources();
    assert_eq!(sources.len(), 2);
    assert_eq!(sources[0].prefix, "Replybot-");
    assert!(sources[0].required && sources[0].remove_prefix);
    assert_eq!(sources[1].prefix, "Shared-");
    assert!(!sources[1].required && sources[1].remove_prefix);
    assert!(sources[0].separator.is_none() && sources[1].separator.is_none());
    assert_eq!(ENVIRONMENT_PREFIX, "REPLYBOT");
    assert_eq!(SECRETS_ORIGIN, "SecretsManager");
}

#[test]
fn keys_lose_prefix_and_case() {
    let source = SecretsManagerSource::new("Replybot-");
    assert_eq!(source.key_text("Replybot-OpenAIKey"), "openaikey");
    assert_eq!(source.nested_text("Replybot-OpenAIKey"), "OpenAIKey");
    assert_eq!(source.key_text("Replybot-\u{c9}T\u{c9}"), "\u{e9}t\u{e9}");
    assert_eq!(source.key_text("Replybot-"), "");
    assert!(!source.accepts_name("replybot-key"));
}

#[test]
fn keys_nest_at_the_separator() {
    let mut source = SecretsManagerSource::new("Replybot-");
    source.separator = Some("-".to_string());
    assert_eq!(source.key_text("Replybot-Db-Name"), ".db.name");
    source.remove_prefix = false;
    assert_eq!(source.key_text("Replybot-Db-Name"), "replybot.db.name");
    assert!(source.accepts_name("anything"));
    source.separator = Some(String::new());
    assert_eq!(source.key_text("Replybot-Db"), "replybot-db");
}

#[test]
fn collection_gathers_named_secrets() {
    let source = SecretsManagerSource::new("Replybot-");
    let (fetched, result) = run(
        &source,
        Ok(Some(vec![
            None,
            Some("Replybot-OpenAIKey"),
            None,
            Some("Replybot-DiscordAuthToken"),
            None,
        ])),
        &[
            ("Replybot-OpenAIKey", Ok("k")),
            ("Replybot-DiscordAuthToken", Ok("t")),
        ],
    );
    assert_eq!(fetched, vec!["Replybot-OpenAIKey", "Replybot-DiscordAuthToken"]);
    assert_eq!(
        result.ok().unwrap(),
        collected(&[("openaikey", "k"), ("discordauthtoken", "t")])
    );
}

#[test]
fn later_secret_wins() {
    let source = SecretsManagerSource::new("P-");
    let (_, result) = run(
        &source,
        Ok(Some(vec![Some("P-A"), Some("P-B"), Some("P-a")])),
        &[("P-A", Ok("1")), ("P-B", Ok("2")), ("P-a", Ok("3"))],
    );
    assert_eq!(result.ok().unwrap(), collected(&[("a", "3"), ("b", "2")]));
}

#[test]
fn required_source_stops_at_the_first_missing_secret() {
    let source = SecretsManagerSource::new("P-");
    let (fetched, result) = run(
        &source,
        Ok(Some(vec![Some("P-A"), Some("P-B"), Some("P-C")])),
        &[("P-A", Ok("1")), ("P-B", Err(9)), ("P-C", Ok("3"))],
    );
    assert_eq!(fetched, vec!["P-A", "P-B"]);
    assert!(matches!(
        result,
        Err(SourceError::Secret(SecretError::Failed(9)))
    ));
    let (_, result) = run(&source, Ok(Some(vec![Some("P-A")])), &[]);
    assert!(matches!(result, Err(SourceError::Secret(SecretError::NoText))));
}

#[test]
fn optional_source_goes_on_without_missing_secrets() {
    let source = SecretsManagerSource::new("P-").with_required(false);
    let (fetched, result) = run(
        &source,
        Ok(Some(vec![Some("P-A"), Some("P-B"), Some("P-C")])),
        &[("P-A", Ok("1")), ("P-B", Err(9)), ("P-C", Ok("3"))],
    );
    assert_eq!(fetched, vec!["P-A", "P-B", "P-C"]);
    assert_eq!(result.ok().unwrap(), collected(&[("a", "1"), ("c", "3")]));
}

#[test]
fn required_matters_only_for_missing_secrets() {
    let names = || Ok(Some(vec![Some("P-A"), None, Some("P-B"), Some("P-a")]));
    let secrets = [("P-A", Ok("1")), ("P-B", Ok("2")), ("P-a", Ok("3"))];
    let required = SecretsManagerSource::new("P-");
    let optional = SecretsManagerSource::new("P-").with_required(false);
    let first = run(&required, names(), &secrets);
    let second = run(&optional, names(), &secrets);
    assert_eq!(first.0, second.0);
    let entries = first.1.ok().unwrap();
    assert_eq!(entries, collected(&[("a", "3"), ("b", "2")]));
    assert_eq!(entries, second.1.ok().unwrap());
    assert!(entries.keys().all(|key| *key == key.to_lowercase()));
}

#[test]
fn listing_may_fail_or_be_empty() {
    let source = SecretsManagerSource::new("P-").with_required(false);
    assert!(matches!(run(&source, Err(5), &[]).1, Err(SourceError::List(5))));
    assert_eq!(run(&source, Ok(None), &[]).1.ok().unwrap(), collected(&[]));
    assert_eq!(
        run(&source, Ok(Some(vec![])), &[]).1.ok().unwrap(),
        collected(&[])
    );
    assert_eq!(
        run(&source, Ok(Some(vec![None])), &[]).1.ok().unwrap(),
        collected(&[])
    );
}

#[test]
fn headers_carry_the_key() {
    let headers = completion_headers(&config("sk-1")).ok().unwrap();
    assert_eq!(headers.len(), 2);
    assert_eq!(headers.get("authorization").unwrap(), "Bearer sk-1");
    assert_eq!(headers.get("content-type").unwrap(), "application/json");
    let headers = completion_headers(&config("\t~\u{e9}")).ok().unwrap();
    assert_eq!(
        headers.get("authorization").unwrap().as_bytes(),
        "Bearer \t~\u{e9}".as_bytes()
    );
}

#[test]
fn headers_refuse_control_characters() {
    assert!(completion_headers(&config("a\nb")).is_err());
    assert!(completion_headers(&config("a\u{7f}")).is_err());
    assert!(completion_headers(&config("a\u{0}")).is_err());
}
