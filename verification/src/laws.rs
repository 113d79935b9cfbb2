//! What holds across the commands of the bot.

use crate::button::{
    is_message, law_messages_keep_every_character_in_place, law_messages_make_up_the_response,
    shown, PressAction, PressError, PressEvent, PressState,
};
use crate::chat::{
    is_random_uuid, law_reply_shows_the_response_in_place, one_button, shows, takes_up, ChatAction,
    ChatError, ChatEvent, ChatReply, ChatState,
};
use crate::completion::{law_prompt_is_asked_as_it_is, SYSTEM_PROMPT};
use crate::db::{
    decoded, holds_record, interaction_of, item_model, law_interaction_reads_back,
    law_record_holds_its_parts, law_record_is_found_by_id_and_user, law_response_reads_back,
    record_model, AttributeModel, AttributeValue, Item, LookupError, HASH_KEY,
};
use crate::discord::{Interaction, InteractionData, InteractionHandle, ResponseKind};
use crate::extensions::SecretError;
use crate::source::{
    is_lowered, CollectAction, CollectEvent, CollectState, SecretsManagerSource, SourceError,
};
use crate::stats::{
    asks_for, item_tokens, law_totals_add_up, tokens_of, PageReply, ResponseItem, StatsAction,
    StatsEvent, StatsQuery, StatsState,
};
use crate::text::{decimal, joined, law_decimal_is_injective};
use crate::types::{InteractionValue, OpenAIChatCompletionResponse, User};
use vstd::prelude::*;
use vstd::utf8::encode_utf8;

verus! {

/// The message that an action sends.
pub open spec fn message_of(action: PressAction) -> Seq<char> {
    match action {
        PressAction::Respond { content, .. } => content@,
        PressAction::FollowUp { content, .. } => content@,
        _ => Seq::empty(),
    }
}

/// Whether `trace` is what follows, step by step, once `value` was read from
/// the table for the press `handle`, and as long as every message is sent.
pub open spec fn is_press_run<E>(
    trace: Seq<(PressState, PressAction)>,
    handle: InteractionHandle,
    value: InteractionValue,
) -> bool {
    &&& trace.len() > 0
    &&& (PressState::Fetching { handle }).follows(
        PressEvent::<E>::Fetched(Ok(value)),
        Ok::<_, PressError<E>>(trace[0]),
    )
    &&& forall|i: int|
        0 <= i < trace.len() - 1 ==> !((#[trigger] trace[i]).0 is Done) && trace[i].0.follows(
            PressEvent::<E>::Sent(Ok(())),
            Ok::<_, PressError<E>>(trace[i + 1]),
        )
}

/// The messages that a run sends.
pub open spec fn messages_of(trace: Seq<(PressState, PressAction)>) -> Seq<Seq<char>> {
    Seq::new((trace.len() - 1) as nat, |i: int| message_of(trace[i].1))
}

/// The press of a button, answered to its end, sends every message of the
/// response once and in order: the first as the answer to the press and the
/// others behind it, each for the one who pressed alone. Together they are the
/// whole response.
pub proof fn law_press_shows_the_whole_response<E>(
    trace: Seq<(PressState, PressAction)>,
    handle: InteractionHandle,
    value: InteractionValue,
)
    requires
        is_press_run::<E>(trace, handle, value),
        trace.last().0 is Done,
    ensures
        messages_of(trace) == shown(value.openai_response@),
        joined(messages_of(trace)) == value.openai_response@,
        forall|i: int|
            0 <= i < trace.len() - 1 ==> is_message(
                (#[trigger] trace[i]).1,
                handle,
                i,
                shown(value.openai_response@)[i],
            ),
        trace.last().1 is Finish,
{
    let all = shown(value.openai_response@);
    let n = trace.len() - 1;
    lemma_press_position::<E>(trace, handle, value, n);
    assert(PressState::sends(Ok::<_, PressError<E>>(trace[n]), handle, all, n));
    assert(n >= all.len());
    if n > all.len() {
        lemma_press_position::<E>(trace, handle, value, all.len() as int);
        assert(trace[all.len() as int].0 is Done);
    }
    assert forall|i: int| 0 <= i < n implies message_of((#[trigger] trace[i]).1) == all[i]
        && is_message(trace[i].1, handle, i, all[i]) by {
        lemma_press_position::<E>(trace, handle, value, i);
    }
    assert(messages_of(trace) =~= all);
    law_messages_make_up_the_response(value.openai_response@);
}

/// While the press of a button is answered, step `i` sends the characters of the
/// response from position `2000 * i` on, 2000 of them or as many as there are,
/// to the one who pressed alone: the first as the response to the press, the
/// others behind it. The answer is over exactly where nothing is left.
pub proof fn law_press_sends_the_response_in_place<E>(
    trace: Seq<(PressState, PressAction)>,
    handle: InteractionHandle,
    value: InteractionValue,
    i: int,
)
    requires
        is_press_run::<E>(trace, handle, value),
        0 <= i < trace.len(),
    ensures
        trace[i].0 is Done <==> 2000 * i >= value.openai_response@.len(),
        trace[i].1 is Finish <==> 2000 * i >= value.openai_response@.len(),
        2000 * i < value.openai_response@.len() ==> {
            let response = value.openai_response@;
            let left = response.len() - 2000 * i;
            &&& message_of(trace[i].1).len() == (if left < 2000 {
                left
            } else {
                2000
            })
            &&& forall|j: int|
                0 <= j < message_of(trace[i].1).len() ==> #[trigger] message_of(trace[i].1)[j]
                    == response[2000 * i + j]
            &&& i == 0 ==> {
                &&& trace[i].1 matches PressAction::Respond {
                    application_id,
                    id,
                    token,
                    kind,
                    content,
                    ephemeral,
                }
                &&& application_id == handle.application_id
                &&& id == handle.id
                &&& token@ == handle.token@
                &&& kind == ResponseKind::ChannelMessageWithSource
                &&& content@ == message_of(trace[i].1)
                &&& ephemeral
            }
            &&& i > 0 ==> {
                &&& trace[i].1 matches PressAction::FollowUp {
                    application_id,
                    token,
                    content,
                    ephemeral,
                }
                &&& application_id == handle.application_id
                &&& token@ == handle.token@
                &&& content@ == message_of(trace[i].1)
                &&& ephemeral
            }
        },
{
    lemma_press_position::<E>(trace, handle, value, i);
    law_messages_keep_every_character_in_place(value.openai_response@);
    if i < shown(value.openai_response@).len() {
        assert(message_of(trace[i].1) == shown(value.openai_response@)[i]);
    }
}

proof fn lemma_press_position<E>(
    trace: Seq<(PressState, PressAction)>,
    handle: InteractionHandle,
    value: InteractionValue,
    i: int,
)
    requires
        is_press_run::<E>(trace, handle, value),
        0 <= i < trace.len(),
    ensures
        PressState::sends(
            Ok::<_, PressError<E>>(trace[i]),
            handle,
            shown(value.openai_response@),
            i,
        ),
    decreases i,
{
    if i > 0 {
        lemma_press_position::<E>(trace, handle, value, i - 1);
        assert(!(trace[i - 1].0 is Done));
    }
}

/// Whether `trace` is what follows, step by step, from the start of the command
/// for `prompt`, as long as no step fails.
pub open spec fn is_chat_run<M, E>(
    trace: Seq<(ChatState, ChatAction<M>)>,
    events: Seq<ChatEvent<M, E>>,
    prompt: String,
    author: Option<u64>,
    table_name: Seq<char>,
) -> bool {
    &&& trace.len() == events.len() + 1
    &&& trace[0] == (
        ChatState::Deferring { prompt, author },
        ChatAction::<M>::Defer { ephemeral: false },
    )
    &&& forall|i: int|
        0 <= i < events.len() ==> (#[trigger] trace[i]).0.expects(events[i]) && trace[i].0.follows(
            table_name,
            events[i],
            Ok((trace[i + 1].0, trace[i + 1].1)),
        )
}

/// The command defers, asks, encodes, stores and replies, in this order and once
/// each: nothing is stored without an answer, and nothing is shown that was not
/// stored.
pub proof fn law_chat_goes_in_order<M, E>(
    trace: Seq<(ChatState, ChatAction<M>)>,
    events: Seq<ChatEvent<M, E>>,
    prompt: String,
    author: Option<u64>,
    table_name: Seq<char>,
)
    requires
        is_chat_run(trace, events, prompt, author, table_name),
    ensures
        trace.len() <= 6,
        trace.len() > 1 ==> trace[1].1 is Ask,
        trace.len() > 2 ==> trace[2].1 is Encode,
        trace.len() > 3 ==> trace[3].1 is Store,
        trace.len() > 4 ==> trace[4].1 is Reply,
        trace.len() > 5 ==> trace[5] == (ChatState::Done, ChatAction::<M>::Finish),
{
    if trace.len() > 1 {
        assert(trace[0].0.expects(events[0]));
        assert(trace[1].0 is Asking);
    }
    if trace.len() > 2 {
        assert(trace[1].0.expects(events[1]));
        assert(trace[2].0 is Encoding);
    }
    if trace.len() > 3 {
        assert(trace[2].0.expects(events[2]));
        assert(trace[3].0 is Storing);
    }
    if trace.len() > 4 {
        assert(trace[3].0.expects(events[3]));
        assert(trace[4].0 is Replying);
    }
    if trace.len() > 5 {
        assert(trace[4].0.expects(events[4]));
        assert(trace[5].0 is Done);
    }
    if trace.len() > 6 {
        assert(trace[5].0.expects(events[5]));
    }
}

/// What the command asks, keeps and shows goes together from its first step to
/// its last. The prompt is asked as it was given. The first message of the answer
/// is kept with the prompt, beside the whole answer, under a fresh id, for the
/// user who asked and for no other. That same message is shown, whole or by its
/// first characters, and the button under it carries that same id.
pub proof fn law_chat_keeps_and_shows_the_answer<M, E>(
    trace: Seq<(ChatState, ChatAction<M>)>,
    events: Seq<ChatEvent<M, E>>,
    prompt: String,
    author: Option<u64>,
    table_name: Seq<char>,
)
    requires
        is_chat_run(trace, events, prompt, author, table_name),
    ensures
        trace.len() > 1 ==> {
            &&& trace[1].1 matches ChatAction::Ask(request)
            &&& request.messages@.len() == 2
            &&& request.messages@[0].role@ == "system"@
            &&& request.messages@[0].content@ == SYSTEM_PROMPT@
            &&& request.messages@[1].role@ == "user"@
            &&& request.messages@[1].content@ == prompt@
        },
        trace.len() > 2 ==> {
            &&& events[1] matches ChatEvent::Answered(Ok(answer))
            &&& answer.choices@.len() > 0
            &&& trace[2].1 matches ChatAction::Encode { interaction, raw }
            &&& interaction.prompt@ == prompt@
            &&& interaction.openai_response@ == answer.choices@[0].message.content@
            &&& raw == answer
        },
        trace.len() > 3 ==> {
            &&& author matches Some(user)
            &&& events[2] matches ChatEvent::Encoded { interaction: Ok(encoded), raw: Ok(whole) }
            &&& trace[3].1 matches ChatAction::Store { table_name: table, item }
            &&& table@ == table_name
            &&& item@["hash"@] matches AttributeValue::S(id)
            &&& is_random_uuid(id@)
            &&& holds_record(item@, id@, encoded, user, whole)
        },
        trace.len() > 4 ==> {
            &&& events[1] matches ChatEvent::Answered(Ok(answer))
            &&& trace[3].1 matches ChatAction::Store { table_name: _, item }
            &&& item@["hash"@] matches AttributeValue::S(id)
            &&& trace[4].1 matches ChatAction::Reply(reply)
            &&& in_place(reply, id@, answer.choices@[0].message.content@)
        },
{
    law_chat_goes_in_order(trace, events, prompt, author, table_name);
    if trace.len() > 1 {
        assert(trace[0].0.expects(events[0]));
        if let ChatAction::Ask(request) = trace[1].1 {
            law_prompt_is_asked_as_it_is(request, prompt@);
        }
    }
    if trace.len() > 2 {
        assert(trace[1].0.expects(events[1]));
        assert(trace[1].0 == (ChatState::Asking { prompt, author }));
    }
    if trace.len() > 3 {
        assert(trace[2].0.expects(events[2]));
        if let (
            ChatState::Encoding { id, response: _, author: Some(user) },
            ChatEvent::Encoded { interaction: Ok(encoded), raw: Ok(whole) },
            ChatAction::Store { table_name: _, item },
        ) = (trace[2].0, events[2], trace[3].1) {
            law_record_holds_its_parts(item, id@, encoded, user, whole);
        }
    }
    if trace.len() > 4 {
        assert(trace[3].0.expects(events[3]));
        if let (ChatState::Storing { id, response }, ChatAction::Reply(reply)) = (
            trace[3].0,
            trace[4].1,
        ) {
            assert(shows(reply, id@, response@));
            law_reply_shows_the_response_in_place(reply, id@, response@);
        }
    }
}

/// Whether `reply` shows `response`: whole where it takes up at most 1000 bytes,
/// and else its first 1000 characters at their places, with three dots behind
/// them and one button under them that carries `id`.
pub open spec fn in_place(reply: ChatReply, id: Seq<char>, response: Seq<char>) -> bool {
    if encode_utf8(response).len() <= 1000 {
        reply.content@ == response && reply.components is None
    } else {
        let kept: int = if response.len() < 1000 {
            response.len() as int
        } else {
            1000
        };
        &&& reply.content@.len() == kept + 3
        &&& forall|i: int| 0 <= i < kept ==> #[trigger] reply.content@[i] == response[i]
        &&& forall|i: int| kept <= i < kept + 3 ==> #[trigger] reply.content@[i] == '.'
        &&& reply.components matches Some(rows)
        &&& rows@.len() == 1
        &&& rows@[0].components@.len() == 1
        &&& rows@[0].components@[0].custom_id matches Some(custom_id)
        &&& custom_id@ == id
    }
}

/// Whether `interaction` is the press of the button with this id.
pub open spec fn presses(interaction: Interaction, id: Seq<char>) -> bool {
    interaction.data matches Some(InteractionData::MessageComponent { custom_id }) && custom_id@
        == id
}

/// What the user is shown of an answer and what is kept of it belong together:
/// the item is kept under the id of the interaction, the one button under a
/// shortened reply carries that id, its press reads under that id from the table
/// that the item was written to, and the item, as far as its map decodes to what
/// was encoded, holds the whole answer. The press, answered to its end, shows
/// that answer.
pub proof fn law_button_leads_to_the_answer<M, D, E>(
    id: String,
    prompt: String,
    author: u64,
    answer: OpenAIChatCompletionResponse,
    encoded: M,
    raw: M,
    decode: spec_fn(M) -> Result<InteractionValue, D>,
    table_name: Seq<char>,
    encoding: ChatState,
    kept: InteractionValue,
    storing: ChatState,
    item: Item<M>,
    table: String,
    reply: ChatReply,
)
    requires
        takes_up(
            id,
            prompt,
            Some(author),
            answer,
            Ok::<_, ChatError<E>>(
                (encoding, ChatAction::<M>::Encode { interaction: kept, raw: answer }),
            ),
        ),
        decode(encoded) == Ok::<_, D>(kept),
        encoding.follows(
            table_name,
            ChatEvent::<M, E>::Encoded { interaction: Ok(encoded), raw: Ok(raw) },
            Ok((storing, ChatAction::Store { table_name: table, item })),
        ),
        storing.follows(
            table_name,
            ChatEvent::<M, E>::Stored(Ok(())),
            Ok((ChatState::Replying, ChatAction::Reply(reply))),
        ),
    ensures
        item_model(item)[HASH_KEY@] == AttributeModel::<M>::S(id@),
        reply.components matches Some(rows) ==> one_button(rows@, id@),
        forall|interaction: Interaction, next|
            presses(interaction, id@) && #[trigger] PressState::begins::<E>(
                interaction,
                table@,
                next,
            ) ==> (next matches Ok((_, PressAction::Fetch { table_name: read, key })) && read@
                == table@ && item_model(item)[HASH_KEY@] == AttributeModel::<M>::S(key@)),
        interaction_of(Some(decoded(item_model(item), decode))) == Ok::<
            InteractionValue,
            LookupError<D>,
        >(
            InteractionValue { openai_response: answer.choices@[0].message.content, prompt },
        ),
        forall|trace: Seq<(PressState, PressAction)>, handle: InteractionHandle|
            #[trigger] is_press_run::<E>(trace, handle, kept) && trace.last().0 is Done ==> joined(
                messages_of(trace),
            ) == answer.choices@[0].message.content@,
{
    law_record_is_found_by_id_and_user(id@, encoded, author, raw);
    law_interaction_reads_back(id@, encoded, author, raw, decode);
    assert forall|trace: Seq<(PressState, PressAction)>, handle: InteractionHandle| #[trigger]
        is_press_run::<E>(trace, handle, kept) && trace.last().0 is Done implies joined(
        messages_of(trace),
    ) == answer.choices@[0].message.content@ by {
        law_press_shows_the_whole_response::<E>(trace, handle, kept);
    }
}

/// An answer that was kept counts in the statistics with the tokens that it has
/// cost, as far as its map decodes to what was encoded.
pub proof fn law_kept_answer_counts_with_its_tokens<M, D>(
    id: Seq<char>,
    encoded: M,
    author: u64,
    raw: M,
    answer: OpenAIChatCompletionResponse,
    decode: spec_fn(M) -> Result<OpenAIChatCompletionResponse, D>,
    items: Seq<ResponseItem<D>>,
    item: ResponseItem<D>,
)
    requires
        decode(raw) == Ok::<_, D>(answer),
        item_model(item) == decoded(record_model(id, encoded, author, raw), decode),
    ensures
        item_tokens(item) == answer.usage.total_tokens,
        tokens_of(items.push(item)) == tokens_of(items) + answer.usage.total_tokens,
{
    law_response_reads_back(id, encoded, author, raw, decode);
    assert(items.push(item).drop_last() =~= items);
}

/// The question for the items of a user is answered by the items that were kept
/// for that user and by no others.
pub proof fn law_query_finds_the_items_of_the_user<M>(
    query: StatsQuery,
    table_name: Seq<char>,
    index_name: Seq<char>,
    user: u64,
    id: Seq<char>,
    interaction: M,
    author: u64,
    raw: M,
)
    requires
        asks_for(query, table_name, index_name, user),
    ensures
        record_model(id, interaction, author, raw).dom().contains(query.attribute.1@),
        record_model(id, interaction, author, raw)[query.attribute.1@] == AttributeModel::<M>::S(
            query.value.1@,
        ) <==> author == user,
{
    law_record_is_found_by_id_and_user(id, interaction, author, raw);
    if decimal(author as nat) == decimal(user as nat) {
        law_decimal_is_injective(author as nat, user as nat);
    }
}

/// The items of a page.
pub open spec fn page_items<D>(page: Option<Vec<ResponseItem<D>>>) -> Seq<ResponseItem<D>> {
    match page {
        Some(items) => items@,
        None => Seq::empty(),
    }
}

/// The total of a list of pages.
pub open spec fn tokens_of_pages<D>(pages: Seq<Option<Vec<ResponseItem<D>>>>) -> int
    decreases pages.len(),
{
    if pages.len() == 0 {
        0
    } else {
        tokens_of_pages(pages.drop_last()) + tokens_of(page_items(pages.last()))
    }
}

/// Whether `states` are the states that the command goes through while `pages`
/// come in, from the question for the items of `user` on.
pub open spec fn is_paging_run<D, E>(
    states: Seq<StatsState<D>>,
    pages: Seq<Option<Vec<ResponseItem<D>>>>,
    user: User,
    table_name: Seq<char>,
    index_name: Seq<char>,
) -> bool {
    &&& states.len() == pages.len() + 1
    &&& states[0] matches StatsState::Paging { user: subject, items } && subject == user
        && items@.len() == 0
    &&& forall|i: int|
        0 <= i < pages.len() ==> (#[trigger] states[i]).follows(
            table_name,
            index_name,
            StatsEvent::<D, E>::Paged(PageReply::Page(pages[i])),
            Ok((states[i + 1], StatsAction::NextPage)),
        )
}

/// The price is asked for the tokens of all pages that were read, whether the
/// reading came to its end or was cut short.
pub proof fn law_price_covers_all_pages<D, E>(
    states: Seq<StatsState<D>>,
    pages: Seq<Option<Vec<ResponseItem<D>>>>,
    user: User,
    table_name: Seq<char>,
    index_name: Seq<char>,
    end: PageReply<D>,
    last: StatsState<D>,
    total_tokens: i64,
)
    requires
        is_paging_run::<D, E>(states, pages, user, table_name, index_name),
        !(end is Page),
        states.last().follows(
            table_name,
            index_name,
            StatsEvent::<D, E>::Paged(end),
            Ok((last, StatsAction::Price { total_tokens })),
        ),
    ensures
        last == (StatsState::<D>::Pricing { user }),
        total_tokens == tokens_of_pages(pages),
{
    lemma_paging::<D, E>(states, pages, user, table_name, index_name, pages.len() as int);
    assert(pages.take(pages.len() as int) =~= pages);
}

proof fn lemma_paging<D, E>(
    states: Seq<StatsState<D>>,
    pages: Seq<Option<Vec<ResponseItem<D>>>>,
    user: User,
    table_name: Seq<char>,
    index_name: Seq<char>,
    k: int,
)
    requires
        is_paging_run::<D, E>(states, pages, user, table_name, index_name),
        0 <= k <= pages.len(),
    ensures
        states[k] matches StatsState::Paging { user: subject, items } && subject == user
            && tokens_of(items@) == tokens_of_pages(pages.take(k)),
    decreases k,
{
    if k > 0 {
        lemma_paging::<D, E>(states, pages, user, table_name, index_name, k - 1);
        assert(pages.take(k).drop_last() =~= pages.take(k - 1));
        if let StatsState::Paging { user: _, items } = states[k - 1] {
            law_totals_add_up(items@, page_items(pages[k - 1]));
        }
    }
}

/// Whether `trace` is what follows, step by step, once the secrets `names` were
/// listed and where the secret at position `i` of the list is answered with
/// `replies[i]`.
pub open spec fn is_collect_run<E>(
    source: SecretsManagerSource,
    trace: Seq<(CollectState, CollectAction)>,
    names: Vec<Option<String>>,
    replies: Seq<Result<String, SecretError<E>>>,
) -> bool {
    &&& trace.len() > 0
    &&& source.follows(
        CollectState::Listing,
        CollectEvent::<E>::Listed(Ok(Some(names))),
        Ok(trace[0]),
    )
    &&& forall|i: int|
        0 <= i < trace.len() - 1 ==> {
            &&& (#[trigger] trace[i]).0 matches CollectState::Fetching { at, .. }
            &&& source.follows(
                trace[i].0,
                CollectEvent::Fetched(replies[at as int]),
                Ok(trace[i + 1]),
            )
        }
}

/// A source that was collected to its end holds what its secrets say, in the
/// order of the list: every named secret that could be fetched under its key,
/// the later one where two have the same.
pub proof fn law_collection_ends_with_the_secrets<E>(
    source: SecretsManagerSource,
    trace: Seq<(CollectState, CollectAction)>,
    names: Vec<Option<String>>,
    replies: Seq<Result<String, SecretError<E>>>,
)
    requires
        is_collect_run(source, trace, names, replies),
        trace.last().0 is Done,
    ensures
        trace.last().1 matches CollectAction::Finish { entries } && source.gathered(
            names@,
            replies,
            names@.len() as int,
        ) == Some(entries@),
{
    lemma_collect_position(source, trace, names, replies, trace.len() - 1);
}

/// A source without nesting that was collected to its end holds each secret that
/// was fetched, with the very text that came, under what follows the prefix in
/// its name, in lower case, unless a later one took its place.
pub proof fn law_plain_collection_holds_each_secret<E>(
    source: SecretsManagerSource,
    trace: Seq<(CollectState, CollectAction)>,
    names: Vec<Option<String>>,
    replies: Seq<Result<String, SecretError<E>>>,
    i: int,
    rest: Seq<char>,
)
    requires
        source.separator is None,
        source.remove_prefix,
        is_collect_run(source, trace, names, replies),
        trace.last().0 is Done,
        0 <= i < names@.len(),
        names@[i] matches Some(name) && name@ == source.prefix@ + rest,
        replies[i] is Ok,
        forall|j: int|
            i < j < names@.len() && #[trigger] names@[j] is Some && replies[j] is Ok
                ==> source.key_of(names@[j]->0@) != source.key_of(source.prefix@ + rest),
    ensures
        trace.last().1 matches CollectAction::Finish { entries } && exists|key: Seq<char>|
            is_lowered(key, rest) && #[trigger] entries@.dom().contains(key) && entries@[key]
                == replies[i]->Ok_0,
{
    law_collection_ends_with_the_secrets(source, trace, names, replies);
    source.law_last_secret_wins(names@, replies, names@.len() as int, i);
    source.law_plain_key_is_what_follows_the_prefix(rest);
    if let CollectAction::Finish { entries } = trace.last().1 {
        assert(entries@.dom().contains(source.key_of(source.prefix@ + rest)));
    }
}

/// A source fails, once its secrets are listed, only where it is required and a
/// secret could not be fetched; then nothing is collected of it.
pub proof fn law_collection_fails_for_a_missing_secret<E>(
    source: SecretsManagerSource,
    trace: Seq<(CollectState, CollectAction)>,
    names: Vec<Option<String>>,
    replies: Seq<Result<String, SecretError<E>>>,
    error: SourceError<E>,
)
    requires
        is_collect_run(source, trace, names, replies),
        trace.last().0 matches CollectState::Fetching { at, .. } && source.follows(
            trace.last().0,
            CollectEvent::Fetched(replies[at as int]),
            Err(error),
        ),
    ensures
        source.required,
        source.gathered(names@, replies, names@.len() as int) is None,
        trace.last().0 matches CollectState::Fetching { at, .. } && (replies[at as int] matches Err(
            reason,
        ) && error == SourceError::Secret(reason)),
{
    lemma_collect_position(source, trace, names, replies, trace.len() - 1);
    if let CollectState::Fetching { names: list, at, entries } = trace.last().0 {
        source.law_fetching_agrees(list, replies, at, entries, Err(error));
    }
}

/// Whether a source is required matters only where a secret cannot be fetched:
/// where a required source is collected to its end, the same source made
/// optional ends, for the same answers, with the same entries.
pub proof fn law_optional_collection_ends_with_the_same<E>(
    source: SecretsManagerSource,
    trace: Seq<(CollectState, CollectAction)>,
    other: SecretsManagerSource,
    other_trace: Seq<(CollectState, CollectAction)>,
    names: Vec<Option<String>>,
    replies: Seq<Result<String, SecretError<E>>>,
)
    requires
        source.required,
        other == (SecretsManagerSource { required: false, ..source }),
        is_collect_run(source, trace, names, replies),
        trace.last().0 is Done,
        is_collect_run(other, other_trace, names, replies),
        other_trace.last().0 is Done,
    ensures
        trace.last().1 matches CollectAction::Finish { entries } && (
        other_trace.last().1 matches CollectAction::Finish { entries: same } && same@ == entries@),
{
    law_collection_ends_with_the_secrets(source, trace, names, replies);
    law_collection_ends_with_the_secrets(other, other_trace, names, replies);
    source.law_required_matters_only_for_failures(other, names@, replies, names@.len() as int);
}

proof fn lemma_collect_position<E>(
    source: SecretsManagerSource,
    trace: Seq<(CollectState, CollectAction)>,
    names: Vec<Option<String>>,
    replies: Seq<Result<String, SecretError<E>>>,
    i: int,
)
    requires
        is_collect_run(source, trace, names, replies),
        0 <= i < trace.len(),
    ensures
        source.agrees(names@, replies, Ok(trace[i])),
    decreases i,
{
    if i == 0 {
        source.law_listing_agrees(names, replies, Ok(trace[0]));
    } else {
        lemma_collect_position(source, trace, names, replies, i - 1);
        if let CollectState::Fetching { names: list, at, entries } = trace[i - 1].0 {
            source.law_fetching_agrees(list, replies, at, entries, Ok(trace[i]));
        }
    }
}

} // verus!
