//! The `stats` command: add up what a user's questions have cost.
//!
//! [`StatsState::start`] gives the first action, and [`StatsState::resume`]
//! takes the outcome of each action and gives the next. The first failure ends
//! it; a page of the table that cannot be read only ends the reading.

use crate::db::{
    item_model, response_of, stored_response, AttributeValue, Item, USER_SNOWFLAKE_KEY,
};
use crate::text::{decimal, decimal_text, is_numeral, law_decimal_reads_back, reading};
use crate::types::{Avatar, BotConfig, OpenAIChatCompletionResponse, User};
use twilight_model::util::ImageHash;
use twilight_util::builder::embed::image_source::{ImageSource, ImageSourceUrlError};
use vstd::prelude::*;

verus! {

/// The colour of the statistics of a user without one.
pub const DEFAULT_COLOR: u32 = 10830402;

/// An item of the table whose maps were read as responses.
pub type ResponseItem<D> = Item<Result<OpenAIChatCompletionResponse, D>>;

/// What an item adds to the total: the tokens of its response, or nothing where
/// it holds none that can be read.
pub open spec fn item_tokens<D>(item: ResponseItem<D>) -> int {
    match response_of(item_model(item)) {
        Ok(response) => response.usage.total_tokens as int,
        Err(_) => 0,
    }
}

/// The total of a list of items.
pub open spec fn tokens_of<D>(items: Seq<ResponseItem<D>>) -> int
    decreases items.len(),
{
    if items.len() == 0 {
        0
    } else {
        tokens_of(items.drop_last()) + item_tokens(items.last())
    }
}

/// Whether the total can be added up from the left in 64 bits.
pub open spec fn tokens_fit<D>(items: Seq<ResponseItem<D>>) -> bool {
    forall|k: int|
        0 <= k <= items.len() ==> i64::MIN <= #[trigger] tokens_of(items.take(k)) <= i64::MAX
}

fn tokens_in<D>(item: &ResponseItem<D>) -> (tokens: i64)
    ensures
        tokens == item_tokens(*item),
{
    match stored_response(item) {
        Ok(response) => response.usage.total_tokens,
        Err(_) => 0,
    }
}

/// Whether the total of `items` can be added up.
pub fn can_total_tokens<D>(items: &Vec<ResponseItem<D>>) -> (fits: bool)
    ensures
        fits == tokens_fit(items@),
        fits <==> forall|k: int|
            0 <= k <= items@.len() ==> i64::MIN <= #[trigger] tokens_of(items@.take(k))
                <= i64::MAX,
{
    let mut total: i64 = 0;
    let mut i: usize = 0;
    proof {
        assert(items@.take(0) =~= Seq::empty());
    }
    while i < items.len()
        invariant
            i <= items@.len(),
            total == tokens_of(items@.take(i as int)),
            forall|k: int|
                0 <= k <= i ==> i64::MIN <= #[trigger] tokens_of(items@.take(k)) <= i64::MAX,
        decreases items@.len() - i,
    {
        proof {
            assert(items@.take(i + 1).drop_last() =~= items@.take(i as int));
        }
        match total.checked_add(tokens_in(&items[i])) {
            Some(sum) => {
                total = sum;
            },
            None => {
                assert(!(i64::MIN <= tokens_of(items@.take(i + 1)) <= i64::MAX));
                return false;
            },
        }
        i = i + 1;
    }
    true
}

/// Adds up the tokens of the responses in `items`.
pub fn total_tokens<D>(items: &Vec<ResponseItem<D>>) -> (total: i64)
    requires
        tokens_fit(items@),
    ensures
        total == tokens_of(items@),
{
    let mut total: i64 = 0;
    let mut i: usize = 0;
    proof {
        assert(items@.take(0) =~= Seq::empty());
    }
    while i < items.len()
        invariant
            i <= items@.len(),
            tokens_fit(items@),
            total == tokens_of(items@.take(i as int)),
        decreases items@.len() - i,
    {
        proof {
            assert(items@.take(i + 1).drop_last() =~= items@.take(i as int));
            assert(i64::MIN <= tokens_of(items@.take(i + 1)) <= i64::MAX);
        }
        total = total + tokens_in(&items[i]);
        i = i + 1;
    }
    proof {
        assert(items@.take(i as int) =~= items@);
    }
    total
}

/// No items cost nothing, and an item costs what its response says that it has
/// cost, or nothing where it holds no response, one that is not a map, or a map
/// that does not read as a response.
pub proof fn law_item_costs_what_its_response_says<D>(item: ResponseItem<D>)
    ensures
        tokens_of(Seq::<ResponseItem<D>>::empty()) == 0,
        tokens_of(seq![item]) == (if item@.dom().contains("raw_response"@) {
            match item@["raw_response"@] {
                AttributeValue::M(Ok(response)) => response.usage.total_tokens as int,
                _ => 0,
            }
        } else {
            0
        }),
{
    reveal_with_fuel(tokens_of, 2);
    assert(seq![item].drop_last() =~= Seq::empty());
    assert(item_model(item).dom().contains("raw_response"@) == item@.dom().contains(
        "raw_response"@,
    ));
    if item@.dom().contains("raw_response"@) {
        assert(item_model(item)["raw_response"@] == item@["raw_response"@]@);
    }
}

/// The total of two lists is the sum of their totals.
pub proof fn law_totals_add_up<D>(a: Seq<ResponseItem<D>>, b: Seq<ResponseItem<D>>)
    ensures
        tokens_of(a + b) == tokens_of(a) + tokens_of(b),
    decreases b.len(),
{
    if b.len() == 0 {
        assert(a + b =~= a);
    } else {
        assert((a + b).drop_last() =~= a + b.drop_last());
        law_totals_add_up(a, b.drop_last());
    }
}

/// An item without a readable response leaves the total as it is.
pub proof fn law_unreadable_items_count_for_nothing<D>(
    items: Seq<ResponseItem<D>>,
    item: ResponseItem<D>,
)
    requires
        response_of(item_model(item)) is Err,
    ensures
        tokens_of(items.push(item)) == tokens_of(items),
{
    assert(items.push(item).drop_last() =~= items);
}

/// A question to the table: all items of one user.
pub struct StatsQuery {
    pub table_name: String,
    pub index_name: String,
    /// The condition, over the two placeholders below.
    pub condition: String,
    /// A placeholder and the attribute that it stands for.
    pub attribute: (String, String),
    /// A placeholder and the text that it stands for.
    pub value: (String, String),
}

/// Whether `query` asks an index of a table for the items of a user.
pub open spec fn asks_for(
    query: StatsQuery,
    table_name: Seq<char>,
    index_name: Seq<char>,
    user: u64,
) -> bool {
    &&& query.table_name@ == table_name
    &&& query.index_name@ == index_name
    &&& query.condition@ == "#user = :user_id"@
    &&& query.attribute.0@ == "#user"@
    &&& query.attribute.1@ == USER_SNOWFLAKE_KEY@
    &&& query.value.0@ == ":user_id"@
    &&& query.value.1@ == decimal(user as nat)
}

/// The question is put to the index of the table, for the items whose user has
/// the number of the user as it is written.
pub proof fn law_query_names_the_user(
    query: StatsQuery,
    table_name: Seq<char>,
    index_name: Seq<char>,
    user: u64,
)
    requires
        asks_for(query, table_name, index_name, user),
    ensures
        query.table_name@ == table_name,
        query.index_name@ == index_name,
        query.condition@ == "#user = :user_id"@,
        query.attribute.0@ == "#user"@,
        query.attribute.1@ == "discord_id"@,
        query.value.0@ == ":user_id"@,
        is_numeral(query.value.1@, user as int),
{
    law_decimal_reads_back(user as nat);
}

/// Makes the question for all items of a user.
pub fn stats_query(config: &BotConfig, user: u64) -> (query: StatsQuery)
    ensures
        asks_for(
            query,
            config.interaction_table_name@,
            config.interaction_table_user_index_name@,
            user,
        ),
        query.attribute.1@ == "discord_id"@,
        is_numeral(query.value.1@, user as int),
{
    StatsQuery {
        table_name: config.interaction_table_name.clone(),
        index_name: config.interaction_table_user_index_name.clone(),
        condition: "#user = :user_id".to_owned(),
        attribute: ("#user".to_owned(), USER_SNOWFLAKE_KEY.to_owned()),
        value: (":user_id".to_owned(), decimal_text(user)),
    }
}

/// `twilight_util`'s `ImageSourceUrlError`, which says that a URL was not taken;
/// nothing is claimed of it.
#[verifier::external_type_specification]
#[verifier::external_body]
pub struct ExImageSourceUrlError(ImageSourceUrlError);

/// `twilight_util`'s `ImageSource::url`: takes a URL exactly where it begins
/// with `https:` or `http:`.
#[verifier::external_body]
fn check_image_url(url: &str) -> (taken: Result<(), ImageSourceUrlError>)
    ensures
        taken is Ok <==> "https:"@.is_prefix_of(url@) || "http:"@.is_prefix_of(url@),
{
    ImageSource::url(url).map(|_| ())
}

/// A hexadecimal digit in lower case.
pub open spec fn hex_digit(n: int) -> char {
    if n < 10 {
        (48 + n) as char
    } else {
        (87 + n) as char
    }
}

/// The packed bytes that stand for the picture called `clyde`.
pub open spec fn clyde_bytes() -> Seq<u8> {
    seq![99, 108, 121, 100, 101, 0, 0, 0, 0, 0, 0, 0, 0, 0, 0, 0]
}

/// The text of a picture's hash: its bytes from the last to the first in
/// hexadecimal, behind `a_` where the picture is animated.
pub open spec fn hash_text(bytes: Seq<u8>, animated: bool) -> Seq<char> {
    let digits = Seq::new(
        32,
        |i: int|
            hex_digit(
                if i % 2 == 0 {
                    bytes[(31 - i) / 2] as int / 16
                } else {
                    bytes[(31 - i) / 2] as int % 16
                },
            ),
    );
    if animated && bytes == clyde_bytes() {
        "clyde"@
    } else if animated {
        "a_"@ + digits
    } else {
        digits
    }
}

/// The number that a hexadecimal digit in lower case stands for.
pub open spec fn hex_value(c: char) -> int {
    if '0' <= c && c <= '9' {
        c as int - '0' as int
    } else {
        c as int - 'a' as int + 10
    }
}

/// The text of a picture's hash can be read back: behind `a_`, where the picture
/// is animated, each byte from the last to the first is two hexadecimal digits.
/// The one exception is the animated picture whose bytes begin with the name
/// that stands for it and hold nothing else.
pub proof fn law_hash_text_reads_back(bytes: Seq<u8>, animated: bool)
    requires
        bytes.len() == 16,
        !(animated && bytes == seq![99u8, 108, 121, 100, 101, 0, 0, 0, 0, 0, 0, 0, 0, 0, 0, 0]),
    ensures
        hash_text(bytes, animated).len() == (if animated {
            34
        } else {
            32int
        }),
        animated ==> hash_text(bytes, animated)[0] == 'a' && hash_text(bytes, animated)[1] == '_',
        forall|i: int|
            0 <= i < 16 ==> {
                let at = 2 * i + (if animated {
                    2int
                } else {
                    0
                });
                16 * hex_value(hash_text(bytes, animated)[at]) + hex_value(
                    hash_text(bytes, animated)[at + 1],
                ) == #[trigger] bytes[15 - i]
            },
{
    reveal_strlit("a_");
    let start: int = if animated {
        2
    } else {
        0
    };
    let text = hash_text(bytes, animated);
    assert forall|i: int| 0 <= i < 16 implies 16 * hex_value(text[2 * i + start]) + hex_value(
        text[2 * i + start + 1],
    ) == #[trigger] bytes[15 - i] by {
        let b = bytes[15 - i] as int;
        assert((31 - 2 * i) / 2 == 15 - i);
        assert((31 - (2 * i + 1)) / 2 == 15 - i);
        assert((2 * i) % 2 == 0 && (2 * i + 1) % 2 == 1);
        assert(text[2 * i + start] == hex_digit(b / 16));
        assert(text[2 * i + start + 1] == hex_digit(b % 16));
        assert(hex_value(hex_digit(b / 16)) == b / 16);
        assert(hex_value(hex_digit(b % 16)) == b % 16);
    }
}

/// `twilight_model`'s `ImageHash::new` and the way it is displayed: the text of
/// a picture's hash.
#[verifier::external_body]
fn image_hash_text(bytes: [u8; 16], animated: bool) -> (text: String)
    ensures
        text@ == hash_text(bytes@, animated),
{
    ImageHash::new(bytes, animated).to_string()
}

/// Where the picture of a user is found.
pub open spec fn avatar_url(user: u64, avatar: Avatar) -> Seq<char> {
    "https://cdn.discordapp.com/avatars/"@ + decimal(user as nat) + "/"@ + hash_text(
        avatar.bytes@,
        avatar.animated,
    ) + ".png"@
}

/// A line of an embed.
pub struct EmbedField {
    pub name: String,
    pub value: String,
    /// Whether the line may stand beside others.
    pub inline: bool,
}

/// The statistics of a user as they are shown.
pub struct StatsEmbed {
    pub color: u32,
    /// The URL of a picture.
    pub thumbnail: Option<String>,
    pub fields: Vec<EmbedField>,
}

/// Whether `embed` shows the statistics of `user`.
pub open spec fn shows_stats(
    embed: StatsEmbed,
    user: User,
    price: Seq<char>,
    tokens: Seq<char>,
) -> bool {
    &&& embed.color == match user.accent_color {
        Some(color) => color,
        None => DEFAULT_COLOR,
    }
    &&& match user.avatar {
        Some(avatar) => embed.thumbnail matches Some(url) && url@ == avatar_url(user.id, avatar),
        None => embed.thumbnail is None,
    }
    &&& embed.fields@.len() == 3
    &&& forall|i: int| 0 <= i < 3 ==> !(#[trigger] embed.fields@[i]).inline
    &&& embed.fields@[0].name@ == "User"@
    &&& embed.fields@[0].value@ == user.name@ + "#"@ + decimal(user.discriminator as nat)
    &&& embed.fields@[1].name@ == "Price"@
    &&& embed.fields@[1].value@ == price
    &&& embed.fields@[2].name@ == "Total Tokens"@
    &&& embed.fields@[2].value@ == tokens
}

/// Whether `text` begins with `head`, goes on with the number `n` as it is
/// written, and ends with `tail`.
pub open spec fn is_around_numeral(
    text: Seq<char>,
    head: Seq<char>,
    n: int,
    tail: Seq<char>,
) -> bool {
    exists|numeral: Seq<char>| #[trigger]
        is_numeral(numeral, n) && text == head + numeral + tail
}

/// Whether `embed` is that of `user`: in their colour, or else a fixed one; with
/// their picture, if they have one, found under their whole number; and with
/// their name and discriminator.
pub open spec fn shows_user(embed: StatsEmbed, user: User) -> bool {
    &&& user.accent_color matches Some(color) ==> embed.color == color
    &&& user.accent_color is None ==> embed.color == 10830402
    &&& embed.thumbnail is Some <==> user.avatar is Some
    &&& user.avatar matches Some(avatar) ==> is_around_numeral(
        embed.thumbnail->0@,
        "https://cdn.discordapp.com/avatars/"@,
        user.id as int,
        "/"@ + hash_text(avatar.bytes@, avatar.animated) + ".png"@,
    )
    &&& embed.fields@.len() == 3
    &&& embed.fields@[0].name@ == "User"@
    &&& is_around_numeral(
        embed.fields@[0].value@,
        user.name@ + "#"@,
        user.discriminator as int,
        Seq::empty(),
    )
    &&& embed.fields@[1].name@ == "Price"@
    &&& embed.fields@[2].name@ == "Total Tokens"@
    &&& forall|i: int| 0 <= i < 3 ==> !(#[trigger] embed.fields@[i]).inline
}

/// The statistics that are shown are those of the user: their colour, their
/// picture under their whole number, and their name; and they hold the price and
/// the tokens as they are.
pub proof fn law_embed_shows_the_user(
    embed: StatsEmbed,
    user: User,
    price: Seq<char>,
    tokens: Seq<char>,
)
    requires
        shows_stats(embed, user, price, tokens),
    ensures
        shows_user(embed, user),
        embed.fields@[1].value@ == price,
        embed.fields@[2].value@ == tokens,
{
    law_decimal_reads_back(user.id as nat);
    law_decimal_reads_back(user.discriminator as nat);
    let id = decimal(user.id as nat);
    if let Some(avatar) = user.avatar {
        let tail = "/"@ + hash_text(avatar.bytes@, avatar.animated) + ".png"@;
        assert(is_numeral(id, user.id as int));
        assert(embed.thumbnail->0@ =~= "https://cdn.discordapp.com/avatars/"@ + id + tail);
    }
    let number = decimal(user.discriminator as nat);
    assert(is_numeral(number, user.discriminator as int));
    assert(embed.fields@[0].value@ =~= user.name@ + "#"@ + number + Seq::<char>::empty());
}

/// Two users with the same picture have it under different addresses.
pub proof fn law_pictures_of_users_differ(
    a: StatsEmbed,
    first: User,
    b: StatsEmbed,
    second: User,
)
    requires
        shows_user(a, first),
        shows_user(b, second),
        first.avatar is Some,
        second.avatar is Some,
        first.avatar->0.bytes@ == second.avatar->0.bytes@,
        first.avatar->0.animated == second.avatar->0.animated,
        a.thumbnail->0@ == b.thumbnail->0@,
    ensures
        first.id == second.id,
{
    let avatar = first.avatar->0;
    let head = "https://cdn.discordapp.com/avatars/"@;
    let tail = "/"@ + hash_text(avatar.bytes@, avatar.animated) + ".png"@;
    let url = a.thumbnail->0@;
    assert(is_around_numeral(url, head, first.id as int, tail));
    assert(is_around_numeral(url, head, second.id as int, tail));
    let x = choose|x: Seq<char>| #[trigger]
        is_numeral(x, first.id as int) && url == head + x + tail;
    let y = choose|y: Seq<char>| #[trigger]
        is_numeral(y, second.id as int) && url == head + y + tail;
    assert(url.len() == (head + x + tail).len());
    assert(url.len() == (head + y + tail).len());
    assert(x.len() == y.len());
    assert(x =~= url.subrange(head.len() as int, (head.len() + x.len()) as int));
    assert(y =~= url.subrange(head.len() as int, (head.len() + y.len()) as int));
    assert(reading(x) == reading(y));
}

/// Makes the embed that shows the statistics of `user`: the price and the
/// number of tokens, as they are to be written. The URL of a picture is always
/// one that can be shown.
pub fn stats_embed<E>(user: &User, price: String, tokens: String) -> (embed: Result<
    StatsEmbed,
    StatsError<E>,
>)
    ensures
        embed matches Ok(e) && shows_stats(e, *user, price@, tokens@),
        embed matches Ok(e) && shows_user(e, *user) && e.fields@[1].value@ == price@
            && e.fields@[2].value@ == tokens@,
{
    let color: u32 = match user.accent_color {
        Some(color) => color,
        None => DEFAULT_COLOR,
    };
    let thumbnail = match &user.avatar {
        Some(avatar) => {
            let hash = image_hash_text(avatar.bytes, avatar.animated);
            let url = "https://cdn.discordapp.com/avatars/".to_owned().concat(
                decimal_text(user.id).as_str(),
            ).concat("/").concat(hash.as_str()).concat(".png");
            proof {
                reveal_strlit("https:");
                reveal_strlit("https://cdn.discordapp.com/avatars/");
                assert("https:"@.is_prefix_of(url@));
            }
            if check_image_url(url.as_str()).is_err() {
                return Err(StatsError::ImageUrl);
            }
            Some(url)
        },
        None => None,
    };
    let mut fields: Vec<EmbedField> = Vec::new();
    fields.push(
        EmbedField {
            name: "User".to_owned(),
            value: user.name.clone().concat("#").concat(
                decimal_text(user.discriminator as u64).as_str(),
            ),
            inline: false,
        },
    );
    fields.push(EmbedField { name: "Price".to_owned(), value: price, inline: false });
    fields.push(EmbedField { name: "Total Tokens".to_owned(), value: tokens, inline: false });
    let embed = StatsEmbed { color, thumbnail, fields };
    proof {
        law_embed_shows_the_user(embed, *user, price@, tokens@);
    }
    Ok(embed)
}

/// The user whose statistics are asked for: the one that was named, else the
/// one who asks. There must be one who asks in either case.
pub open spec fn subject_of<E>(requested: Option<User>, author: Option<User>) -> Result<
    User,
    StatsError<E>,
> {
    match (requested, author) {
        (_, None) => Err(StatsError::NoAuthor),
        (Some(user), Some(_)) => Ok(user),
        (None, Some(user)) => Ok(user),
    }
}

/// Picks the user whose statistics are asked for.
pub fn stats_subject<E>(requested: Option<User>, author: Option<User>) -> (user: Result<
    User,
    StatsError<E>,
>)
    ensures
        user == subject_of::<E>(requested, author),
        author is None ==> user == Err::<User, _>(StatsError::<E>::NoAuthor),
        author is Some && requested is Some ==> user == Ok::<_, StatsError<E>>(requested->0),
        author is Some && requested is None ==> user == Ok::<_, StatsError<E>>(author->0),
{
    match author {
        None => Err(StatsError::NoAuthor),
        Some(author) => match requested {
            Some(user) => Ok(user),
            None => Ok(author),
        },
    }
}

/// A page of the answer to a [`StatsQuery`].
pub enum PageReply<D> {
    /// The items of the page, if there are any.
    Page(Option<Vec<ResponseItem<D>>>),
    /// The page could not be read.
    Failed,
    /// There is no further page.
    End,
}

/// How far the command has come.
pub enum StatsState<D> {
    /// Discord is being told that the reply will take a while.
    Deferring { requested: Option<User>, author: Option<User> },
    /// The items of `user` are being read; these have been.
    Paging { user: User, items: Vec<ResponseItem<D>> },
    /// The price is being worked out.
    Pricing { user: User },
    /// The statistics are being sent.
    Replying,
    /// The command is over.
    Done,
}

/// What to do next.
pub enum StatsAction {
    /// Tell Discord that the reply will take a while, and whether it is for
    /// the eyes of the one who asks alone.
    Defer { ephemeral: bool },
    /// Ask the table, and read the first page of the answer.
    Query(StatsQuery),
    /// Read the next page of the answer.
    NextPage,
    /// Work out the price of so many tokens.
    Price { total_tokens: i64 },
    /// Put the statistics in their place.
    Reply(StatsEmbed),
    /// Nothing is left to do.
    Finish,
}

/// What came of an action.
pub enum StatsEvent<D, E> {
    Deferred(Result<(), E>),
    Paged(PageReply<D>),
    /// The price and the number of tokens, as they are to be written.
    Priced { price: String, tokens: String },
    Replied(Result<(), E>),
}

/// Why the command failed.
pub enum StatsError<E> {
    /// An action failed.
    Outside(E),
    /// Nobody asks.
    NoAuthor,
    /// The picture of the user cannot be shown.
    ImageUrl,
}

impl<E> StatsError<E> {
    /// The text of the bot's own refusals.
    pub fn message(&self) -> (text: Option<&'static str>)
        ensures
            match *self {
                StatsError::NoAuthor => text matches Some(t) && t@ == "must have author"@,
                StatsError::ImageUrl => text matches Some(t) && t@
                    == "the provided URL's protocol is unsupported by Discord"@,
                StatsError::Outside(_) => text is None,
            },
    {
        match self {
            StatsError::NoAuthor => Some("must have author"),
            StatsError::ImageUrl => Some("the provided URL's protocol is unsupported by Discord"),
            StatsError::Outside(_) => None,
        }
    }
}

/// What follows from an event.
pub type StatsNext<D, E> = Result<(StatsState<D>, StatsAction), StatsError<E>>;

impl<D> StatsState<D> {
    /// Whether the state waits for an event of this sort.
    pub open spec fn expects<E>(self, event: StatsEvent<D, E>) -> bool {
        match self {
            StatsState::Deferring { .. } => event is Deferred,
            StatsState::Paging { .. } => event is Paged,
            StatsState::Pricing { .. } => event is Priced,
            StatsState::Replying => event is Replied,
            StatsState::Done => false,
        }
    }

    /// Whether the total of what has been read can be added up.
    pub open spec fn total_fits(self) -> bool {
        self matches StatsState::Paging { user, items } ==> tokens_fit(items@)
    }

    /// Whether the total can be added up where `event` calls for it.
    pub open spec fn admits<E>(self, event: StatsEvent<D, E>) -> bool {
        event matches StatsEvent::Paged(reply) ==> reply is Page || self.total_fits()
    }

    /// Whether `next` is what follows from `event` in this state, where the
    /// table and its index have these names.
    pub open spec fn follows<E>(
        self,
        table_name: Seq<char>,
        index_name: Seq<char>,
        event: StatsEvent<D, E>,
        next: StatsNext<D, E>,
    ) -> bool {
        match (self, event) {
            (StatsState::Deferring { requested, author }, StatsEvent::Deferred(Ok(_))) => match subject_of::<
                E,
            >(requested, author) {
                Ok(user) => next matches Ok((
                    StatsState::Paging { user: subject, items },
                    StatsAction::Query(query),
                )) && subject == user && items@.len() == 0 && asks_for(
                    query,
                    table_name,
                    index_name,
                    user.id,
                ),
                Err(e) => next == Err::<(StatsState<D>, StatsAction), _>(e),
            },
            (
                StatsState::Paging { user, items },
                StatsEvent::Paged(PageReply::Page(page)),
            ) => next matches Ok((
                StatsState::Paging { user: subject, items: all },
                StatsAction::NextPage,
            )) && subject == user && all@ == items@ + (match page {
                Some(more) => more@,
                None => Seq::empty(),
            }),
            (StatsState::Paging { user, items }, StatsEvent::Paged(_)) => next matches Ok((
                StatsState::Pricing { user: subject },
                StatsAction::Price { total_tokens },
            )) && subject == user && total_tokens == tokens_of(items@),
            (StatsState::Pricing { user }, StatsEvent::Priced { price, tokens }) => next matches Ok((
                StatsState::Replying,
                StatsAction::Reply(embed),
            )) && shows_stats(embed, user, price@, tokens@),
            (StatsState::Replying, StatsEvent::Replied(Ok(_))) => next == Ok::<_, StatsError<E>>(
                (StatsState::<D>::Done, StatsAction::Finish),
            ),
            (_, StatsEvent::Deferred(Err(e))) => next == Err::<(StatsState<D>, StatsAction), _>(
                StatsError::Outside(e),
            ),
            (_, StatsEvent::Replied(Err(e))) => next == Err::<(StatsState<D>, StatsAction), _>(
                StatsError::Outside(e),
            ),
            _ => true,
        }
    }

    /// The statistics are those of the user who was named, whoever asks, and those
    /// of the one who asks where nobody was named; they are never given where
    /// nobody asks. The items that are asked for are those of that user, and none
    /// have been read yet.
    pub proof fn law_statistics_are_of_the_named_user<E>(
        requested: Option<User>,
        author: Option<User>,
        table_name: Seq<char>,
        index_name: Seq<char>,
        next: StatsNext<D, E>,
    )
        requires
            (StatsState::<D>::Deferring { requested, author }).follows(
                table_name,
                index_name,
                StatsEvent::<D, E>::Deferred(Ok(())),
                next,
            ),
        ensures
            author is None ==> next == Err::<(StatsState<D>, StatsAction), _>(
                StatsError::<E>::NoAuthor,
            ),
            author is Some ==> {
                &&& next matches Ok((StatsState::Paging { user, items }, action))
                &&& requested is Some ==> user == requested->0
                &&& requested is None ==> user == author->0
                &&& items@.len() == 0
                &&& action matches StatsAction::Query(query)
                &&& query.table_name@ == table_name
                &&& query.index_name@ == index_name
                &&& query.condition@ == "#user = :user_id"@
                &&& query.attribute.0@ == "#user"@
                &&& query.attribute.1@ == "discord_id"@
                &&& query.value.0@ == ":user_id"@
                &&& is_numeral(query.value.1@, user.id as int)
            },
    {
        if let Ok((StatsState::Paging { user, items }, StatsAction::Query(query))) = next {
            law_query_names_the_user(query, table_name, index_name, user.id);
        }
    }

    /// A page adds its items behind those that were read, all of them and in their
    /// order, and changes nothing else; then the next is read.
    pub proof fn law_page_adds_its_items<E>(
        user: User,
        items: Vec<ResponseItem<D>>,
        page: Option<Vec<ResponseItem<D>>>,
        table_name: Seq<char>,
        index_name: Seq<char>,
        next: StatsNext<D, E>,
    )
        requires
            (StatsState::Paging { user, items }).follows(
                table_name,
                index_name,
                StatsEvent::<D, E>::Paged(PageReply::Page(page)),
                next,
            ),
        ensures
            next matches Ok((StatsState::Paging { user: subject, items: all }, action)) && action
                is NextPage && subject == user && (page matches Some(more) ==> all@ == items@
                + more@) && (page is None ==> all@ == items@),
    {
        assert(items@ + Seq::<ResponseItem<D>>::empty() =~= items@);
    }

    /// Where the pages end, or one cannot be read, the price is asked for the sum
    /// of what the items cost that were read; the statistics that are then shown
    /// are those of the same user.
    pub proof fn law_end_of_pages_asks_for_the_price<E>(
        user: User,
        items: Vec<ResponseItem<D>>,
        reply: PageReply<D>,
        price: String,
        tokens: String,
        table_name: Seq<char>,
        index_name: Seq<char>,
        next: StatsNext<D, E>,
        last: StatsNext<D, E>,
    )
        requires
            !(reply is Page),
            (StatsState::Paging { user, items }).follows(
                table_name,
                index_name,
                StatsEvent::<D, E>::Paged(reply),
                next,
            ),
            (StatsState::<D>::Pricing { user }).follows(
                table_name,
                index_name,
                StatsEvent::<D, E>::Priced { price, tokens },
                last,
            ),
        ensures
            next matches Ok((StatsState::Pricing { user: subject }, action)) && subject == user && (
            action matches StatsAction::Price { total_tokens } && total_tokens == tokens_of(
                items@,
            )),
            last matches Ok((StatsState::Replying, action)) && (action matches StatsAction::Reply(
                embed,
            ) && shows_user(embed, user) && embed.fields@[1].value@ == price@
                && embed.fields@[2].value@ == tokens@),
    {
        if let Ok((_, StatsAction::Reply(embed))) = last {
            law_embed_shows_the_user(embed, user, price@, tokens@);
        }
    }

    /// Whatever comes of the action that a state waits for is taken; only where a
    /// total is called for must the sums of the tokens, one item after the other,
    /// stay within 64 bits.
    pub proof fn law_every_outcome_is_taken<E>(self, event: StatsEvent<D, E>)
        ensures
            self.expects(event) <==> ((self is Deferring && event is Deferred) || (self is Paging
                && event is Paged) || (self is Pricing && event is Priced) || (self is Replying
                && event is Replied)),
            !(event is Paged) ==> self.admits(event),
            event matches StatsEvent::Paged(PageReply::Page(_)) ==> self.admits(event),
            self matches StatsState::Paging { user, items } ==> ((forall|k: int|
                0 <= k <= items@.len() ==> i64::MIN <= #[trigger] tokens_of(items@.take(k))
                    <= i64::MAX) ==> self.admits(event)),
    {
    }

    /// An action that fails ends the command with its own failure; but for that,
    /// and where nobody asks, the command goes on, and it is over once the
    /// statistics were sent.
    pub proof fn law_only_failures_end_the_command<E>(
        self,
        table_name: Seq<char>,
        index_name: Seq<char>,
        event: StatsEvent<D, E>,
        next: StatsNext<D, E>,
    )
        requires
            self.expects(event),
            self.follows(table_name, index_name, event, next),
        ensures
            match event {
                StatsEvent::Deferred(Err(e)) => next == Err::<(StatsState<D>, StatsAction), _>(
                    StatsError::Outside(e),
                ),
                StatsEvent::Deferred(Ok(_)) => next matches Err(error) ==> error == StatsError::<
                    E,
                >::NoAuthor,
                StatsEvent::Replied(Err(e)) => next == Err::<(StatsState<D>, StatsAction), _>(
                    StatsError::Outside(e),
                ),
                StatsEvent::Replied(Ok(_)) => next == Ok::<_, StatsError<E>>(
                    (StatsState::<D>::Done, StatsAction::Finish),
                ),
                _ => next is Ok,
            },
    {
    }

    /// Starts the command: `author` asks for the statistics of `requested`, or
    /// for their own. The reply will be for all to see.
    pub fn start(requested: Option<User>, author: Option<User>) -> (first: (
        StatsState<D>,
        StatsAction,
    ))
        ensures
            first == (
                StatsState::<D>::Deferring { requested, author },
                StatsAction::Defer { ephemeral: false },
            ),
    {
        (StatsState::Deferring { requested, author }, StatsAction::Defer { ephemeral: false })
    }

    /// Whether the total of what has been read can be added up.
    pub fn can_total(&self) -> (fits: bool)
        ensures
            fits == self.total_fits(),
            *self matches StatsState::Paging { user, items } ==> (fits <==> forall|k: int|
                0 <= k <= items@.len() ==> i64::MIN <= #[trigger] tokens_of(items@.take(k))
                    <= i64::MAX),
            !(*self is Paging) ==> fits,
    {
        match self {
            StatsState::Paging { user: _, items } => can_total_tokens(items),
            _ => true,
        }
    }

    /// Goes on after an action.
    pub fn resume<E>(self, config: &BotConfig, event: StatsEvent<D, E>) -> (next: StatsNext<D, E>)
        requires
            self.expects(event),
            self.admits(event),
        ensures
            self.follows(
                config.interaction_table_name@,
                config.interaction_table_user_index_name@,
                event,
                next,
            ),
    {
        match (self, event) {
            (StatsState::Deferring { requested, author }, StatsEvent::Deferred(outcome)) => match outcome {
                Ok(_) => match stats_subject(requested, author) {
                    Ok(user) => {
                        let query = stats_query(config, user.id);
                        Ok(
                            (
                                StatsState::Paging { user, items: Vec::new() },
                                StatsAction::Query(query),
                            ),
                        )
                    },
                    Err(e) => Err(e),
                },
                Err(e) => Err(StatsError::Outside(e)),
            },
            (StatsState::Paging { user, items }, StatsEvent::Paged(reply)) => match reply {
                PageReply::Page(page) => {
                    let mut items = items;
                    if let Some(more) = page {
                        let mut more = more;
                        items.append(&mut more);
                    }
                    Ok((StatsState::Paging { user, items }, StatsAction::NextPage))
                },
                _ => {
                    let total: i64 = total_tokens(&items);
                    Ok((StatsState::Pricing { user }, StatsAction::Price { total_tokens: total }))
                },
            },
            (StatsState::Pricing { user }, StatsEvent::Priced { price, tokens }) => match stats_embed(
                &user,
                price,
                tokens,
            ) {
                Ok(embed) => Ok((StatsState::Replying, StatsAction::Reply(embed))),
                Err(e) => Err(e),
            },
            (StatsState::Replying, StatsEvent::Replied(outcome)) => match outcome {
                Ok(_) => Ok((StatsState::Done, StatsAction::Finish)),
                Err(e) => Err(StatsError::Outside(e)),
            },
            _ => vstd::pervasive::unreached(),
        }
    }
}

} // verus!
