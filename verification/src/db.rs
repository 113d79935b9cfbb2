//! The table of interactions: what is written for each, and how it is read.

use crate::fields::Fields;
use crate::text::{decimal, decimal_text, is_numeral, law_decimal_reads_back};
use vstd::prelude::*;

verus! {

/// The attribute that identifies an interaction.
pub const HASH_KEY: &'static str = "hash";

/// The attribute that holds the prompt and the answer.
pub const INTERACTION_VALUE_KEY: &'static str = "interaction_value";

/// The attribute that holds the id of the user who asked.
pub const USER_SNOWFLAKE_KEY: &'static str = "discord_id";

/// The attribute that holds the whole response of the language model.
pub const RAW_RESPONSE_KEY: &'static str = "raw_response";

/// The value of an attribute: a text, a map, or something else. `M` is what
/// stands for a map: on the way in its encoding, on the way out what it was
/// read as.
pub enum AttributeValue<M> {
    S(String),
    M(M),
    Other,
}

/// [`AttributeValue`] with its text as a sequence of characters.
pub enum AttributeModel<M> {
    S(Seq<char>),
    M(M),
    Other,
}

impl<M> View for AttributeValue<M> {
    type V = AttributeModel<M>;

    open spec fn view(&self) -> AttributeModel<M> {
        match *self {
            AttributeValue::S(text) => AttributeModel::S(text@),
            AttributeValue::M(map) => AttributeModel::M(map),
            AttributeValue::Other => AttributeModel::Other,
        }
    }
}

/// The attributes of one item of the table.
pub type Item<M> = Fields<AttributeValue<M>>;

/// The attributes of an item, by name.
pub open spec fn item_model<M>(item: Item<M>) -> Map<Seq<char>, AttributeModel<M>> {
    item@.map_values(|value: AttributeValue<M>| value@)
}

/// Why no item could be made of an interaction.
pub enum RecordError<E> {
    /// A part of the interaction could not be encoded.
    Encode(E),
    /// The user who asked is not known.
    NoUserId,
}

/// The item that is kept of an interaction.
pub open spec fn record_model<M>(id: Seq<char>, interaction: M, author: u64, raw: M) -> Map<
    Seq<char>,
    AttributeModel<M>,
> {
    Map::<Seq<char>, AttributeModel<M>>::empty().insert(HASH_KEY@, AttributeModel::S(id)).insert(
        INTERACTION_VALUE_KEY@,
        AttributeModel::M(interaction),
    ).insert(USER_SNOWFLAKE_KEY@, AttributeModel::S(decimal(author as nat))).insert(
        RAW_RESPONSE_KEY@,
        AttributeModel::M(raw),
    )
}

/// Whether an item holds these parts of an interaction, each whole and under its
/// own name, with the user by their number, and holds nothing else.
pub open spec fn holds_record<M>(
    item: Map<Seq<char>, AttributeValue<M>>,
    id: Seq<char>,
    interaction: M,
    author: u64,
    raw: M,
) -> bool {
    &&& forall|key: Seq<char>| #[trigger]
        item.dom().contains(key) <==> (key == "hash"@ || key == "interaction_value"@ || key
            == "discord_id"@ || key == "raw_response"@)
    &&& item["hash"@] matches AttributeValue::S(text) && text@ == id
    &&& item["interaction_value"@] == AttributeValue::M(interaction)
    &&& item["discord_id"@] matches AttributeValue::S(text) && is_numeral(text@, author as int)
    &&& item["raw_response"@] == AttributeValue::M(raw)
}

/// The item that is kept of an interaction holds its parts, and the number of the
/// user who asked can be read off it.
pub proof fn law_record_holds_its_parts<M>(
    item: Item<M>,
    id: Seq<char>,
    interaction: M,
    author: u64,
    raw: M,
)
    requires
        item_model(item) == record_model(id, interaction, author, raw),
    ensures
        holds_record(item@, id, interaction, author, raw),
{
    lemma_keys_differ();
    law_decimal_reads_back(author as nat);
    assert forall|key: Seq<char>| #[trigger] item@.dom().contains(key) <==> (key == "hash"@ || key
        == "interaction_value"@ || key == "discord_id"@ || key == "raw_response"@) by {
        assert(item_model(item).dom().contains(key) == item@.dom().contains(key));
    }
    assert(item_model(item)["hash"@] == item@["hash"@]@);
    assert(item_model(item)["interaction_value"@] == item@["interaction_value"@]@);
    assert(item_model(item)["discord_id"@] == item@["discord_id"@]@);
    assert(item_model(item)["raw_response"@] == item@["raw_response"@]@);
}

/// Makes the item that is kept of an interaction out of its id, the encoding
/// of the [`crate::types::InteractionValue`], the user who asked and the
/// encoding of the whole response.
pub fn interaction_record<M, E>(
    id: String,
    interaction: Result<M, E>,
    author: Option<u64>,
    raw: Result<M, E>,
) -> (record: Result<Item<M>, RecordError<E>>)
    ensures
        match (interaction, author, raw) {
            (Err(e), _, _) => record == Err::<Item<M>, _>(RecordError::Encode(e)),
            (Ok(_), None, _) => record == Err::<Item<M>, _>(RecordError::<E>::NoUserId),
            (Ok(_), Some(_), Err(e)) => record == Err::<Item<M>, _>(RecordError::Encode(e)),
            (Ok(m), Some(a), Ok(r)) => record matches Ok(item) && item_model(item) == record_model(
                id@,
                m,
                a,
                r,
            ),
        },
        match (interaction, author, raw) {
            (Ok(m), Some(a), Ok(r)) => record matches Ok(item) && holds_record(
                item@,
                id@,
                m,
                a,
                r,
            ),
            _ => record is Err,
        },
{
    let interaction = match interaction {
        Ok(m) => m,
        Err(e) => {
            return Err(RecordError::Encode(e));
        },
    };
    let author: u64 = match author {
        Some(a) => a,
        None => {
            return Err(RecordError::NoUserId);
        },
    };
    let raw = match raw {
        Ok(m) => m,
        Err(e) => {
            return Err(RecordError::Encode(e));
        },
    };
    let item = Fields::new().with(HASH_KEY.to_owned(), AttributeValue::S(id)).with(
        INTERACTION_VALUE_KEY.to_owned(),
        AttributeValue::M(interaction),
    ).with(USER_SNOWFLAKE_KEY.to_owned(), AttributeValue::S(decimal_text(author))).with(
        RAW_RESPONSE_KEY.to_owned(),
        AttributeValue::M(raw),
    );
    proof {
        assert(item_model(item) =~= record_model(id@, interaction, author, raw));
        law_record_holds_its_parts(item, id@, interaction, author, raw);
    }
    Ok(item)
}

/// Why no interaction could be read from the table.
pub enum LookupError<E> {
    /// There is no item under the key.
    NoItem,
    /// The item has no interaction.
    NoKey,
    /// What stands for the interaction is not a map.
    NotAMap,
    /// The map does not read as an interaction.
    Decode(E),
}

impl<E> LookupError<E> {
    /// The text of the bot's own refusals.
    pub fn message(&self) -> (text: Option<&'static str>)
        ensures
            match *self {
                LookupError::NoItem => text matches Some(t) && t@ == "must find item in table"@,
                LookupError::NoKey => text matches Some(t) && t@ == "must have key"@,
                LookupError::NotAMap => text matches Some(t) && t@ == "must be a map"@,
                LookupError::Decode(_) => text is None,
            },
    {
        match self {
            LookupError::NoItem => Some("must find item in table"),
            LookupError::NoKey => Some("must have key"),
            LookupError::NotAMap => Some("must be a map"),
            LookupError::Decode(_) => None,
        }
    }
}

/// The interaction that an item holds.
pub open spec fn interaction_of<T, E>(
    item: Option<Map<Seq<char>, AttributeModel<Result<T, E>>>>,
) -> Result<T, LookupError<E>> {
    match item {
        None => Err(LookupError::NoItem),
        Some(fields) => if !fields.dom().contains(INTERACTION_VALUE_KEY@) {
            Err(LookupError::NoKey)
        } else {
            match fields[INTERACTION_VALUE_KEY@] {
                AttributeModel::M(Ok(value)) => Ok(value),
                AttributeModel::M(Err(e)) => Err(LookupError::Decode(e)),
                _ => Err(LookupError::NotAMap),
            }
        },
    }
}

/// Reads the interaction out of the item that the table gave for its key. A
/// map of the item stands for what it decodes to.
pub fn get_interaction_from_table<T, E>(item: Option<Item<Result<T, E>>>) -> (value: Result<
    T,
    LookupError<E>,
>)
    ensures
        value == interaction_of(
            match item {
                Some(i) => Some(item_model(i)),
                None => None,
            },
        ),
        item is None ==> value == Err::<T, _>(LookupError::<E>::NoItem),
        item matches Some(i) ==> {
            &&& value == Err::<T, _>(LookupError::<E>::NoKey) <==> !i@.dom().contains(
                "interaction_value"@,
            )
            &&& i@.dom().contains("interaction_value"@) ==> match i@["interaction_value"@] {
                AttributeValue::M(Ok(held)) => value == Ok::<_, LookupError<E>>(held),
                AttributeValue::M(Err(e)) => value == Err::<T, _>(LookupError::Decode(e)),
                AttributeValue::S(_) => value == Err::<T, _>(LookupError::<E>::NotAMap),
                AttributeValue::Other => value == Err::<T, _>(LookupError::<E>::NotAMap),
            }
        },
{
    match item {
        None => Err(LookupError::NoItem),
        Some(fields) => match fields.take(INTERACTION_VALUE_KEY) {
            None => Err(LookupError::NoKey),
            Some(AttributeValue::M(Ok(value))) => Ok(value),
            Some(AttributeValue::M(Err(e))) => Err(LookupError::Decode(e)),
            Some(_) => Err(LookupError::NotAMap),
        },
    }
}

/// Why an item counts for nothing in the statistics.
pub enum StoredResponseError {
    /// The item has no response, or one that is not a map.
    NonExistent,
    /// The map does not read as a response.
    Unreadable,
}

/// The response that an item holds.
pub open spec fn response_of<T, E>(fields: Map<Seq<char>, AttributeModel<Result<T, E>>>) -> Result<
    T,
    StoredResponseError,
> {
    if fields.dom().contains(RAW_RESPONSE_KEY@) {
        match fields[RAW_RESPONSE_KEY@] {
            AttributeModel::M(Ok(response)) => Ok(response),
            AttributeModel::M(Err(_)) => Err(StoredResponseError::Unreadable),
            _ => Err(StoredResponseError::NonExistent),
        }
    } else {
        Err(StoredResponseError::NonExistent)
    }
}

/// Reads the whole response out of an item.
pub fn stored_response<T, E>(item: &Item<Result<T, E>>) -> (response: Result<
    &T,
    StoredResponseError,
>)
    ensures
        match response_of(item_model(*item)) {
            Ok(r) => response matches Ok(s) && *s == r,
            Err(e) => response matches Err(f) && f == e,
        },
        !item@.dom().contains("raw_response"@) ==> response == Err::<&T, _>(
            StoredResponseError::NonExistent,
        ),
        item@.dom().contains("raw_response"@) ==> match item@["raw_response"@] {
            AttributeValue::M(Ok(held)) => response == Ok::<_, StoredResponseError>(&held),
            AttributeValue::M(Err(_)) => response == Err::<&T, _>(StoredResponseError::Unreadable),
            _ => response == Err::<&T, _>(StoredResponseError::NonExistent),
        },
{
    match item.get(RAW_RESPONSE_KEY) {
        Some(AttributeValue::M(Ok(response))) => Ok(response),
        Some(AttributeValue::M(Err(_))) => Err(StoredResponseError::Unreadable),
        _ => Err(StoredResponseError::NonExistent),
    }
}

/// The attributes of an item after every map in it went through `decode`.
pub open spec fn decoded<M, T, E>(
    fields: Map<Seq<char>, AttributeModel<M>>,
    decode: spec_fn(M) -> Result<T, E>,
) -> Map<Seq<char>, AttributeModel<Result<T, E>>> {
    fields.map_values(
        |value: AttributeModel<M>|
            match value {
                AttributeModel::S(text) => AttributeModel::S(text),
                AttributeModel::M(map) => AttributeModel::M(decode(map)),
                AttributeModel::Other => AttributeModel::Other,
            },
    )
}

proof fn lemma_keys_differ()
    ensures
        HASH_KEY@ != INTERACTION_VALUE_KEY@,
        HASH_KEY@ != USER_SNOWFLAKE_KEY@,
        HASH_KEY@ != RAW_RESPONSE_KEY@,
        INTERACTION_VALUE_KEY@ != USER_SNOWFLAKE_KEY@,
        INTERACTION_VALUE_KEY@ != RAW_RESPONSE_KEY@,
        USER_SNOWFLAKE_KEY@ != RAW_RESPONSE_KEY@,
{
    reveal_strlit("hash");
    reveal_strlit("interaction_value");
    reveal_strlit("discord_id");
    reveal_strlit("raw_response");
    assert(HASH_KEY@.len() == 4);
    assert(INTERACTION_VALUE_KEY@.len() == 17);
    assert(USER_SNOWFLAKE_KEY@.len() == 10);
    assert(RAW_RESPONSE_KEY@.len() == 12);
}

/// An item is kept under the id of its interaction and belongs to the user who
/// asked.
pub proof fn law_record_is_found_by_id_and_user<M>(
    id: Seq<char>,
    interaction: M,
    author: u64,
    raw: M,
)
    ensures
        record_model(id, interaction, author, raw).dom() =~= set![
            HASH_KEY@,
            INTERACTION_VALUE_KEY@,
            USER_SNOWFLAKE_KEY@,
            RAW_RESPONSE_KEY@,
        ],
        record_model(id, interaction, author, raw)[HASH_KEY@] == AttributeModel::<M>::S(id),
        record_model(id, interaction, author, raw)[USER_SNOWFLAKE_KEY@] == AttributeModel::<M>::S(
            decimal(author as nat),
        ),
{
    lemma_keys_differ();
}

/// What is read from the table for an interaction is what was written for it,
/// as far as the written map decodes.
pub proof fn law_interaction_reads_back<M, T, E>(
    id: Seq<char>,
    interaction: M,
    author: u64,
    raw: M,
    decode: spec_fn(M) -> Result<T, E>,
)
    ensures
        interaction_of(Some(decoded(record_model(id, interaction, author, raw), decode))) == (
        match decode(interaction) {
            Ok(value) => Ok::<T, LookupError<E>>(value),
            Err(e) => Err::<T, LookupError<E>>(LookupError::Decode(e)),
        }),
{
    lemma_keys_differ();
}

/// The response that the statistics read from an item is the one that was
/// written to it, as far as the written map decodes.
pub proof fn law_response_reads_back<M, T, E>(
    id: Seq<char>,
    interaction: M,
    author: u64,
    raw: M,
    decode: spec_fn(M) -> Result<T, E>,
)
    ensures
        response_of(decoded(record_model(id, interaction, author, raw), decode)) == (match decode(
            raw,
        ) {
            Ok(response) => Ok::<T, StoredResponseError>(response),
            Err(_) => Err::<T, StoredResponseError>(StoredResponseError::Unreadable),
        }),
{
    lemma_keys_differ();
}

} // verus!
