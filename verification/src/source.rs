//! Configuration out of the secrets manager.
//!
//! A source is collected step by step: [`SecretsManagerSource::collect`] says
//! what to ask the secrets manager first, and
//! [`SecretsManagerSource::resume`] takes each answer and says what comes next.

use crate::extensions::SecretError;
use crate::fields::Fields;
use crate::text::{
    law_ascii_lower_case_stays, law_lower_case_by_character, law_suffix_comes_off, lower_case,
    lowercase, replace_all, replaced, starts_with, strip_prefix, to_lowercase, trim_suffix,
    without_suffix,
};
use vstd::prelude::*;
use vstd::utf8::is_ascii_chars;

verus! {

/// The origin that collected values are reported under.
pub const SECRETS_ORIGIN: &'static str = "SecretsManager";

/// What the names of settings in the environment begin with.
pub const ENVIRONMENT_PREFIX: &'static str = "REPLYBOT";

/// The secrets whose names begin with a prefix.
#[derive(Clone, Debug)]
pub struct SecretsManagerSource {
    /// What the names begin with.
    pub prefix: String,
    /// What stands between the parts of a nested name, if names nest.
    pub separator: Option<String>,
    /// Whether a secret that cannot be fetched fails the whole source.
    pub required: bool,
    /// Whether keys go without the prefix.
    pub remove_prefix: bool,
}

/// How far a source has been collected.
pub enum CollectState {
    /// The names are being listed.
    Listing,
    /// The secret `names[at]` is being fetched.
    Fetching { names: Vec<Option<String>>, at: usize, entries: Fields<String> },
    /// Everything has been collected.
    Done,
}

/// What to do next to collect a source.
pub enum CollectAction {
    /// List the secrets whose names begin with `prefix`.
    List { prefix: String },
    /// Fetch one secret.
    Fetch { name: String },
    /// Hand over what was collected.
    Finish { entries: Fields<String> },
}

/// An answer of the secrets manager.
pub enum CollectEvent<E> {
    /// The names of the listed secrets, as far as there is a list and as far
    /// as they have names.
    Listed(Result<Option<Vec<Option<String>>>, E>),
    /// The text of the secret that was asked for.
    Fetched(Result<String, SecretError<E>>),
}

/// Why a source could not be collected.
pub enum SourceError<E> {
    /// The secrets could not be listed.
    List(E),
    /// A secret of a required source could not be fetched.
    Secret(SecretError<E>),
}

/// Whether `key` is `text` in lower case: character by character where `text` is
/// ASCII, and else as `str::to_lowercase` has it.
pub open spec fn is_lowered(key: Seq<char>, text: Seq<char>) -> bool {
    if is_ascii_chars(text) {
        &&& key.len() == text.len()
        &&& forall|i: int|
            0 <= i < text.len() ==> #[trigger] key[i] as int == (if 'A' <= text[i] && text[i]
                <= 'Z' {
                text[i] as int + 32
            } else {
                text[i] as int
            })
    } else {
        key == lowercase(text)
    }
}

/// What has been collected once `state` was reached with `action` to do.
pub open spec fn entries_of(state: CollectState, action: CollectAction) -> Map<Seq<char>, String> {
    match (state, action) {
        (CollectState::Fetching { names: _, at: _, entries }, _) => entries@,
        (_, CollectAction::Finish { entries }) => entries@,
        _ => Map::empty(),
    }
}

/// The first position from `from` on that has a name; the length of the list
/// where there is none.
pub open spec fn next_named(names: Seq<Option<String>>, from: int) -> int
    decreases names.len() - from,
{
    if from >= names.len() {
        names.len() as int
    } else if names[from] is Some {
        from
    } else {
        next_named(names, from + 1)
    }
}

impl CollectState {
    /// Whether the state names the secret that it waits for.
    pub open spec fn well_formed(self) -> bool {
        self matches CollectState::Fetching { names, at, entries } ==> {
            &&& at < names@.len()
            &&& names@[at as int] is Some
        }
    }

    /// Whether the state waits for an answer of this sort.
    pub open spec fn expects<E>(self, event: CollectEvent<E>) -> bool {
        match self {
            CollectState::Listing => event is Listed,
            CollectState::Fetching { .. } => event is Fetched,
            CollectState::Done => false,
        }
    }
}

impl SecretsManagerSource {
    /// The prefix that is taken off names: without the separator at its end.
    pub open spec fn bare_prefix(self) -> Seq<char> {
        match self.separator {
            Some(separator) => without_suffix(self.prefix@, separator@),
            None => self.prefix@,
        }
    }

    /// `name` without the prefix, and with a dot for each separator.
    pub open spec fn nested_name(self, name: Seq<char>) -> Seq<char> {
        let rest = if self.remove_prefix {
            name.skip(self.bare_prefix().len() as int)
        } else {
            name
        };
        match self.separator {
            Some(separator) => if separator@.len() > 0 {
                replaced(rest, separator@, "."@)
            } else {
                rest
            },
            None => rest,
        }
    }

    /// The key under which the secret `name` is collected: its nested name in
    /// lower case.
    pub open spec fn key_of(self, name: Seq<char>) -> Seq<char> {
        lower_case(self.nested_name(name))
    }

    /// Whether a key can be made of `name`.
    pub open spec fn names_key(self, name: Seq<char>) -> bool {
        self.remove_prefix ==> self.bare_prefix().is_prefix_of(name)
    }

    /// Whether `event`, arriving in `state`, leaves the source with a name
    /// that begins as it should.
    pub open spec fn admits<E>(self, state: CollectState, event: CollectEvent<E>) -> bool {
        match (state, event) {
            (
                CollectState::Fetching { names, at, entries },
                CollectEvent::Fetched(Ok(_)),
            ) => self.names_key(names@[at as int]->0@),
            _ => true,
        }
    }

    /// Whether `next` goes on behind position `from` of the list with
    /// `entries` collected so far.
    pub open spec fn goes_on<E>(
        next: Result<(CollectState, CollectAction), SourceError<E>>,
        names: Seq<Option<String>>,
        from: int,
        entries: Map<Seq<char>, String>,
    ) -> bool {
        let i = next_named(names, from);
        if i == names.len() {
            next matches Ok((CollectState::Done, CollectAction::Finish { entries: all })) && all@
                == entries
        } else {
            next matches Ok((
                CollectState::Fetching { names: list, at, entries: some },
                CollectAction::Fetch { name },
            )) && list@ == names && at == i && some@ == entries && Some(name) == names[i]
        }
    }

    /// Whether `next` is what follows from `event` in `state`.
    pub open spec fn follows<E>(
        self,
        state: CollectState,
        event: CollectEvent<E>,
        next: Result<(CollectState, CollectAction), SourceError<E>>,
    ) -> bool {
        match (state, event) {
            (CollectState::Listing, CollectEvent::Listed(Err(e))) => next == Err::<
                (CollectState, CollectAction),
                _,
            >(SourceError::List(e)),
            (CollectState::Listing, CollectEvent::Listed(Ok(None))) => next matches Ok((
                CollectState::Done,
                CollectAction::Finish { entries },
            )) && entries@ == Map::<Seq<char>, String>::empty(),
            (CollectState::Listing, CollectEvent::Listed(Ok(Some(names)))) => Self::goes_on(
                next,
                names@,
                0,
                Map::empty(),
            ),
            (
                CollectState::Fetching { names, at, entries },
                CollectEvent::Fetched(Ok(text)),
            ) => Self::goes_on(
                next,
                names@,
                at + 1,
                entries@.insert(self.key_of(names@[at as int]->0@), text),
            ),
            (
                CollectState::Fetching { names, at, entries },
                CollectEvent::Fetched(Err(e)),
            ) => if self.required {
                next == Err::<(CollectState, CollectAction), _>(SourceError::Secret(e))
            } else {
                Self::goes_on(next, names@, at + 1, entries@)
            },
            _ => true,
        }
    }

    /// A required source of the secrets under `prefix`, with the prefix taken
    /// off and without nesting.
    pub fn new(prefix: &str) -> (source: SecretsManagerSource)
        ensures
            source.prefix@ == prefix@,
            source.separator is None,
            source.required,
            source.remove_prefix,
    {
        SecretsManagerSource {
            prefix: prefix.to_owned(),
            separator: None,
            required: true,
            remove_prefix: true,
        }
    }

    /// The same source, required or not.
    pub fn with_required(self, required: bool) -> (source: Self)
        ensures
            source == (SecretsManagerSource { required, ..self }),
    {
        SecretsManagerSource { required, ..self }
    }

    fn bare_prefix_text(&self) -> (prefix: String)
        ensures
            prefix@ == self.bare_prefix(),
    {
        match &self.separator {
            Some(separator) => trim_suffix(self.prefix.as_str(), separator.as_str()),
            None => self.prefix.clone(),
        }
    }

    /// Whether a key can be made of `name`: it begins with the prefix, where
    /// the prefix is taken off.
    pub fn accepts_name(&self, name: &str) -> (accepts: bool)
        ensures
            accepts == self.names_key(name@),
            !self.remove_prefix ==> accepts,
            self.remove_prefix && self.separator is None ==> accepts == self.prefix@.is_prefix_of(
                name@,
            ),
    {
        !self.remove_prefix || starts_with(name, self.bare_prefix_text().as_str())
    }

    /// Takes the prefix off `name` and puts a dot for each separator.
    pub fn nested_text(&self, name: &str) -> (nested: String)
        requires
            self.names_key(name@),
        ensures
            nested@ == self.nested_name(name@),
            self.separator is None && self.remove_prefix ==> name@ == self.prefix@ + nested@,
            self.separator is None && !self.remove_prefix ==> name@ == nested@,
    {
        let rest = if self.remove_prefix {
            match strip_prefix(name, self.bare_prefix_text().as_str()) {
                Some(rest) => rest,
                None => name.to_owned(),
            }
        } else {
            name.to_owned()
        };
        match &self.separator {
            Some(separator) => if separator.as_str().is_empty() {
                rest
            } else {
                replace_all(rest.as_str(), separator.as_str(), ".")
            },
            None => rest,
        }
    }

    /// Makes the key under which the secret `name` is collected.
    pub fn key_text(&self, name: &str) -> (key: String)
        requires
            self.names_key(name@),
        ensures
            key@ == self.key_of(name@),
            forall|rest: Seq<char>|
                self.separator is None && self.remove_prefix && name@ == #[trigger] (self.prefix@
                    + rest) ==> is_lowered(key@, rest),
    {
        proof {
            assert forall|rest: Seq<char>|
                self.separator is None && self.remove_prefix && name@ == #[trigger] (self.prefix@
                    + rest) implies is_lowered(self.key_of(name@), rest) by {
                self.law_plain_key_is_what_follows_the_prefix(rest);
            }
        }
        to_lowercase(self.nested_text(name).as_str())
    }

    fn go_on<E>(names: Vec<Option<String>>, from: usize, entries: Fields<String>) -> (next: Result<
        (CollectState, CollectAction),
        SourceError<E>,
    >)
        requires
            from <= names@.len(),
        ensures
            Self::goes_on(next, names@, from as int, entries@),
            next matches Ok((after, _)) ==> after.well_formed(),
    {
        let mut at: usize = from;
        while at < names.len()
            invariant
                from <= at <= names@.len(),
                next_named(names@, from as int) == next_named(names@, at as int),
            decreases names@.len() - at,
        {
            if let Some(name) = &names[at] {
                let name = name.clone();
                return Ok(
                    (
                        CollectState::Fetching { names, at, entries },
                        CollectAction::Fetch { name },
                    ),
                );
            }
            at = at + 1;
        }
        Ok((CollectState::Done, CollectAction::Finish { entries }))
    }

    /// Begins to collect the source.
    pub fn collect(&self) -> (first: (CollectState, CollectAction))
        ensures
            first.0 == CollectState::Listing,
            first.1 == (CollectAction::List { prefix: self.prefix }),
    {
        (CollectState::Listing, CollectAction::List { prefix: self.prefix.clone() })
    }

    /// Goes on with an answer of the secrets manager.
    pub fn resume<E>(&self, state: CollectState, event: CollectEvent<E>) -> (next: Result<
        (CollectState, CollectAction),
        SourceError<E>,
    >)
        requires
            state.well_formed(),
            state.expects(event),
            self.admits(state, event),
        ensures
            self.follows(state, event, next),
            next matches Ok((after, _)) ==> after.well_formed(),
    {
        match (state, event) {
            (CollectState::Listing, CollectEvent::Listed(listed)) => match listed {
                Err(e) => Err(SourceError::List(e)),
                Ok(None) => Ok(
                    (CollectState::Done, CollectAction::Finish { entries: Fields::new() }),
                ),
                Ok(Some(names)) => Self::go_on(names, 0, Fields::new()),
            },
            (
                CollectState::Fetching { names, at, entries },
                CollectEvent::Fetched(fetched),
            ) => {
                assert(at < names.len());
                match fetched {
                    Ok(text) => {
                        let entries = match &names[at] {
                            Some(name) => entries.with(self.key_text(name.as_str()), text),
                            None => entries,
                        };
                        Self::go_on(names, at + 1, entries)
                    },
                    Err(e) => if self.required {
                        Err(SourceError::Secret(e))
                    } else {
                        Self::go_on(names, at + 1, entries)
                    },
                }
            },
            _ => vstd::pervasive::unreached(),
        }
    }
}

/// The sources that the bot's settings are layered from: its own secrets, which
/// it needs, and then the shared ones, as far as they can be had.
pub fn bot_sources() -> (sources: Vec<SecretsManagerSource>)
    ensures
        sources@.len() == 2,
        sources@[0].prefix@ == "Replybot-"@,
        sources@[0].required,
        sources@[1].prefix@ == "Shared-"@,
        !sources@[1].required,
        forall|i: int|
            0 <= i < 2 ==> (#[trigger] sources@[i]).separator is None && sources@[i].remove_prefix,
{
    let mut sources: Vec<SecretsManagerSource> = Vec::new();
    sources.push(SecretsManagerSource::new("Replybot-"));
    sources.push(SecretsManagerSource::new("Shared-").with_required(false));
    sources
}

impl SecretsManagerSource {
    /// What has been collected once the first `k` of the listed secrets were
    /// dealt with, where `replies[i]` is the answer for the secret at position
    /// `i` of the list; `None` where the source has failed by then.
    pub open spec fn gathered<E>(
        self,
        names: Seq<Option<String>>,
        replies: Seq<Result<String, SecretError<E>>>,
        k: int,
    ) -> Option<Map<Seq<char>, String>>
        decreases k,
    {
        if k <= 0 {
            Some(Map::empty())
        } else {
            match (self.gathered(names, replies, k - 1), names[k - 1], replies[k - 1]) {
                (None, _, _) => None,
                (Some(entries), None, _) => Some(entries),
                (Some(entries), Some(name), Ok(text)) => Some(
                    entries.insert(self.key_of(name@), text),
                ),
                (Some(entries), Some(_), Err(_)) => if self.required {
                    None
                } else {
                    Some(entries)
                },
            }
        }
    }

    /// Whether `next` has collected all that `gathered` says, up to where it
    /// waits or up to the end.
    pub open spec fn agrees<E>(
        self,
        names: Seq<Option<String>>,
        replies: Seq<Result<String, SecretError<E>>>,
        next: Result<(CollectState, CollectAction), SourceError<E>>,
    ) -> bool {
        match next {
            Ok((CollectState::Fetching { names: list, at, entries }, CollectAction::Fetch { name }))
            => {
                &&& list@ == names
                &&& at < names.len()
                &&& names[at as int] == Some(name)
                &&& self.gathered(names, replies, at as int) == Some(entries@)
            },
            Ok((CollectState::Done, CollectAction::Finish { entries })) => self.gathered(
                names,
                replies,
                names.len() as int,
            ) == Some(entries@),
            Err(SourceError::Secret(_)) => self.gathered(names, replies, names.len() as int)
                is None,
            _ => false,
        }
    }

    /// Where the listing succeeds, collecting starts in agreement with
    /// `gathered`, whatever the answers will be.
    pub proof fn law_listing_agrees<E>(
        self,
        names: Vec<Option<String>>,
        replies: Seq<Result<String, SecretError<E>>>,
        next: Result<(CollectState, CollectAction), SourceError<E>>,
    )
        requires
            self.follows(
                CollectState::Listing,
                CollectEvent::<E>::Listed(Ok(Some(names))),
                next,
            ),
        ensures
            self.agrees(names@, replies, next),
    {
        self.lemma_skip_unnamed(names@, replies, 0);
    }

    /// Each answer keeps collecting in agreement with `gathered`: it ends with
    /// all the secrets collected, or with the failure of a required source, or
    /// waits for a later secret.
    pub proof fn law_fetching_agrees<E>(
        self,
        names: Vec<Option<String>>,
        replies: Seq<Result<String, SecretError<E>>>,
        at: usize,
        entries: Fields<String>,
        next: Result<(CollectState, CollectAction), SourceError<E>>,
    )
        requires
            at < names@.len(),
            names@[at as int] is Some,
            self.gathered(names@, replies, at as int) == Some(entries@),
            self.follows(
                CollectState::Fetching { names, at, entries },
                CollectEvent::Fetched(replies[at as int]),
                next,
            ),
        ensures
            self.agrees(names@, replies, next),
            next matches Ok((CollectState::Fetching { at: later, .. }, _)) ==> later > at,
    {
        if self.required && replies[at as int] is Err {
            self.lemma_failure_stays(names@, replies, at + 1, names@.len() as int);
        } else {
            self.lemma_skip_unnamed(names@, replies, at + 1);
        }
    }

    /// A source that is not required never fails once its secrets are listed.
    pub proof fn law_optional_source_survives<E>(
        self,
        names: Seq<Option<String>>,
        replies: Seq<Result<String, SecretError<E>>>,
        k: int,
    )
        requires
            !self.required,
        ensures
            self.gathered(names, replies, k) is Some,
        decreases k,
    {
        if k > 0 {
            self.law_optional_source_survives(names, replies, k - 1);
        }
    }

    /// A required source is collected exactly when every listed secret that
    /// has a name was fetched.
    pub proof fn law_required_source_is_complete<E>(
        self,
        names: Seq<Option<String>>,
        replies: Seq<Result<String, SecretError<E>>>,
        k: int,
    )
        requires
            self.required,
        ensures
            self.gathered(names, replies, k) is Some <==> forall|i: int|
                0 <= i < k && #[trigger] names[i] is Some ==> replies[i] is Ok,
        decreases k,
    {
        if k > 0 {
            self.law_required_source_is_complete(names, replies, k - 1);
            if self.gathered(names, replies, k) is Some {
                assert forall|i: int| 0 <= i < k && #[trigger] names[i] is Some implies replies[i]
                    is Ok by {
                    if i == k - 1 {
                    } else {
                        assert(0 <= i < k - 1);
                    }
                }
            } else if self.gathered(names, replies, k - 1) is Some {
                assert(names[k - 1] is Some && replies[k - 1] is Err);
            }
        }
    }

    /// A collected key comes from a listed secret that was fetched.
    pub proof fn law_keys_come_from_secrets<E>(
        self,
        names: Seq<Option<String>>,
        replies: Seq<Result<String, SecretError<E>>>,
        k: int,
        key: Seq<char>,
    )
        requires
            self.gathered(names, replies, k) is Some,
            self.gathered(names, replies, k)->0.dom().contains(key),
        ensures
            exists|i: int|
                0 <= i < k && #[trigger] names[i] is Some && self.key_of(names[i]->0@) == key
                    && replies[i] is Ok,
        decreases k,
    {
        if k > 0 {
            if names[k - 1] is Some && replies[k - 1] is Ok && self.key_of(names[k - 1]->0@)
                == key {
            } else {
                self.law_keys_come_from_secrets(names, replies, k - 1, key);
                let i = choose|i: int|
                    0 <= i < k - 1 && #[trigger] names[i] is Some && self.key_of(names[i]->0@)
                        == key && replies[i] is Ok;
                assert(names[i] is Some);
            }
        }
    }

    /// Each fetched secret stands under its key, unless a later one with the
    /// same key took its place.
    pub proof fn law_last_secret_wins<E>(
        self,
        names: Seq<Option<String>>,
        replies: Seq<Result<String, SecretError<E>>>,
        k: int,
        i: int,
    )
        requires
            0 <= i < k,
            self.gathered(names, replies, k) is Some,
            names[i] is Some,
            replies[i] is Ok,
            forall|j: int|
                i < j < k && #[trigger] names[j] is Some && replies[j] is Ok ==> self.key_of(
                    names[j]->0@,
                ) != self.key_of(names[i]->0@),
        ensures
            self.gathered(names, replies, k)->0.dom().contains(self.key_of(names[i]->0@)),
            self.gathered(names, replies, k)->0[self.key_of(names[i]->0@)] == replies[i]->Ok_0,
        decreases k,
    {
        if i < k - 1 {
            self.law_last_secret_wins(names, replies, k - 1, i);
            assert(names[k - 1] is Some && replies[k - 1] is Ok ==> self.key_of(
                names[k - 1]->0@,
            ) != self.key_of(names[i]->0@));
        }
    }

    /// Whether a source is required matters only where a secret cannot be
    /// fetched: where a required source is collected, the same source made
    /// optional collects the same.
    pub proof fn law_required_matters_only_for_failures<E>(
        self,
        other: SecretsManagerSource,
        names: Seq<Option<String>>,
        replies: Seq<Result<String, SecretError<E>>>,
        k: int,
    )
        requires
            self.required,
            other == (SecretsManagerSource { required: false, ..self }),
            self.gathered(names, replies, k) is Some,
        ensures
            other.gathered(names, replies, k) == self.gathered(names, replies, k),
        decreases k,
    {
        if k > 0 {
            self.law_required_matters_only_for_failures(other, names, replies, k - 1);
        }
    }

    /// A collected key is the lower case of what a name gives that was fetched,
    /// and its own lower case where that is ASCII.
    pub proof fn law_keys_are_lower_cased_names<E>(
        self,
        names: Seq<Option<String>>,
        replies: Seq<Result<String, SecretError<E>>>,
        k: int,
        key: Seq<char>,
    )
        requires
            self.gathered(names, replies, k) is Some,
            self.gathered(names, replies, k)->0.dom().contains(key),
        ensures
            exists|i: int|
                0 <= i < k && #[trigger] names[i] is Some && replies[i] is Ok && key == lower_case(
                    self.nested_name(names[i]->0@),
                ) && (is_ascii_chars(self.nested_name(names[i]->0@)) ==> lower_case(key) == key),
    {
        self.law_keys_come_from_secrets(names, replies, k, key);
        let i = choose|i: int|
            0 <= i < k && #[trigger] names[i] is Some && self.key_of(names[i]->0@) == key
                && replies[i] is Ok;
        if is_ascii_chars(self.nested_name(names[i]->0@)) {
            law_ascii_lower_case_stays(self.nested_name(names[i]->0@));
        }
        assert(names[i] is Some);
    }

    /// Where names do not nest and the prefix is taken off, the key of a secret is
    /// what follows the prefix in its name, in lower case, and nothing else of it
    /// changes.
    pub proof fn law_plain_key_is_what_follows_the_prefix(self, rest: Seq<char>)
        requires
            self.separator is None,
            self.remove_prefix,
        ensures
            self.names_key(self.prefix@ + rest),
            self.nested_name(self.prefix@ + rest) == rest,
            is_lowered(self.key_of(self.prefix@ + rest), rest),
    {
        let name = self.prefix@ + rest;
        assert(self.prefix@.is_prefix_of(name)) by {
            assert(name.subrange(0, self.prefix@.len() as int) =~= self.prefix@);
        }
        assert(name.skip(self.prefix@.len() as int) =~= rest);
        law_lower_case_by_character(rest);
    }

    /// Only a name that begins with `bare` gives a key where the prefix is taken
    /// off, and `bare` is the prefix without one separator at its end, if there is
    /// one. What follows `bare`, or the whole name where the prefix stays, is kept
    /// but that a separator that is not empty gives way to a dot; the key is that
    /// in lower case.
    pub proof fn law_key_is_made_of_the_name(
        self,
        bare: Seq<char>,
        rest: Seq<char>,
        other: Seq<char>,
    )
        requires
            self.separator matches Some(separator) ==> if separator@.is_suffix_of(self.prefix@) {
                self.prefix@ == bare + separator@
            } else {
                self.prefix@ == bare
            },
            self.separator is None ==> self.prefix@ == bare,
        ensures
            self.names_key(other) <==> !self.remove_prefix || bare.is_prefix_of(other),
            ({
                let name = if self.remove_prefix {
                    bare + rest
                } else {
                    rest
                };
                let nested = match self.separator {
                    Some(separator) => if separator@.len() > 0 {
                        replaced(rest, separator@, "."@)
                    } else {
                        rest
                    },
                    None => rest,
                };
                &&& self.names_key(name)
                &&& self.nested_name(name) == nested
                &&& is_lowered(self.key_of(name), nested)
            }),
    {
        if let Some(separator) = self.separator {
            law_suffix_comes_off(self.prefix@, bare, separator@);
        }
        assert(self.bare_prefix() == bare);
        let whole = bare + rest;
        assert(bare.is_prefix_of(whole)) by {
            assert(whole.subrange(0, bare.len() as int) =~= bare);
        }
        assert(whole.skip(bare.len() as int) =~= rest);
        let name = if self.remove_prefix {
            whole
        } else {
            rest
        };
        law_lower_case_by_character(self.nested_name(name));
    }

    /// Whatever the secrets manager answers is taken; only the text of a secret
    /// whose name does not begin with the prefix, where that is to come off, is
    /// not.
    pub proof fn law_every_answer_is_taken<E>(self, state: CollectState, event: CollectEvent<E>)
        ensures
            state.expects(event) <==> ((state is Listing && event is Listed) || (state is Fetching
                && event is Fetched)),
            state is Listing ==> state.well_formed() && self.admits(state, event),
            state matches CollectState::Fetching { names, at, entries } ==> {
                &&& at < names@.len() && names@[at as int] is Some ==> state.well_formed()
                &&& event matches CollectEvent::Fetched(Err(_)) ==> self.admits(state, event)
                &&& !self.remove_prefix ==> self.admits(state, event)
                &&& self.separator is None && self.prefix@.is_prefix_of(names@[at as int]->0@)
                    ==> self.admits(state, event)
            },
    {
    }

    /// A source whose secrets cannot be listed fails with that failure, whether it
    /// is required or not; one without a list is empty.
    pub proof fn law_listing_decides<E>(
        self,
        reason: E,
        failed: Result<(CollectState, CollectAction), SourceError<E>>,
        empty: Result<(CollectState, CollectAction), SourceError<E>>,
    )
        requires
            self.follows(CollectState::Listing, CollectEvent::Listed(Err(reason)), failed),
            self.follows(CollectState::Listing, CollectEvent::<E>::Listed(Ok(None)), empty),
        ensures
            failed matches Err(SourceError::List(e)) && e == reason,
            empty matches Ok((CollectState::Done, CollectAction::Finish { entries })) && forall|
                key: Seq<char>,
            | !#[trigger] entries@.dom().contains(key),
    {
    }

    /// The secret that is asked for is always one of the list, by the very name
    /// that it has there, and the first with a name behind those that were dealt
    /// with; the list stays as it came.
    pub proof fn law_secrets_are_fetched_by_their_names<E>(
        self,
        state: CollectState,
        event: CollectEvent<E>,
        list: Seq<Option<String>>,
        dealt: int,
        next: Result<(CollectState, CollectAction), SourceError<E>>,
    )
        requires
            state.well_formed(),
            state.expects(event),
            self.follows(state, event, next),
            match (state, event) {
                (CollectState::Listing, CollectEvent::Listed(Ok(Some(names)))) => list == names@
                    && dealt == 0,
                (CollectState::Fetching { names, at, entries }, _) => list == names@ && dealt == at
                    + 1,
                _ => false,
            },
        ensures
            next matches Ok((
                CollectState::Fetching { names, at, entries },
                action,
            )) ==> {
                &&& names@ == list
                &&& dealt <= at < list.len()
                &&& action matches CollectAction::Fetch { name } && list[at as int] == Some(name)
                &&& forall|j: int| dealt <= j < at ==> #[trigger] list[j] is None
                &&& state is Listing ==> forall|key: Seq<char>|
                    !#[trigger] entries@.dom().contains(key)
            },
            next matches Ok((CollectState::Done, action)) ==> {
                &&& action matches CollectAction::Finish { entries }
                &&& forall|j: int| dealt <= j < list.len() ==> #[trigger] list[j] is None
                &&& state is Listing ==> forall|key: Seq<char>|
                    !#[trigger] entries@.dom().contains(key)
            },
            next matches Ok((after, _)) ==> !(after is Listing),
    {
        Self::lemma_next_named(list, dealt);
    }

    proof fn lemma_next_named(names: Seq<Option<String>>, from: int)
        requires
            0 <= from <= names.len(),
        ensures
            from <= next_named(names, from) <= names.len(),
            next_named(names, from) < names.len() ==> names[next_named(names, from)] is Some,
            forall|j: int| from <= j < next_named(names, from) ==> #[trigger] names[j] is None,
        decreases names.len() - from,
    {
        if from < names.len() && names[from] is None {
            Self::lemma_next_named(names, from + 1);
        }
    }

    /// A secret that was fetched is added under its key with the very text that
    /// came, over what stood there, and nothing else of what was collected
    /// changes; one that was not fetched fails a required source with the reason,
    /// and changes nothing in any other.
    pub proof fn law_each_answer_counts_once<E>(
        self,
        names: Vec<Option<String>>,
        at: usize,
        before: Fields<String>,
        reply: Result<String, SecretError<E>>,
        next: Result<(CollectState, CollectAction), SourceError<E>>,
    )
        requires
            at < names@.len(),
            names@[at as int] is Some,
            self.follows(
                CollectState::Fetching { names, at, entries: before },
                CollectEvent::Fetched(reply),
                next,
            ),
        ensures
            self.required ==> (reply matches Err(reason) ==> next == Err::<
                (CollectState, CollectAction),
                _,
            >(SourceError::Secret(reason))),
            reply is Ok || !self.required ==> next is Ok,
            next matches Ok((state, action)) ==> {
                let after = entries_of(state, action);
                &&& reply matches Ok(text) ==> after.dom().contains(
                    self.key_of(names@[at as int]->0@),
                ) && after[self.key_of(names@[at as int]->0@)] == text
                &&& forall|key: Seq<char>|
                    reply is Err || key != self.key_of(names@[at as int]->0@) ==> {
                        &&& #[trigger] after.dom().contains(key) <==> before@.dom().contains(key)
                        &&& before@.dom().contains(key) ==> after[key] == before@[key]
                    }
            },
    {
    }

    proof fn lemma_skip_unnamed<E>(
        self,
        names: Seq<Option<String>>,
        replies: Seq<Result<String, SecretError<E>>>,
        from: int,
    )
        requires
            0 <= from <= names.len(),
        ensures
            from <= next_named(names, from) <= names.len(),
            next_named(names, from) < names.len() ==> names[next_named(names, from)] is Some,
            self.gathered(names, replies, next_named(names, from)) == self.gathered(
                names,
                replies,
                from,
            ),
        decreases names.len() - from,
    {
        if from < names.len() && names[from] is None {
            self.lemma_skip_unnamed(names, replies, from + 1);
        }
    }

    proof fn lemma_failure_stays<E>(
        self,
        names: Seq<Option<String>>,
        replies: Seq<Result<String, SecretError<E>>>,
        from: int,
        k: int,
    )
        requires
            from <= k,
            self.gathered(names, replies, from) is None,
        ensures
            self.gathered(names, replies, k) is None,
        decreases k - from,
    {
        if from < k {
            self.lemma_failure_stays(names, replies, from, k - 1);
            assert(k > 0);
        }
    }
}

} // verus!
