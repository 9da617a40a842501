//! The match result: which declared arguments the invoking user supplied, and
//! with what value.
//!
//! The translator reads a [`MatchResult`] of the library's own. One is filled
//! by hand, or collected from the `ArgMatches` of the argument parser, which is
//! opaque to the verifier and is read through two accessors whose contracts are
//! believed, not proved.

use vstd::prelude::*;
use clap::ArgMatches;
use crate::config::{text_of, Configuration, ConfigurationView};

verus! {

#[verifier::external_type_specification]
#[verifier::external_body]
pub struct ExArgMatches(ArgMatches);

/// What the argument parser matched: the keys that were supplied, each with
/// its first value, if it has one, as text.
pub uninterp spec fn matched(found: ArgMatches) -> Map<Seq<char>, Option<Seq<char>>>;

/// `ArgMatches::is_present`: whether the argument or subcommand of this name
/// was supplied.
#[verifier::external_body]
pub(crate) fn clap_is_present(found: &ArgMatches, key: &str) -> (present: bool)
    ensures
        present == matched(*found).dom().contains(key@),
{
    found.is_present(key)
}

/// `ArgMatches::value_of_lossy`: the first value of the argument of this name,
/// and `None` where the argument was not supplied or has no value. Bytes of
/// the value that are not UTF-8 come out as U+FFFD, so the call returns on
/// every input.
#[verifier::external_body]
pub(crate) fn clap_value_of(found: &ArgMatches, key: &str) -> (value: Option<String>)
    ensures
        text_of(value) == if matched(*found).dom().contains(key@) {
            matched(*found)[key@]
        } else {
            None
        },
{
    found.value_of_lossy(key).map(|text| text.into_owned())
}

/// One supplied argument.
#[derive(Debug, Clone, PartialEq, Eq)]
pub struct MatchEntry {
    pub key: String,
    pub value: Option<String>,
}

/// The supplied arguments of one invocation.
#[derive(Debug, Clone, PartialEq, Eq)]
pub struct MatchResult {
    entries: Vec<MatchEntry>,
}

/// What the latest entry under `key` says: `None` where there is no such
/// entry, and else the value that the entry carries.
pub open spec fn latest(entries: Seq<MatchEntry>, key: Seq<char>) -> Option<Option<Seq<char>>>
    decreases entries.len(),
{
    if entries.len() == 0 {
        None
    } else if entries.last().key@ == key {
        Some(text_of(entries.last().value))
    } else {
        latest(entries.drop_last(), key)
    }
}

/// The keys that a configuration declares, together with the wrapper's own
/// `version` flag.
pub open spec fn declared_keys(config: ConfigurationView) -> Set<Seq<char>> {
    Set::new(
        |key: Seq<char>|
            key == "version"@ || exists|i: int|
                0 <= i < config.args.len() && #[trigger] config.args[i].key == key,
    )
}

impl View for MatchResult {
    type V = Map<Seq<char>, Option<Seq<char>>>;

    /// The supplied keys, each with its value.
    closed spec fn view(&self) -> Map<Seq<char>, Option<Seq<char>>> {
        Map::new(
            |key: Seq<char>| latest(self.entries@, key) is Some,
            |key: Seq<char>| latest(self.entries@, key)->Some_0,
        )
    }
}

impl MatchResult {
    /// The result of an invocation that supplied nothing.
    pub fn new() -> (empty: MatchResult)
        ensures
            empty@ == Map::<Seq<char>, Option<Seq<char>>>::empty(),
    {
        let empty = MatchResult { entries: Vec::new() };
        assert(empty@ =~= Map::<Seq<char>, Option<Seq<char>>>::empty());
        empty
    }

    /// Records that `key` was supplied, with `value` if it carries one. A later
    /// record of a key replaces an earlier one.
    pub fn record(&mut self, key: String, value: Option<String>)
        ensures
            final(self)@ == old(self)@.insert(key@, text_of(value)),
    {
        let ghost before = self.entries@;
        self.entries.push(MatchEntry { key, value });
        proof {
            assert(self.entries@.drop_last() =~= before);
            assert(self@ =~= old(self)@.insert(key@, text_of(value)));
        }
    }

    /// Whether `key` was supplied.
    pub fn is_present(&self, key: &str) -> (present: bool)
        ensures
            present == self@.dom().contains(key@),
    {
        self.find(key).is_some()
    }

    /// The value that `key` was supplied with, if it was supplied and carries
    /// one.
    pub fn value_of(&self, key: &str) -> (value: Option<&String>)
        ensures
            match value {
                Some(text) => self@.dom().contains(key@) && self@[key@] == Some(text@),
                None => !self@.dom().contains(key@) || self@[key@] is None,
            },
    {
        match self.find(key) {
            Some(i) => match &self.entries[i].value {
                Some(text) => Some(text),
                None => None,
            },
            None => None,
        }
    }

    /// The position of the latest entry under `key`.
    fn find(&self, key: &str) -> (found: Option<usize>)
        ensures
            match found {
                Some(i) => i < self.entries.len() && latest(self.entries@, key@) == Some(
                    text_of(self.entries@[i as int].value),
                ),
                None => latest(self.entries@, key@) is None,
            },
    {
        let wanted = key.to_owned();
        let mut i: usize = self.entries.len();
        assert(self.entries@.take(i as int) =~= self.entries@);
        while i > 0
            invariant
                i <= self.entries.len(),
                wanted@ == key@,
                latest(self.entries@, key@) == latest(self.entries@.take(i as int), key@),
            decreases i,
        {
            i -= 1;
            assert(self.entries@.take(i + 1).drop_last() =~= self.entries@.take(i as int));
            if self.entries[i].key == wanted {
                return Some(i);
            }
        }
        None
    }

    /// Collects, from what the argument parser matched, the declared arguments
    /// and the `version` flag.
    pub fn collect(config: &Configuration, found: &ArgMatches) -> (result: MatchResult)
        ensures
            result@ == matched(*found).restrict(declared_keys(config@)),
    {
        let mut result = MatchResult::new();
        if clap_is_present(found, "version") {
            result.record("version".to_owned(), clap_value_of(found, "version"));
        }
        let mut i: usize = 0;
        while i < config.args.len()
            invariant
                i <= config.args.len(),
                forall|key: Seq<char>| #[trigger]
                    result@.dom().contains(key) <==> matched(*found).dom().contains(key) && (key
                        == "version"@ || exists|j: int|
                        0 <= j < i && #[trigger] config@.args[j].key == key),
                forall|key: Seq<char>| #[trigger]
                    result@.dom().contains(key) ==> result@[key] == matched(*found)[key],
            decreases config.args.len() - i,
        {
            let key = config.args[i].key.as_str();
            assert(config@.args[i as int].key == key@);
            if clap_is_present(found, key) {
                result.record(key.to_owned(), clap_value_of(found, key));
            }
            i += 1;
        }
        assert(result@ =~= matched(*found).restrict(declared_keys(config@)));
        result
    }
}

} // verus!
