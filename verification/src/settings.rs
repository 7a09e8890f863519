use std::collections::{HashMap, HashSet};
use vstd::prelude::*;

verus! {

broadcast use vstd::std_specs::hash::group_hash_axioms;

/// What the bot can be told to do or to leave, for all guilds or for one.
#[derive(Debug, Clone, Copy, PartialEq, Eq, Hash, Structural)]
pub enum Feature {
    NotifyOnDeletedMessages,
    PeriodicTodoReminders,
}

impl Feature {
    /// Every feature, each once.
    pub fn all() -> (features: Vec<Feature>)
        ensures
            features@.no_duplicates(),
            forall|feature: Feature| features@.contains(feature),
    {
        let features = vec![Feature::NotifyOnDeletedMessages, Feature::PeriodicTodoReminders];
        assert(features@[0] == Feature::NotifyOnDeletedMessages);
        assert(features@[1] == Feature::PeriodicTodoReminders);
        features
    }
}

/// Where the database is.
#[derive(Debug)]
pub struct Database {
    pub url: String,
}

impl Default for Database {
    fn default() -> (database: Self)
        ensures
            database.url@ == "db.sqlite"@,
    {
        Self { url: String::from_str("db.sqlite") }
    }
}

/// The features that are switched on. The list stands for a set: the order says nothing, and
/// a feature that is in it twice is on as one that is in it once.
#[derive(Debug)]
pub struct BotSettings {
    pub features: Vec<Feature>,
}

impl BotSettings {
    /// Whether the feature is switched on.
    pub open spec fn enables(&self, feature: Feature) -> bool {
        self.features@.contains(feature)
    }

    /// Whether the feature is switched on.
    pub fn has_feature(&self, feature: &Feature) -> (on: bool)
        ensures
            on == self.enables(*feature),
    {
        let mut i: usize = 0;
        while i < self.features.len()
            invariant
                i <= self.features.len(),
                forall|j: int| 0 <= j < i ==> self.features@[j] != *feature,
            decreases self.features.len() - i,
        {
            if self.features[i] == *feature {
                return true;
            }
            i += 1;
        }
        false
    }
}

impl Default for BotSettings {
    fn default() -> (settings: Self)
        ensures
            forall|feature: Feature| settings.enables(feature),
    {
        Self { features: Feature::all() }
    }
}

/// The labels that an issue gets where the configuration names none.
pub fn default_github_labels() -> (labels: Vec<String>)
    ensures
        labels@.len() == 2,
        labels@[0]@ == "todo"@,
        labels@[1]@ == "triage"@,
{
    vec![String::from_str("todo"), String::from_str("triage")]
}

/// How messages are mirrored to GitHub.
#[derive(Debug)]
pub struct GithubSettings {
    /// The repository for the channels that `channel_map` does not name, as `owner/repo`.
    pub repo: String,
    /// The token that creates the issues. Without one nothing is mirrored.
    pub token: String,
    /// The labels that a created issue gets.
    pub default_labels: Vec<String>,
    /// Where this is not empty, only these channels are mirrored.
    pub allowed_channels: HashSet<u64>,
    /// The repository of a channel that has one of its own, as `owner/repo`.
    pub channel_map: HashMap<u64, String>,
}

impl Default for GithubSettings {
    fn default() -> (settings: Self)
        ensures
            settings.repo@ == Seq::<char>::empty(),
            settings.token@ == Seq::<char>::empty(),
            settings.default_labels@.len() == 2,
            settings.default_labels@[0]@ == "todo"@,
            settings.default_labels@[1]@ == "triage"@,
            settings.allowed_channels@ == Set::<u64>::empty(),
            settings.channel_map@ == Map::<u64, String>::empty(),
    {
        Self {
            repo: String::new(),
            token: String::new(),
            default_labels: default_github_labels(),
            allowed_channels: HashSet::new(),
            channel_map: HashMap::new(),
        }
    }
}

/// The bot's configuration.
#[derive(Debug)]
pub struct Settings {
    pub discord_token: String,
    pub database: Database,
    /// What holds in a guild that `guilds` does not name, and outside guilds.
    pub global: BotSettings,
    /// What holds in a guild that has settings of its own.
    pub guilds: HashMap<u64, BotSettings>,
    pub github: GithubSettings,
}

impl Settings {
    /// Whether the feature is on in a channel of the guild `guild`, or, for `None`, in a
    /// channel that belongs to no guild.
    pub open spec fn enables(&self, feature: Feature, guild: Option<u64>) -> bool {
        match guild {
            Some(id) if self.guilds@.contains_key(id) => self.guilds@[id].enables(feature),
            _ => self.global.enables(feature),
        }
    }

    /// Whether the feature is on in a channel of the guild `guild`, or, for `None`, in a
    /// channel that belongs to no guild: the guild's own settings decide where it has them,
    /// the global ones elsewhere.
    pub fn is_feature_enabled(&self, feature: &Feature, guild: Option<u64>) -> (on: bool)
        ensures
            on == self.enables(*feature, guild),
    {
        let default = self.global.has_feature(feature);
        match guild {
            Some(id) => match self.guilds.get(&id) {
                Some(settings) => settings.has_feature(feature),
                None => default,
            },
            None => default,
        }
    }
}

} // verus!
