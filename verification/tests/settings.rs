use secubot::settings::{
    default_github_labels, BotSettings, Database, Feature, GithubSettings, Settings,
};
use std::collections::HashMap;

fn settings(global: Vec<Feature>, guilds: Vec<(u64, Vec<Feature>)>) -> Settings {
    let mut map = HashMap::new();
    for (guild, features) in guilds {
        map.insert(guild, BotSettings { features });
    }
    Settings {
        discord_token: String::from("token"),
        database: Database::default(),
        global: BotSettings { features: global },
        guilds: map,
        github: GithubSettings::default(),
    }
}

#[test]
fn all_features_are_two() {
    assert_eq!(Feature::all(), vec![Feature::NotifyOnDeletedMessages, Feature::PeriodicTodoReminders]);
}

#[test]
fn defaults_are_those_of_the_bot() {
    assert_eq!(Database::default().url, "db.sqlite");
    assert_eq!(BotSettings::default().features, Feature::all());
    assert_eq!(default_github_labels(), vec!["todo".to_string(), "triage".to_string()]);
    let github = GithubSettings::default();
    assert_eq!(github.repo, "");
    assert_eq!(github.token, "");
    assert_eq!(github.default_labels, vec!["todo".to_string(), "triage".to_string()]);
    assert!(github.allowed_channels.is_empty());
    assert!(github.channel_map.is_empty());
}

#[test]
fn has_feature_looks_through_the_list() {
    let none = BotSettings { features: vec![] };
    assert!(!none.has_feature(&Feature::NotifyOnDeletedMessages));
    let one = BotSettings { features: vec![Feature::PeriodicTodoReminders, Feature::PeriodicTodoReminders] };
    assert!(one.has_feature(&Feature::PeriodicTodoReminders));
    assert!(!one.has_feature(&Feature::NotifyOnDeletedMessages));
    let all = BotSettings::default();
    assert!(all.has_feature(&Feature::PeriodicTodoReminders));
    assert!(all.has_feature(&Feature::NotifyOnDeletedMessages));
}

#[test]
fn guild_settings_win_over_the_global_ones() {
    let s = settings(
        vec![Feature::NotifyOnDeletedMessages],
        vec![(1, vec![Feature::PeriodicTodoReminders]), (2, vec![])],
    );
    assert!(s.is_feature_enabled(&Feature::NotifyOnDeletedMessages, None));
    assert!(!s.is_feature_enabled(&Feature::PeriodicTodoReminders, None));

    assert!(!s.is_feature_enabled(&Feature::NotifyOnDeletedMessages, Some(1)));
    assert!(s.is_feature_enabled(&Feature::PeriodicTodoReminders, Some(1)));

    assert!(!s.is_feature_enabled(&Feature::NotifyOnDeletedMessages, Some(2)));
    assert!(!s.is_feature_enabled(&Feature::PeriodicTodoReminders, Some(2)));

    assert!(s.is_feature_enabled(&Feature::NotifyOnDeletedMessages, Some(3)));
    assert!(!s.is_feature_enabled(&Feature::PeriodicTodoReminders, Some(3)));
}
