use crate::integrations::github::GhCfg;
use crate::settings::GithubSettings;
use crate::text::push_decimal;
use crate::text::decimal_digits;
use vstd::prelude::*;

verus! {

broadcast use vstd::std_specs::hash::group_hash_axioms;

/// Where the messages of a channel are mirrored to, or why they are not.
#[derive(Debug)]
pub enum Mirror {
    /// The settings hold no token.
    MissingToken,
    /// The settings list the channels that are mirrored, and this one is not among them.
    ChannelNotAllowed,
    /// Neither the channel nor the settings as a whole name a repository.
    NoRepository,
    /// The channel is mirrored with this configuration.
    Repository(GhCfg),
}

/// The repository of a channel: its own where the settings map the channel to one, the
/// default one elsewhere.
pub open spec fn repo_of(github: GithubSettings, channel: u64) -> Seq<char> {
    if github.channel_map@.contains_key(channel) {
        github.channel_map@[channel]@
    } else {
        github.repo@
    }
}

/// Whether the settings let the channel be mirrored: they list no channels, or this one.
pub open spec fn allows(github: GithubSettings, channel: u64) -> bool {
    github.allowed_channels@.is_empty() || github.allowed_channels@.contains(channel)
}

/// Whether the labels of `cfg` are those of the settings.
pub open spec fn same_labels(labels: Seq<String>, others: Seq<String>) -> bool {
    &&& labels.len() == others.len()
    &&& forall|i: int| 0 <= i < labels.len() ==> (#[trigger] labels[i])@ == others[i]@
}

/// Decides whether, and where to, the channel is mirrored. A missing token is found first,
/// then a channel that is not allowed, then a missing repository.
pub fn mirror_for_channel(github: &GithubSettings, channel: u64) -> (mirror: Mirror)
    ensures
        match mirror {
            Mirror::MissingToken => github.token@.len() == 0,
            Mirror::ChannelNotAllowed => github.token@.len() > 0 && !allows(*github, channel),
            Mirror::NoRepository => github.token@.len() > 0 && allows(*github, channel) && repo_of(
                *github,
                channel,
            ).len() == 0,
            Mirror::Repository(cfg) => {
                &&& github.token@.len() > 0
                &&& allows(*github, channel)
                &&& cfg.repo@ == repo_of(*github, channel)
                &&& cfg.repo@.len() > 0
                &&& cfg.token@ == github.token@
                &&& same_labels(cfg.default_labels@, github.default_labels@)
            },
        },
{
    if github.token.as_str().is_empty() {
        return Mirror::MissingToken;
    }
    if !github.allowed_channels.is_empty() && !github.allowed_channels.contains(&channel) {
        return Mirror::ChannelNotAllowed;
    }
    let repo = match github.channel_map.get(&channel) {
        Some(repo) => repo.clone(),
        None => github.repo.clone(),
    };
    if repo.as_str().is_empty() {
        return Mirror::NoRepository;
    }
    let mut labels: Vec<String> = Vec::new();
    let mut i: usize = 0;
    while i < github.default_labels.len()
        invariant
            i <= github.default_labels.len(),
            labels.len() == i,
            forall|j: int| 0 <= j < i ==> (#[trigger] labels@[j])@ == github.default_labels@[j]@,
        decreases github.default_labels.len() - i,
    {
        labels.push(github.default_labels[i].clone());
        i += 1;
    }
    Mirror::Repository(GhCfg { repo, token: github.token.clone(), default_labels: labels })
}

/// The text of the issue that mirrors a message: who sent it and where, what else there is
/// to say, and the acceptance criteria.
pub open spec fn issue_body_text(author: Seq<char>, channel: u64, extra: Seq<char>) -> Seq<char> {
    "### Context\nSubmitted via Discord by @"@ + author + " in <#"@ + decimal_digits(
        channel as nat,
    ) + ">.\n"@ + extra
        + "\n\n### Acceptance criteria\n- Clear user impact\n- Implementation approach agreed\n- Tests cover new behavior"@
}

/// Writes the text of the issue that mirrors a message. Without `extra` there is nothing
/// else to say.
pub fn issue_body(author: &str, channel: u64, extra: Option<&str>) -> (body: String)
    ensures
        body@ == issue_body_text(
            author@,
            channel,
            match extra {
                Some(text) => text@,
                None => Seq::empty(),
            },
        ),
{
    let mut body = String::from_str("### Context\nSubmitted via Discord by @");
    body.append(author);
    body.append(" in <#");
    push_decimal(&mut body, channel);
    body.append(">.\n");
    let ghost said = body@;
    if let Some(text) = extra {
        body.append(text);
    }
    assert(body@ =~= said + match extra {
        Some(text) => text@,
        None => Seq::empty(),
    });
    body.append(
        "\n\n### Acceptance criteria\n- Clear user impact\n- Implementation approach agreed\n- Tests cover new behavior",
    );
    body
}

} // verus!
