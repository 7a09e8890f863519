use crate::integrations::mirror::{allows, mirror_for_channel, repo_of, Mirror};
use crate::settings::GithubSettings;
use crate::text::{decimal_digits, push_decimal};
use vstd::prelude::*;

verus! {

/// What an issue says beside its title: the assignee, where there is one, then the details,
/// where there are any.
pub open spec fn issue_extra_text(details: Option<Seq<char>>, assignee: Option<Seq<char>>) -> Seq<
    char,
> {
    match (details, assignee) {
        (Some(d), Some(a)) => "Assignee: @"@ + a + "\n\n"@ + d,
        (Some(d), None) => d,
        (None, Some(a)) => "Assignee: @"@ + a,
        (None, None) => Seq::empty(),
    }
}

/// The view of a text that may be missing.
pub open spec fn text_of(text: Option<&str>) -> Option<Seq<char>> {
    match text {
        Some(t) => Some(t@),
        None => None,
    }
}

/// Writes what an issue says beside its title, from the details and the assignee's name.
pub fn issue_extra(details: Option<&str>, assignee: Option<&str>) -> (extra: String)
    ensures
        extra@ == issue_extra_text(text_of(details), text_of(assignee)),
{
    let mut extra = String::new();
    if let Some(name) = assignee {
        extra.append("Assignee: @");
        extra.append(name);
        if details.is_some() {
            extra.append("\n\n");
        }
    }
    if let Some(text) = details {
        extra.append(text);
    }
    assert(extra@ =~= issue_extra_text(text_of(details), text_of(assignee)));
    extra
}

/// How the attempt to create an issue ended.
#[derive(Debug)]
pub enum IssueOutcome {
    /// The issue is there, at this address.
    Created(String),
    /// The channel is not mirrored.
    Disabled,
    /// GitHub was asked and the issue was not created.
    Failed,
}

/// What the user reads after the attempt to create an issue.
pub fn issue(outcome: &IssueOutcome) -> (reply: String)
    ensures
        reply@ == match *outcome {
            IssueOutcome::Created(url) => "📬 Created: "@ + url@,
            IssueOutcome::Disabled => "ℹ️ Mirroring is disabled for this channel."@,
            IssueOutcome::Failed => "⚠️ Failed to create GitHub issue."@,
        },
{
    match outcome {
        IssueOutcome::Created(url) => {
            let mut reply = String::from_str("📬 Created: ");
            reply.append(url.as_str());
            reply
        },
        IssueOutcome::Disabled => String::from_str("ℹ️ Mirroring is disabled for this channel."),
        IssueOutcome::Failed => String::from_str("⚠️ Failed to create GitHub issue."),
    }
}

/// What the user reads who asks where the channel is mirrored to.
pub open spec fn where_text(github: GithubSettings, channel: u64) -> Seq<char> {
    if github.token@.len() == 0 {
        "GitHub mirroring is not configured (missing token)."@
    } else if !allows(github, channel) {
        "This channel ("@ + decimal_digits(channel as nat) + ") is **not** allowed to mirror."@
    } else if repo_of(github, channel).len() == 0 {
        "No repository mapped for channel "@ + decimal_digits(channel as nat) + "."@
    } else {
        "Channel "@ + decimal_digits(channel as nat) + " → `"@ + repo_of(github, channel) + "`"@
    }
}

/// Answers the user who asks where the channel is mirrored to.
pub fn where_(github: &GithubSettings, channel: u64) -> (reply: String)
    ensures
        reply@ == where_text(*github, channel),
{
    match mirror_for_channel(github, channel) {
        Mirror::MissingToken => String::from_str(
            "GitHub mirroring is not configured (missing token).",
        ),
        Mirror::ChannelNotAllowed => {
            let mut reply = String::from_str("This channel (");
            push_decimal(&mut reply, channel);
            reply.append(") is **not** allowed to mirror.");
            reply
        },
        Mirror::NoRepository => {
            let mut reply = String::from_str("No repository mapped for channel ");
            push_decimal(&mut reply, channel);
            reply.append(".");
            reply
        },
        Mirror::Repository(cfg) => {
            let mut reply = String::from_str("Channel ");
            push_decimal(&mut reply, channel);
            reply.append(" → `");
            reply.append(cfg.repo.as_str());
            reply.append("`");
            reply
        },
    }
}

} // verus!
