use crate::commands::ping::{
    apply_message, apply_received, expired, sweep, Control, TaskState, PING_TIMEOUT,
};
use vstd::prelude::*;

verus! {

/// The registry after one pass of the worker's loop at the instant `now`: the runs that are
/// over leave, then what the mailbox gave is applied.
pub open spec fn pass(registry: Map<u64, TaskState>, now: u64, received: Option<Control>) -> Map<
    u64,
    TaskState,
> {
    apply_received(sweep(registry, now), received, now)
}

/// The users of a channel's run, and nobody where the channel has no run.
pub open spec fn users_of(registry: Map<u64, TaskState>, channel: u64) -> Set<u64> {
    if registry.contains_key(channel) {
        registry[channel].users
    } else {
        Set::empty()
    }
}

/// `Stop` for a channel that has no run changes nothing: no run is made, none is touched.
pub proof fn lemma_stop_without_run(registry: Map<u64, TaskState>, channel: u64, now: u64)
    requires
        !registry.contains_key(channel),
    ensures
        apply_message(registry, Control::Stop { channel }, now) == registry,
{
    assert(apply_message(registry, Control::Stop { channel }, now) =~= registry);
}

/// `Stop` twice is `Stop` once.
pub proof fn lemma_stop_twice(registry: Map<u64, TaskState>, channel: u64, now: u64, later: u64)
    ensures
        apply_message(
            apply_message(registry, Control::Stop { channel }, now),
            Control::Stop { channel },
            later,
        ) == apply_message(registry, Control::Stop { channel }, now),
        !apply_message(registry, Control::Stop { channel }, now).contains_key(channel),
{
    let once = apply_message(registry, Control::Stop { channel }, now);
    assert(apply_message(once, Control::Stop { channel }, later) =~= once);
}

/// Two `Commence` for one channel leave a run that pings the users of both, beside those
/// that the channel's run had before. The deadline is that of the run that was there, or
/// the one that the first `Commence` set: the second does not move it.
pub proof fn lemma_commence_unites(
    registry: Map<u64, TaskState>,
    channel: u64,
    first: Set<u64>,
    second: Set<u64>,
    now: u64,
    later: u64,
)
    ensures
        ({
            let once = apply_message(registry, Control::Commence { channel, users: first }, now);
            let twice = apply_message(once, Control::Commence { channel, users: second }, later);
            &&& twice.contains_key(channel)
            &&& twice[channel].users == users_of(registry, channel).union(first).union(second)
            &&& twice[channel].end_date == once[channel].end_date
            &&& !registry.contains_key(channel) ==> twice[channel].users == first.union(second)
                && twice[channel].end_date == (now + PING_TIMEOUT) as u64
        }),
{
    let once = apply_message(registry, Control::Commence { channel, users: first }, now);
    let twice = apply_message(once, Control::Commence { channel, users: second }, later);
    assert(twice[channel].users =~= users_of(registry, channel).union(first).union(second));
    if !registry.contains_key(channel) {
        assert(twice[channel].users =~= first.union(second));
    }
}

/// `Remove` leaves in the channel's run the users that it had and that the message does not
/// name. The run stays, with its deadline, even where nobody is left in it.
pub proof fn lemma_remove_takes_out(
    registry: Map<u64, TaskState>,
    channel: u64,
    gone: Set<u64>,
    now: u64,
)
    requires
        registry.contains_key(channel),
    ensures
        ({
            let after = apply_message(registry, Control::Remove { channel, users: gone }, now);
            &&& after.contains_key(channel)
            &&& after[channel].users == registry[channel].users.difference(gone)
            &&& after[channel].end_date == registry[channel].end_date
            &&& after.dom() == registry.dom()
        }),
{
    let after = apply_message(registry, Control::Remove { channel, users: gone }, now);
    assert(after.dom() =~= registry.dom());
}

/// A run whose deadline has passed is gone after the sweep, and a list that names each
/// expired channel once names its channel at one place and no other.
pub proof fn lemma_expired_run_leaves(
    registry: Map<u64, TaskState>,
    channel: u64,
    now: u64,
    finished: Seq<u64>,
)
    requires
        registry.contains_key(channel),
        now > registry[channel].end_date,
        finished.no_duplicates(),
        finished.to_set() == expired(registry, now),
    ensures
        !sweep(registry, now).contains_key(channel),
        exists|i: int|
            0 <= i < finished.len() && #[trigger] finished[i] == channel && forall|j: int|
                0 <= j < finished.len() && j != i ==> #[trigger] finished[j] != channel,
{
    assert(expired(registry, now).contains(channel));
    assert(finished.to_set().contains(channel));
    let i = choose|i: int| 0 <= i < finished.len() && finished[i] == channel;
    assert(finished[i] == channel);
}

/// A run whose deadline has not passed stays as it is through the sweep, and a channel that
/// the sweep took out is not named again by a later one.
pub proof fn lemma_sweep_keeps_the_rest(
    registry: Map<u64, TaskState>,
    channel: u64,
    now: u64,
    later: u64,
)
    ensures
        registry.contains_key(channel) && now <= registry[channel].end_date ==> sweep(
            registry,
            now,
        ).contains_key(channel) && sweep(registry, now)[channel] == registry[channel],
        !registry.contains_key(channel) ==> !sweep(registry, now).contains_key(channel),
        expired(registry, now).contains(channel) ==> !expired(sweep(registry, now), later).contains(
            channel,
        ),
{
}

/// The run that `Commence` makes for a channel without one lasts `PING_TIMEOUT`: the sweep
/// keeps it up to its deadline and takes it out after.
pub proof fn lemma_run_lasts_for_the_timeout(
    registry: Map<u64, TaskState>,
    channel: u64,
    users: Set<u64>,
    now: u64,
    later: u64,
)
    requires
        !registry.contains_key(channel),
        now + PING_TIMEOUT <= u64::MAX,
    ensures
        ({
            let started = apply_message(registry, Control::Commence { channel, users }, now);
            &&& started.contains_key(channel)
            &&& started[channel] == (TaskState { end_date: (now + PING_TIMEOUT) as u64, users })
            &&& sweep(started, later).contains_key(channel) <==> later <= now + PING_TIMEOUT
        }),
{
}

/// A message changes no channel but its own: every other channel has a run after it if and
/// only if it had one before, and the same run.
pub proof fn lemma_other_channels_untouched(
    registry: Map<u64, TaskState>,
    message: Control,
    now: u64,
    other: u64,
)
    requires
        other != message.channel(),
    ensures
        apply_message(registry, message, now).contains_key(other) == registry.contains_key(other),
        registry.contains_key(other) ==> apply_message(registry, message, now)[other]
            == registry[other],
{
}

/// What a message makes of its channel depends on no other channel: two registries that
/// agree on the message's channel agree on it after the message.
pub proof fn lemma_message_reads_its_channel_only(
    one: Map<u64, TaskState>,
    other: Map<u64, TaskState>,
    message: Control,
    now: u64,
)
    requires
        one.contains_key(message.channel()) == other.contains_key(message.channel()),
        one.contains_key(message.channel()) ==> one[message.channel()] == other[message.channel()],
    ensures
        ({
            let channel = message.channel();
            let a = apply_message(one, message, now);
            let b = apply_message(other, message, now);
            &&& a.contains_key(channel) == b.contains_key(channel)
            &&& a.contains_key(channel) ==> a[channel] == b[channel]
        }),
{
}

/// The sweep decides on each channel by that channel's run alone.
pub proof fn lemma_sweep_reads_its_channel_only(
    one: Map<u64, TaskState>,
    other: Map<u64, TaskState>,
    channel: u64,
    now: u64,
)
    requires
        one.contains_key(channel) == other.contains_key(channel),
        one.contains_key(channel) ==> one[channel] == other[channel],
    ensures
        sweep(one, now).contains_key(channel) == sweep(other, now).contains_key(channel),
        sweep(one, now).contains_key(channel) ==> sweep(one, now)[channel] == sweep(
            other,
            now,
        )[channel],
{
}

/// Messages for one channel take effect in the order in which they were sent: `Commence` for
/// one user, `Remove` for that user and `Commence` for a second user, applied by three passes
/// of the loop to a channel that had no run, leave a run that pings the second user alone.
pub proof fn lemma_messages_apply_in_order(
    registry: Map<u64, TaskState>,
    channel: u64,
    first: u64,
    second: u64,
    t1: u64,
    t2: u64,
    t3: u64,
)
    requires
        !registry.contains_key(channel),
    ensures
        ({
            let r1 = pass(registry, t1, Some(Control::Commence { channel, users: set![first] }));
            let r2 = pass(r1, t2, Some(Control::Remove { channel, users: set![first] }));
            let r3 = pass(r2, t3, Some(Control::Commence { channel, users: set![second] }));
            r3.contains_key(channel) && r3[channel].users == set![second]
        }),
{
    let r1 = pass(registry, t1, Some(Control::Commence { channel, users: set![first] }));
    let r2 = pass(r1, t2, Some(Control::Remove { channel, users: set![first] }));
    let r3 = pass(r2, t3, Some(Control::Commence { channel, users: set![second] }));
    assert(r1[channel].users =~= set![first]);
    if r2.contains_key(channel) {
        assert(r2[channel].users =~= Set::<u64>::empty());
    }
    assert(r3[channel].users =~= set![second]);
}

} // verus!
