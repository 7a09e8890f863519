use crate::commands::mention::{input_to_users, mention_list, mentioned_users, push_mention};
use std::collections::{HashMap, HashSet};
use vstd::prelude::*;
use vstd::std_specs::iter::IteratorSpec;

verus! {

broadcast use vstd::std_specs::hash::group_hash_axioms;

/// How many control messages the worker's mailbox holds before senders wait.
pub const PING_CHANNEL_BUFFER: usize = 32;

/// How long a channel's cannon runs, in milliseconds: ten minutes.
pub const PING_TIMEOUT: u64 = 600_000;

/// What a channel is told whose run has ended because its time was up.
pub const EXHAUSTED_NOTICE: &'static str = "The Ping Cannon shot enough shots.";

/// What a channel's cannon run is, as a mathematical value.
pub struct TaskState {
    /// The instant after which the run is over, in milliseconds of the worker's clock.
    pub end_date: u64,
    /// The users that the run pings.
    pub users: Set<u64>,
}

/// One channel's cannon run.
#[derive(Debug)]
pub struct PingTask {
    pub end_date: u64,
    pub users: HashSet<u64>,
}

impl View for PingTask {
    type V = TaskState;

    open spec fn view(&self) -> TaskState {
        TaskState { end_date: self.end_date, users: self.users@ }
    }
}

impl PingTask {
    pub fn new(end_date: u64, users: HashSet<u64>) -> (task: Self)
        ensures
            task@ == (TaskState { end_date, users: users@ }),
    {
        Self { end_date, users }
    }

    /// Whether the run is over at the instant `now`.
    pub fn is_done(&self, now: u64) -> (done: bool)
        ensures
            done == (now > self@.end_date),
    {
        now > self.end_date
    }
}

/// A control message, as a mathematical value.
pub enum Control {
    Commence { channel: u64, users: Set<u64> },
    Remove { channel: u64, users: Set<u64> },
    Stop { channel: u64 },
}

impl Control {
    /// The one channel that the message is about.
    pub open spec fn channel(self) -> u64 {
        match self {
            Control::Commence { channel, .. } => channel,
            Control::Remove { channel, .. } => channel,
            Control::Stop { channel } => channel,
        }
    }
}

/// A control message for the worker: start or extend a channel's run, take users out of it,
/// or end it.
#[derive(Debug)]
pub enum PingWorkerMessage {
    Commence(u64, HashSet<u64>),
    Remove(u64, HashSet<u64>),
    Stop(u64),
}

impl View for PingWorkerMessage {
    type V = Control;

    open spec fn view(&self) -> Control {
        match self {
            PingWorkerMessage::Commence(channel, users) => Control::Commence {
                channel: *channel,
                users: users@,
            },
            PingWorkerMessage::Remove(channel, users) => Control::Remove {
                channel: *channel,
                users: users@,
            },
            PingWorkerMessage::Stop(channel) => Control::Stop { channel: *channel },
        }
    }
}

/// The registry after one control message, received at the instant `now`.
///
/// `Commence` creates the channel's run with a deadline of `now + PING_TIMEOUT`, or, where the
/// channel has a run, adds the users to it and leaves its deadline alone. `Remove` takes the
/// users out of the channel's run, which stays even when nobody is left in it. `Stop` ends
/// the channel's run. `Remove` and `Stop` on a channel without a run change nothing.
pub open spec fn apply_message(registry: Map<u64, TaskState>, message: Control, now: u64) -> Map<
    u64,
    TaskState,
> {
    match message {
        Control::Commence { channel, users } => if registry.contains_key(channel) {
            registry.insert(
                channel,
                TaskState {
                    end_date: registry[channel].end_date,
                    users: registry[channel].users.union(users),
                },
            )
        } else {
            registry.insert(channel, TaskState { end_date: (now + PING_TIMEOUT) as u64, users })
        },
        Control::Remove { channel, users } => if registry.contains_key(channel) {
            registry.insert(
                channel,
                TaskState {
                    end_date: registry[channel].end_date,
                    users: registry[channel].users.difference(users),
                },
            )
        } else {
            registry
        },
        Control::Stop { channel } => registry.remove(channel),
    }
}

/// The registry after what the mailbox gave: one message, or nothing.
pub open spec fn apply_received(
    registry: Map<u64, TaskState>,
    received: Option<Control>,
    now: u64,
) -> Map<u64, TaskState> {
    match received {
        Some(message) => apply_message(registry, message, now),
        None => registry,
    }
}

/// The channels whose run is over at the instant `now`.
pub open spec fn expired(registry: Map<u64, TaskState>, now: u64) -> Set<u64> {
    Set::new(|channel: u64| registry.contains_key(channel) && now > registry[channel].end_date)
}

/// The registry without the runs that are over at the instant `now`.
pub open spec fn sweep(registry: Map<u64, TaskState>, now: u64) -> Map<u64, TaskState> {
    registry.remove_keys(expired(registry, now))
}

/// The members of a set, each once, in the order in which the set hands them out.
pub fn members(set: &HashSet<u64>) -> (list: Vec<u64>)
    ensures
        list@.no_duplicates(),
        list@.to_set() == set@,
{
    let mut list: Vec<u64> = Vec::new();
    let ghost all = set.iter().remaining().unref();
    for user in it: set.iter()
        invariant
            it.seq().unref() == all,
            all.no_duplicates(),
            all.to_set() == set@,
            list@ == all.take(it.index()),
    {
        list.push(*user);
        assert(all.take(it.index() + 1) =~= all.take(it.index()).push(*user));
    }
    assert(list@ =~= all);
    list
}

/// Puts every user of `more` into `users`.
pub fn add_users(users: &mut HashSet<u64>, more: &HashSet<u64>)
    ensures
        final(users)@ == old(users)@.union(more@),
{
    let list = members(more);
    let mut i: usize = 0;
    while i < list.len()
        invariant
            i <= list.len(),
            users@ == old(users)@.union(list@.take(i as int).to_set()),
        decreases list.len() - i,
    {
        users.insert(list[i]);
        proof {
            assert(list@.take(i + 1) =~= list@.take(i as int).push(list@[i as int]));
            list@.take(i as int).lemma_push_to_set_commute(list@[i as int]);
            assert(users@ =~= old(users)@.union(list@.take(i + 1).to_set()));
        }
        i += 1;
    }
    assert(list@.take(i as int) =~= list@);
}

/// Takes every user of `gone` out of `users`.
pub fn remove_users(users: &mut HashSet<u64>, gone: &HashSet<u64>)
    ensures
        final(users)@ == old(users)@.difference(gone@),
{
    let list = members(gone);
    let mut i: usize = 0;
    while i < list.len()
        invariant
            i <= list.len(),
            users@ == old(users)@.difference(list@.take(i as int).to_set()),
        decreases list.len() - i,
    {
        users.remove(&list[i]);
        proof {
            assert(list@.take(i + 1) =~= list@.take(i as int).push(list@[i as int]));
            list@.take(i as int).lemma_push_to_set_commute(list@[i as int]);
            assert(users@ =~= old(users)@.difference(list@.take(i + 1).to_set()));
        }
        i += 1;
    }
    assert(list@.take(i as int) =~= list@);
}

/// What every announcement starts with.
pub open spec fn announce_prefix() -> Seq<char> {
    seq!['.', '/', 'p', 'i', 'n', 'g', ' ']
}

/// The announcement that pings the users of a list in the list's order.
pub open spec fn announcement(users: Seq<u64>) -> Seq<char> {
    announce_prefix() + mention_list(users)
}

/// Whether `text` is an announcement that pings each user of the set once, in some order.
pub open spec fn announces(text: Seq<char>, users: Set<u64>) -> bool {
    exists|order: Seq<u64>|
        order.no_duplicates() && order.to_set() == users && text == #[trigger] announcement(order)
}

/// The announcement for a set of users. The set decides the order of the tokens.
pub fn announce(users: &HashSet<u64>) -> (text: String)
    ensures
        announces(text@, users@),
{
    let list = members(users);
    let mut text = String::from_str("./ping ");
    proof {
        reveal_strlit("./ping ");
        assert(text@ =~= announce_prefix());
        assert(text@ =~= announcement(list@.take(0)));
    }
    let mut i: usize = 0;
    while i < list.len()
        invariant
            i <= list.len(),
            text@ == announcement(list@.take(i as int)),
        decreases list.len() - i,
    {
        push_mention(&mut text, list[i]);
        proof {
            let longer = list@.take(i + 1);
            assert(longer.drop_last() =~= list@.take(i as int));
            assert(longer.last() == list@[i as int]);
            assert(text@ =~= announcement(longer));
        }
        i += 1;
    }
    assert(list@.take(i as int) =~= list@);
    text
}

/// The channels of a registry, each once, in the order in which the map hands them out.
fn channels(pings: &HashMap<u64, PingTask>) -> (list: Vec<u64>)
    ensures
        list@.no_duplicates(),
        list@.to_set() == pings@.dom(),
{
    let mut list: Vec<u64> = Vec::new();
    let ghost all = pings.keys().remaining().unref();
    for channel in it: pings.keys()
        invariant
            it.seq().unref() == all,
            all.no_duplicates(),
            all.to_set() == pings@.dom(),
            list@ == all.take(it.index()),
    {
        list.push(*channel);
        assert(all.take(it.index() + 1) =~= all.take(it.index()).push(*channel));
    }
    assert(list@ =~= all);
    list
}

/// A message for a channel.
#[derive(Debug)]
pub struct Announcement {
    pub channel: u64,
    pub text: String,
}

/// The channels that a list of announcements goes to, in the list's order.
pub open spec fn channels_of(list: Seq<Announcement>) -> Seq<u64> {
    list.map_values(|a: Announcement| a.channel)
}

/// Whether a list holds one announcement for each channel of the registry and no other, each
/// pinging the users of its channel's run.
pub open spec fn announces_registry(list: Seq<Announcement>, registry: Map<u64, TaskState>) -> bool {
    &&& channels_of(list).no_duplicates()
    &&& channels_of(list).to_set() == registry.dom()
    &&& forall|i: int|
        0 <= i < list.len() ==> announces(
            (#[trigger] list[i]).text@,
            registry[list[i].channel].users,
        )
}

/// What one pass of the worker's loop asks to be sent.
#[derive(Debug)]
pub struct WorkOutput {
    /// The channels whose run has just ended: each gets the notice that the cannon is
    /// exhausted.
    pub finished: Vec<u64>,
    /// The announcements for the runs that go on.
    pub announcements: Vec<Announcement>,
}

/// What the mailbox gave, as a mathematical value.
pub open spec fn received_view(received: Option<PingWorkerMessage>) -> Option<Control> {
    match received {
        Some(message) => Some(message@),
        None => None,
    }
}

/// The worker's state: the registry of the channels that have a run. Only the worker's own
/// operations change it.
#[derive(Debug)]
pub struct PingWorker {
    pings: HashMap<u64, PingTask>,
}

impl View for PingWorker {
    type V = Map<u64, TaskState>;

    closed spec fn view(&self) -> Map<u64, TaskState> {
        Map::new(|channel: u64| self.pings@.contains_key(channel), |channel: u64| self.pings@[channel]@)
    }
}

impl PingWorker {
    /// A worker with an empty registry.
    pub fn new() -> (worker: Self)
        ensures
            worker@ == Map::<u64, TaskState>::empty(),
    {
        let worker = Self { pings: HashMap::new() };
        assert(worker@ =~= Map::<u64, TaskState>::empty());
        worker
    }

    /// Ends the runs that are over at the instant `now`, and names their channels, each once.
    pub fn retire(&mut self, now: u64) -> (finished: Vec<u64>)
        ensures
            final(self)@ == sweep(old(self)@, now),
            finished@.no_duplicates(),
            finished@.to_set() == expired(old(self)@, now),
    {
        let keys = channels(&self.pings);
        let mut finished: Vec<u64> = Vec::new();
        let mut i: usize = 0;
        assert(keys@.take(0).to_set() =~= Set::<u64>::empty());
        assert(finished@.to_set() =~= Set::<u64>::empty());
        while i < keys.len()
            invariant
                i <= keys.len(),
                keys@.no_duplicates(),
                keys@.to_set() == old(self).pings@.dom(),
                finished@.no_duplicates(),
                finished@.to_set() == keys@.take(i as int).to_set().intersect(
                    expired(old(self)@, now),
                ),
                self.pings@.dom() == old(self).pings@.dom().difference(finished@.to_set()),
                forall|c: u64| #[trigger]
                    self.pings@.contains_key(c) ==> self.pings@[c] == old(self).pings@[c],
            decreases keys.len() - i,
        {
            let channel = keys[i];
            let ghost seen = keys@.take(i as int);
            proof {
                assert(keys@.take(i + 1) =~= seen.push(channel));
                seen.lemma_push_to_set_commute(channel);
                assert(keys@.to_set().contains(channel));
                if seen.contains(channel) {
                    let j = choose|j: int| 0 <= j < seen.len() && seen[j] == channel;
                    assert(keys@[j] == keys@[i as int]);
                }
                assert(!seen.to_set().contains(channel));
                assert(!finished@.to_set().contains(channel));
                assert(self.pings@.dom().contains(channel));
            }
            let done = match self.pings.get(&channel) {
                Some(task) => task.is_done(now),
                None => false,
            };
            assert(done == expired(old(self)@, now).contains(channel));
            if done {
                self.pings.remove(&channel);
                let ghost before = finished@;
                finished.push(channel);
                proof {
                    before.lemma_push_to_set_commute(channel);
                    assert(!before.contains(channel));
                    assert forall|a: int, b: int|
                        0 <= a < finished@.len() && 0 <= b < finished@.len() && a
                            != b implies finished@[a] != finished@[b] by {
                        if a < before.len() && b < before.len() {
                            assert(before[a] != before[b]);
                        } else if a < before.len() {
                            assert(before.contains(before[a]));
                        } else {
                            assert(before.contains(before[b]));
                        }
                    }
                }
            }
            proof {
                assert(finished@.to_set() =~= keys@.take(i + 1).to_set().intersect(
                    expired(old(self)@, now),
                ));
                assert(self.pings@.dom() =~= old(self).pings@.dom().difference(
                    finished@.to_set(),
                ));
            }
            i += 1;
        }
        proof {
            assert(keys@.take(i as int) =~= keys@);
            assert(finished@.to_set() =~= expired(old(self)@, now));
            assert(self@ =~= sweep(old(self)@, now));
        }
        finished
    }

    /// One announcement for each channel that has a run, in the order in which the registry
    /// hands the channels out.
    pub fn announcements(&self) -> (list: Vec<Announcement>)
        ensures
            announces_registry(list@, self@),
    {
        let keys = channels(&self.pings);
        let mut list: Vec<Announcement> = Vec::new();
        let mut i: usize = 0;
        while i < keys.len()
            invariant
                i <= keys.len(),
                keys@.to_set() == self.pings@.dom(),
                channels_of(list@) == keys@.take(i as int),
                forall|j: int|
                    0 <= j < list.len() ==> self@.contains_key((#[trigger] list@[j]).channel)
                        && announces(list@[j].text@, self@[list@[j].channel].users),
            decreases keys.len() - i,
        {
            let channel = keys[i];
            assert(keys@.to_set().contains(channel));
            if let Some(task) = self.pings.get(&channel) {
                let text = announce(&task.users);
                let ghost before = list@;
                list.push(Announcement { channel, text });
                assert(channels_of(list@) =~= keys@.take(i + 1)) by {
                    assert(channels_of(before).len() == before.len());
                    assert(keys@.take(i as int).len() == i);
                    assert(channels_of(list@).len() == list@.len());
                    assert(channels_of(list@).len() == i + 1);
                    assert forall|j: int| 0 <= j < i + 1 implies channels_of(list@)[j]
                        == keys@.take(i + 1)[j] by {
                        if j < i {
                            assert(list@[j] == before[j]);
                            assert(channels_of(before)[j] == keys@.take(i as int)[j]);
                        }
                    }
                }
                assert forall|j: int| 0 <= j < list.len() implies self@.contains_key(
                    (#[trigger] list@[j]).channel,
                ) && announces(list@[j].text@, self@[list@[j].channel].users) by {
                    if j < before.len() {
                        assert(list@[j] == before[j]);
                    }
                }
            }
            i += 1;
        }
        proof {
            assert(keys@.take(i as int) =~= keys@);
            assert(self@.dom() =~= self.pings@.dom());
        }
        list
    }

    /// One pass of the worker's loop at the instant `now`, up to the poll of the mailbox: ends
    /// the runs that are over, then announces the runs that go on.
    pub fn work(&mut self, now: u64) -> (out: WorkOutput)
        ensures
            final(self)@ == sweep(old(self)@, now),
            out.finished@.no_duplicates(),
            out.finished@.to_set() == expired(old(self)@, now),
            announces_registry(out.announcements@, final(self)@),
    {
        let finished = self.retire(now);
        let announcements = self.announcements();
        WorkOutput { finished, announcements }
    }

    /// How many channels have a run.
    pub fn len(&self) -> (n: usize)
        ensures
            n == self@.dom().len(),
            self@.dom().finite(),
    {
        assert(self@.dom() =~= self.pings@.dom());
        self.pings.len()
    }

    /// The deadline of the channel's run, if the channel has one.
    pub fn end_date(&self, channel: u64) -> (end: Option<u64>)
        ensures
            end == if self@.contains_key(channel) {
                Some(self@[channel].end_date)
            } else {
                None
            },
    {
        match self.pings.get(&channel) {
            Some(task) => Some(task.end_date),
            None => None,
        }
    }

    /// The users of the channel's run, each once, if the channel has a run.
    pub fn users(&self, channel: u64) -> (users: Option<Vec<u64>>)
        ensures
            users is Some <==> self@.contains_key(channel),
            users matches Some(list) ==> list@.no_duplicates() && list@.to_set()
                == self@[channel].users,
    {
        match self.pings.get(&channel) {
            Some(task) => Some(members(&task.users)),
            None => None,
        }
    }

    /// Applies what a poll of the mailbox gave at the instant `now`: one control message, or
    /// nothing.
    pub fn handle_message(&mut self, received: Option<PingWorkerMessage>, now: u64)
        requires
            now + PING_TIMEOUT <= u64::MAX,
        ensures
            final(self)@ == apply_received(old(self)@, received_view(received), now),
    {
        match received {
            Some(PingWorkerMessage::Commence(channel, new_users)) => {
                match self.pings.remove(&channel) {
                    Some(mut task) => {
                        add_users(&mut task.users, &new_users);
                        self.pings.insert(channel, task);
                    },
                    None => {
                        self.pings.insert(channel, PingTask::new(now + PING_TIMEOUT, new_users));
                    },
                }
            },
            Some(PingWorkerMessage::Remove(channel, gone)) => {
                match self.pings.remove(&channel) {
                    Some(mut task) => {
                        remove_users(&mut task.users, &gone);
                        self.pings.insert(channel, task);
                    },
                    None => {},
                }
            },
            Some(PingWorkerMessage::Stop(channel)) => {
                self.pings.remove(&channel);
            },
            None => {},
        }
        assert(self@ =~= apply_received(old(self)@, received_view(received), now));
    }
}

/// Why a command is turned down.
#[derive(Debug, Clone, Copy, PartialEq, Eq, Structural)]
pub enum PingError {
    /// The command's text mentions no user.
    NoUsers,
}

/// The message that starts the channel's cannon, or adds to it, for the users that `users`
/// mentions. A text that mentions nobody is turned down.
pub fn commence(channel: u64, users: &str) -> (result: Result<PingWorkerMessage, PingError>)
    ensures
        match result {
            Ok(message) => !mentioned_users(users@).is_empty() && message@ == (Control::Commence {
                channel,
                users: mentioned_users(users@),
            }),
            Err(error) => mentioned_users(users@).is_empty() && error == PingError::NoUsers,
        },
{
    let users = input_to_users(users);
    if users.is_empty() {
        Err(PingError::NoUsers)
    } else {
        Ok(PingWorkerMessage::Commence(channel, users))
    }
}

/// The message that takes the users that `users` mentions out of the channel's cannon.
pub fn remove(channel: u64, users: &str) -> (message: PingWorkerMessage)
    ensures
        message@ == (Control::Remove { channel, users: mentioned_users(users@) }),
{
    PingWorkerMessage::Remove(channel, input_to_users(users))
}

/// The message that stops the channel's cannon.
pub fn stop(channel: u64) -> (message: PingWorkerMessage)
    ensures
        message@ == (Control::Stop { channel }),
{
    PingWorkerMessage::Stop(channel)
}

} // verus!
