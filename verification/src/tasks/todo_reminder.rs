use crate::models::todo::Todo;
use crate::text::{decimal_digits, push_decimal};
use vstd::prelude::*;

verus! {

/// How long the reminder task rests between two rounds, in seconds: five days.
pub const REMINDER_INTERVAL: u64 = 432_000;

/// The reminders for the rows of the table in the order in which they were read: one for
/// each run of rows of one channel, with the channel and the length of the run.
pub open spec fn reminders(rows: Seq<Todo>) -> Seq<(u64, nat)>
    decreases rows.len(),
{
    if rows.len() == 0 {
        Seq::empty()
    } else {
        let before = reminders(rows.drop_last());
        let row = rows.last();
        if rows.len() >= 2 && rows[rows.len() - 2].channel_id == row.channel_id && before.len() > 0 {
            before.drop_last().push((before.last().0, before.last().1 + 1))
        } else {
            before.push((row.channel_id as u64, 1))
        }
    }
}

/// What a channel is told that has to-dos which are not completed.
pub open spec fn reminder_text(count: nat) -> Seq<char> {
    "There are "@ + decimal_digits(count) + " uncompleted TODOs here!"@
}

/// A reminder for a channel.
#[derive(Debug)]
pub struct Reminder {
    pub channel: u64,
    /// How many to-dos of the channel are not completed.
    pub count: usize,
    pub description: String,
}

/// Whether a list holds the reminders for the rows, each with its text.
pub open spec fn reminds(list: Seq<Reminder>, rows: Seq<Todo>) -> bool {
    &&& list.len() == reminders(rows).len()
    &&& forall|i: int|
        0 <= i < list.len() ==> {
            &&& (#[trigger] list[i]).channel == reminders(rows)[i].0
            &&& list[i].count == reminders(rows)[i].1
            &&& list[i].description@ == reminder_text(reminders(rows)[i].1)
        }
}

/// The text of a reminder for so many to-dos.
pub fn get_description(count: usize) -> (text: String)
    ensures
        text@ == reminder_text(count as nat),
{
    let mut text = String::from_str("There are ");
    push_decimal(&mut text, count as u64);
    text.append(" uncompleted TODOs here!");
    text
}

/// The reminders of one round, for the rows of the to-dos that are not completed.
pub fn work(rows: &Vec<Todo>) -> (list: Vec<Reminder>)
    ensures
        reminds(list@, rows@),
{
    let mut runs: Vec<(u64, usize)> = Vec::new();
    let mut i: usize = 0;
    assert(rows@.take(0) =~= Seq::<Todo>::empty());
    while i < rows.len()
        invariant
            i <= rows.len(),
            runs@.len() == reminders(rows@.take(i as int)).len(),
            runs@.len() <= i,
            i > 0 ==> runs@.len() > 0,
            forall|j: int|
                0 <= j < runs@.len() ==> (#[trigger] runs@[j]).0 == reminders(
                    rows@.take(i as int),
                )[j].0 && runs@[j].1 == reminders(rows@.take(i as int))[j].1 && runs@[j].1 <= i,
        decreases rows.len() - i,
    {
        proof {
            let longer = rows@.take(i + 1);
            assert(longer.drop_last() =~= rows@.take(i as int));
            assert(longer.last() == rows@[i as int]);
            if i > 0 {
                assert(longer[longer.len() - 2] == rows@[i - 1]);
            }
        }
        let ghost before = runs@;
        if i > 0 && rows[i - 1].channel_id == rows[i].channel_id {
            let last = runs.len() - 1;
            let run = runs[last];
            runs.set(last, (run.0, run.1 + 1));
            assert(runs@ =~= before.drop_last().push((run.0, (run.1 + 1) as usize)));
        } else {
            runs.push((rows[i].channel_id as u64, 1));
        }
        i += 1;
    }
    assert(rows@.take(i as int) =~= rows@);
    let mut list: Vec<Reminder> = Vec::new();
    let mut k: usize = 0;
    while k < runs.len()
        invariant
            k <= runs.len(),
            list@.len() == k,
            runs@.len() == reminders(rows@).len(),
            forall|j: int|
                0 <= j < runs@.len() ==> (#[trigger] runs@[j]).0 == reminders(rows@)[j].0
                    && runs@[j].1 == reminders(rows@)[j].1,
            forall|j: int|
                0 <= j < k ==> {
                    &&& (#[trigger] list@[j]).channel == reminders(rows@)[j].0
                    &&& list@[j].count == reminders(rows@)[j].1
                    &&& list@[j].description@ == reminder_text(reminders(rows@)[j].1)
                },
        decreases runs.len() - k,
    {
        let run = runs[k];
        list.push(Reminder { channel: run.0, count: run.1, description: get_description(run.1) });
        k += 1;
    }
    list
}

} // verus!
