use crate::commands::markup::{mono_safe, push_mono_safe};
use crate::commands::DISCORD_EMBED_FIELDS_LIMIT;
use crate::models::todo::Todo;
use crate::text::{chars_of, decimal_digits, decimal_text, push_decimal, push_signed};
use std::collections::HashMap;
use vstd::multiset::Multiset;
use vstd::prelude::*;

verus! {

broadcast use vstd::std_specs::hash::group_hash_axioms;

/// How urgent a to-do is.
#[derive(Debug, Clone, Copy, PartialEq, Eq, Structural)]
pub enum Priority {
    /// No priority: what a to-do has that was given none. Its name is `None`.
    Unset,
    Low,
    Medium,
    High,
}

impl Default for Priority {
    fn default() -> (priority: Self)
        ensures
            priority == Priority::Unset,
    {
        Priority::Unset
    }
}

impl Priority {
    /// The number that stands for the priority in the table.
    pub open spec fn level(self) -> int {
        match self {
            Priority::Unset => 0,
            Priority::Low => 1,
            Priority::Medium => 2,
            Priority::High => 3,
        }
    }

    /// The priority's name.
    pub open spec fn name(self) -> Seq<char> {
        match self {
            Priority::Unset => "None"@,
            Priority::Low => "Low"@,
            Priority::Medium => "Medium"@,
            Priority::High => "High"@,
        }
    }

    /// The priority that a number of the table stands for.
    pub fn from(value: i32) -> (priority: Self)
        requires
            0 <= value <= 3,
        ensures
            priority.level() == value,
    {
        if value == 0 {
            Priority::Unset
        } else if value == 1 {
            Priority::Low
        } else if value == 2 {
            Priority::Medium
        } else {
            Priority::High
        }
    }

    /// The number that stands for the priority in the table.
    pub fn to_level(self) -> (value: i32)
        ensures
            value == self.level(),
    {
        match self {
            Priority::Unset => 0,
            Priority::Low => 1,
            Priority::Medium => 2,
            Priority::High => 3,
        }
    }

    /// The priority's name.
    pub fn to_string(&self) -> (name: String)
        ensures
            name@ == self.name(),
    {
        match self {
            Priority::Unset => String::from_str("None"),
            Priority::Low => String::from_str("Low"),
            Priority::Medium => String::from_str("Medium"),
            Priority::High => String::from_str("High"),
        }
    }

    /// The names that a user can choose from: each priority's name at the place of its
    /// number.
    pub fn choices() -> (names: Vec<String>)
        ensures
            names@.len() == 4,
            forall|priority: Priority| (#[trigger] names@[priority.level()])@ == priority.name(),
    {
        let names = vec![
            Priority::Unset.to_string(),
            Priority::Low.to_string(),
            Priority::Medium.to_string(),
            Priority::High.to_string(),
        ];
        assert forall|priority: Priority| (#[trigger] names@[priority.level()])@
            == priority.name() by {
            match priority {
                Priority::Unset => {
                    assert(names@[0]@ == Priority::Unset.name());
                },
                Priority::Low => {
                    assert(names@[1]@ == Priority::Low.name());
                },
                Priority::Medium => {
                    assert(names@[2]@ == Priority::Medium.name());
                },
                Priority::High => {
                    assert(names@[3]@ == Priority::High.name());
                },
            }
        }
        names
    }
}

/// A to-do as a list shows it.
#[derive(Debug)]
pub struct TodoEntry {
    pub id: i32,
    pub assignee: Option<String>,
    pub text: String,
    pub completed: bool,
    pub priority: i32,
}

impl TodoEntry {
    /// The entry for a row of the table. `assignee` is the name that the row's assignee goes
    /// by, where the row has one and the name is known.
    pub fn from_row(row: Todo, assignee: Option<String>) -> (entry: Self)
        ensures
            entry.id == row.id,
            entry.assignee == assignee,
            entry.text == row.todo,
            entry.completed == row.completion_date.is_some(),
            entry.priority == row.priority,
    {
        let completed = row.completion_date.is_some();
        Self { id: row.id, assignee, text: row.todo, completed, priority: row.priority }
    }

    pub fn new(id: i32, assignee: Option<String>, text: String, completed: bool, priority: i32) -> (entry:
        Self)
        ensures
            entry.id == id,
            entry.assignee == assignee,
            entry.text == text,
            entry.completed == completed,
            entry.priority == priority,
    {
        Self { id, assignee, text, completed, priority }
    }
}

/// The id that the next to-do of each channel gets, after the rows of the table in the order
/// in which they were read. A channel's rows count run by run: of a channel whose rows
/// stand in several runs, the last run decides. The id is one more than the greatest of the
/// run.
pub open spec fn next_ids(rows: Seq<Todo>) -> Map<u64, int>
    decreases rows.len(),
{
    if rows.len() == 0 {
        Map::empty()
    } else {
        let before = next_ids(rows.drop_last());
        let row = rows.last();
        let channel = row.channel_id as u64;
        if rows.len() >= 2 && rows[rows.len() - 2].channel_id == row.channel_id && before[channel]
            > row.id + 1 {
            before
        } else {
            before.insert(channel, row.id + 1)
        }
    }
}

/// The ids that the next to-dos get, channel by channel.
#[derive(Debug)]
pub struct TodoData {
    iterators: HashMap<u64, i32>,
}

impl View for TodoData {
    type V = Map<u64, i32>;

    closed spec fn view(&self) -> Map<u64, i32> {
        self.iterators@
    }
}

impl TodoData {
    /// Reads the next ids off the rows of the table.
    pub fn new(rows: &Vec<Todo>) -> (data: Self)
        requires
            forall|i: int| 0 <= i < rows.len() ==> (#[trigger] rows@[i]).id < i32::MAX,
        ensures
            data@.dom() == next_ids(rows@).dom(),
            forall|channel: u64| #[trigger]
                data@.contains_key(channel) ==> data@[channel] == next_ids(rows@)[channel],
    {
        let mut iterators: HashMap<u64, i32> = HashMap::new();
        let mut i: usize = 0;
        assert(rows@.take(0) =~= Seq::<Todo>::empty());
        while i < rows.len()
            invariant
                i <= rows.len(),
                forall|j: int| 0 <= j < rows.len() ==> (#[trigger] rows@[j]).id < i32::MAX,
                iterators@.dom() == next_ids(rows@.take(i as int)).dom(),
                forall|channel: u64| #[trigger]
                    iterators@.contains_key(channel) ==> iterators@[channel] == next_ids(
                        rows@.take(i as int),
                    )[channel],
                i > 0 ==> iterators@.contains_key(rows@[i - 1].channel_id as u64),
            decreases rows.len() - i,
        {
            let channel = rows[i].channel_id as u64;
            let next = rows[i].id + 1;
            let same_run = i > 0 && rows[i - 1].channel_id == rows[i].channel_id;
            proof {
                let longer = rows@.take(i + 1);
                assert(longer.drop_last() =~= rows@.take(i as int));
                assert(longer.last() == rows@[i as int]);
                if i > 0 {
                    assert(longer[longer.len() - 2] == rows@[i - 1]);
                }
            }
            let keep = same_run && match iterators.get(&channel) {
                Some(known) => *known > next,
                None => false,
            };
            if !keep {
                iterators.insert(channel, next);
            }
            proof {
                let longer = rows@.take(i + 1);
                assert(iterators@.dom() =~= next_ids(longer).dom());
            }
            i += 1;
        }
        assert(rows@.take(i as int) =~= rows@);
        Self { iterators }
    }

    /// Hands out the channel's next id, and counts on. A channel that is not known starts at
    /// zero. Behind the greatest id the count wraps round.
    pub fn get_id(&mut self, channel: u64) -> (id: i32)
        ensures
            id == if old(self)@.contains_key(channel) {
                old(self)@[channel]
            } else {
                0
            },
            final(self)@ == old(self)@.insert(
                channel,
                if id == i32::MAX {
                    i32::MIN
                } else {
                    (id + 1) as i32
                },
            ),
    {
        let id = match self.iterators.get(&channel) {
            Some(known) => *known,
            None => 0,
        };
        let next = if id == i32::MAX {
            i32::MIN
        } else {
            id + 1
        };
        self.iterators.insert(channel, next);
        id
    }

    /// The id that the channel's next to-do gets, where the channel is known.
    pub fn peek(&self, channel: u64) -> (id: Option<i32>)
        ensures
            id == if self@.contains_key(channel) {
                Some(self@[channel])
            } else {
                None
            },
    {
        match self.iterators.get(&channel) {
            Some(known) => Some(*known),
            None => None,
        }
    }
}

/// What the user asked of a list.
#[derive(Debug)]
pub struct QueryData {
    /// Whether completed to-dos are listed too.
    pub completed: bool,
    /// The name of the member whose to-dos are listed, where only one member's are.
    pub todo_assignee: Option<String>,
    /// Whether the list is sorted by priority.
    pub sort_by_priority: bool,
}

/// The title of a list.
pub open spec fn title_text(query: QueryData) -> Seq<char> {
    "TODOs"@ + (match query.todo_assignee {
        Some(name) => " assigned to "@ + name@,
        None => Seq::empty(),
    }) + (if query.completed {
        " (w/ completed)"@
    } else {
        Seq::empty()
    }) + (if query.sort_by_priority {
        " (sorted by priority)"@
    } else {
        Seq::empty()
    })
}

/// Writes the title of a list: what is listed, and how.
pub fn get_title(query_data: &QueryData) -> (title: String)
    ensures
        title@ == title_text(*query_data),
{
    let mut title = String::from_str("TODOs");
    if let Some(name) = &query_data.todo_assignee {
        title.append(" assigned to ");
        title.append(name.as_str());
    }
    if query_data.completed {
        title.append(" (w/ completed)");
    }
    if query_data.sort_by_priority {
        title.append(" (sorted by priority)");
    }
    assert(title@ =~= title_text(*query_data));
    title
}

/// How many of the first `upto` entries are not completed.
pub open spec fn uncompleted(fields: Seq<TodoEntry>, upto: int) -> nat
    decreases upto,
{
    if upto <= 0 {
        0
    } else {
        uncompleted(fields, upto - 1) + if fields[upto - 1].completed {
            0nat
        } else {
            1nat
        }
    }
}

/// The line below a page of a list.
pub open spec fn footer_text(fields: Seq<TodoEntry>, page: u32, pages: u32) -> Seq<char> {
    "Page "@ + decimal_digits((page + 1) as nat) + "/"@ + decimal_digits(pages as nat) + ": "@
        + decimal_digits(uncompleted(fields, fields.len() as int)) + " uncompleted TODOs"@
}

/// Writes the line below a page of a list: which page of how many, and how many of all the
/// listed to-dos are not completed. Pages count from one.
pub fn get_footer(fields: &Vec<TodoEntry>, page: u32, pages: u32) -> (footer: String)
    requires
        page < u32::MAX,
    ensures
        footer@ == footer_text(fields@, page, pages),
{
    let mut total: usize = 0;
    let mut i: usize = 0;
    while i < fields.len()
        invariant
            i <= fields.len(),
            total == uncompleted(fields@, i as int),
            total <= i,
        decreases fields.len() - i,
    {
        if !fields[i].completed {
            total += 1;
        }
        i += 1;
    }
    let mut footer = String::from_str("Page ");
    push_decimal(&mut footer, (page + 1) as u64);
    footer.append("/");
    push_decimal(&mut footer, pages as u64);
    footer.append(": ");
    push_decimal(&mut footer, total as u64);
    footer.append(" uncompleted TODOs");
    footer
}

/// The heading of a to-do in a list: its id, its priority unless it has none, a mark if it
/// is completed, and who it is assigned to.
pub open spec fn entry_title(entry: TodoEntry) -> Seq<char> {
    "[ "@ + decimal_text(entry.id as int) + " ]"@ + (if entry.priority != 0 {
        " "@ + priority_of(entry.priority).name()
    } else {
        Seq::empty()
    }) + (if entry.completed {
        " [DONE]"@
    } else {
        Seq::empty()
    }) + (match entry.assignee {
        Some(nick) => " - "@ + nick@,
        None => Seq::empty(),
    })
}

/// The priority that a number of the table stands for.
pub open spec fn priority_of(value: i32) -> Priority {
    if value == 1 {
        Priority::Low
    } else if value == 2 {
        Priority::Medium
    } else if value == 3 {
        Priority::High
    } else {
        Priority::Unset
    }
}

/// Whether the priority of every entry is one of the four.
pub open spec fn priorities_known(fields: Seq<TodoEntry>) -> bool {
    forall|i: int| 0 <= i < fields.len() ==> 0 <= (#[trigger] fields[i]).priority <= 3
}

/// Writes the heading of a to-do.
pub fn get_entry_title(entry: &TodoEntry) -> (title: String)
    requires
        0 <= entry.priority <= 3,
    ensures
        title@ == entry_title(*entry),
{
    let mut title = String::from_str("[ ");
    push_signed(&mut title, entry.id as i64);
    title.append(" ]");
    if entry.priority != 0 {
        title.append(" ");
        let name = Priority::from(entry.priority).to_string();
        title.append(name.as_str());
    }
    if entry.completed {
        title.append(" [DONE]");
    }
    if let Some(nick) = &entry.assignee {
        title.append(" - ");
        title.append(nick.as_str());
    }
    assert(title@ =~= entry_title(*entry));
    title
}

/// Where a page of a list begins and ends among the entries.
pub open spec fn page_start(len: nat, page: u32) -> int {
    if page * DISCORD_EMBED_FIELDS_LIMIT <= len {
        page * DISCORD_EMBED_FIELDS_LIMIT
    } else {
        len as int
    }
}

pub open spec fn page_end(len: nat, page: u32) -> int {
    if page * DISCORD_EMBED_FIELDS_LIMIT + DISCORD_EMBED_FIELDS_LIMIT <= len {
        page * DISCORD_EMBED_FIELDS_LIMIT + DISCORD_EMBED_FIELDS_LIMIT
    } else {
        len as int
    }
}

/// The fields of one page of a list: for each of its entries, in order, the heading, the
/// text, and that the field is not shown inline. Pages count from zero here and hold
/// `DISCORD_EMBED_FIELDS_LIMIT` entries each, but for the last; behind the last page there
/// is nothing.
pub fn get_embed_data(fields: &Vec<TodoEntry>, page: u32) -> (data: Vec<(String, String, bool)>)
    requires
        priorities_known(fields@),
        page * DISCORD_EMBED_FIELDS_LIMIT <= u32::MAX,
    ensures
        data@.len() == page_end(fields@.len(), page) - page_start(fields@.len(), page),
        forall|i: int|
            0 <= i < data@.len() ==> {
                let entry = fields@[page_start(fields@.len(), page) + i];
                &&& (#[trigger] data@[i]).0@ == entry_title(entry)
                &&& data@[i].1@ == entry.text@
                &&& !data@[i].2
            },
{
    let skip = page * DISCORD_EMBED_FIELDS_LIMIT;
    let len = fields.len();
    let start: usize = if skip as usize <= len {
        skip as usize
    } else {
        len
    };
    let end: usize = if len - start >= DISCORD_EMBED_FIELDS_LIMIT as usize {
        start + DISCORD_EMBED_FIELDS_LIMIT as usize
    } else {
        len
    };
    assert(start == page_start(fields@.len(), page));
    assert(end == page_end(fields@.len(), page));
    let mut data: Vec<(String, String, bool)> = Vec::new();
    let mut i = start;
    while i < end
        invariant
            start <= i <= end <= fields.len(),
            priorities_known(fields@),
            data@.len() == i - start,
            forall|j: int|
                0 <= j < data@.len() ==> {
                    let entry = fields@[start + j];
                    &&& (#[trigger] data@[j]).0@ == entry_title(entry)
                    &&& data@[j].1@ == entry.text@
                    &&& !data@[j].2
                },
        decreases end - i,
    {
        let title = get_entry_title(&fields[i]);
        data.push((title, fields[i].text.clone(), false));
        i += 1;
    }
    data
}

/// Where the user is in a list of several pages.
#[derive(Debug, Clone, Copy, PartialEq, Eq, Structural)]
pub struct Pager {
    /// The page that is shown, counted from zero.
    pub page: u32,
    /// How many pages there are.
    pub pages: u32,
}

/// A button below a list.
#[derive(Debug, Clone, Copy, PartialEq, Eq, Structural)]
pub enum PageButton {
    Previous,
    Next,
}

/// How many pages a list of `entries` to-dos has.
pub open spec fn page_count(entries: nat) -> int {
    (entries + DISCORD_EMBED_FIELDS_LIMIT - 1) / (DISCORD_EMBED_FIELDS_LIMIT as int)
}

impl Pager {
    /// Whether the shown page is one of the pages.
    pub open spec fn wf(self) -> bool {
        self.page < self.pages
    }

    /// The first page of a list of `entries` to-dos.
    pub fn new(entries: usize) -> (pager: Self)
        requires
            0 < entries,
            page_count(entries as nat) <= u32::MAX,
        ensures
            pager.page == 0,
            pager.pages == page_count(entries as nat),
            pager.wf(),
    {
        let limit = DISCORD_EMBED_FIELDS_LIMIT as usize;
        let full = entries / limit;
        let pages = if entries % limit == 0 {
            full
        } else {
            full + 1
        };
        Self { page: 0, pages: pages as u32 }
    }

    /// The page that a button leads to: the one before or behind the shown one, and round
    /// the ends to the last and to the first.
    pub open spec fn after(self, button: PageButton) -> Pager {
        match button {
            PageButton::Previous => Pager {
                page: if self.page == 0 {
                    (self.pages - 1) as u32
                } else {
                    (self.page - 1) as u32
                },
                pages: self.pages,
            },
            PageButton::Next => Pager {
                page: if self.page + 1 >= self.pages {
                    0
                } else {
                    (self.page + 1) as u32
                },
                pages: self.pages,
            },
        }
    }

    /// Goes where a button leads.
    pub fn press(&mut self, button: PageButton)
        requires
            old(self).wf(),
        ensures
            *final(self) == old(self).after(button),
            final(self).wf(),
    {
        match button {
            PageButton::Previous => {
                self.page = if self.page == 0 {
                    self.pages - 1
                } else {
                    self.page - 1
                };
            },
            PageButton::Next => {
                self.page = if self.page + 1 >= self.pages {
                    0
                } else {
                    self.page + 1
                };
            },
        }
    }
}

/// Where an entry of the given priority goes in a list that is sorted by falling priority:
/// the place of the first entry whose priority is not above it, or the end.
pub open spec fn place_for(list: Seq<TodoEntry>, priority: i32) -> int
    decreases list.len(),
{
    if list.len() == 0 || list[0].priority <= priority {
        0
    } else {
        1 + place_for(list.drop_first(), priority)
    }
}

/// The entries by falling priority. Entries of one priority keep the order that they had.
pub open spec fn by_priority(entries: Seq<TodoEntry>) -> Seq<TodoEntry>
    decreases entries.len(),
{
    if entries.len() == 0 {
        Seq::empty()
    } else {
        let rest = by_priority(entries.drop_first());
        rest.insert(place_for(rest, entries[0].priority), entries[0])
    }
}

/// Whether the priorities of a list fall, or stay, from each entry to the next.
pub open spec fn priorities_fall(list: Seq<TodoEntry>) -> bool {
    forall|i: int, j: int| 0 <= i < j < list.len() ==> list[i].priority >= list[j].priority
}

/// The place for an entry lies in the list or at its end; the entries before it are above
/// the priority, and the entry at it is not.
pub proof fn lemma_place_for(list: Seq<TodoEntry>, priority: i32)
    ensures
        0 <= place_for(list, priority) <= list.len(),
        forall|i: int| 0 <= i < place_for(list, priority) ==> list[i].priority > priority,
        place_for(list, priority) < list.len() ==> list[place_for(list, priority)].priority
            <= priority,
    decreases list.len(),
{
    if list.len() == 0 || list[0].priority <= priority {
    } else {
        let rest = list.drop_first();
        lemma_place_for(rest, priority);
        assert forall|i: int| 0 <= i < place_for(list, priority) implies list[i].priority
            > priority by {
            if i > 0 {
                assert(list[i] == rest[i - 1]);
            }
        }
        if place_for(list, priority) < list.len() {
            assert(list[place_for(list, priority)] == rest[place_for(rest, priority)]);
        }
    }
}

/// Sorting by priority keeps every entry, as often as it was there, and leaves the
/// priorities falling.
pub proof fn lemma_by_priority(entries: Seq<TodoEntry>)
    ensures
        by_priority(entries).len() == entries.len(),
        by_priority(entries).to_multiset() == entries.to_multiset(),
        priorities_fall(by_priority(entries)),
    decreases entries.len(),
{
    broadcast use vstd::seq_lib::group_to_multiset_ensures;

    if entries.len() == 0 {
        assert(by_priority(entries).to_multiset() =~= entries.to_multiset());
    } else {
        let first = entries[0];
        let rest = by_priority(entries.drop_first());
        lemma_by_priority(entries.drop_first());
        lemma_place_for(rest, first.priority);
        let at = place_for(rest, first.priority);
        let out = rest.insert(at, first);
        assert(out.remove(at) =~= rest);
        assert(out[at] == first);
        assert(out.contains(first));
        assert(out.to_multiset() =~= rest.to_multiset().insert(first));
        assert(entries =~= seq![first] + entries.drop_first());
        vstd::seq_lib::lemma_multiset_commutative(seq![first], entries.drop_first());
        assert(seq![first].to_multiset() =~= Multiset::<TodoEntry>::empty().insert(first)) by {
            assert(seq![first] =~= Seq::<TodoEntry>::empty().push(first));
        }
        assert(entries.to_multiset() =~= entries.drop_first().to_multiset().insert(first));
        assert forall|i: int, j: int| 0 <= i < j < out.len() implies out[i].priority
            >= out[j].priority by {
            if i < at && j == at {
            } else if i < at && j > at {
                assert(out[j] == rest[j - 1]);
            } else if i == at {
                assert(out[j] == rest[j - 1]);
                assert(rest[at].priority >= rest[j - 1].priority || at == j - 1);
            } else if i > at {
                assert(out[i] == rest[i - 1] && out[j] == rest[j - 1]);
            }
        }
    }
}

/// Sorts the entries by falling priority. Entries of one priority keep their order.
pub fn sort_by_priority(entries: Vec<TodoEntry>) -> (sorted: Vec<TodoEntry>)
    ensures
        sorted@ == by_priority(entries@),
        sorted@.len() == entries@.len(),
        sorted@.to_multiset() == entries@.to_multiset(),
        priorities_fall(sorted@),
{
    let mut rest = entries;
    let mut sorted: Vec<TodoEntry> = Vec::new();
    let ghost all = rest@;
    assert(all.skip(all.len() as int) =~= Seq::<TodoEntry>::empty());
    while rest.len() > 0
        invariant
            rest@ == all.take(rest@.len() as int),
            rest@.len() <= all.len(),
            sorted@ == by_priority(all.skip(rest@.len() as int)),
        decreases rest.len(),
    {
        let ghost before = rest@.len() as int;
        let entry = rest.pop().unwrap();
        let mut at: usize = 0;
        proof {
            lemma_by_priority(all.skip(before));
            assert(entry == all[before - 1]);
            assert(all.skip(before - 1).drop_first() =~= all.skip(before));
            assert(all.skip(before - 1)[0] == entry);
            assert(rest@ =~= all.take(before - 1));
            assert(sorted@.skip(0) =~= sorted@);
        }
        while at < sorted.len() && sorted[at].priority > entry.priority
            invariant
                at <= sorted.len(),
                place_for(sorted@, entry.priority) == at + place_for(
                    sorted@.skip(at as int),
                    entry.priority,
                ),
            decreases sorted.len() - at,
        {
            assert(sorted@.skip(at as int).drop_first() =~= sorted@.skip(at + 1));
            at += 1;
        }
        assert(sorted@.skip(at as int).len() == 0 || sorted@.skip(at as int)[0].priority
            <= entry.priority);
        sorted.insert(at, entry);
    }
    proof {
        assert(all.skip(0) =~= all);
        lemma_by_priority(all);
    }
    sorted
}

/// What a list shows: a text, or the to-dos.
#[derive(Debug)]
pub enum EmbedData {
    Text(String),
    Fields(Vec<TodoEntry>),
}

/// What a list shows for the rows that the table gave: the to-dos, sorted by priority where
/// that was asked; a text that says that there are none; or a text that says why the table
/// gave nothing.
pub fn get_todos(found: Result<Vec<TodoEntry>, QueryError>, query_data: &QueryData) -> (data:
    EmbedData)
    ensures
        match found {
            Ok(list) => if list@.len() == 0 {
                data matches EmbedData::Text(text) && text@
                    == "There are no incompleted TODOs in this channel."@
            } else {
                data matches EmbedData::Fields(fields) && fields@ == if query_data.sort_by_priority {
                    by_priority(list@)
                } else {
                    list@
                }
            },
            Err(QueryError::NotFound) => data matches EmbedData::Text(text) && text@
                == not_found_text(),
            Err(QueryError::Failed) => data matches EmbedData::Text(text) && text@
                == "Listing TODOs failed."@,
        },
{
    match found {
        Ok(list) => {
            if list.len() == 0 {
                EmbedData::Text(String::from_str("There are no incompleted TODOs in this channel."))
            } else if query_data.sort_by_priority {
                EmbedData::Fields(sort_by_priority(list))
            } else {
                EmbedData::Fields(list)
            }
        },
        Err(QueryError::NotFound) => EmbedData::Text(String::from_str("Not found.")),
        Err(QueryError::Failed) => EmbedData::Text(String::from_str("Listing TODOs failed.")),
    }
}

/// The name that a member goes by: the nickname where they have one, their user name
/// elsewhere.
pub fn get_member_nickname(nick: Option<&str>, name: &str) -> (shown: String)
    ensures
        shown@ == match nick {
            Some(nick) => nick@,
            None => name@,
        },
{
    match nick {
        Some(nick) => String::from_str(nick),
        None => String::from_str(name),
    }
}

/// Why the table gave no row.
#[derive(Debug, Clone, Copy, PartialEq, Eq, Structural)]
pub enum QueryError {
    /// There is no such row.
    NotFound,
    /// The table could not be asked, or refused.
    Failed,
}

/// The longest content that a to-do may have, in bytes.
pub const MAX_CONTENT_LENGTH: usize = 1024;

/// What the user reads whose content is too long.
pub open spec fn too_long_text() -> Seq<char> {
    "Content can't have more than 1024 characters."@
}

/// What the user reads where there is no such to-do.
pub open spec fn not_found_text() -> Seq<char> {
    "Not found."@
}

/// What the user reads after something was done to a to-do: its id, `middle`, its text in
/// monospace and made harmless, and `tail`.
pub open spec fn done_text(id: int, middle: Seq<char>, todo: Seq<char>, tail: Seq<char>) -> Seq<
    char,
> {
    "TODO ["@ + decimal_text(id) + middle + mono_safe(todo) + tail
}

/// What the user reads after the table was asked to change a to-do: what was done, that
/// there is no such to-do, or that it failed.
pub open spec fn reply_text(
    id: int,
    middle: Seq<char>,
    changed: Result<String, QueryError>,
    tail: Seq<char>,
    failed: Seq<char>,
) -> Seq<char> {
    match changed {
        Ok(todo) => done_text(id, middle, todo@, tail),
        Err(QueryError::NotFound) => not_found_text(),
        Err(QueryError::Failed) => failed,
    }
}

fn reply(id: i64, middle: &str, changed: &Result<String, QueryError>, tail: &str, failed: &str) -> (text:
    String)
    ensures
        text@ == reply_text(id as int, middle@, *changed, tail@, failed@),
{
    match changed {
        Ok(todo) => {
            let mut text = String::from_str("TODO [");
            push_signed(&mut text, id);
            text.append(middle);
            push_mono_safe(&mut text, todo.as_str());
            text.append(tail);
            text
        },
        Err(QueryError::NotFound) => String::from_str("Not found."),
        Err(QueryError::Failed) => String::from_str(failed),
    }
}

/// The name of the member that a to-do is assigned to, or `no one`.
pub open spec fn assignee_text(nickname: Option<&str>) -> Seq<char> {
    match nickname {
        Some(name) => name@,
        None => "no one"@,
    }
}

/// What the user reads after a to-do was put into the table, or was not. Content of more
/// than `MAX_CONTENT_LENGTH` bytes is turned down before the table is asked: then `added`
/// says nothing.
pub fn add(new_id: i32, content: &str, nickname: Option<&str>, added: Result<(), QueryError>) -> (text:
    String)
    ensures
        text@ == if content.len() > MAX_CONTENT_LENGTH {
            too_long_text()
        } else {
            match added {
                Ok(()) => done_text(
                    new_id as int,
                    "] ("@,
                    content@,
                    ") added and assigned to "@ + assignee_text(nickname) + "."@,
                ),
                Err(QueryError::NotFound) => not_found_text(),
                Err(QueryError::Failed) => "Adding TODO failed."@,
            }
        },
{
    if content.len() > MAX_CONTENT_LENGTH {
        return String::from_str("Content can't have more than 1024 characters.");
    }
    match added {
        Ok(()) => {
            let mut text = String::from_str("TODO [");
            push_signed(&mut text, new_id as i64);
            text.append("] (");
            push_mono_safe(&mut text, content);
            text.append(") added and assigned to ");
            match nickname {
                Some(name) => text.append(name),
                None => text.append("no one"),
            }
            text.append(".");
            assert(text@ =~= done_text(
                new_id as int,
                "] ("@,
                content@,
                ") added and assigned to "@ + assignee_text(nickname) + "."@,
            ));
            text
        },
        Err(QueryError::NotFound) => String::from_str("Not found."),
        Err(QueryError::Failed) => String::from_str("Adding TODO failed."),
    }
}

/// What the user reads after a to-do was deleted, or was not.
pub fn delete(todo_id: i64, deleted: &Result<String, QueryError>) -> (text: String)
    ensures
        text@ == reply_text(
            todo_id as int,
            "] ("@,
            *deleted,
            ") deleted."@,
            "Deleting TODO failed."@,
        ),
{
    reply(todo_id, "] (", deleted, ") deleted.", "Deleting TODO failed.")
}

/// What the user reads after a to-do was completed, or was not.
pub fn complete(todo_id: i64, completed: &Result<String, QueryError>) -> (text: String)
    ensures
        text@ == reply_text(
            todo_id as int,
            "] ("@,
            *completed,
            ") completed."@,
            "Completing TODO failed."@,
        ),
{
    reply(todo_id, "] (", completed, ") completed.", "Completing TODO failed.")
}

/// What the user reads after a to-do was set back to not completed, or was not.
pub fn uncomplete(todo_id: i64, uncompleted: &Result<String, QueryError>) -> (text: String)
    ensures
        text@ == reply_text(
            todo_id as int,
            "] ("@,
            *uncompleted,
            ") uncompleted."@,
            "Uncompleting TODO failed."@,
        ),
{
    reply(todo_id, "] (", uncompleted, ") uncompleted.", "Uncompleting TODO failed.")
}

/// What the user reads after a to-do was assigned to a member or to no one, or was not.
pub fn assign(todo_id: i64, nickname: Option<&str>, reassigned: &Result<String, QueryError>) -> (text:
    String)
    ensures
        text@ == reply_text(
            todo_id as int,
            "] ("@,
            *reassigned,
            ") reassigned to "@ + assignee_text(nickname) + "."@,
            "Assigning TODO failed."@,
        ),
{
    let mut tail = String::from_str(") reassigned to ");
    match nickname {
        Some(name) => tail.append(name),
        None => tail.append("no one"),
    }
    tail.append(".");
    assert(tail@ =~= ") reassigned to "@ + assignee_text(nickname) + "."@);
    reply(todo_id, "] (", reassigned, tail.as_str(), "Assigning TODO failed.")
}

/// What the user reads after a to-do was moved to another channel, or was not.
pub fn rmove(todo_id: i64, new_channel: &str, moved: &Result<String, QueryError>) -> (text: String)
    ensures
        text@ == reply_text(
            todo_id as int,
            "] ("@,
            *moved,
            ") moved to "@ + new_channel@ + "."@,
            "Moving TODO failed."@,
        ),
{
    let mut tail = String::from_str(") moved to ");
    tail.append(new_channel);
    tail.append(".");
    reply(todo_id, "] (", moved, tail.as_str(), "Moving TODO failed.")
}

/// What the user reads after the text of a to-do was replaced, or was not.
pub fn edit(todo_id: i64, edited: &Result<String, QueryError>) -> (text: String)
    ensures
        text@ == reply_text(
            todo_id as int,
            "] edited to ("@,
            *edited,
            ")."@,
            "Adding TODO failed."@,
        ),
{
    reply(todo_id, "] edited to (", edited, ").", "Adding TODO failed.")
}

/// What the user reads after the priority of a to-do was set, or was not.
pub fn set_priority(todo_id: i64, new_priority: Priority, changed: &Result<String, QueryError>) -> (text:
    String)
    ensures
        text@ == reply_text(
            todo_id as int,
            "] ("@,
            *changed,
            ") new priority is "@ + new_priority.name() + "."@,
            "Assigning TODO failed."@,
        ),
{
    let mut tail = String::from_str(") new priority is ");
    let name = new_priority.to_string();
    tail.append(name.as_str());
    tail.append(".");
    reply(todo_id, "] (", changed, tail.as_str(), "Assigning TODO failed.")
}

/// The text that replaces a to-do's text, made harmless: behind every `@` stands a space
/// of no width, so that the text pings nobody, and every backtick is an apostrophe.
pub open spec fn sanitized(content: Seq<char>) -> Seq<char>
    decreases content.len(),
{
    if content.len() == 0 {
        Seq::empty()
    } else {
        let c = content.last();
        let head = sanitized(content.drop_last());
        if c == '@' {
            head.push('@').push('\u{200B}')
        } else if c == '`' {
            head.push('\'')
        } else {
            head.push(c)
        }
    }
}

/// The text that replaces a to-do's text, made harmless, or nothing where the content has
/// more than `MAX_CONTENT_LENGTH` bytes.
pub fn edit_text(content: &str) -> (text: Option<String>)
    ensures
        match text {
            Some(safe) => content.len() <= MAX_CONTENT_LENGTH && safe@ == sanitized(
                content@,
            ),
            None => content.len() > MAX_CONTENT_LENGTH,
        },
{
    if content.len() > MAX_CONTENT_LENGTH {
        return None;
    }
    let chars = chars_of(content);
    let mut safe = String::new();
    let mut i: usize = 0;
    assert(chars@.take(0) =~= Seq::<char>::empty());
    while i < chars.len()
        invariant
            i <= chars.len(),
            chars@ == content@,
            safe@ == sanitized(chars@.take(i as int)),
        decreases chars.len() - i,
    {
        let c = chars[i];
        proof {
            let longer = chars@.take(i + 1);
            assert(longer.drop_last() =~= chars@.take(i as int));
            assert(longer.last() == c);
        }
        if c == '@' {
            safe.push('@');
            safe.push('\u{200B}');
        } else if c == '`' {
            safe.push('\'');
        } else {
            safe.push(c);
        }
        i += 1;
    }
    assert(chars@.take(i as int) =~= chars@);
    Some(safe)
}

} // verus!
