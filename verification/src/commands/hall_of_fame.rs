use crate::commands::markup::{bold, italic_safe, push_bold, push_italic_safe};
use crate::commands::DISCORD_EMBED_FIELDS_LIMIT;
use crate::models::hall_of_fame::{Entry, Table};
use crate::text::{chars_of, decimal_digits, push_decimal};
use std::collections::HashMap;
use vstd::prelude::*;

verus! {

broadcast use vstd::std_specs::hash::group_hash_axioms;

/// How many entries of a hall of fame name the user.
pub open spec fn count_of(entries: Seq<Entry>, user: i64) -> nat
    decreases entries.len(),
{
    if entries.len() == 0 {
        0
    } else {
        count_of(entries.drop_last(), user) + if entries.last().user_id == user {
            1nat
        } else {
            0nat
        }
    }
}

/// Whether a list names the user.
pub open spec fn names(list: Seq<(i64, usize)>, user: i64) -> bool {
    exists|i: int| 0 <= i < list.len() && (#[trigger] list[i]).0 == user
}

/// Whether a list holds users of a hall of fame, each at most once, and beside each how many
/// entries name them.
pub open spec fn counts_users(list: Seq<(i64, usize)>, entries: Seq<Entry>) -> bool {
    &&& forall|i: int|
        0 <= i < list.len() ==> (#[trigger] list[i]).1 == count_of(entries, list[i].0)
            && list[i].1 > 0
    &&& forall|i: int, j: int|
        0 <= i < j < list.len() ==> (#[trigger] list[i]).0 != (#[trigger] list[j]).0
}

/// Whether the counts of a list fall, or stay, from each place to the next.
pub open spec fn counts_fall(list: Seq<(i64, usize)>) -> bool {
    forall|i: int, j: int|
        0 <= i < j < list.len() ==> (#[trigger] list[i]).1 >= (#[trigger] list[j]).1
}

/// Whether a list is the top of a hall of fame: at most `DISCORD_EMBED_FIELDS_LIMIT` of its
/// users with their counts, by falling count, and nobody who is left out has more entries
/// than one who is in. Which of several users with one count come first, or stay out, is
/// open.
pub open spec fn is_ranking(list: Seq<(i64, usize)>, entries: Seq<Entry>) -> bool {
    &&& counts_users(list, entries)
    &&& counts_fall(list)
    &&& list.len() <= DISCORD_EMBED_FIELDS_LIMIT
    &&& forall|user: i64|
        count_of(entries, user) > 0 && !names(list, user) ==> list.len()
            == DISCORD_EMBED_FIELDS_LIMIT && forall|i: int|
            0 <= i < list.len() ==> (#[trigger] list[i]).1 >= count_of(entries, user)
}

proof fn lemma_count_bounded(entries: Seq<Entry>, user: i64)
    ensures
        count_of(entries, user) <= entries.len(),
    decreases entries.len(),
{
    if entries.len() > 0 {
        lemma_count_bounded(entries.drop_last(), user);
    }
}

/// The users of a hall of fame, each once, and beside each how many entries name them.
pub fn count_users(entries: &Vec<Entry>) -> (list: Vec<(i64, usize)>)
    ensures
        counts_users(list@, entries@),
        forall|user: i64| count_of(entries@, user) > 0 ==> names(list@, user),
{
    let mut list: Vec<(i64, usize)> = Vec::new();
    let mut k: usize = 0;
    assert(entries@.take(0) =~= Seq::<Entry>::empty());
    while k < entries.len()
        invariant
            k <= entries.len(),
            counts_users(list@, entries@.take(k as int)),
            forall|user: i64| count_of(entries@.take(k as int), user) > 0 ==> names(list@, user),
        decreases entries.len() - k,
    {
        let user = entries[k].user_id;
        let ghost seen = entries@.take(k as int);
        let ghost longer = entries@.take(k + 1);
        let ghost before = list@;
        proof {
            assert(longer.drop_last() =~= seen);
            assert(longer.last() == entries@[k as int]);
            lemma_count_bounded(seen, user);
        }
        let mut i: usize = 0;
        while i < list.len() && list[i].0 != user
            invariant
                i <= list.len(),
                forall|j: int| 0 <= j < i ==> (#[trigger] list@[j]).0 != user,
            decreases list.len() - i,
        {
            i += 1;
        }
        if i < list.len() {
            let count = list[i].1;
            list.set(i, (user, count + 1));
            proof {
                assert forall|j: int| 0 <= j < list@.len() implies (#[trigger] list@[j]).1
                    == count_of(longer, list@[j].0) && list@[j].1 > 0 by {
                    if j != i {
                        assert(list@[j] == before[j]);
                        assert(before[j].0 != before[i as int].0);
                    }
                }
                assert forall|a: int, b: int| 0 <= a < b < list@.len() implies (
                #[trigger] list@[a]).0 != (#[trigger] list@[b]).0 by {
                    assert(list@[a].0 == before[a].0 && list@[b].0 == before[b].0);
                }
                assert forall|other: i64| count_of(longer, other) > 0 implies names(
                    list@,
                    other,
                ) by {
                    if other == user {
                        assert(list@[i as int].0 == user);
                    } else {
                        assert(names(before, other));
                        let j = choose|j: int| 0 <= j < before.len() && (#[trigger] before[j]).0
                            == other;
                        assert(list@[j].0 == other);
                    }
                }
            }
        } else {
            proof {
                if count_of(seen, user) > 0 {
                    assert(names(before, user));
                    let j = choose|j: int| 0 <= j < before.len() && (#[trigger] before[j]).0
                        == user;
                    assert(before[j].0 != user);
                }
            }
            list.push((user, 1));
            proof {
                assert forall|j: int| 0 <= j < list@.len() implies (#[trigger] list@[j]).1
                    == count_of(longer, list@[j].0) && list@[j].1 > 0 by {
                    if j < before.len() {
                        assert(list@[j] == before[j]);
                    }
                }
                assert forall|a: int, b: int| 0 <= a < b < list@.len() implies (
                #[trigger] list@[a]).0 != (#[trigger] list@[b]).0 by {
                    assert(list@[a] == before[a]);
                    if b < before.len() {
                        assert(list@[b] == before[b]);
                    }
                }
                assert forall|other: i64| count_of(longer, other) > 0 implies names(
                    list@,
                    other,
                ) by {
                    if other == user {
                        assert(list@[before.len() as int].0 == user);
                    } else {
                        assert(names(before, other));
                        let j = choose|j: int| 0 <= j < before.len() && (#[trigger] before[j]).0
                            == other;
                        assert(list@[j].0 == other);
                    }
                }
            }
        }
        k += 1;
    }
    assert(entries@.take(k as int) =~= entries@);
    list
}

/// The top of a hall of fame: the users with the most entries, by falling count, as many as
/// fit on one page.
pub fn ranking(entries: &Vec<Entry>) -> (top: Vec<(i64, usize)>)
    ensures
        is_ranking(top@, entries@),
{
    let mut left = count_users(entries);
    let mut top: Vec<(i64, usize)> = Vec::new();
    while left.len() > 0 && top.len() < DISCORD_EMBED_FIELDS_LIMIT as usize
        invariant
            counts_users(left@, entries@),
            counts_users(top@, entries@),
            counts_fall(top@),
            top@.len() <= DISCORD_EMBED_FIELDS_LIMIT,
            forall|i: int, j: int|
                0 <= i < top@.len() && 0 <= j < left@.len() ==> (#[trigger] top@[i]).0 != (
                #[trigger] left@[j]).0 && top@[i].1 >= left@[j].1,
            forall|user: i64|
                count_of(entries@, user) > 0 ==> names(left@, user) || names(top@, user),
        decreases left.len(),
    {
        let mut best: usize = 0;
        let mut i: usize = 1;
        while i < left.len()
            invariant
                0 <= best < i <= left.len(),
                forall|j: int| 0 <= j < i ==> left@[best as int].1 >= (#[trigger] left@[j]).1,
            decreases left.len() - i,
        {
            if left[i].1 > left[best].1 {
                best = i;
            }
            i += 1;
        }
        let ghost before_left = left@;
        let ghost before_top = top@;
        let chosen = left.remove(best);
        top.push(chosen);
        proof {
            assert forall|j: int| 0 <= j < left@.len() implies (#[trigger] left@[j]).1
                == count_of(entries@, left@[j].0) && left@[j].1 > 0 && left@[j].0 != chosen.0
                && chosen.1 >= left@[j].1 by {
                if j < best {
                    assert(left@[j] == before_left[j]);
                } else {
                    assert(left@[j] == before_left[j + 1]);
                }
            }
            assert forall|a: int, b: int| 0 <= a < b < left@.len() implies (
            #[trigger] left@[a]).0 != (#[trigger] left@[b]).0 by {
                let a0 = if a < best {
                    a
                } else {
                    a + 1
                };
                let b0 = if b < best {
                    b
                } else {
                    b + 1
                };
                assert(left@[a] == before_left[a0] && left@[b] == before_left[b0]);
            }
            assert forall|j: int| 0 <= j < top@.len() implies (#[trigger] top@[j]).1 == count_of(
                entries@,
                top@[j].0,
            ) && top@[j].1 > 0 by {
                if j < before_top.len() {
                    assert(top@[j] == before_top[j]);
                }
            }
            assert forall|a: int, b: int| 0 <= a < b < top@.len() implies (#[trigger] top@[a]).0
                != (#[trigger] top@[b]).0 && top@[a].1 >= top@[b].1 by {
                assert(top@[a] == before_top[a]);
                if b < before_top.len() {
                    assert(top@[b] == before_top[b]);
                } else {
                    assert(top@[b] == before_left[best as int]);
                }
            }
            assert forall|a: int, b: int|
                0 <= a < top@.len() && 0 <= b < left@.len() implies (#[trigger] top@[a]).0 != (
            #[trigger] left@[b]).0 && top@[a].1 >= left@[b].1 by {
                let b0 = if b < best {
                    b
                } else {
                    b + 1
                };
                assert(left@[b] == before_left[b0]);
                if a < before_top.len() {
                    assert(top@[a] == before_top[a]);
                }
            }
            assert forall|user: i64| count_of(entries@, user) > 0 implies names(left@, user)
                || names(top@, user) by {
                if names(before_top, user) {
                    let j = choose|j: int| 0 <= j < before_top.len() && (
                    #[trigger] before_top[j]).0 == user;
                    assert(top@[j].0 == user);
                } else {
                    assert(names(before_left, user));
                    let j = choose|j: int| 0 <= j < before_left.len() && (
                    #[trigger] before_left[j]).0 == user;
                    if j == best {
                        assert(top@[before_top.len() as int].0 == user);
                    } else if j < best {
                        assert(left@[j].0 == user);
                    } else {
                        assert(left@[j - 1].0 == user);
                    }
                }
            }
        }
    }
    proof {
        assert forall|user: i64| count_of(entries@, user) > 0 && !names(top@, user) implies top@.len()
            == DISCORD_EMBED_FIELDS_LIMIT && forall|i: int|
            0 <= i < top@.len() ==> (#[trigger] top@[i]).1 >= count_of(entries@, user) by {
            assert(names(left@, user));
            let j = choose|j: int| 0 <= j < left@.len() && (#[trigger] left@[j]).0 == user;
            assert forall|i: int| 0 <= i < top@.len() implies (#[trigger] top@[i]).1 >= count_of(
                entries@,
                user,
            ) by {
                assert(top@[i].1 >= left@[j].1);
            }
        }
    }
    top
}

/// What stands above the entries of a hall of fame: its description, and where it has no
/// entries, that it has none, set off from the description.
pub open spec fn description_text(description: Option<Seq<char>>, no_entries: bool) -> Seq<char> {
    let described = match description {
        Some(text) => text,
        None => Seq::empty(),
    };
    if no_entries {
        described + (if described.len() == 0 {
            Seq::empty()
        } else {
            "\n\n"@
        }) + "There are no entries."@
    } else {
        described
    }
}

/// Writes what stands above the entries of a hall of fame.
pub fn show_hof(description: &Option<String>, no_entries: bool) -> (text: String)
    ensures
        text@ == description_text(
            match *description {
                Some(text) => Some(text@),
                None => None,
            },
            no_entries,
        ),
{
    let mut text = match description {
        Some(described) => described.clone(),
        None => String::new(),
    };
    if no_entries {
        if !text.as_str().is_empty() {
            text.append("\n\n");
        }
        text.append("There are no entries.");
    }
    assert(text@ =~= description_text(
        match *description {
            Some(text) => Some(text@),
            None => None,
        },
        no_entries,
    ));
    text
}

/// The line of one entry in a user's list: the day in italics, and the reason, or that none
/// was given.
pub open spec fn entry_line(entry: Entry) -> Seq<char> {
    "- *"@ + entry.creation_date@ + "*: "@ + (match entry.description {
        Some(reason) => reason@,
        None => "Missing reason"@,
    }) + "\n"@
}

/// The lines of the first `upto` entries, the last of them first.
pub open spec fn entry_lines(entries: Seq<Entry>, upto: int) -> Seq<char>
    decreases upto,
{
    if upto <= 0 {
        Seq::empty()
    } else {
        entry_line(entries[upto - 1]) + entry_lines(entries, upto - 1)
    }
}

/// A user's list in a hall of fame: a heading with the title and the user's mention, then
/// the user's entries, the latest first.
pub open spec fn user_text(title: Seq<char>, user: u64, entries: Seq<Entry>) -> Seq<char> {
    "### "@ + title + " entries for <@"@ + decimal_digits(user as nat) + ">\n"@ + entry_lines(
        entries,
        entries.len() as int,
    )
}

/// Writes a user's list in a hall of fame from the user's entries, given in the order of
/// the table.
pub fn show_user(title: &str, user: u64, entries: &Vec<Entry>) -> (text: String)
    ensures
        text@ == user_text(title@, user, entries@),
{
    let mut text = String::from_str("### ");
    text.append(title);
    text.append(" entries for <@");
    push_decimal(&mut text, user);
    text.append(">\n");
    let mut lines = String::new();
    let mut i: usize = 0;
    while i < entries.len()
        invariant
            i <= entries.len(),
            lines@ == entry_lines(entries@, i as int),
        decreases entries.len() - i,
    {
        let mut line = String::from_str("- *");
        line.append(entries[i].creation_date.as_str());
        line.append("*: ");
        match &entries[i].description {
            Some(reason) => line.append(reason.as_str()),
            None => line.append("Missing reason"),
        }
        line.append("\n");
        assert(line@ =~= entry_line(entries@[i as int]));
        line.append(lines.as_str());
        lines = line;
        i += 1;
    }
    text.append(lines.as_str());
    text
}

/// What the user reads after someone was added to a hall of fame: who, to which hall, and
/// why, the reason in italics and made harmless.
pub open spec fn added_text(user: u64, title: Seq<char>, reason: Seq<char>) -> Seq<char> {
    "<@"@ + decimal_digits(user as nat) + "> was added to "@ + bold(title) + ": "@ + italic_safe(
        reason,
    )
}

/// Writes what the user reads after someone was added to a hall of fame.
pub fn add(user: u64, title: &str, reason: &str) -> (text: String)
    ensures
        text@ == added_text(user, title@, reason@),
{
    let mut text = String::from_str("<@");
    push_decimal(&mut text, user);
    text.append("> was added to ");
    push_bold(&mut text, title);
    text.append(": ");
    push_italic_safe(&mut text, reason);
    assert(text@ =~= added_text(user, title@, reason@));
    text
}

/// The titles of a list, as a set.
pub open spec fn titles_of(list: Seq<String>) -> Set<Seq<char>> {
    list.map_values(|title: String| title@).to_set()
}

/// The halls of fame of each guild, after the rows of the table in the order in which they
/// were read. A guild's rows count run by run: of a guild whose rows stand in several runs,
/// the last run decides.
pub open spec fn halls(tables: Seq<Table>) -> Map<u64, Set<Seq<char>>>
    decreases tables.len(),
{
    if tables.len() == 0 {
        Map::empty()
    } else {
        let before = halls(tables.drop_last());
        let row = tables.last();
        let guild = row.guild_id as u64;
        if tables.len() >= 2 && tables[tables.len() - 2].guild_id == row.guild_id {
            before.insert(guild, before[guild].insert(row.title@))
        } else {
            before.insert(guild, set![row.title@])
        }
    }
}

/// The titles of the halls of fame, guild by guild.
#[derive(Debug)]
pub struct HofData {
    hofs: HashMap<u64, Vec<String>>,
}

impl View for HofData {
    type V = Map<u64, Set<Seq<char>>>;

    closed spec fn view(&self) -> Map<u64, Set<Seq<char>>> {
        Map::new(|guild: u64| self.hofs@.contains_key(guild), |guild: u64| titles_of(self.hofs@[guild]@))
    }
}

proof fn lemma_titles_push(list: Seq<String>, title: String)
    ensures
        titles_of(list.push(title)) == titles_of(list).insert(title@),
{
    let f = |title: String| title@;
    assert(list.push(title).map_values(f) =~= list.map_values(f).push(title@));
    list.map_values(f).lemma_push_to_set_commute(title@);
}

impl HofData {
    /// Reads the halls of fame off the rows of the table.
    pub fn new(tables: &Vec<Table>) -> (data: Self)
        ensures
            data@ == halls(tables@),
    {
        let mut hofs: HashMap<u64, Vec<String>> = HashMap::new();
        let mut i: usize = 0;
        assert(tables@.take(0) =~= Seq::<Table>::empty());
        while i < tables.len()
            invariant
                i <= tables.len(),
                hofs@.dom() == halls(tables@.take(i as int)).dom(),
                forall|guild: u64| #[trigger]
                    hofs@.contains_key(guild) ==> titles_of(hofs@[guild]@) == halls(
                        tables@.take(i as int),
                    )[guild],
                i > 0 ==> hofs@.contains_key(tables@[i - 1].guild_id as u64),
            decreases tables.len() - i,
        {
            let guild = tables[i].guild_id as u64;
            let title = tables[i].title.clone();
            let same_run = i > 0 && tables[i - 1].guild_id == tables[i].guild_id;
            proof {
                let longer = tables@.take(i + 1);
                assert(longer.drop_last() =~= tables@.take(i as int));
                assert(longer.last() == tables@[i as int]);
                if i > 0 {
                    assert(longer[longer.len() - 2] == tables@[i - 1]);
                }
            }
            let mut titles: Vec<String> = Vec::new();
            if same_run {
                match hofs.remove(&guild) {
                    Some(known) => {
                        titles = known;
                    },
                    None => {},
                }
            }
            proof {
                lemma_titles_push(titles@, title);
                if !same_run {
                    assert(titles_of(titles@) =~= Set::<Seq<char>>::empty());
                }
            }
            titles.push(title);
            hofs.insert(guild, titles);
            proof {
                let longer = tables@.take(i + 1);
                assert(hofs@.dom() =~= halls(longer).dom());
            }
            i += 1;
        }
        assert(tables@.take(i as int) =~= tables@);
        let data = Self { hofs };
        assert(data@ =~= halls(tables@));
        data
    }

    /// The titles of the guild's halls of fame; none for a guild that is not known.
    pub open spec fn tables_of(&self, guild: u64) -> Set<Seq<char>> {
        if self@.contains_key(guild) {
            self@[guild]
        } else {
            Set::empty()
        }
    }

    /// Notes a new hall of fame of the guild.
    pub fn add_table(&mut self, guild_id: u64, table: String)
        ensures
            final(self)@ == old(self)@.insert(guild_id, old(self).tables_of(guild_id).insert(table@)),
    {
        let mut titles: Vec<String> = match self.hofs.remove(&guild_id) {
            Some(known) => known,
            None => Vec::new(),
        };
        proof {
            lemma_titles_push(titles@, table);
            if !old(self)@.contains_key(guild_id) {
                assert(titles_of(titles@) =~= Set::<Seq<char>>::empty());
            }
        }
        titles.push(table);
        self.hofs.insert(guild_id, titles);
        assert(self@ =~= old(self)@.insert(
            guild_id,
            old(self).tables_of(guild_id).insert(table@),
        ));
    }

    /// The titles of the guild's halls of fame.
    pub fn get_hof_tables(&self, guild_id: &u64) -> (titles: Vec<String>)
        ensures
            titles_of(titles@) == self.tables_of(*guild_id),
    {
        let mut titles: Vec<String> = Vec::new();
        assert(titles_of(titles@) =~= Set::<Seq<char>>::empty());
        match self.hofs.get(guild_id) {
            Some(known) => {
                let mut i: usize = 0;
                assert(known@.take(0) =~= Seq::<String>::empty());
                while i < known.len()
                    invariant
                        i <= known.len(),
                        titles_of(titles@) == titles_of(known@.take(i as int)),
                    decreases known.len() - i,
                {
                    let title = known[i].clone();
                    proof {
                        lemma_titles_push(titles@, title);
                        lemma_titles_push(known@.take(i as int), known@[i as int]);
                        assert(known@.take(i + 1) =~= known@.take(i as int).push(known@[i as int]));
                    }
                    titles.push(title);
                    i += 1;
                }
                assert(known@.take(i as int) =~= known@);
            },
            None => {},
        }
        titles
    }
}

/// Whether `text` begins with `start`.
pub fn starts_with(text: &str, start: &str) -> (does: bool)
    ensures
        does == start@.is_prefix_of(text@),
{
    let whole = chars_of(text);
    let head = chars_of(start);
    if head.len() > whole.len() {
        return false;
    }
    let mut i: usize = 0;
    while i < head.len()
        invariant
            i <= head.len() <= whole.len(),
            whole@ == text@,
            head@ == start@,
            forall|j: int| 0 <= j < i ==> whole@[j] == head@[j],
        decreases head.len() - i,
    {
        if whole[i] != head[i] {
            assert(whole@.subrange(0, head@.len() as int)[i as int] != head@[i as int]);
            return false;
        }
        i += 1;
    }
    assert(whole@.subrange(0, head@.len() as int) =~= head@);
    true
}

/// The titles that begin with what the user has typed so far.
pub fn autocomplete(titles: &Vec<String>, partial: &str) -> (matching: Vec<String>)
    ensures
        titles_of(matching@) == titles_of(titles@).filter(
            |title: Seq<char>| partial@.is_prefix_of(title),
        ),
{
    let mut matching: Vec<String> = Vec::new();
    let ghost wanted = |title: Seq<char>| partial@.is_prefix_of(title);
    let mut i: usize = 0;
    assert(titles@.take(0) =~= Seq::<String>::empty());
    assert(titles_of(matching@) =~= titles_of(titles@.take(0)).filter(wanted));
    while i < titles.len()
        invariant
            i <= titles.len(),
            wanted == |title: Seq<char>| partial@.is_prefix_of(title),
            titles_of(matching@) == titles_of(titles@.take(i as int)).filter(wanted),
        decreases titles.len() - i,
    {
        proof {
            lemma_titles_push(titles@.take(i as int), titles@[i as int]);
            assert(titles@.take(i + 1) =~= titles@.take(i as int).push(titles@[i as int]));
        }
        if starts_with(titles[i].as_str(), partial) {
            let title = titles[i].clone();
            proof {
                lemma_titles_push(matching@, title);
            }
            matching.push(title);
        }
        assert(titles_of(matching@) =~= titles_of(titles@.take(i + 1)).filter(wanted));
        i += 1;
    }
    assert(titles@.take(i as int) =~= titles@);
    matching
}

/// What std's `str::trim` leaves of a text: the text without the white space at its two
/// ends.
pub uninterp spec fn trimmed(text: Seq<char>) -> Seq<char>;

/// Calls std's `str::trim`, which takes the white space off both ends of a text.
#[verifier::external_body]
pub(crate) fn trim(text: &str) -> (rest: String)
    ensures
        rest@ == trimmed(text@),
{
    text.trim().to_string()
}

/// The description of a new hall of fame: what the user wrote, without the white space at
/// its ends, and none where nothing is left.
pub fn create(description: Option<&str>) -> (kept: Option<String>)
    ensures
        match description {
            Some(written) => if trimmed(written@).len() == 0 {
                kept is None
            } else {
                kept matches Some(text) && text@ == trimmed(written@)
            },
            None => kept is None,
        },
{
    match description {
        Some(written) => {
            let rest = trim(written);
            if rest.as_str().is_empty() {
                None
            } else {
                Some(rest)
            }
        },
        None => None,
    }
}

} // verus!
