use secubot::commands::hall_of_fame;
use secubot::commands::hall_of_fame::HofData;
use secubot::models::hall_of_fame::{Entry, NewEntry, NewTable, Table};

fn entry(id: i32, user_id: i64, description: Option<&str>, date: &str) -> Entry {
    Entry {
        id,
        hof_id: 1,
        user_id,
        description: description.map(String::from),
        creation_date: String::from(date),
    }
}

fn table(id: i32, guild_id: i64, title: &str) -> Table {
    Table {
        id,
        guild_id,
        title: String::from(title),
        description: None,
        creation_date: String::from("2024-01-01 10:00:00"),
    }
}

fn sorted(mut titles: Vec<String>) -> Vec<String> {
    titles.sort();
    titles.dedup();
    titles
}

#[test]
fn new_rows_borrow_what_they_hold() {
    let guild = 5i64;
    let new = NewTable {
        guild_id: &guild,
        title: "Heroes",
        description: Some(String::from("the best")),
        creation_date: "2024-01-01 10:00:00",
    };
    assert_eq!(*new.guild_id, 5);
    assert_eq!(new.title, "Heroes");
    assert_eq!(new.description.as_deref(), Some("the best"));
    let hof = 2i32;
    let user = 9i64;
    let new = NewEntry { hof_id: &hof, user_id: &user, description: Some("why"), creation_date: "now" };
    assert_eq!(*new.hof_id, 2);
    assert_eq!(*new.user_id, 9);
    assert_eq!(new.description, Some("why"));
    assert_eq!(new.creation_date, "now");
}

#[test]
fn users_are_counted_in_the_order_of_their_first_entry() {
    let entries = vec![
        entry(1, 10, None, "d"),
        entry(2, 20, None, "d"),
        entry(3, 10, None, "d"),
        entry(4, 30, None, "d"),
        entry(5, 10, None, "d"),
        entry(6, 30, None, "d"),
    ];
    assert_eq!(hall_of_fame::count_users(&entries), vec![(10, 3), (20, 1), (30, 2)]);
    assert!(hall_of_fame::count_users(&Vec::new()).is_empty());
}

#[test]
fn ranking_goes_by_falling_count() {
    let entries = vec![
        entry(1, 10, None, "d"),
        entry(2, 20, None, "d"),
        entry(3, 30, None, "d"),
        entry(4, 30, None, "d"),
        entry(5, 20, None, "d"),
        entry(6, 30, None, "d"),
        entry(7, 40, None, "d"),
    ];
    assert_eq!(hall_of_fame::ranking(&entries), vec![(30, 3), (20, 2), (10, 1), (40, 1)]);
    assert!(hall_of_fame::ranking(&Vec::new()).is_empty());
}

#[test]
fn ranking_holds_one_page_at_most() {
    let mut entries = Vec::new();
    let mut id = 0;
    for user in 0..30i64 {
        for _ in 0..(user + 1) {
            id += 1;
            entries.push(entry(id, user, None, "d"));
        }
    }
    let top = hall_of_fame::ranking(&entries);
    assert_eq!(top.len(), 24);
    for (place, (user, count)) in top.iter().enumerate() {
        assert_eq!(*user, 29 - place as i64);
        assert_eq!(*count, 30 - place);
    }
}

#[test]
fn description_says_when_there_are_no_entries() {
    let described = Some(String::from("The best of us"));
    assert_eq!(hall_of_fame::show_hof(&described, false), "The best of us");
    assert_eq!(hall_of_fame::show_hof(&described, true), "The best of us\n\nThere are no entries.");
    assert_eq!(hall_of_fame::show_hof(&None, false), "");
    assert_eq!(hall_of_fame::show_hof(&None, true), "There are no entries.");
    assert_eq!(hall_of_fame::show_hof(&Some(String::new()), true), "There are no entries.");
}

#[test]
fn user_list_shows_the_latest_entry_first() {
    let entries = vec![
        entry(1, 7, Some("first"), "2024-01-01 10:00:00"),
        entry(2, 7, None, "2024-01-02 10:00:00"),
        entry(3, 7, Some("third"), "2024-01-03 10:00:00"),
    ];
    assert_eq!(
        hall_of_fame::show_user("Heroes", 7, &entries),
        "### Heroes entries for <@7>\n- *2024-01-03 10:00:00*: third\n- *2024-01-02 10:00:00*: Missing reason\n- *2024-01-01 10:00:00*: first\n"
    );
    assert_eq!(hall_of_fame::show_user("Heroes", 7, &Vec::new()), "### Heroes entries for <@7>\n");
}

#[test]
fn added_reply_names_user_hall_and_reason() {
    assert_eq!(
        hall_of_fame::add(42, "Heroes", "saved_the_day"),
        "<@42> was added to **Heroes**: _saved the day_"
    );
    assert_eq!(
        hall_of_fame::add(42, "Heroes", "told @everyone"),
        "<@42> was added to **Heroes**: _told @\u{200B}everyone_"
    );
}

#[test]
fn halls_are_read_off_the_rows_guild_by_guild() {
    let rows = vec![table(1, 5, "Heroes"), table(2, 5, "Villains"), table(3, 6, "Cooks"), table(4, 5, "Late")];
    let data = HofData::new(&rows);
    assert_eq!(sorted(data.get_hof_tables(&5)), vec!["Late"]);
    assert_eq!(sorted(data.get_hof_tables(&6)), vec!["Cooks"]);
    assert!(data.get_hof_tables(&7).is_empty());

    let rows = vec![table(1, 5, "Heroes"), table(2, 5, "Villains"), table(3, 5, "Heroes"), table(4, 6, "Cooks")];
    let data = HofData::new(&rows);
    assert_eq!(sorted(data.get_hof_tables(&5)), vec!["Heroes", "Villains"]);
    assert_eq!(sorted(data.get_hof_tables(&6)), vec!["Cooks"]);
}

#[test]
fn a_new_table_is_noted_for_its_guild() {
    let mut data = HofData::new(&Vec::new());
    assert!(data.get_hof_tables(&1).is_empty());
    data.add_table(1, String::from("Heroes"));
    data.add_table(1, String::from("Cooks"));
    data.add_table(1, String::from("Heroes"));
    data.add_table(2, String::from("Other"));
    assert_eq!(sorted(data.get_hof_tables(&1)), vec!["Cooks", "Heroes"]);
    assert_eq!(sorted(data.get_hof_tables(&2)), vec!["Other"]);
}

#[test]
fn autocomplete_keeps_the_titles_that_begin_so() {
    let titles: Vec<String> = ["Heroes", "Helpers", "Cooks", "heroes", "He"].iter().map(|t| t.to_string()).collect();
    assert_eq!(hall_of_fame::autocomplete(&titles, "He"), vec!["Heroes", "Helpers", "He"]);
    assert_eq!(hall_of_fame::autocomplete(&titles, "Her"), vec!["Heroes"]);
    assert_eq!(hall_of_fame::autocomplete(&titles, ""), titles);
    assert!(hall_of_fame::autocomplete(&titles, "x").is_empty());
    assert!(hall_of_fame::autocomplete(&titles, "Heroes!").is_empty());
}

#[test]
fn starts_with_compares_character_by_character() {
    assert!(hall_of_fame::starts_with("", ""));
    assert!(hall_of_fame::starts_with("abc", ""));
    assert!(hall_of_fame::starts_with("abc", "ab"));
    assert!(hall_of_fame::starts_with("abc", "abc"));
    assert!(!hall_of_fame::starts_with("abc", "abcd"));
    assert!(!hall_of_fame::starts_with("abc", "b"));
    assert!(!hall_of_fame::starts_with("", "a"));
    assert!(hall_of_fame::starts_with("éa", "é"));
}

#[test]
fn description_of_a_new_hall_is_trimmed() {
    assert_eq!(hall_of_fame::create(Some("  the best \n")), Some(String::from("the best")));
    assert_eq!(hall_of_fame::create(Some("the best")), Some(String::from("the best")));
    assert_eq!(hall_of_fame::create(Some(" \t\n ")), None);
    assert_eq!(hall_of_fame::create(Some("")), None);
    assert_eq!(hall_of_fame::create(None), None);
}
