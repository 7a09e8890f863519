use secubot::commands::todo;
use secubot::commands::todo::{
    EmbedData, PageButton, Pager, Priority, QueryData, QueryError, TodoData, TodoEntry,
    MAX_CONTENT_LENGTH,
};
use secubot::commands::DISCORD_EMBED_FIELDS_LIMIT;
use secubot::models::todo::{NewTodo, Todo};

fn row(channel_id: i64, id: i32) -> Todo {
    Todo {
        channel_id,
        id,
        todo: format!("todo {}", id),
        creation_date: String::from("2024-01-01 10:00:00"),
        completion_date: None,
        assignee: None,
        priority: 0,
    }
}

fn entry(id: i32, priority: i32, completed: bool, assignee: Option<&str>) -> TodoEntry {
    TodoEntry::new(id, assignee.map(String::from), format!("text {}", id), completed, priority)
}

fn ids(entries: &[TodoEntry]) -> Vec<i32> {
    entries.iter().map(|e| e.id).collect()
}

#[test]
fn embed_limit_is_24() {
    assert_eq!(DISCORD_EMBED_FIELDS_LIMIT, 24);
    assert_eq!(MAX_CONTENT_LENGTH, 1024);
}

#[test]
fn priorities_have_numbers_and_names() {
    assert_eq!(Priority::from(0), Priority::Unset);
    assert_eq!(Priority::from(1), Priority::Low);
    assert_eq!(Priority::from(2), Priority::Medium);
    assert_eq!(Priority::from(3), Priority::High);
    assert_eq!(Priority::default(), Priority::Unset);
    for level in 0..4 {
        assert_eq!(Priority::from(level).to_level(), level);
    }
    assert_eq!(Priority::Unset.to_string(), "None");
    assert_eq!(Priority::Low.to_string(), "Low");
    assert_eq!(Priority::Medium.to_string(), "Medium");
    assert_eq!(Priority::High.to_string(), "High");
    assert_eq!(Priority::choices(), vec!["None", "Low", "Medium", "High"]);
}

#[test]
fn models_hold_what_they_are_given() {
    let channel = 7i64;
    let id = 3i32;
    let new = NewTodo {
        channel_id: &channel,
        id: &id,
        todo: "write tests",
        creation_date: "2024-01-01 10:00:00",
        assignee: Some(9),
        priority: 2,
    };
    assert_eq!(*new.channel_id, 7);
    assert_eq!(*new.id, 3);
    assert_eq!(new.todo, "write tests");
    assert_eq!(new.assignee, Some(9));
    assert_eq!(new.priority, 2);
    let r = row(1, 2);
    assert_eq!(r.todo, "todo 2");
    assert_eq!(r.completion_date, None);
}

#[test]
fn next_ids_follow_the_greatest_id_of_each_channel() {
    let rows = vec![row(1, 0), row(1, 5), row(1, 2), row(2, 9), row(3, 0)];
    let mut data = TodoData::new(&rows);
    assert_eq!(data.peek(1), Some(6));
    assert_eq!(data.peek(2), Some(10));
    assert_eq!(data.peek(3), Some(1));
    assert_eq!(data.peek(4), None);
    assert_eq!(data.get_id(1), 6);
    assert_eq!(data.get_id(1), 7);
    assert_eq!(data.peek(1), Some(8));
    assert_eq!(data.peek(2), Some(10));
}

#[test]
fn the_last_run_of_a_channel_decides() {
    let rows = vec![row(1, 8), row(2, 1), row(1, 3)];
    let data = TodoData::new(&rows);
    assert_eq!(data.peek(1), Some(4));
    assert_eq!(data.peek(2), Some(2));
}

#[test]
fn channels_with_the_sign_bit_keep_their_bits() {
    let rows = vec![row(-1, 4)];
    let data = TodoData::new(&rows);
    assert_eq!(data.peek(u64::MAX), Some(5));
}

#[test]
fn unknown_channel_counts_from_zero() {
    let mut data = TodoData::new(&Vec::new());
    assert_eq!(data.peek(5), None);
    assert_eq!(data.get_id(5), 0);
    assert_eq!(data.get_id(5), 1);
    assert_eq!(data.get_id(6), 0);
    assert_eq!(data.peek(5), Some(2));
}

#[test]
fn ids_wrap_round_behind_the_greatest() {
    let rows = vec![row(1, i32::MAX - 1)];
    let mut data = TodoData::new(&rows);
    assert_eq!(data.get_id(1), i32::MAX);
    assert_eq!(data.get_id(1), i32::MIN);
    assert_eq!(data.get_id(1), i32::MIN + 1);
}

#[test]
fn entry_of_a_row_is_completed_if_the_row_has_a_date() {
    let mut done = row(1, 4);
    done.completion_date = Some(String::from("2024-02-02 12:00:00"));
    done.priority = 3;
    let e = TodoEntry::from_row(done, Some(String::from("nick")));
    assert_eq!(e.id, 4);
    assert_eq!(e.text, "todo 4");
    assert!(e.completed);
    assert_eq!(e.priority, 3);
    assert_eq!(e.assignee.as_deref(), Some("nick"));
    let e = TodoEntry::from_row(row(1, 5), None);
    assert!(!e.completed);
    assert_eq!(e.assignee, None);
}

#[test]
fn title_says_what_is_listed() {
    let mut query = QueryData { completed: false, todo_assignee: None, sort_by_priority: false };
    assert_eq!(todo::get_title(&query), "TODOs");
    query.completed = true;
    assert_eq!(todo::get_title(&query), "TODOs (w/ completed)");
    query.sort_by_priority = true;
    assert_eq!(todo::get_title(&query), "TODOs (w/ completed) (sorted by priority)");
    query.todo_assignee = Some(String::from("ann"));
    assert_eq!(
        todo::get_title(&query),
        "TODOs assigned to ann (w/ completed) (sorted by priority)"
    );
    query.completed = false;
    query.sort_by_priority = false;
    assert_eq!(todo::get_title(&query), "TODOs assigned to ann");
}

#[test]
fn footer_counts_what_is_not_completed() {
    let fields = vec![
        entry(1, 0, false, None),
        entry(2, 0, true, None),
        entry(3, 0, false, None),
        entry(4, 0, false, None),
    ];
    assert_eq!(todo::get_footer(&fields, 0, 2), "Page 1/2: 3 uncompleted TODOs");
    assert_eq!(todo::get_footer(&fields, 1, 2), "Page 2/2: 3 uncompleted TODOs");
    assert_eq!(todo::get_footer(&Vec::new(), 0, 0), "Page 1/0: 0 uncompleted TODOs");
}

#[test]
fn entry_titles_show_id_priority_state_and_assignee() {
    assert_eq!(todo::get_entry_title(&entry(5, 0, false, None)), "[ 5 ]");
    assert_eq!(todo::get_entry_title(&entry(5, 1, false, None)), "[ 5 ] Low");
    assert_eq!(todo::get_entry_title(&entry(5, 2, true, None)), "[ 5 ] Medium [DONE]");
    assert_eq!(todo::get_entry_title(&entry(5, 3, true, Some("bob"))), "[ 5 ] High [DONE] - bob");
    assert_eq!(todo::get_entry_title(&entry(-12, 0, false, Some("bob"))), "[ -12 ] - bob");
    assert_eq!(todo::get_entry_title(&entry(i32::MIN, 0, true, None)), "[ -2147483648 ] [DONE]");
}

#[test]
fn pages_hold_24_entries() {
    let fields: Vec<TodoEntry> = (0..30).map(|i| entry(i, i % 4, i % 2 == 0, None)).collect();
    let first = todo::get_embed_data(&fields, 0);
    assert_eq!(first.len(), 24);
    assert_eq!(first[0], ("[ 0 ] [DONE]".to_string(), "text 0".to_string(), false));
    assert_eq!(first[1], ("[ 1 ] Low".to_string(), "text 1".to_string(), false));
    assert_eq!(first[23], ("[ 23 ] High".to_string(), "text 23".to_string(), false));
    let second = todo::get_embed_data(&fields, 1);
    assert_eq!(second.len(), 6);
    assert_eq!(second[0], ("[ 24 ] [DONE]".to_string(), "text 24".to_string(), false));
    assert_eq!(second[5], ("[ 29 ] Low".to_string(), "text 29".to_string(), false));
    assert!(todo::get_embed_data(&fields, 2).is_empty());
    assert!(todo::get_embed_data(&fields, 100).is_empty());
    assert!(todo::get_embed_data(&Vec::new(), 0).is_empty());
}

#[test]
fn pager_counts_pages_and_goes_round() {
    assert_eq!(Pager::new(1), Pager { page: 0, pages: 1 });
    assert_eq!(Pager::new(24), Pager { page: 0, pages: 1 });
    assert_eq!(Pager::new(25), Pager { page: 0, pages: 2 });
    assert_eq!(Pager::new(48), Pager { page: 0, pages: 2 });
    assert_eq!(Pager::new(49), Pager { page: 0, pages: 3 });

    let mut pager = Pager::new(49);
    pager.press(PageButton::Previous);
    assert_eq!(pager.page, 2);
    pager.press(PageButton::Previous);
    assert_eq!(pager.page, 1);
    pager.press(PageButton::Next);
    assert_eq!(pager.page, 2);
    pager.press(PageButton::Next);
    assert_eq!(pager.page, 0);
    pager.press(PageButton::Next);
    assert_eq!(pager.page, 1);
    assert_eq!(pager.pages, 3);

    let mut single = Pager::new(3);
    single.press(PageButton::Next);
    assert_eq!(single.page, 0);
    single.press(PageButton::Previous);
    assert_eq!(single.page, 0);
}

#[test]
fn sorting_by_priority_keeps_the_order_of_equals() {
    let entries = vec![
        entry(1, 0, false, None),
        entry(2, 3, false, None),
        entry(3, 1, false, None),
        entry(4, 3, false, None),
        entry(5, 0, false, None),
        entry(6, 2, false, None),
        entry(7, 1, false, None),
    ];
    let sorted = todo::sort_by_priority(entries);
    assert_eq!(ids(&sorted), vec![2, 4, 6, 3, 7, 1, 5]);
    assert!(todo::sort_by_priority(Vec::new()).is_empty());
    let sorted = todo::sort_by_priority(vec![entry(1, -5, false, None), entry(2, i32::MIN, false, None), entry(3, i32::MAX, false, None)]);
    assert_eq!(ids(&sorted), vec![3, 1, 2]);
}

#[test]
fn list_shows_fields_or_says_why_not() {
    let query = QueryData { completed: false, todo_assignee: None, sort_by_priority: false };
    let sorted = QueryData { completed: false, todo_assignee: None, sort_by_priority: true };
    match todo::get_todos(Ok(vec![entry(1, 0, false, None), entry(2, 2, false, None)]), &query) {
        EmbedData::Fields(fields) => assert_eq!(ids(&fields), vec![1, 2]),
        other => panic!("unexpected: {:?}", other),
    }
    match todo::get_todos(Ok(vec![entry(1, 0, false, None), entry(2, 2, false, None)]), &sorted) {
        EmbedData::Fields(fields) => assert_eq!(ids(&fields), vec![2, 1]),
        other => panic!("unexpected: {:?}", other),
    }
    match todo::get_todos(Ok(Vec::new()), &sorted) {
        EmbedData::Text(text) => assert_eq!(text, "There are no incompleted TODOs in this channel."),
        other => panic!("unexpected: {:?}", other),
    }
    match todo::get_todos(Err(QueryError::NotFound), &query) {
        EmbedData::Text(text) => assert_eq!(text, "Not found."),
        other => panic!("unexpected: {:?}", other),
    }
    match todo::get_todos(Err(QueryError::Failed), &query) {
        EmbedData::Text(text) => assert_eq!(text, "Listing TODOs failed."),
        other => panic!("unexpected: {:?}", other),
    }
}

#[test]
fn replies_name_the_todo_in_monospace() {
    let found: Result<String, QueryError> = Ok(String::from("buy `milk`"));
    assert_eq!(todo::delete(3, &found), "TODO [3] (`buy 'milk'`) deleted.");
    assert_eq!(todo::complete(3, &found), "TODO [3] (`buy 'milk'`) completed.");
    assert_eq!(todo::uncomplete(3, &found), "TODO [3] (`buy 'milk'`) uncompleted.");
    assert_eq!(todo::assign(3, Some("ann"), &found), "TODO [3] (`buy 'milk'`) reassigned to ann.");
    assert_eq!(todo::assign(3, None, &found), "TODO [3] (`buy 'milk'`) reassigned to no one.");
    assert_eq!(todo::rmove(3, "general", &found), "TODO [3] (`buy 'milk'`) moved to general.");
    assert_eq!(todo::edit(3, &found), "TODO [3] edited to (`buy 'milk'`).");
    assert_eq!(
        todo::set_priority(3, Priority::High, &found),
        "TODO [3] (`buy 'milk'`) new priority is High."
    );
    assert_eq!(
        todo::set_priority(-3, Priority::Unset, &found),
        "TODO [-3] (`buy 'milk'`) new priority is None."
    );
}

#[test]
fn replies_make_mentions_of_everyone_harmless() {
    let found: Result<String, QueryError> = Ok(String::from("ping @everyone at discord.gg/x"));
    assert_eq!(
        todo::delete(1, &found),
        "TODO [1] (`ping @\u{200B}everyone at discord\u{2024}gg/x`) deleted."
    );
}

#[test]
fn replies_say_when_there_is_no_such_todo() {
    let missing: Result<String, QueryError> = Err(QueryError::NotFound);
    assert_eq!(todo::delete(3, &missing), "Not found.");
    assert_eq!(todo::complete(3, &missing), "Not found.");
    assert_eq!(todo::uncomplete(3, &missing), "Not found.");
    assert_eq!(todo::assign(3, None, &missing), "Not found.");
    assert_eq!(todo::rmove(3, "general", &missing), "Not found.");
    assert_eq!(todo::edit(3, &missing), "Not found.");
    assert_eq!(todo::set_priority(3, Priority::Low, &missing), "Not found.");
    assert_eq!(todo::add(3, "x", None, Err(QueryError::NotFound)), "Not found.");
}

#[test]
fn replies_say_what_failed() {
    let failed: Result<String, QueryError> = Err(QueryError::Failed);
    assert_eq!(todo::delete(3, &failed), "Deleting TODO failed.");
    assert_eq!(todo::complete(3, &failed), "Completing TODO failed.");
    assert_eq!(todo::uncomplete(3, &failed), "Uncompleting TODO failed.");
    assert_eq!(todo::assign(3, None, &failed), "Assigning TODO failed.");
    assert_eq!(todo::rmove(3, "general", &failed), "Moving TODO failed.");
    assert_eq!(todo::edit(3, &failed), "Adding TODO failed.");
    assert_eq!(todo::set_priority(3, Priority::Low, &failed), "Assigning TODO failed.");
    assert_eq!(todo::add(3, "x", None, Err(QueryError::Failed)), "Adding TODO failed.");
}

#[test]
fn add_names_the_new_todo_and_its_assignee() {
    assert_eq!(
        todo::add(0, "write `tests`", None, Ok(())),
        "TODO [0] (`write 'tests'`) added and assigned to no one."
    );
    assert_eq!(
        todo::add(12, "write tests", Some("ann"), Ok(())),
        "TODO [12] (`write tests`) added and assigned to ann."
    );
}

#[test]
fn content_of_more_than_1024_bytes_is_turned_down() {
    let long = "a".repeat(1025);
    let fits = "a".repeat(1024);
    let wide = "é".repeat(513);
    let too_long = "Content can't have more than 1024 characters.";
    assert_eq!(todo::add(1, &long, None, Ok(())), too_long);
    assert_eq!(todo::add(1, &long, None, Err(QueryError::Failed)), too_long);
    assert_eq!(todo::add(1, &wide, None, Ok(())), too_long);
    assert_eq!(
        todo::add(1, &fits, None, Ok(())),
        format!("TODO [1] (`{}`) added and assigned to no one.", fits)
    );
    assert_eq!(todo::edit_text(&long), None);
    assert_eq!(todo::edit_text(&wide), None);
    assert_eq!(todo::edit_text(&fits), Some(fits.clone()));
}

#[test]
fn edited_text_pings_nobody() {
    assert_eq!(todo::edit_text("a@b`c"), Some(String::from("a@\u{200B}b'c")));
    assert_eq!(todo::edit_text(""), Some(String::new()));
    assert_eq!(todo::edit_text("@@``"), Some(String::from("@\u{200B}@\u{200B}''")));
    assert_eq!(todo::edit_text("plain"), Some(String::from("plain")));
}

#[test]
fn members_go_by_their_nickname_if_they_have_one() {
    assert_eq!(todo::get_member_nickname(Some("nick"), "name"), "nick");
    assert_eq!(todo::get_member_nickname(None, "name"), "name");
}
