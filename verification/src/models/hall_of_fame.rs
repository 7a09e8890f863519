use vstd::prelude::*;

verus! {

/// A hall of fame of a guild.
#[derive(Debug)]
pub struct Table {
    pub id: i32,
    pub guild_id: i64,
    pub title: String,
    pub description: Option<String>,
    pub creation_date: String,
}

/// One entry of a hall of fame: a user, and why they are in it.
#[derive(Debug)]
pub struct Entry {
    pub id: i32,
    pub hof_id: i32,
    pub user_id: i64,
    pub description: Option<String>,
    pub creation_date: String,
}

/// A hall of fame to put into the table.
pub struct NewTable<'a> {
    pub guild_id: &'a i64,
    pub title: &'a str,
    pub description: Option<String>,
    pub creation_date: &'a str,
}

/// An entry to put into the table.
pub struct NewEntry<'a> {
    pub hof_id: &'a i32,
    pub user_id: &'a i64,
    pub description: Option<&'a str>,
    pub creation_date: &'a str,
}

} // verus!
