use vstd::prelude::*;

verus! {

/// The name that a member goes by: the nickname where they have one in the guild, their
/// user name elsewhere.
pub fn get_nick_from_member(nick: Option<&str>, name: &str) -> (shown: String)
    ensures
        shown@ == match nick {
            Some(nick) => nick@,
            None => name@,
        },
{
    match nick {
        Some(nick) => String::from_str(nick),
        None => String::from_str(name),
    }
}

} // verus!
