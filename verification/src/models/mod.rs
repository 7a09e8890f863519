pub mod hall_of_fame;
pub mod todo;
