pub mod todo_reminder;
