//! A todo.txt task list: a verified record codec for task lines and a
//! verified interpreter for the short commands that filter, sort and change
//! the list.

pub mod date;
pub mod select;
pub mod text;
pub mod command;
pub mod todo;

pub use command::{execute_command, execute_command_on, Command, CommandResult, ErrorKind, Storage};
pub use date::Date;
pub use todo::{Description, Marker, Todo};
