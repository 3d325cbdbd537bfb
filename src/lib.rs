//! A terminal to-do list: an ordered list of tasks with a selection cursor,
//! a two-mode input discipline, and a flat comma-separated storage format.
//!
//! Everything here is verified: the list operations, the cursor arithmetic,
//! the key handling state machine and the record schema of the backing file.
//! Reading and writing the file, and drawing the terminal, are left to the
//! caller.
use vstd::prelude::*;

pub mod app;
pub mod codec;
pub mod cursor;
pub mod text;
pub mod todo;

pub use todo::Todo;
pub use app::{App, AppView, Key, Step};
pub use codec::{decode_todos, encode_todos, table_rows, todo_from_record, todos_from_rows};
pub use text::{format_u32, is_blank, parse_u32};
