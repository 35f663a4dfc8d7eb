//! Verified core of a Telegram sticker-organizing bot: the text formats that
//! travel through callback buttons, inline queries and result ids, with the
//! laws that their texts read back; paging of inline results; command
//! arguments; the button layouts; the SQL text of the tag search; the data
//! export; and the decisions of the update handlers that need neither the
//! bot nor the database.

pub mod chars;
pub mod numbers;
pub mod model;
pub mod emoji;
pub mod errors;
pub mod inline_data;
pub mod callback_data;
pub mod callback_laws;
pub mod inline_laws;
pub mod pagination;
pub mod command;
pub mod privacy;
pub mod result_id;
pub mod query_builder;
pub mod export;
pub mod hidden;
pub mod pragma;
pub mod keyboard;
pub mod tag_layout;
pub mod dialog;
pub mod user_sets;
pub mod guard;
pub mod commands;
pub mod periodic;
pub mod handler_logic;
