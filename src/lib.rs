//! A terminal file manager: a directory snapshot engine with stable sorting,
//! directory placement and a selection buffer, and a modal UI state machine
//! whose filesystem work is handed out as requests.

pub mod file_manager;
pub mod order;
pub mod path;
pub mod message;
pub mod popups;
pub mod text_field_popup;
pub mod explorer_table;
pub mod controller;
pub mod paste;
