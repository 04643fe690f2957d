//! A verified todo-list library: a task store with create/read/update/delete
//! operations over a model of the backing table, together with the
//! command-selection and output-rendering logic of the command-line front end.

mod cli;
mod render;
mod store;
mod task;

pub use cli::Command;
pub use cli::select_command;
pub use cli::selected_command;

pub use render::confirmation_line;
pub use render::dec_digits;
pub use render::dec_int;
pub use render::digit_char;
pub use render::format_added;
pub use render::format_completed;
pub use render::format_deleted;
pub use render::format_i32;
pub use render::format_reopened;
pub use render::render_task_line;
pub use render::struck;
pub use render::task_line;

pub use store::Store;
pub use store::StoreError;
pub use store::StoreModel;
pub use store::add_model;
pub use store::added_task;
pub use store::connect;
pub use store::create_table_model;
pub use store::delete_model;
pub use store::has_task;
pub use store::index_of;
pub use store::lemma_add_distinct_ids;
pub use store::lemma_add_fresh_id;
pub use store::lemma_create_table_idempotent;
pub use store::lemma_delete_idempotent;
pub use store::lemma_status_toggle;
pub use store::set_status;
pub use store::task_with;
pub use store::update_model;
pub use store::view_of_tasks;
pub use store::wf_model;
pub use store::with_status;

pub use task::TaskModel;
pub use task::Todo;
