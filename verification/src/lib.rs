pub mod command_cat;
pub mod command_count;
pub mod command_filter;
pub mod command_list;
pub mod command_pp;
pub mod command_sort;
pub mod command_table;
pub mod command_with;
pub mod json;
pub mod json_stream;
pub mod log_file;
pub mod message;
pub mod summary;
pub mod text;
