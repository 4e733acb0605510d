//! The state of a commit log view: which commits are listed, selected, marked and highlighted,
//! which lines the view shows, and how the repository is walked to fill it.

pub mod ansi;
pub mod branch;
pub mod commit_id;
pub mod commit_list;
pub mod commit_map;
pub mod commit_set;
pub mod doc_line;
pub mod event_loop;
pub mod graph_cache;
pub mod index_set;
pub mod log_items;
pub mod log_walker;
pub mod marks;
pub mod navigation;
pub mod rows;
pub mod text;
pub mod tracks;
pub mod view;
