//! Kickoutchi: the verified core of a port janitor.
//!
//! The crate holds the decisions of the tool as plain functions over plain
//! values: which process a kill request means, what has to be confirmed and
//! confirmed again before anything is signalled, which watch events pass a
//! filter and in what order they are written, and how the terminal interface
//! moves from state to state.

pub mod text;
pub mod lossy;
pub mod time;
pub mod address;
pub mod model;
pub mod evidence;
pub mod order;
pub mod bags;
pub mod observation;
pub mod protection;
pub mod config;
pub mod query;
pub mod watch_event;
pub mod watch_options;
pub mod option_laws;
pub mod watch_filter;
pub mod watch_gaps;
pub mod sink;
pub mod collector;
pub mod exit;
pub mod watch_output;
pub mod watch_record;
pub mod watch_runtime;
pub mod watch_source;
pub mod watch_commands;
pub mod watch_emit;
pub mod watch_loop;
pub mod signal;
pub mod ports;
pub mod process;
pub mod operations;
pub mod kill;
pub mod answer;
pub mod tree;
pub mod banner;
pub mod scoped;
pub mod scoped_group;
pub mod prompts;
pub mod windows_report;
pub mod windows_tree;
pub mod scope_laws;
pub mod projection;
pub mod native;
pub mod canonical;
pub mod passes;
pub mod merge;
pub mod metadata;
pub mod resolve;
pub mod snapshot;
pub mod collection;
pub mod input;
pub mod app_state;
pub mod app_query;
pub mod app_refresh;
pub mod app_kill;
pub mod app_execute;
pub mod app_tree;
pub mod app_actions;
pub mod key_laws;
pub mod table_laws;
pub mod process_laws;
pub mod kill_laws;
pub mod scoped_laws;
pub mod filter_laws;
pub mod record_laws;
pub mod loop_laws;
pub mod prompt_laws;
pub mod refresh_laws;
pub mod evidence_laws;
pub mod row_laws;
pub mod ending_laws;
