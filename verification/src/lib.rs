//! Storage of an assistant runtime.
//!
//! A [`engine::StorageEngine`] holds the tables of a runtime and the bodies of its conversations.
//! A conversation is a file of records, one message a line; the tables say which file counts, how
//! many messages it has and whose they are. An append is announced in the tables, written to its
//! file, and only then entered in the tables, so that a restart at any point can bring it to an
//! end. Tool calls are recorded before they are carried out. Each operation says in its contract
//! what it changes and what it leaves as it is, or why it is refused; the modules whose names end in
//! `laws` state what follows for operations together.
//!
//! Where the engine is kept between two runs of a program is for the program to see to.

pub mod activity_laws;
pub mod append_effect;
pub mod append_laws;
pub mod belonging_laws;
pub mod cascade;
pub mod clear_cleanup;
pub mod compaction_laws;
pub mod conversation;
pub mod copying_laws;
pub mod count_laws;
pub mod deletion_laws;
pub mod emptying_laws;
pub mod engine;
pub mod error;
pub mod exchange_commands;
pub mod exchange_laws;
pub mod exchange_recovery;
pub mod file_laws;
pub mod goal;
pub mod guard_laws;
pub mod history_laws;
pub mod history_recovery;
pub mod idle;
pub mod isolation_laws;
pub mod key_laws;
pub mod keys;
pub mod listing_laws;
pub mod loading_laws;
pub mod management_laws;
pub mod message;
pub mod numbers;
pub mod order;
pub mod pairing_laws;
pub mod path_rewrite;
pub mod paths;
pub mod pending_laws;
pub mod plan_laws;
pub mod reading_laws;
pub mod recall;
pub mod recovery;
pub mod reference_laws;
pub mod relations;
pub mod removal_laws;
pub mod repetition_laws;
pub mod report_laws;
pub mod resource_laws;
pub mod resource_reference;
pub mod restart_laws;
pub mod rewriting_laws;
pub mod rows;
pub mod run_laws;
pub mod run_loading;
pub mod run_projection;
pub mod run_state;
pub mod session_directories;
pub mod session_fork;
pub mod session_history;
pub mod session_loading;
pub mod session_management;
pub mod session_resources;
pub mod session_rewrite;
pub mod session_summaries;
pub mod session_transfer;
pub mod settlement_laws;
pub mod skill;
pub mod skill_laws;
pub mod startup_laws;
pub mod stored_columns;
pub mod storing_laws;
pub mod summary_laws;
pub mod table;
pub mod tally_laws;
pub mod telling_laws;
pub mod text;
pub mod tool_exchange;
pub mod tool_images;
pub mod transfer_laws;
pub mod usage;
pub mod usage_laws;
pub mod work_plan;
pub mod worker;
pub mod worker_laws;
pub mod writing_laws;
