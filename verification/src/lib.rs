//! Classification and synchronisation engine of a host-resident file agent.
//!
//! The agent keeps one record per tracked file, scores each file against a
//! rule set, follows filesystem notifications, and registers with a hub.
//! This library holds what the agent decides: the rule engine
//! ([`tidy_rules`], [`tidy_algo`], [`rule_file`]), the metadata store
//! ([`my_files`]), the event normaliser ([`events`]) and the hub client
//! ([`hub`]), with the settings and the status that go with them. Every
//! function carries a contract. Verus proves them all but those of the few
//! functions that wrap a call into another crate or into the standard
//! library; these say so. Reading files, watching directories and talking
//! to the network are left to the program that uses the library.

pub mod agent_data;
pub mod configuration;
pub mod events;
pub mod file_info;
pub mod file_query;
pub mod hub;
pub mod logging;
pub mod my_files;
pub mod rule_file;
pub mod text;
pub mod tidy_algo;
pub mod tidy_rules;
