//! Verified core of a command line client for language servers.

pub mod answer_laws;
pub mod application;
pub mod application_laws;
pub mod apply_run;
pub mod bookkeeping_laws;
pub mod capabilities;
pub mod capability_laws;
pub mod chains;
pub mod checks;
pub mod command_laws;
pub mod commands;
pub mod commit_run;
pub mod compose;
pub mod config_checks;
pub mod config_laws;
pub mod config_load;
pub mod config_paths;
pub mod config_routes;
pub mod config_select;
pub mod config_servers;
pub mod config_settings;
pub mod configuration;
pub mod digest;
pub mod dispatch_run;
pub mod documents;
pub mod edit_laws;
pub mod edit_syntax;
pub mod edits;
pub mod failure;
pub mod glob;
pub mod inspection;
pub mod invocation;
pub mod json;
pub mod launch_laws;
pub mod listing_laws;
pub mod manifest;
pub mod mutation_reports;
pub mod observation_laws;
pub mod order;
pub mod os_text;
pub mod owner;
pub mod owner_laws;
pub mod owner_query;
pub mod owner_sessions;
pub mod owner_start;
pub mod path;
pub mod place_laws;
pub mod plan;
pub mod plan_edit;
pub mod plan_laws;
pub mod plan_resources;
pub mod plan_steps;
pub mod plan_tree;
pub mod planner;
pub mod position;
pub mod presentation_laws;
pub mod preview_run;
pub mod proposal_laws;
pub mod proposals;
pub mod query_command;
pub mod query_envelopes;
pub mod query_execute;
pub mod query_inputs;
pub mod query_laws;
pub mod query_results;
pub mod query_run;
pub mod ranking;
pub mod record_copies;
pub mod record_laws;
pub mod records;
pub mod recovery;
pub mod recovery_reports;
pub mod report_laws;
pub mod reports;
pub mod resource_digests;
pub mod result_laws;
pub mod retention_laws;
pub mod rollback;
pub mod rollback_run;
pub mod run_laws;
pub mod setting_laws;
pub mod settings;
pub mod sorted;
pub mod stage_run;
pub mod staging;
pub mod staging_laws;
pub mod state;
pub mod state_laws;
pub mod state_ops;
pub mod state_prune;
pub mod store;
pub mod syntax_laws;
pub mod text;
pub mod timing;
pub mod timing_laws;
pub mod transaction_laws;
pub mod trust;
pub mod trust_commands;
pub mod trust_laws;
pub mod trust_report_laws;
pub mod trust_run;
pub mod undo_laws;
pub mod uri;
