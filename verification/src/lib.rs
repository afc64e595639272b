//! Workflow specifications for the Torc job orchestrator: parameter expansion,
//! template substitution, validation rules and the API data model.

pub mod text;
pub mod parameters;
pub mod templates;
pub mod combinations;
pub mod models;
pub mod execution;
pub mod patterns;
pub mod workflow_spec;
pub mod variables;
pub mod network;
pub mod json;
pub mod parity;
pub mod workflow;
pub mod validation;
pub mod laws;
pub mod handlers;
pub mod sorted;
pub mod references;
pub mod checks;
pub mod workflow_variables;
pub mod dry_run;
pub mod kdl_write;
pub mod service;
pub mod creation;
pub mod slurm_defaults;
pub mod json_view;
pub mod kdl_read;
pub mod submission;
pub mod resources;
pub mod spec_text;
pub mod tables;
