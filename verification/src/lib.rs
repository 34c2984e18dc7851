//! Iceberg table commits.
pub mod commit_exec;
pub mod commit_laws;
pub mod commit_run;
pub mod commit_state;
pub mod content;
pub mod content_laws;
pub mod error;
pub mod error_laws;
pub mod fault_laws;
pub mod identifier;
pub mod input_laws;
pub mod live_files;
pub mod location;
pub mod message_laws;
pub mod ordered;
pub mod overwrite_laws;
pub mod plan_builder;
pub mod plan_laws;
pub mod property_laws;
pub mod python_error;
pub mod python_laws;
pub mod requirement_laws;
pub mod requirements;
pub mod snapshot_properties;
pub mod step_laws;
pub mod table;
pub mod table_changes;
pub mod table_laws;
pub mod table_writer;
pub mod task_files;
pub mod text;
pub mod text_laws;
pub mod text_map;
pub mod value_laws;
pub mod writer_laws;
