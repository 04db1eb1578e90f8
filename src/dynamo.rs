//! The table operations: each one reads its payload into a request for the store
//! (or a 400 response), and shapes the store's answer into a response.
pub mod types;
pub mod query_table;
pub mod scan_table;
pub mod create_item;
pub mod update_item;
pub mod delete_item;
pub mod execute_statement;
pub mod describe_table;
pub mod continuous_backups;
pub mod time_to_live;
pub mod update_table;
pub mod cloudwatch_metrics;
