pub mod types;
pub mod events;
pub mod snapshot;
pub mod contract_math;
pub mod table;
pub mod storage;
pub mod crypto;
pub mod indexer;
pub mod game_indexer;
pub mod query;
pub mod abi_events;
pub mod deployments;
pub mod wallets;
pub mod client_state;
pub mod ui_state;
pub mod client_config;
pub mod client_loop;
pub mod client_history;
pub mod strap_inventory;
pub mod labels;
pub mod modal_text;
pub mod indexer_start;
pub mod deploy_plan;
