pub mod api_client;
pub mod auth_manager;
pub mod auth_strategy;
pub mod cells;
pub mod config;
pub mod errors;
pub mod external;
pub mod ident;
pub mod json;
pub mod numeric;
pub mod param;
pub mod sql_type;
pub mod statement;
pub mod string_map;
pub mod temporal;
pub mod text;
