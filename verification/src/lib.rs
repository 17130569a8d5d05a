pub mod catalog;
pub mod counts;
pub mod external;
pub mod inputs;
pub mod keyed;
pub mod labels;
pub mod laws;
pub mod picking;
pub mod reports;
pub mod server;
pub mod sync;
pub mod stock_ops;
pub mod store;
pub mod totals;
pub mod tracking;
pub mod types;
