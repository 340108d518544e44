use vstd::prelude::*;

pub mod aggregate;
pub mod config;
pub mod db;
pub mod escape;
pub mod event;
pub mod exit;
pub mod mcp_config;
pub mod mcp_waste;
pub mod model_hint;
pub mod order;
pub mod pathname;
pub mod paths;
pub mod privacy;
pub mod refs;
pub mod selector;
pub mod serve;
pub mod session;
pub mod sidecar;
pub mod since;
pub mod table;
pub mod text;
pub mod tools_changed;
pub mod waste_report;

verus! {

} // verus!
