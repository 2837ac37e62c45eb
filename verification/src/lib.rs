pub mod broker;
pub mod hard_tools;
pub mod json;
pub mod laws;
pub mod manifest;
pub mod names;
pub mod numeral;
pub mod paths;
pub mod routes;
pub mod server;
pub mod startup;
pub mod telemetry;
pub mod text;
pub mod trace;
