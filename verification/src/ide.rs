//! Web IDE scope model: roles, errors, result records and the text helpers behind
//! formatting, completion and workspace paths.
pub mod format;
pub mod model;
pub mod paths;
pub mod analysis;
pub mod order;
pub mod sessions;
pub mod documents;
pub mod audit;
pub mod positions;
pub mod edits;
pub mod telemetry;
pub mod workspace;
pub mod symbols;
pub mod relocation;
pub mod browse;
pub mod search;
pub mod analysis_refresh;
