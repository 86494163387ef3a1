//! Lot: the verified kernel of an agent-first film tool.

pub mod text;
pub mod model;
pub mod parse;
pub mod rx;
pub mod error;
pub mod packs;
pub mod show;
pub mod breakdown;
pub mod caps;
pub mod agent;
pub mod detail;
pub mod handoff;
pub mod lock;
pub mod paths;
pub mod dailies;
pub mod digest;
pub mod json;
pub mod version;
pub mod school;
pub mod brain;
pub mod slate;
pub mod stage;
pub mod budget;
pub mod rate;
pub mod finish;
pub mod jail;
pub mod stems;
pub mod stills;
pub mod telemetry;
pub mod audit;
pub mod cancel;
pub mod help;
pub mod doctor;
pub mod motion;
pub mod import;
pub mod plugin;
pub mod resource;
pub mod snapshot;
pub mod undo;
pub mod mcp;
pub mod tools;
pub mod http;
pub mod order;
pub mod summary;
pub mod bay;
