//! Parsing of World of Warships replay files: the container format, the
//! packet stream, the entity definition scripts that describe it, and the
//! analyses built on top of the decoded packets.

pub mod analyzer;
pub mod broker;
pub mod bytes;
pub mod decxxd;
pub mod error;
pub mod game_params;
pub mod idxpkg;
pub mod investigate;
pub mod nested_property_path;
pub mod packet2;
pub mod replay_info;
pub mod rpc;
pub mod sort;
pub mod survey_results;
pub mod text;
pub mod version;
pub mod wowsreplay;
