//! Analyses of the decoded packet stream.

pub mod analyzer;
pub mod chat;
pub mod battle_controller;

pub use analyzer::{Analyzer, AnalyzerAdapter, AnalyzerBuilder, AnalyzerMut, AnalyzerMutBuilder};
pub mod decoder;
pub mod mapping;
pub mod packet_dump;
pub mod summary;
pub mod survey;
