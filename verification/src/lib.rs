//! Indexing and search over the conversation logs that local coding-agent
//! command-line tools leave on disk.

pub mod connectors;
pub mod model;
pub mod search;
pub mod seqs;
pub mod storage;
pub mod text;
pub mod ui;
