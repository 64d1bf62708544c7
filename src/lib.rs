//! Detection and classification of ordinal inscriptions in Bitcoin
//! transactions, and the block-processing pipeline around it.
pub mod script;
pub mod inscription;
pub mod tx;
pub mod parser;
pub mod parallel;
pub mod storage;
pub mod metrics;
pub mod config;
pub mod scan;
