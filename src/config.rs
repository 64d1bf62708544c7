//! Settings of the scanner.
use vstd::prelude::*;

verus! {

/// The whole configuration.
#[derive(Debug, Clone, PartialEq, Eq)]
pub struct Config {
    pub node: NodeConfig,
    pub storage: StorageConfig,
    pub processing: ProcessingConfig,
}

/// How to reach the Bitcoin node.
#[derive(Debug, Clone, PartialEq, Eq)]
pub struct NodeConfig {
    pub rpc_url: String,
    pub rpc_user: String,
    pub rpc_password: String,
    pub max_concurrent_requests: usize,
}

/// Where inscriptions are stored.
#[derive(Debug, Clone, PartialEq, Eq)]
pub struct StorageConfig {
    pub image_dir: String,
    pub text_log: String,
}

/// How blocks are fetched and processed.
#[derive(Debug, Clone, PartialEq, Eq)]
pub struct ProcessingConfig {
    pub parallel_blocks: usize,
    /// How many blocks are fetched and handed to the driver at a time.
    pub batch_size: usize,
}

impl Default for Config {
    /// A local node on the default port, data under `./data`, batches of
    /// 1000 blocks.
    fn default() -> (r: Self)
        ensures
            r.node.rpc_url@ == "http://127.0.0.1:8332"@,
            r.node.rpc_user@ == "user"@,
            r.node.rpc_password@ == "password"@,
            r.node.max_concurrent_requests == 16,
            r.storage.image_dir@ == "./data/images"@,
            r.storage.text_log@ == "./data/inscriptions.log"@,
            r.processing.parallel_blocks == 8,
            r.processing.batch_size == 1000,
    {
        Config {
            node: NodeConfig {
                rpc_url: String::from_str("http://127.0.0.1:8332"),
                rpc_user: String::from_str("user"),
                rpc_password: String::from_str("password"),
                max_concurrent_requests: 16,
            },
            storage: StorageConfig {
                image_dir: String::from_str("./data/images"),
                text_log: String::from_str("./data/inscriptions.log"),
            },
            processing: ProcessingConfig { parallel_blocks: 8, batch_size: 1000 },
        }
    }
}

} // verus!
