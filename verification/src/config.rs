//! The parameters of a run and their validation.

use vstd::prelude::*;

verus! {

/// The number of keys in the corpus of a standard run.
pub const DEFAULT_KEY_COUNT: usize = 10000;

/// The length of each key in a standard run.
pub const DEFAULT_KEY_LEN: usize = 100;

/// The number of buckets in a standard run.
pub const DEFAULT_BUCKET_COUNT: usize = 16;

/// Why a set of parameters was turned down.
#[derive(Clone, Copy, Debug, PartialEq, Eq, Structural)]
pub enum ConfigError {
    /// The number of buckets was zero: no key can be assigned a bucket.
    ZeroBuckets,
}

impl ConfigError {
    /// A description of the error for the operator.
    pub fn message(&self) -> (text: &'static str)
        ensures
            text@ == "bucket count must be greater than zero"@,
    {
        match self {
            ConfigError::ZeroBuckets => "bucket count must be greater than zero",
        }
    }
}

/// The parameters of a run.
#[derive(Clone, Copy, Debug, PartialEq, Eq, Structural)]
pub struct BenchConfig {
    /// The number of keys in the corpus.
    pub key_count: usize,
    /// The length of each key, in characters.
    pub key_len: usize,
    /// The number of buckets the keys are spread over.
    pub bucket_count: usize,
}

impl BenchConfig {
    /// A configuration is valid when it has at least one bucket.
    pub open spec fn wf(&self) -> bool {
        self.bucket_count > 0
    }

    /// Checks the parameters of a run. They are turned down exactly when the
    /// number of buckets is zero; otherwise they are kept as given.
    pub fn new(key_count: usize, key_len: usize, bucket_count: usize) -> (result: Result<
        BenchConfig,
        ConfigError,
    >)
        ensures
            bucket_count == 0 ==> result == Err::<BenchConfig, ConfigError>(
                ConfigError::ZeroBuckets,
            ),
            bucket_count > 0 ==> result == Ok::<BenchConfig, ConfigError>(
                (BenchConfig { key_count, key_len, bucket_count }),
            ),
            result is Ok ==> result->Ok_0.wf(),
    {
        if bucket_count == 0 {
            Err(ConfigError::ZeroBuckets)
        } else {
            Ok(BenchConfig { key_count, key_len, bucket_count })
        }
    }

    /// The parameters of a standard run.
    pub fn standard() -> (config: BenchConfig)
        ensures
            config == (BenchConfig {
                key_count: DEFAULT_KEY_COUNT,
                key_len: DEFAULT_KEY_LEN,
                bucket_count: DEFAULT_BUCKET_COUNT,
            }),
            config.wf(),
    {
        BenchConfig {
            key_count: DEFAULT_KEY_COUNT,
            key_len: DEFAULT_KEY_LEN,
            bucket_count: DEFAULT_BUCKET_COUNT,
        }
    }
}

} // verus!
