//! The configuration of the plugin.
use vstd::prelude::*;

verus! {

/// The naming server at which service instances are registered.
pub struct ServiceConfig {
    pub server_addr: String,
    pub username: String,
    pub password: String,
    pub namespace: String,
}

/// The service that translates texts.
pub enum TranslatorConfig {
    LibreTranslate { api: String },
    OpenAi { keys: Vec<String> },
}

/// Where models are kept, and how much room they may take in memory.
pub struct ModelsConfig {
    /// The directory that models are brought into.
    pub model_memory_path: String,
    /// The directory that holds all models.
    pub model_path: String,
    /// The room for checkpoints, in gibibytes.
    pub checkpoints_memory_limit: u64,
    /// The room for LoRA models, in gibibytes.
    pub loras_memory_limit: u64,
}

/// What the configuration file says.
pub struct Config {
    pub nacos_service_config: ServiceConfig,
    pub translator_config: TranslatorConfig,
    pub models_config: ModelsConfig,
}

/// The bytes of a gibibyte.
pub const GIB: u64 = 1073741824;

/// The bytes of so many gibibytes.
pub open spec fn in_bytes(gibibytes: u64) -> int {
    gibibytes * GIB
}

impl ModelsConfig {
    /// Whether the room for checkpoints can be counted in bytes.
    pub open spec fn checkpoints_limit_fits(&self) -> bool {
        in_bytes(self.checkpoints_memory_limit) <= u64::MAX
    }

    /// Whether the room for LoRA models can be counted in bytes.
    pub open spec fn loras_limit_fits(&self) -> bool {
        in_bytes(self.loras_memory_limit) <= u64::MAX
    }
}

/// The bytes of `gibibytes`, or nothing where they are more than can be counted.
pub fn checked_bytes(gibibytes: u64) -> (bytes: Option<u64>)
    ensures
        match bytes {
            Some(n) => n == in_bytes(gibibytes),
            None => in_bytes(gibibytes) > u64::MAX,
        },
        match bytes {
            Some(n) => n == gibibytes * 1024 * 1024 * 1024,
            None => gibibytes * 1024 * 1024 * 1024 > u64::MAX,
        },
{
    gibibytes.checked_mul(GIB)
}

/// A gibibyte is 1024 times 1024 times 1024 bytes, and a limit can be counted in bytes where so
/// many times the limit is a number of 64 bits.
pub proof fn law_limits_are_in_gibibytes(models: ModelsConfig)
    ensures
        in_bytes(models.checkpoints_memory_limit) == models.checkpoints_memory_limit * 1024 * 1024
            * 1024,
        in_bytes(models.loras_memory_limit) == models.loras_memory_limit * 1024 * 1024 * 1024,
        models.checkpoints_limit_fits() <==> models.checkpoints_memory_limit * 1024 * 1024 * 1024
            <= u64::MAX,
        models.loras_limit_fits() <==> models.loras_memory_limit * 1024 * 1024 * 1024 <= u64::MAX,
{
}

} // verus!
