//! Settings and records of asset precompilation into a cache directory.
use vstd::prelude::*;
use crate::text::str_eq;

verus! {

/// Format version of the asset cache layout.
pub const ASSET_CACHE_FORMAT_VERSION: u32 = 1;

/// What to precompile, and the atlas page limits.
#[derive(Debug)]
pub struct PrecompileConfig {
    pub max_atlas_width: u32,
    pub max_atlas_height: u32,
    pub atlas_category: String,
    pub compile_atlas: bool,
    pub compile_standalone: bool,
    pub compile_models: bool,
}

impl Default for PrecompileConfig {
    fn default() -> (c: PrecompileConfig)
        ensures
            c.max_atlas_width == 4096,
            c.max_atlas_height == 4096,
            c.atlas_category@ == "all"@,
            c.compile_atlas && c.compile_standalone && c.compile_models,
    {
        PrecompileConfig {
            max_atlas_width: 4096,
            max_atlas_height: 4096,
            atlas_category: "all".to_owned(),
            compile_atlas: true,
            compile_standalone: true,
            compile_models: true,
        }
    }
}

/// Outcome of a precompilation run.
#[derive(Debug)]
pub struct PrecompileResult {
    pub success: bool,
    pub pack_count: usize,
    pub atlas_chunks: usize,
    pub standalone_textures: usize,
    pub baked_models: usize,
    pub fingerprint: String,
    pub cache_dir: String,
}

/// Record written beside a precompiled cache.
#[derive(Debug)]
pub struct CacheManifest {
    pub format_version: u32,
    pub fingerprint: String,
    pub pack_count: usize,
    pub atlas_chunks: usize,
    pub standalone_textures: usize,
    pub baked_models: usize,
    pub created_at_epoch_secs: u64,
}

impl CacheManifest {
    /// Whether the cache was made in the current format from the pack stack with
    /// this fingerprint.
    pub fn is_valid_for(&self, fingerprint: &str) -> (b: bool)
        ensures
            b == (self.format_version == ASSET_CACHE_FORMAT_VERSION && self.fingerprint@ == fingerprint@),
    {
        self.format_version == ASSET_CACHE_FORMAT_VERSION && str_eq(self.fingerprint.as_str(), fingerprint)
    }
}

/// Whether an atlas category setting names one category to build on its own
/// (anything but `all`, `blocks` or nothing), rather than every known category.
pub fn selects_single_atlas_category(category: &str) -> (b: bool)
    ensures
        b == (category@ != "all"@ && category@ != "blocks"@ && category@.len() != 0),
{
    proof {
        reveal_strlit("");
    }
    !str_eq(category, "all") && !str_eq(category, "blocks") && !category.is_empty()
}

} // verus!
