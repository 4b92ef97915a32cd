//! Settings of the immutable archives that hold finalizations and blocks.

use crate::text::append;
use vstd::prelude::*;

verus! {

/// The settings of one immutable archive: the names of its partitions and
/// its sizes.
#[derive(Debug, PartialEq, Eq)]
pub struct ArchiveSettings {
    pub metadata_partition: String,
    pub freezer_table_partition: String,
    pub freezer_table_initial_size: u32,
    pub freezer_table_resize_frequency: u8,
    pub freezer_table_resize_chunk_size: u32,
    pub freezer_key_partition: String,
    pub freezer_key_page_size: u16,
    pub freezer_key_page_cache_size: usize,
    pub freezer_value_partition: String,
    pub freezer_value_target_size: u64,
    pub freezer_value_compression: Option<u8>,
    pub ordinal_partition: String,
    pub items_per_section: u64,
    pub freezer_key_write_buffer: usize,
    pub freezer_value_write_buffer: usize,
    pub ordinal_write_buffer: usize,
    pub replay_buffer: usize,
}

/// `prefix` followed by `suffix`.
fn partition_name(prefix: &str, suffix: &str) -> (name: String)
    ensures
        name@ == prefix@ + suffix@,
{
    let mut name = prefix.to_owned();
    append(&mut name, suffix);
    name
}

/// Sets up immutable archives with sensible defaults.
#[derive(Debug, Clone, Copy)]
pub struct ArchiveInitializer;

impl ArchiveInitializer {
    /// The default initial size of the freezer table.
    pub const DEFAULT_FREEZER_TABLE_INITIAL_SIZE: u32 = 65_536;

    /// The default resize frequency of the freezer table.
    pub const DEFAULT_FREEZER_TABLE_RESIZE_FREQUENCY: u8 = 4;

    /// The default resize chunk size of the freezer table.
    pub const DEFAULT_FREEZER_TABLE_RESIZE_CHUNK_SIZE: u32 = 16_384;

    /// The default target size of freezer values.
    pub const DEFAULT_FREEZER_VALUE_TARGET_SIZE: u64 = 1024;

    /// The default compression level; archives compress their values.
    pub const DEFAULT_COMPRESSION_LEVEL: u8 = 3;

    /// The default number of items per section; never zero.
    pub const DEFAULT_ITEMS_PER_SECTION: u64 = 1024;

    /// The default size of write buffers; never zero.
    pub const DEFAULT_WRITE_BUFFER: usize = 1024;

    /// The default size of the replay buffer; never zero.
    pub const DEFAULT_REPLAY_BUFFER: usize = 1024;

    /// The default page size; never zero.
    pub const DEFAULT_PAGE_SIZE: u16 = 1024;

    /// The default number of cached pages; never zero.
    pub const DEFAULT_PAGE_CACHE_SIZE: usize = 10;

    /// The default partition prefix of the finalizations archive.
    pub const DEFAULT_FINALIZATIONS_PREFIX: &'static str = "finalizations";

    /// The default partition prefix of the blocks archive.
    pub const DEFAULT_BLOCKS_PREFIX: &'static str = "blocks";

    /// The settings of an archive whose partitions are named after `prefix`:
    /// the prefix followed by `-metadata`, `-freezer-table`, `-freezer-key`,
    /// `-freezer-value` and `-ordinal`, and the default sizes.
    pub fn settings(partition_prefix: &str) -> (settings: ArchiveSettings)
        ensures
            settings.metadata_partition@ == partition_prefix@ + "-metadata"@,
            settings.freezer_table_partition@ == partition_prefix@ + "-freezer-table"@,
            settings.freezer_key_partition@ == partition_prefix@ + "-freezer-key"@,
            settings.freezer_value_partition@ == partition_prefix@ + "-freezer-value"@,
            settings.ordinal_partition@ == partition_prefix@ + "-ordinal"@,
            settings.freezer_table_initial_size == 65_536,
            settings.freezer_table_resize_frequency == 4,
            settings.freezer_table_resize_chunk_size == 16_384,
            settings.freezer_key_page_size == 1024,
            settings.freezer_key_page_cache_size == 10,
            settings.freezer_value_target_size == 1024,
            settings.freezer_value_compression == Some(3u8),
            settings.items_per_section == 1024,
            settings.freezer_key_write_buffer == 1024,
            settings.freezer_value_write_buffer == 1024,
            settings.ordinal_write_buffer == 1024,
            settings.replay_buffer == 1024,
    {
        ArchiveSettings {
            metadata_partition: partition_name(partition_prefix, "-metadata"),
            freezer_table_partition: partition_name(partition_prefix, "-freezer-table"),
            freezer_table_initial_size: 65_536,
            freezer_table_resize_frequency: 4,
            freezer_table_resize_chunk_size: 16_384,
            freezer_key_partition: partition_name(partition_prefix, "-freezer-key"),
            freezer_key_page_size: 1024,
            freezer_key_page_cache_size: 10,
            freezer_value_partition: partition_name(partition_prefix, "-freezer-value"),
            freezer_value_target_size: 1024,
            freezer_value_compression: Some(3),
            ordinal_partition: partition_name(partition_prefix, "-ordinal"),
            items_per_section: 1024,
            freezer_key_write_buffer: 1024,
            freezer_value_write_buffer: 1024,
            ordinal_write_buffer: 1024,
            replay_buffer: 1024,
        }
    }

    /// The settings of the finalizations archive, under its default prefix.
    pub fn finalizations_settings() -> (settings: ArchiveSettings)
        ensures
            settings.metadata_partition@ == "finalizations"@ + "-metadata"@,
            settings.ordinal_partition@ == "finalizations"@ + "-ordinal"@,
    {
        ArchiveInitializer::settings("finalizations")
    }

    /// The settings of the blocks archive, under its default prefix.
    pub fn blocks_settings() -> (settings: ArchiveSettings)
        ensures
            settings.metadata_partition@ == "blocks"@ + "-metadata"@,
            settings.ordinal_partition@ == "blocks"@ + "-ordinal"@,
    {
        ArchiveInitializer::settings("blocks")
    }
}

} // verus!
