/// IDs of blocks and codes of the records inside them.
pub mod blocks;
/// Flags and values found in records.
pub mod enums;
