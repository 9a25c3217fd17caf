//! Columnar storage: column segments with their statistics, and table
//! partitions that hold tightly packed rows column by column.
pub mod zone_map;

pub use zone_map::ZoneMap;
pub mod column_statistics;
pub mod column_segment;
pub mod table_partition;

pub use column_segment::ColumnSegment;
pub use column_statistics::ColumnSegmentStatistics;
pub use table_partition::TablePartition;
