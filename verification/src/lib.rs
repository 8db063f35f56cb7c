//! Windows bootable disk clone via VSS shadow copy.
//!
//! Creates a consistent snapshot of an entire OS disk and streams it via SSH,
//! to a local file, or directly to another physical disk. This library decides
//! what is read, written and shown, and in which order; the program around it
//! carries that out.

pub mod call_laws;
pub mod cli;
pub mod clone_job;
pub mod diagnostic;
pub mod diagnostic_laws;
pub mod diagram;
pub mod diagram_laws;
pub mod diagram_text_laws;
pub mod disk;
pub mod disk_laws;
pub mod double;
pub mod double_laws;
pub mod error;
pub mod image_builder;
pub mod image_laws;
pub mod job_laws;
pub mod local_sink;
pub mod sector_laws;
pub mod setup_laws;
pub mod sink_laws;
pub mod snapshot_setup;
pub mod ssh_sink;
pub mod stream;
pub mod stream_laws;
pub mod text;
pub mod text_laws;
pub mod visual;
pub mod visual_laws;
pub mod vss;
pub mod vss_laws;
pub mod wide;

pub use diagram::{build_diagram_regions, format_diagram_ascii, DiagramRegion, RegionSource};
pub use disk::{
    get_disk_layout, list_physical_disks, open_physical_disk, DiskLayout, PartitionInfo,
    PhysicalDiskInfo, SECTOR_SIZE,
};
pub use error::DiskCloneError;
pub use image_builder::ImageBuilder;
pub use local_sink::{FileSink, LocalDiskSink, ProgressSink};
pub use ssh_sink::{create_ssh_session, SshSink};
pub use vss::VssSnapshot;
