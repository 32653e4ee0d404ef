//! Core of a VXLAN-style overlay gateway: frame demultiplexing, egress
//! accounting, throughput statistics and the lifecycle of the virtual
//! interface used for egress.

pub mod args;
pub mod demux;
pub mod link;
pub mod packet;
pub mod pipeline;
pub mod stats;
pub mod tap;
