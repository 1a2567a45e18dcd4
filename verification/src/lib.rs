//! A TCP SYN half-open scanner core: segment construction, probe
//! classification, interface and source-address selection, scan planning,
//! the task queue of the worker pool and the results of a scan.

pub mod address;
pub mod checksum;
pub mod error;
pub mod interface;
pub mod packet;
pub mod pool;
pub mod ports;
pub mod probe;
pub mod report;
pub mod results;
pub mod scan;
pub mod search;

pub use address::{IpAddress, IpConfig, PortConfig};
pub use checksum::checksum_is_valid;
pub use error::ConfigError;
pub use interface::{get_interface, get_source_ip, Interface};
pub use packet::{build_packet, build_rst_packet};
pub use pool::{WorkQueue, WorkerStep};
pub use ports::{port_parser, PortParseError};
pub use probe::{segment_event, syn_scan, PortState, ProbeAction, ProbeEvent, ProbeState};
pub use report::{port_text, report_line};
pub use results::{ScanEntry, ScanResults};
pub use scan::{fresh_source_port, run_syn_scan, scan_tasks, Args, ProbeTask};
