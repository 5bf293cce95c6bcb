//! IPP Everywhere printer-application core: printer-state-reason flags,
//! printer and job records, the IPP attribute sets a printer advertises, the
//! request checks and job life cycle of the IPP handler, and the status-poll
//! and spooler decisions.

pub mod flags;
pub mod datetime;
pub mod server;
pub mod text;
pub mod device;
pub mod printer;
pub mod raster;
pub mod message;
pub mod job;
pub mod attributes;
pub mod status;
pub mod mdns;
pub mod request;
pub mod dispatch;
pub mod wire;

pub use device::{DeviceBackend, DiscoveredDevice, PollStatus, ReadyMedia};
pub use flags::PrinterReason;
pub use job::{JobId, JobRecord, JobRegistry, JobState};
pub use printer::{IppPrinterState, PrinterConfig, PrinterHandle, PrinterRecord};
pub use raster::{JobFailure, JobOptions, JobOutcome, RasterDriver};
pub use status::AdvertiserControl;
