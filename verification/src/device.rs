//! [`DeviceBackend`] trait: enumerate physical devices, resolve driver names,
//! poll live status.

use vstd::prelude::*;

use crate::flags::PrinterReason;
use crate::printer::PrinterConfig;

verus! {

/// The media currently loaded in a device, as reported by a live poll. Drives
/// the dynamic `media-ready` / `media-col-ready` IPP attributes.
#[derive(Debug, Clone)]
pub struct ReadyMedia {
    /// PWG self-describing media name (e.g. `om_40x30mm_40x30mm`).
    pub name: String,
    /// Width/height in hundredths of a millimetre (PWG units).
    pub size_hmm: [i32; 2],
    /// PWG media-type keyword (e.g. `labels`).
    pub media_type: String,
}

/// Live status reported by [`DeviceBackend::poll_status`]: the fresh
/// reasons and, when known, the loaded media and remaining supply.
#[derive(Debug, Clone)]
pub struct PollStatus {
    /// Fresh `printer-state-reasons`.
    pub reasons: PrinterReason,
    /// Currently-loaded media, if the device can report it.
    pub ready_media: Option<ReadyMedia>,
    /// Remaining-supply level 0–100, if known.
    pub supply_percent: Option<u8>,
}

impl Default for PollStatus {
    fn default() -> (r: Self)
        ensures
            r.reasons.0 == 0,
            r.ready_media is None,
            r.supply_percent is None,
    {
        PollStatus { reasons: PrinterReason::empty(), ready_media: None, supply_percent: None }
    }
}

impl PollStatus {
    /// Convenience constructor for backends that only report reasons.
    pub fn from_reasons(reasons: PrinterReason) -> (r: Self)
        ensures
            r.reasons == reasons,
            r.ready_media is None,
            r.supply_percent is None,
    {
        PollStatus { reasons, ready_media: None, supply_percent: None }
    }
}

/// A physical device found by [`DeviceBackend::list`].
#[derive(Debug, Clone)]
pub struct DiscoveredDevice {
    /// Human-readable description.
    pub info: String,
    /// Device URI.
    pub uri: String,
    /// IEEE 1284 device-id string.
    pub device_id: String,
}

/// Enumerate physical printers and report their live health. Implemented by
/// the consumer crate for its devices.
pub trait DeviceBackend: Send + Sync {
    /// The devices currently attached, in discovery order.
    fn list(&self) -> Vec<DiscoveredDevice>;

    /// Map a device's IEEE 1284 `device-id` string and URI to a driver name
    /// that this backend recognises; `None` for "this isn't one of mine".
    fn driver_for_device(&self, device_id: &str, device_uri: &str) -> Option<String>;

    /// Query live status for a registered printer. `None` means "no update".
    fn poll_status(&self, config: &PrinterConfig) -> (r: Option<PollStatus>)
        default_ensures
            r is None,
    {
        None
    }

    /// Handle an `Identify-Printer` request: make the device announce itself.
    /// `actions` holds the requested `identify-actions` keywords. Default:
    /// no-op.
    fn identify(&self, config: &PrinterConfig, actions: &[String]) {
    }
}

} // verus!
