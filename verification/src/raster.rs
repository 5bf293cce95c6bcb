//! [`RasterDriver`] trait and the job outcome a print callback reports.

use vstd::prelude::*;

use crate::flags::PrinterReason;
use crate::printer::PrinterHandle;

verus! {

/// What a print-job callback reports back to the framework, which decides
/// what happens to the job based on it.
#[derive(Debug, Clone)]
pub enum JobOutcome {
    /// The document was printed. The job completes.
    Completed,
    /// The device can't print right now but is expected to recover: the
    /// framework holds the job and retries it, surfacing `reasons`.
    DeviceUnavailable {
        /// Reasons to surface while held.
        reasons: PrinterReason,
    },
    /// Permanent failure for this document. The job aborts.
    Failed(JobFailure),
}

/// Failure of a print job, carrying IPP-visible printer reasons + a message.
#[derive(Debug, Clone)]
pub struct JobFailure {
    /// Reasons OR'd into `printer-state-reasons` when this job aborts.
    pub printer_reasons: PrinterReason,
    /// Human-readable message surfaced as `job-state-message`.
    pub message: String,
}

impl JobFailure {
    /// Build a failure with explicit `printer-state-reasons`.
    pub fn new<M: Into<String>>(printer_reasons: PrinterReason, message: M) -> (r: Self)
        ensures
            r.printer_reasons == printer_reasons,
            <M as vstd::std_specs::convert::IntoSpec<String>>::obeys_into_spec() ==> r.message == <M as vstd::std_specs::convert::IntoSpec<String>>::into_spec(message),
    {
        JobFailure { printer_reasons, message: message.into() }
    }

    /// Shorthand for a generic failure (`other`).
    pub fn other<M: Into<String>>(message: M) -> (r: Self)
        ensures
            r.printer_reasons.0 == 0x0001,
            <M as vstd::std_specs::convert::IntoSpec<String>>::obeys_into_spec() ==> r.message == <M as vstd::std_specs::convert::IntoSpec<String>>::into_spec(message),
    {
        Self::new(PrinterReason::other(), message)
    }

    /// The message, as `Display` would write it.
    pub fn to_message(&self) -> (r: String)
        ensures
            r@ == self.message@,
    {
        self.message.clone()
    }
}

/// Page geometry parsed from a CUPS/PWG raster page header.
#[derive(Debug, Clone)]
pub struct JobOptions {
    /// Page width in pixels.
    pub width: u32,
    /// Page height in pixels.
    pub height: u32,
    /// Bits per pixel.
    pub bits_per_pixel: u32,
    /// Bytes per scanline.
    pub bytes_per_line: u32,
    /// Number of copies requested. Always ≥ 1.
    pub copies: u32,
}

impl JobOptions {
    /// Construct from a CUPS raster v1 page header. `num_copies < 1` is
    /// clamped to 1 per IPP convention.
    pub fn from_cups_v1(
        width: u32,
        height: u32,
        bits_per_pixel: u32,
        bytes_per_line: u32,
        num_copies: u32,
    ) -> (r: Self)
        ensures
            r.width == width,
            r.height == height,
            r.bits_per_pixel == bits_per_pixel,
            r.bytes_per_line == bytes_per_line,
            r.copies == if num_copies < 1 {
                1
            } else {
                num_copies
            },
    {
        JobOptions {
            width,
            height,
            bits_per_pixel,
            bytes_per_line,
            copies: if num_copies < 1 {
                1
            } else {
                num_copies
            },
        }
    }
}

/// Driver that turns a stream of raster scanlines into device bytes;
/// implemented by the consumer crate for its device. Per-job stateful:
/// `start_job` allocates, `write_line` accumulates, `end_page` transfers,
/// `end_job` releases.
pub trait RasterDriver: Sized + Send + 'static {
    /// The driver's opaque device handle.
    type Device: Send;

    /// Allocate per-job state. Called once at the top of each job.
    fn start_job(
        printer: &PrinterHandle<'_>,
        options: &JobOptions,
        device: &Self::Device,
    ) -> Result<Self, JobFailure>;

    /// Called once per page before any `write_line`. Default: no-op.
    fn start_page(&mut self, options: &JobOptions, page: u32, device: &Self::Device) -> (r: Result<
        (),
        JobFailure,
    >)
        default_ensures
            r is Ok,
            *final(self) == *old(self),
    {
        Ok(())
    }

    /// Append one scanline to the page buffer.
    fn write_line(&mut self, options: &JobOptions, y: u32, line: &[u8]) -> Result<(), JobFailure>;

    /// Transfer the completed page to the device (and repeat for copies).
    fn end_page(&mut self, options: &JobOptions, page: u32, device: &Self::Device) -> Result<
        (),
        JobFailure,
    >;

    /// Release per-job state. Called once at the end of the job.
    fn end_job(self, device: &Self::Device);
}

} // verus!
