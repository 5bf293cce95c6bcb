//! Per-printer configuration and runtime state.

use vstd::prelude::*;

use crate::device::ReadyMedia;
use crate::flags::PrinterReason;
use crate::text::{decimal, push_decimal, push_str, str_eq};

verus! {

/// Static printer capabilities supplied by the consumer crate (typically
/// loaded from a config file). Carries everything the framework needs to
/// build the IPP `Get-Printer-Attributes` response.
#[derive(Debug, Clone)]
pub struct PrinterConfig {
    /// Logical, machine-readable name: the CUPS queue name, the IPP
    /// `printer-name`, the `/ipp/print/<name>` resource path, and the mDNS
    /// `rp` TXT all use this. Keep it to `[a-z0-9_]`.
    pub name: String,
    /// Human-readable name shown to users (mDNS instance name, web UI).
    /// Empty falls back to `make_and_model`, then `name`.
    pub display_name: String,
    pub driver_name: String,
    pub make_and_model: String,
    pub device_id: String,
    pub device_uri: String,
    pub dpi: i32,
    pub printhead_width_dots: u32,
    pub media_names: Vec<String>,
    pub media_sizes: Vec<[i32; 2]>,
    /// Darkness 0–100 (maps to print density).
    pub darkness: i32,
    /// MIME types the consumer's print callback can decode.
    pub document_formats: Vec<String>,
}

/// Mathematical view of a [`PrinterConfig`].
pub struct PrinterConfigV {
    pub name: Seq<char>,
    pub display_name: Seq<char>,
    pub driver_name: Seq<char>,
    pub make_and_model: Seq<char>,
    pub device_id: Seq<char>,
    pub device_uri: Seq<char>,
    pub dpi: i32,
    pub printhead_width_dots: u32,
    pub media_names: Seq<String>,
    pub media_sizes: Seq<[i32; 2]>,
    pub darkness: i32,
    pub document_formats: Seq<String>,
}

impl View for PrinterConfig {
    type V = PrinterConfigV;

    open spec fn view(&self) -> PrinterConfigV {
        PrinterConfigV {
            name: self.name@,
            display_name: self.display_name@,
            driver_name: self.driver_name@,
            make_and_model: self.make_and_model@,
            device_id: self.device_id@,
            device_uri: self.device_uri@,
            dpi: self.dpi,
            printhead_width_dots: self.printhead_width_dots,
            media_names: self.media_names@,
            media_sizes: self.media_sizes@,
            darkness: self.darkness,
            document_formats: self.document_formats@,
        }
    }
}

/// The host a client should use to reach us: `localhost` when the server
/// bound to an unspecified address (`0.0.0.0`, `::` or empty).
pub open spec fn advertised_host(host: Seq<char>) -> Seq<char> {
    if host == "0.0.0.0"@ || host == "::"@ || host.len() == 0 {
        "localhost"@
    } else {
        host
    }
}

/// `ipp://<host>:<port>/ipp/print/<name>`.
pub open spec fn printer_uri_spec(host: Seq<char>, port: u16, name: Seq<char>) -> Seq<char> {
    "ipp://"@ + advertised_host(host) + ":"@ + decimal(port as nat) + "/ipp/print/"@ + name
}

/// Advertise localhost when the server bound to an unspecified address.
pub fn advertise_host(host: &str) -> (r: &str)
    ensures
        r@ == advertised_host(host@),
{
    if crate::text::str_eq(host, "0.0.0.0") || crate::text::str_eq(host, "::")
        || host.unicode_len() == 0 {
        "localhost"
    } else {
        host
    }
}

/// The effective human-readable label of a config: `display_name` if set,
/// else `make_and_model`, else `name`.
pub open spec fn display_label_spec(cfg: PrinterConfig) -> Seq<char> {
    if cfg.display_name@.len() > 0 {
        cfg.display_name@
    } else if cfg.make_and_model@.len() > 0 {
        cfg.make_and_model@
    } else {
        cfg.name@
    }
}

impl PrinterConfig {
    /// A copy of the config.
    pub fn duplicate(&self) -> (r: PrinterConfig)
        ensures
            r@ == self@,
    {
        let media_names = self.media_names.clone();
        let document_formats = self.document_formats.clone();
        proof {
            assert(media_names@ =~= self.media_names@);
            assert(document_formats@ =~= self.document_formats@);
        }
        let mut media_sizes: Vec<[i32; 2]> = Vec::new();
        let mut i: usize = 0;
        while i < self.media_sizes.len()
            invariant
                i <= self.media_sizes@.len(),
                media_sizes@ == self.media_sizes@.take(i as int),
            decreases self.media_sizes@.len() - i,
        {
            media_sizes.push(self.media_sizes[i]);
            proof {
                assert(self.media_sizes@.take(i + 1) =~= self.media_sizes@.take(i as int).push(self.media_sizes@[i as int]));
            }
            i = i + 1;
        }
        proof {
            assert(self.media_sizes@.take(self.media_sizes@.len() as int) =~= self.media_sizes@);
        }
        PrinterConfig {
            name: self.name.clone(),
            display_name: self.display_name.clone(),
            driver_name: self.driver_name.clone(),
            make_and_model: self.make_and_model.clone(),
            device_id: self.device_id.clone(),
            device_uri: self.device_uri.clone(),
            dpi: self.dpi,
            printhead_width_dots: self.printhead_width_dots,
            media_names,
            media_sizes,
            darkness: self.darkness,
            document_formats,
        }
    }

    /// Build the canonical `ipp://<host>:<port>/ipp/print/<name>` URI. If
    /// `host` is unspecified (`0.0.0.0`, `::`, empty), advertises
    /// `localhost` so CUPS and mDNS clients get a reachable address.
    pub fn printer_uri(&self, host: &str, port: u16) -> (r: String)
        ensures
            r@ == printer_uri_spec(host@, port, self.name@),
    {
        let mut s = String::from_str("ipp://");
        push_str(&mut s, advertise_host(host));
        push_str(&mut s, ":");
        push_decimal(&mut s, port as u64);
        push_str(&mut s, "/ipp/print/");
        push_str(&mut s, self.name.as_str());
        s
    }

    /// The effective human-readable label: `display_name` if set, else
    /// `make_and_model`, else the logical `name`.
    pub fn display_label(&self) -> (r: &str)
        ensures
            r@ == display_label_spec(*self),
    {
        if self.display_name.as_str().unicode_len() > 0 {
            self.display_name.as_str()
        } else if self.make_and_model.as_str().unicode_len() > 0 {
            self.make_and_model.as_str()
        } else {
            self.name.as_str()
        }
    }
}

/// IPP `printer-state` (RFC 8011 §5.4.11).
#[derive(Debug, Clone, Copy, PartialEq, Eq, Structural)]
pub enum IppPrinterState {
    Idle,
    Processing,
    Stopped,
}

/// The RFC 8011 enum value of a printer state.
pub open spec fn printer_state_code(s: IppPrinterState) -> i32 {
    match s {
        IppPrinterState::Idle => 3,
        IppPrinterState::Processing => 4,
        IppPrinterState::Stopped => 5,
    }
}

impl IppPrinterState {
    /// The RFC 8011 enum value: idle 3, processing 4, stopped 5.
    pub fn code(&self) -> (r: i32)
        ensures
            r == printer_state_code(*self),
    {
        match self {
            IppPrinterState::Idle => 3,
            IppPrinterState::Processing => 4,
            IppPrinterState::Stopped => 5,
        }
    }
}

/// Runtime printer entry in the server registry.
#[derive(Debug, Clone)]
pub struct PrinterRecord {
    pub config: PrinterConfig,
    pub state: IppPrinterState,
    pub reasons: PrinterReason,
    pub uuid: String,
    /// Live media loaded in the device, set by the status poller. `None` until
    /// the first successful poll.
    pub ready_media: Option<ReadyMedia>,
    /// Live remaining-supply level 0–100 from the status poller.
    pub supply_percent: Option<u8>,
}

/// Lower-case hexadecimal digit.
pub open spec fn is_lower_hex(c: char) -> bool {
    ('0' <= c && c <= '9') || ('a' <= c && c <= 'f')
}

/// The hyphenated lower-case text form of a version-4 (random) UUID,
/// `xxxxxxxx-xxxx-4xxx-xxxx-xxxxxxxxxxxx`.
pub open spec fn is_v4_uuid_text(s: Seq<char>) -> bool {
    &&& s.len() == 36
    &&& forall|k: int|
        0 <= k < 36 ==> (if k == 8 || k == 13 || k == 18 || k == 23 {
            s[k] == '-'
        } else {
            is_lower_hex(#[trigger] s[k])
        })
    &&& s[14] == '4'
}

/// A fresh random UUID in its hyphenated text form (`uuid::Uuid::new_v4`
/// and its `Display`). The value is random: only its shape is stated.
#[verifier::external_body]
fn new_uuid_v4_text() -> (r: String)
    ensures
        is_v4_uuid_text(r@),
{
    uuid::Uuid::new_v4().to_string()
}

impl PrinterRecord {
    /// Wrap a config in a fresh record (state = `Idle`, no reasons set, new
    /// random UUID).
    pub fn new(config: PrinterConfig) -> (r: PrinterRecord)
        ensures
            r.config == config,
            r.state == IppPrinterState::Idle,
            r.reasons.0 == 0,
            is_v4_uuid_text(r.uuid@),
            r.ready_media is None,
            r.supply_percent is None,
    {
        PrinterRecord {
            uuid: new_uuid_v4_text(),
            state: IppPrinterState::Idle,
            reasons: PrinterReason::empty(),
            ready_media: None,
            supply_percent: None,
            config,
        }
    }
}

/// Index of the first printer named `name` at or after position `k`.
pub open spec fn printer_index_from(records: Seq<PrinterRecord>, name: Seq<char>, k: int) -> Option<
    int,
>
    decreases records.len() - k,
{
    if k < 0 || k >= records.len() {
        None
    } else if records[k].config.name@ == name {
        Some(k)
    } else {
        printer_index_from(records, name, k + 1)
    }
}

/// A found index is in range and names the printer.
pub proof fn lemma_printer_index_from(records: Seq<PrinterRecord>, name: Seq<char>, k: int)
    ensures
        printer_index_from(records, name, k) matches Some(i) ==> k <= i < records.len() && 0 <= i
            && records[i].config.name@ == name,
    decreases records.len() - k,
{
    if 0 <= k < records.len() && records[k].config.name@ != name {
        lemma_printer_index_from(records, name, k + 1);
    }
}

/// Index of the first printer named `name`, if any.
pub open spec fn printer_index(records: Seq<PrinterRecord>, name: Seq<char>) -> Option<int> {
    printer_index_from(records, name, 0)
}

/// Position of the first printer named `name` in the registry, if any.
pub fn find_printer(records: &Vec<PrinterRecord>, name: &str) -> (r: Option<usize>)
    ensures
        match r {
            Some(i) => printer_index(records@, name@) == Some(i as int),
            None => printer_index(records@, name@) is None,
        },
{
    let mut i: usize = 0;
    while i < records.len()
        invariant
            i <= records@.len(),
            printer_index(records@, name@) == printer_index_from(records@, name@, i as int),
        decreases records@.len() - i,
    {
        if str_eq(records[i].config.name.as_str(), name) {
            return Some(i);
        }
        i = i + 1;
    }
    None
}

/// The registry with the first printer named `name` replaced by `f` of it
/// (unchanged when there is none).
pub open spec fn update_printer(
    records: Seq<PrinterRecord>,
    name: Seq<char>,
    f: spec_fn(PrinterRecord) -> PrinterRecord,
) -> Seq<PrinterRecord> {
    match printer_index(records, name) {
        Some(i) => records.update(i, f(records[i])),
        None => records,
    }
}

/// Replacing a record by one with the same config leaves every name lookup
/// from position `k` on unchanged.
proof fn lemma_index_from_same_configs(
    records: Seq<PrinterRecord>,
    i: int,
    x: PrinterRecord,
    name: Seq<char>,
    k: int,
)
    requires
        0 <= i < records.len(),
        x.config == records[i].config,
    ensures
        printer_index_from(records.update(i, x), name, k) == printer_index_from(records, name, k),
    decreases records.len() - k,
{
    if 0 <= k < records.len() {
        lemma_index_from_same_configs(records, i, x, name, k + 1);
    }
}

/// Updating a printer with a change that keeps its config keeps every
/// printer findable where it was.
pub proof fn lemma_update_printer_keeps_names(
    records: Seq<PrinterRecord>,
    name: Seq<char>,
    f: spec_fn(PrinterRecord) -> PrinterRecord,
)
    requires
        forall|r: PrinterRecord| #[trigger] f(r).config == r.config,
    ensures
        forall|other: Seq<char>|
            #[trigger] printer_index(update_printer(records, name, f), other) == printer_index(
                records,
                other,
            ),
{
    lemma_printer_index_from(records, name, 0);
    if let Some(i) = printer_index(records, name) {
        assert forall|other: Seq<char>|
            #[trigger] printer_index(update_printer(records, name, f), other) == printer_index(
                records,
                other,
            ) by {
            lemma_index_from_same_configs(records, i, f(records[i]), other, 0);
        }
    }
}

/// A record with new reasons.
pub open spec fn with_reasons(rec: PrinterRecord, reasons: PrinterReason) -> PrinterRecord {
    PrinterRecord { reasons, ..rec }
}

/// A record in a new state.
pub open spec fn with_printer_state(rec: PrinterRecord, state: IppPrinterState) -> PrinterRecord {
    PrinterRecord { state, ..rec }
}

/// Set `printer-state-reasons` of the printer named `name`.
pub fn set_printer_reasons(records: &mut Vec<PrinterRecord>, name: &str, reasons: PrinterReason)
    ensures
        final(records)@ == update_printer(
            old(records)@,
            name@,
            |rec: PrinterRecord| with_reasons(rec, reasons),
        ),
{
    match find_printer(records, name) {
        Some(i) => {
            proof {
                lemma_printer_index_from(old(records)@, name@, 0);
            }
            let mut rec = records.remove(i);
            rec.reasons = reasons;
            records.insert(i, rec);
            proof {
                assert(records@ =~= update_printer(
                    old(records)@,
                    name@,
                    |rec: PrinterRecord| with_reasons(rec, reasons),
                ));
            }
        },
        None => {},
    }
}

/// Set `printer-state` of the printer named `name`.
pub fn set_printer_state(records: &mut Vec<PrinterRecord>, name: &str, state: IppPrinterState)
    ensures
        final(records)@ == update_printer(
            old(records)@,
            name@,
            |rec: PrinterRecord| with_printer_state(rec, state),
        ),
{
    match find_printer(records, name) {
        Some(i) => {
            proof {
                lemma_printer_index_from(old(records)@, name@, 0);
            }
            let mut rec = records.remove(i);
            rec.state = state;
            records.insert(i, rec);
            proof {
                assert(records@ =~= update_printer(
                    old(records)@,
                    name@,
                    |rec: PrinterRecord| with_printer_state(rec, state),
                ));
            }
        },
        None => {},
    }
}

/// Borrowed view of a printer passed into [`crate::raster::RasterDriver`]
/// callbacks.
pub struct PrinterHandle<'a> {
    /// The underlying registry entry.
    pub record: &'a PrinterRecord,
}

impl<'a> PrinterHandle<'a> {
    /// Driver name from the config.
    pub fn driver_name(&self) -> (r: &str)
        ensures
            r@ == self.record.config.driver_name@,
    {
        self.record.config.driver_name.as_str()
    }

    /// Configured darkness, 0–100.
    pub fn darkness(&self) -> (r: i32)
        ensures
            r == self.record.config.darkness,
    {
        self.record.config.darkness
    }

    /// Printhead width in dots.
    pub fn printhead_width_dots(&self) -> (r: u32)
        ensures
            r == self.record.config.printhead_width_dots,
    {
        self.record.config.printhead_width_dots
    }
}

} // verus!
