//! The decisions of the IPP request handler: the request checks RFC 8011
//! asks for, the printer's queue name, and the spooler's retry policy.

use vstd::prelude::*;

use crate::device::{DeviceBackend, DiscoveredDevice};
use crate::flags::PrinterReason;
use crate::job::{find_job, ids_increasing, lemma_find_after_update, update_job, with_failure, with_state, JobId, JobRecordV, JobRegistry, JobState};
use crate::printer::{
    advertise_host, lemma_printer_index_from, lemma_update_printer_keeps_names, printer_index, advertised_host, display_label_spec, is_v4_uuid_text, printer_uri_spec,
    set_printer_reasons, set_printer_state, update_printer, with_printer_state, with_reasons,
    IppPrinterState, PrinterConfig, PrinterRecord,
};
use crate::raster::{JobFailure, JobOutcome};
use crate::text::{decimal, push_char, push_decimal, push_str, str_eq};

verus! {

/// Big-endian 16-bit value of `b[i]`, `b[i + 1]`.
pub open spec fn be16(b: Seq<u8>, i: int) -> int {
    b[i] as int * 256 + b[i + 1] as int
}

/// `bytes` spells `text` one ASCII character per byte.
pub open spec fn bytes_spell(bytes: Seq<u8>, text: Seq<char>) -> bool {
    &&& bytes.len() == text.len()
    &&& forall|k: int| 0 <= k < bytes.len() ==> bytes[k] as int == text[k] as int
}

/// Walk the attributes of the operation group starting at offset `i`,
/// collecting the non-empty attribute names (an empty name continues the
/// previous attribute) until two names are known, a delimiter tag
/// (`<= 0x0f`) ends the group, or the input ends. `None` when an attribute
/// runs past the end of the input.
pub open spec fn scan_names(b: Seq<u8>, i: int, names: Seq<Seq<u8>>) -> Option<Seq<Seq<u8>>>
    decreases b.len() - i,
{
    if i < 0 || i >= b.len() || names.len() >= 2 || b[i] <= 0x0f {
        Some(names)
    } else if i + 3 > b.len() {
        None
    } else {
        let name_len = be16(b, i + 1);
        let name_start = i + 3;
        if name_start + name_len > b.len() {
            None
        } else {
            let names2 = if name_len > 0 {
                names.push(b.subrange(name_start, name_start + name_len))
            } else {
                names
            };
            let vpos = name_start + name_len;
            if vpos + 2 > b.len() {
                None
            } else if vpos + 2 + be16(b, vpos) >= b.len() {
                Some(names2)
            } else {
                scan_names(b, vpos + 2 + be16(b, vpos), names2)
            }
        }
    }
}

/// RFC 8011 §4.1.4: the operation-attributes group opens the request (right
/// after the 8-byte header) and its first two attributes are
/// `attributes-charset` then `attributes-natural-language`.
pub open spec fn operation_attributes_well_ordered_spec(b: Seq<u8>) -> bool {
    b.len() > 8 && b[8] == 0x01 && match scan_names(b, 9, seq![]) {
        Some(names) => names.len() >= 2 && bytes_spell(names[0], "attributes-charset"@)
            && bytes_spell(names[1], "attributes-natural-language"@),
        None => false,
    }
}

/// Whether `b[start..start + len]` spells `text`.
fn bytes_spell_at(b: &[u8], start: usize, len: usize, text: &str) -> (r: bool)
    requires
        start + len <= b.len(),
    ensures
        r == bytes_spell(b@.subrange(start as int, start + len), text@),
{
    let n = text.unicode_len();
    if n != len {
        return false;
    }
    let mut k: usize = 0;
    while k < len
        invariant
            k <= len,
            n == len,
            n == text@.len(),
            start + len <= b.len(),
            forall|j: int| 0 <= j < k ==> b@[start + j] as int == text@[j] as int,
        decreases len - k,
    {
        let c = text.get_char(k);
        assert(start + k < b@.len());
        if b[start + k] as u32 != c as u32 {
            return false;
        }
        k = k + 1;
    }
    true
}

/// RFC 8011 §4.1.4: the operation-attributes group must start with
/// `attributes-charset` then `attributes-natural-language`, in that order.
/// Reads the first two attribute names directly from the raw request (header
/// is 8 bytes; the operation group is the first delimiter group). `false` on
/// a short or malformed buffer.
pub fn operation_attributes_well_ordered(body: &[u8]) -> (r: bool)
    ensures
        r == operation_attributes_well_ordered_spec(body@),
{
    if body.len() <= 8 || body[8] != 0x01 {
        return false;
    }
    let mut i: usize = 9;
    // Start and length of the first two non-empty names.
    let mut first: (usize, usize) = (0, 0);
    let mut second: (usize, usize) = (0, 0);
    let mut count: usize = 0;
    let ghost mut names: Seq<Seq<u8>> = seq![];
    while i < body.len() && count < 2
        invariant_except_break
            9 <= i,
            count == names.len(),
            count <= 2,
            count >= 1 ==> first.0 + first.1 <= body@.len() && names[0] == body@.subrange(
                first.0 as int,
                first.0 + first.1,
            ),
            count >= 2 ==> second.0 + second.1 <= body@.len() && names[1] == body@.subrange(
                second.0 as int,
                second.0 + second.1,
            ),
            scan_names(body@, i as int, names) == scan_names(body@, 9, seq![]),
        ensures
            count == names.len(),
            count <= 2,
            count >= 1 ==> first.0 + first.1 <= body@.len() && names[0] == body@.subrange(
                first.0 as int,
                first.0 + first.1,
            ),
            count >= 2 ==> second.0 + second.1 <= body@.len() && names[1] == body@.subrange(
                second.0 as int,
                second.0 + second.1,
            ),
            scan_names(body@, 9, seq![]) == Some(names),
        decreases body.len() - i,
    {
        let ghost old_i = i;
        let ghost old_names = names;
        let tag = body[i];
        if tag <= 0x0f {
            break;
        }
        if body.len() - i < 3 {
            return false;
        }
        let name_len = (body[i + 1] as usize) * 256 + (body[i + 2] as usize);
        let name_start = i + 3;
        if body.len() - name_start < name_len {
            return false;
        }
        if name_len > 0 {
            if count == 0 {
                first = (name_start, name_len);
            } else {
                second = (name_start, name_len);
            }
            count = count + 1;
            proof {
                names = names.push(body@.subrange(name_start as int, name_start + name_len));
            }
        }
        let vpos = name_start + name_len;
        if body.len() - vpos < 2 {
            return false;
        }
        let value_len = (body[vpos] as usize) * 256 + (body[vpos + 1] as usize);
        if body.len() - (vpos + 2) < value_len {
            // The next attribute would start past the end: the group ends.
            i = body.len();
        } else {
            i = vpos + 2 + value_len;
        }
        proof {
            assert(scan_names(body@, old_i as int, old_names) == scan_names(body@, i as int, names));
        }
    }
    if count < 2 {
        return false;
    }
    bytes_spell_at(body, first.0, first.1, "attributes-charset") && bytes_spell_at(
        body,
        second.0,
        second.1,
        "attributes-natural-language",
    )
}

/// ASCII letter or digit.
pub open spec fn is_ascii_alnum(c: char) -> bool {
    ('0' <= c && c <= '9') || ('a' <= c && c <= 'z') || ('A' <= c && c <= 'Z')
}

/// ASCII lower case of `c` (other characters unchanged).
pub open spec fn ascii_lower(c: char) -> char {
    if 'A' <= c && c <= 'Z' {
        ((c as int) + 32) as char
    } else {
        c
    }
}

/// Slug of `s` built left to right: the lower-cased ASCII alphanumeric runs
/// of `s`, joined by single `_`; the flag says a separator is pending.
pub open spec fn slug_scan(s: Seq<char>) -> (Seq<char>, bool)
    decreases s.len(),
{
    if s.len() == 0 {
        (seq![], false)
    } else {
        let (out, pending) = slug_scan(s.drop_last());
        let c = s.last();
        if is_ascii_alnum(c) {
            if pending && out.len() > 0 {
                (out.push('_').push(ascii_lower(c)), false)
            } else {
                (out.push(ascii_lower(c)), false)
            }
        } else {
            (out, true)
        }
    }
}

/// Logical queue name for a discovered device: the alphanumeric runs of
/// `info` (of `uri` when `info` is empty), lower-cased and joined by single
/// `_`, or `printer` when there are none.
pub open spec fn printer_name_spec(uri: Seq<char>, info: Seq<char>) -> Seq<char> {
    let source = if info.len() == 0 {
        uri
    } else {
        info
    };
    let slug = slug_scan(source).0;
    if slug.len() == 0 {
        "printer"@
    } else {
        slug
    }
}

/// A character a queue name may hold: lower-case ASCII letter, digit, `_`.
pub open spec fn is_queue_name_char(c: char) -> bool {
    ('0' <= c && c <= '9') || ('a' <= c && c <= 'z') || c == '_'
}

/// A CUPS-style queue name: non-empty, `[a-z0-9_]` only, no leading or
/// trailing `_` and no two `_` in a row.
pub open spec fn is_queue_name(t: Seq<char>) -> bool {
    &&& t.len() > 0
    &&& forall|k: int| 0 <= k < t.len() ==> is_queue_name_char(#[trigger] t[k])
    &&& t[0] != '_'
    &&& t.last() != '_'
    &&& forall|k: int| 0 <= k < t.len() - 1 ==> !(#[trigger] t[k] == '_' && t[k + 1] == '_')
}

proof fn lemma_slug_scan_shape(s: Seq<char>)
    ensures
        ({
            let out = slug_scan(s).0;
            &&& forall|k: int| 0 <= k < out.len() ==> is_queue_name_char(#[trigger] out[k])
            &&& out.len() > 0 ==> out[0] != '_' && out.last() != '_'
            &&& forall|k: int| 0 <= k < out.len() - 1 ==> !(#[trigger] out[k] == '_' && out[k + 1] == '_')
        }),
    decreases s.len(),
{
    if s.len() > 0 {
        lemma_slug_scan_shape(s.drop_last());
        let (out, pending) = slug_scan(s.drop_last());
        let c = s.last();
        if is_ascii_alnum(c) {
            let lc = ascii_lower(c);
            assert(is_queue_name_char(lc) && lc != '_');
            if pending && out.len() > 0 {
                let o2 = out.push('_').push(lc);
                assert forall|k: int| 0 <= k < o2.len() - 1 implies !(#[trigger] o2[k] == '_' && o2[k + 1] == '_') by {
                    if k < out.len() - 1 {
                        assert(o2[k] == out[k] && o2[k + 1] == out[k + 1]);
                    }
                }
                assert(o2[0] == out[0]);
            } else {
                let o2 = out.push(lc);
                assert forall|k: int| 0 <= k < o2.len() - 1 implies !(#[trigger] o2[k] == '_' && o2[k + 1] == '_') by {
                    if k < out.len() - 1 {
                        assert(o2[k] == out[k] && o2[k + 1] == out[k + 1]);
                    }
                }
                if out.len() > 0 {
                    assert(o2[0] == out[0]);
                }
            }
        }
    }
}

/// The proposed queue name is always a well-formed CUPS queue name.
pub proof fn lemma_printer_name_is_queue_name(uri: Seq<char>, info: Seq<char>)
    ensures
        is_queue_name(printer_name_spec(uri, info)),
{
    let source = if info.len() == 0 {
        uri
    } else {
        info
    };
    lemma_slug_scan_shape(source);
    if slug_scan(source).0.len() == 0 {
        reveal_strlit("printer");
        let p = "printer"@;
        assert(forall|k: int| 0 <= k < p.len() ==> is_queue_name_char(#[trigger] p[k]));
    }
}

/// On a prefix of a queue name, the scan yields the prefix without a
/// trailing `_`, with the separator pending exactly when one was dropped.
proof fn lemma_slug_scan_of_queue_name(t: Seq<char>, n: int)
    requires
        is_queue_name(t),
        0 <= n <= t.len(),
    ensures
        slug_scan(t.take(n)) == (if n > 0 && t[n - 1] == '_' {
            (t.take(n - 1), true)
        } else {
            (t.take(n), false)
        }),
    decreases n,
{
    if n > 0 {
        lemma_slug_scan_of_queue_name(t, n - 1);
        assert(t.take(n).drop_last() =~= t.take(n - 1));
        let c = t[n - 1];
        assert(is_queue_name_char(c));
        if c != '_' {
            assert(is_ascii_alnum(c) && ascii_lower(c) == c);
            if n - 1 > 0 && t[n - 2] == '_' {
                assert(n - 2 > 0) by {
                    if n - 2 == 0 {
                        assert(t[0] != '_');
                    }
                }
                assert(t[n - 3] != '_');
                assert(t.take(n - 2).push('_').push(c) =~= t.take(n));
            } else {
                assert(t.take(n - 1).push(c) =~= t.take(n));
            }
        } else {
            assert(n - 1 > 0);
            assert(t[n - 2] != '_');
        }
    }
}

/// A name that already is a queue name is proposed unchanged: the slug is
/// idempotent, so queue names round-trip through the sanitiser.
pub proof fn lemma_queue_name_is_fixed_point(uri: Seq<char>, name: Seq<char>)
    requires
        is_queue_name(name),
    ensures
        printer_name_spec(uri, name) == name,
{
    lemma_slug_scan_of_queue_name(name, name.len() as int);
    assert(name.take(name.len() as int) =~= name);
}

fn is_alnum_char(c: char) -> (r: bool)
    ensures
        r == is_ascii_alnum(c),
{
    ('0' <= c && c <= '9') || ('a' <= c && c <= 'z') || ('A' <= c && c <= 'Z')
}

fn lower_char(c: char) -> (r: char)
    ensures
        r == ascii_lower(c),
{
    if 'A' <= c && c <= 'Z' {
        ((c as u8) + 32) as char
    } else {
        c
    }
}

/// Logical queue name proposed during bootstrap. Lowercases and maps every
/// non-alphanumeric run to a single `_`, mirroring CUPS's own DNS-SD
/// queue-name sanitiser (`cups_queue_name`), so that our persistent queue
/// matches the on-demand queue CUPS would derive from the DNS-SD instance
/// name. Never empty.
pub fn printer_name_from_uri(uri: &str, info: &str) -> (r: String)
    ensures
        r@ == printer_name_spec(uri@, info@),
{
    let source: &str = if info.unicode_len() == 0 {
        uri
    } else {
        info
    };
    let n = source.unicode_len();
    let mut out = String::new();
    let mut pending = false;
    let mut k: usize = 0;
    while k < n
        invariant
            k <= n,
            n == source@.len(),
            (out@, pending) == slug_scan(source@.take(k as int)),
        decreases n - k,
    {
        let c = source.get_char(k);
        proof {
            assert(source@.take(k + 1).drop_last() =~= source@.take(k as int));
        }
        if is_alnum_char(c) {
            if pending && out.unicode_len() > 0 {
                push_char(&mut out, '_');
            }
            push_char(&mut out, lower_char(c));
            pending = false;
        } else {
            pending = true;
        }
        k = k + 1;
    }
    proof {
        assert(source@.take(n as int) =~= source@);
    }
    if out.unicode_len() == 0 {
        String::from_str("printer")
    } else {
        out
    }
}

// ---------------------------------------------------------------------------
// Bootstrap: persisted printers first, then newly discovered devices.
// ---------------------------------------------------------------------------

/// Some record already serves the device at `uri`.
pub open spec fn has_device_uri(records: Seq<PrinterRecord>, uri: Seq<char>) -> bool {
    exists|k: int| 0 <= k < records.len() && (#[trigger] records[k]).config.device_uri@ == uri
}

/// A record as [`PrinterRecord::new`] makes it from `config`.
pub open spec fn is_fresh_record(r: PrinterRecord, config: PrinterConfig) -> bool {
    &&& r.config == config
    &&& r.state == IppPrinterState::Idle
    &&& r.reasons.0 == 0
    &&& is_v4_uuid_text(r.uuid@)
    &&& r.ready_media is None
    &&& r.supply_percent is None
}

/// `answer` is a possible result of `make_config` for device `d` with driver
/// `driver`: a call whose name is the device's proposed queue name and whose
/// info, driver, URI and device-id are the device's and the driver's.
pub open spec fn answers<F: Fn(&str, &str, &str, &str, &str) -> Option<PrinterConfig>>(
    make_config: F,
    d: DiscoveredDevice,
    driver: Seq<char>,
    answer: Option<PrinterConfig>,
) -> bool {
    exists|args: (&str, &str, &str, &str, &str)|
        #![trigger make_config.ensures(args, answer)]
        args.0@ == printer_name_spec(d.uri@, d.info@) && args.1@ == d.info@ && args.2@ == driver
            && args.3@ == d.uri@ && args.4@ == d.device_id@ && make_config.ensures(args, answer)
}

/// One discovered device merged into the records `before`, giving `after`:
/// a device the backend has no driver for, or whose URI some record already
/// serves, changes nothing; otherwise `make_config` is asked, and its answer
/// `None` changes nothing while `Some(config)` appends one fresh record for
/// `config`.
pub open spec fn merge_step<F: Fn(&str, &str, &str, &str, &str) -> Option<PrinterConfig>>(
    make_config: F,
    before: Seq<PrinterRecord>,
    d: DiscoveredDevice,
    driver: Option<String>,
    after: Seq<PrinterRecord>,
) -> bool {
    match driver {
        None => after == before,
        Some(drv) => if has_device_uri(before, d.uri@) {
            after == before
        } else {
            ||| answers(make_config, d, drv@, None) && after == before
            ||| after.len() == before.len() + 1 && after.drop_last() == before && answers(
                make_config,
                d,
                drv@,
                Some(after.last().config),
            ) && is_fresh_record(after.last(), after.last().config)
        },
    }
}

/// `stages` walks the merge: `stages[i + 1]` is `stages[i]` with device `i`
/// merged in, with the backend's driver answer `drivers[i]` (see
/// [`merge_step`]).
pub open spec fn merge_trace<F: Fn(&str, &str, &str, &str, &str) -> Option<PrinterConfig>>(
    make_config: F,
    stages: Seq<Seq<PrinterRecord>>,
    devices: Seq<DiscoveredDevice>,
    drivers: Seq<Option<String>>,
) -> bool {
    &&& stages.len() == devices.len() + 1
    &&& drivers.len() == devices.len()
    &&& forall|i: int|
        0 <= i < devices.len() ==> #[trigger] merge_step(
            make_config,
            stages[i],
            devices[i],
            drivers[i],
            stages[i + 1],
        )
}

/// `result` is `start` with the devices merged in discovery order.
pub open spec fn merged<F: Fn(&str, &str, &str, &str, &str) -> Option<PrinterConfig>>(
    make_config: F,
    start: Seq<PrinterRecord>,
    devices: Seq<DiscoveredDevice>,
    drivers: Seq<Option<String>>,
    result: Seq<PrinterRecord>,
) -> bool {
    exists|stages: Seq<Seq<PrinterRecord>>|
        #[trigger] merge_trace(make_config, stages, devices, drivers) && stages[0] == start
            && stages.last() == result
}

/// Each merge step only appends: the records it started with come first,
/// unchanged.
proof fn lemma_trace_extends<F: Fn(&str, &str, &str, &str, &str) -> Option<PrinterConfig>>(
    make_config: F,
    stages: Seq<Seq<PrinterRecord>>,
    devices: Seq<DiscoveredDevice>,
    drivers: Seq<Option<String>>,
    i: int,
)
    requires
        merge_trace(make_config, stages, devices, drivers),
        0 <= i <= devices.len(),
    ensures
        stages[i].len() >= stages[0].len(),
        stages[i].subrange(0, stages[0].len() as int) == stages[0],
    decreases i,
{
    if i == 0 {
        assert(stages[0].subrange(0, stages[0].len() as int) =~= stages[0]);
    } else {
        lemma_trace_extends(make_config, stages, devices, drivers, i - 1);
        let j = i - 1;
        assert(merge_step(make_config, stages[j], devices[j], drivers[j], stages[j + 1]));
        assert(j + 1 == i);
        if stages[i] != stages[i - 1] {
            assert(stages[i].drop_last() == stages[i - 1]);
            assert(stages[i].subrange(0, stages[0].len() as int) =~= stages[i - 1].subrange(
                0,
                stages[0].len() as int,
            ));
        }
    }
}

/// A merge only appends: the records it started with come first, unchanged.
pub proof fn lemma_merged_extends<F: Fn(&str, &str, &str, &str, &str) -> Option<PrinterConfig>>(
    make_config: F,
    start: Seq<PrinterRecord>,
    devices: Seq<DiscoveredDevice>,
    drivers: Seq<Option<String>>,
    result: Seq<PrinterRecord>,
)
    requires
        merged(make_config, start, devices, drivers, result),
    ensures
        result.len() >= start.len(),
        result.subrange(0, start.len() as int) == start,
{
    let stages = choose|stages: Seq<Seq<PrinterRecord>>|
        #[trigger] merge_trace(make_config, stages, devices, drivers) && stages[0] == start
            && stages.last() == result;
    lemma_trace_extends(make_config, stages, devices, drivers, devices.len() as int);
}

/// Whether some record in `records` serves the device at `uri`.
pub fn has_device(records: &Vec<PrinterRecord>, uri: &str) -> (r: bool)
    ensures
        r == has_device_uri(records@, uri@),
{
    let mut k: usize = 0;
    while k < records.len()
        invariant
            k <= records@.len(),
            forall|j: int| 0 <= j < k ==> (#[trigger] records@[j]).config.device_uri@ != uri@,
        decreases records@.len() - k,
    {
        if str_eq(records[k].config.device_uri.as_str(), uri) {
            return true;
        }
        k = k + 1;
    }
    false
}

/// Fresh records for the persisted configs, in order.
pub fn records_from_configs(configs: Vec<PrinterConfig>) -> (r: Vec<PrinterRecord>)
    ensures
        r@.len() == configs@.len(),
        forall|k: int| 0 <= k < r@.len() ==> is_fresh_record(#[trigger] r@[k], configs@[k]),
{
    let mut out: Vec<PrinterRecord> = Vec::new();
    let mut rest = configs;
    let ghost all = rest@;
    while rest.len() > 0
        invariant
            out@.len() + rest@.len() == all.len(),
            forall|k: int| 0 <= k < out@.len() ==> is_fresh_record(#[trigger] out@[k], all[k]),
            rest@ == all.skip(out@.len() as int),
        decreases rest@.len(),
    {
        let cfg = rest.remove(0);
        out.push(PrinterRecord::new(cfg));
        assert(rest@ =~= all.skip(out@.len() as int));
    }
    out
}

/// Merge discovered devices into `records`, in discovery order: device `i`,
/// with the backend's driver answer `drivers[i]`, gets one fresh record when
/// it has a driver, no record so far serves its URI, and `make_config`
/// (called with its proposed queue name, info, driver, URI and device-id)
/// returns a config; no other device gets one.
pub fn add_discovered<F>(
    records: Vec<PrinterRecord>,
    devices: &Vec<DiscoveredDevice>,
    drivers: &Vec<Option<String>>,
    make_config: &F,
) -> (r: Vec<PrinterRecord>) where F: Fn(&str, &str, &str, &str, &str) -> Option<PrinterConfig>
    requires
        drivers@.len() == devices@.len(),
        forall|args: (&str, &str, &str, &str, &str)| #[trigger] make_config.requires(args),
    ensures
        merged(*make_config, records@, devices@, drivers@, r@),
{
    let ghost start = records@;
    let mut records = records;
    let mut i: usize = 0;
    let ghost mut stages: Seq<Seq<PrinterRecord>> = seq![start];
    while i < devices.len()
        invariant
            forall|args: (&str, &str, &str, &str, &str)| #[trigger] make_config.requires(args),
            drivers@.len() == devices@.len(),
            i <= devices@.len(),
            stages.len() == i + 1,
            stages[0] == start,
            stages.last() == records@,
            forall|k: int|
                0 <= k < i ==> #[trigger] merge_step(
                    *make_config,
                    stages[k],
                    devices@[k],
                    drivers@[k],
                    stages[k + 1],
                ),
        decreases devices@.len() - i,
    {
        let ghost before = records@;
        let d = &devices[i];
        match &drivers[i] {
            None => {},
            Some(driver) => {
                if !has_device(&records, d.uri.as_str()) {
                    let name = printer_name_from_uri(d.uri.as_str(), d.info.as_str());
                    let a_name = name.as_str();
                    let a_info = d.info.as_str();
                    let a_driver = driver.as_str();
                    let a_uri = d.uri.as_str();
                    let a_id = d.device_id.as_str();
                    let made = make_config(a_name, a_info, a_driver, a_uri, a_id);
                    let ghost args = (a_name, a_info, a_driver, a_uri, a_id);
                    proof {
                        assert(make_config.ensures(args, made));
                    }
                    match made {
                        Some(cfg) => {
                            let ghost c = cfg;
                            records.push(PrinterRecord::new(cfg));
                            proof {
                                assert(records@.drop_last() =~= before);
                                assert(records@.last().config == c);
                                assert(make_config.ensures(args, Some(records@.last().config)));
                                assert(answers(*make_config, devices@[i as int], driver@, Some(records@.last().config)));
                            }
                        },
                        None => {
                            proof {
                                assert(make_config.ensures(args, None));
                                assert(answers(*make_config, devices@[i as int], driver@, None));
                            }
                        },
                    }
                }
            },
        }
        proof {
            assert(merge_step(*make_config, before, devices@[i as int], drivers@[i as int], records@));
            let old_stages = stages;
            stages = stages.push(records@);
            assert forall|k: int| 0 <= k < i + 1 implies #[trigger] merge_step(
                *make_config,
                stages[k],
                devices@[k],
                drivers@[k],
                stages[k + 1],
            ) by {
                if k < i {
                    assert(stages[k] == old_stages[k] && stages[k + 1] == old_stages[k + 1]);
                }
            }
        }
        i = i + 1;
    }
    proof {
        assert(merge_trace(*make_config, stages, devices@, drivers@));
    }
    records
}

/// The printers a server starts with: a fresh record for each persisted
/// config, then the devices the backend lists merged in as
/// [`add_discovered`] does, with the backend's driver answer for each.
///
/// Which devices the backend lists and which drivers it names are the
/// caller's; what holds is that the persisted printers come first and
/// unchanged, and that the rest is the exact merge of some device list with
/// some driver answers (see [`merged`]).
pub fn bootstrap_records<B, F>(persisted: Vec<PrinterConfig>, backend: &B, make_config: &F) -> (r: Vec<
    PrinterRecord,
>) where B: DeviceBackend + ?Sized, F: Fn(&str, &str, &str, &str, &str) -> Option<PrinterConfig>
    requires
        forall|args: (&str, &str, &str, &str, &str)| #[trigger] make_config.requires(args),
    ensures
        r@.len() >= persisted@.len(),
        forall|k: int|
            0 <= k < persisted@.len() ==> is_fresh_record(#[trigger] r@[k], persisted@[k]),
        exists|devices: Seq<DiscoveredDevice>, drivers: Seq<Option<String>>|
            devices.len() == drivers.len() && #[trigger] merged(
                *make_config,
                r@.subrange(0, persisted@.len() as int),
                devices,
                drivers,
                r@,
            ),
{
    let records = records_from_configs(persisted);
    let ghost start = records@;
    let devices = backend.list();
    let mut drivers: Vec<Option<String>> = Vec::new();
    let mut i: usize = 0;
    while i < devices.len()
        invariant
            i <= devices@.len(),
            drivers@.len() == i,
        decreases devices@.len() - i,
    {
        drivers.push(backend.driver_for_device(devices[i].device_id.as_str(), devices[i].uri.as_str()));
        i = i + 1;
    }
    let r = add_discovered(records, &devices, &drivers, make_config);
    proof {
        lemma_merged_extends(*make_config, start, devices@, drivers@, r@);
        assert(r@.subrange(0, persisted@.len() as int) == start);
        assert forall|k: int| 0 <= k < persisted@.len() implies is_fresh_record(#[trigger] r@[k], persisted@[k]) by {
            assert(r@[k] == r@.subrange(0, persisted@.len() as int)[k]);
        }
    }
    r
}

// ---------------------------------------------------------------------------
// The status page.
// ---------------------------------------------------------------------------

/// The opening of the status page, up to the printer list.
pub open spec fn index_head() -> Seq<char> {
    "<!DOCTYPE html><html><head><title>ipp-printer-app</title></head><body><h1>ipp-printer-app</h1><ul>"@
}

/// One printer's line on the status page: its label, queue name, IPP URI and
/// device URI.
pub open spec fn index_item(r: PrinterRecord, host: Seq<char>, port: u16) -> Seq<char> {
    "<li><b>"@ + display_label_spec(r.config) + "</b> (<code>"@ + r.config.name@
        + "</code>) \u{2014} <code>"@ + printer_uri_spec(host, port, r.config.name@)
        + "</code> \u{2014} device <code>"@ + r.config.device_uri@ + "</code></li>"@
}

/// The lines of all printers, in registry order.
pub open spec fn index_items(records: Seq<PrinterRecord>, host: Seq<char>, port: u16) -> Seq<char>
    decreases records.len(),
{
    if records.len() == 0 {
        seq![]
    } else {
        index_items(records.drop_last(), host, port) + index_item(records.last(), host, port)
    }
}

/// The close of the status page: how to register a queue with CUPS.
pub open spec fn index_tail(host: Seq<char>, port: u16) -> Seq<char> {
    "</ul><p>Register with CUPS: <code>lpadmin -p NAME -E -v ipp://"@ + advertised_host(host) + ":"@
        + decimal(port as nat) + "/ipp/print/NAME -m everywhere</code></p></body></html>"@
}

/// The HTML status page served at `/`: every printer with its IPP URI, and
/// the `lpadmin` line that registers a queue with CUPS.
pub fn index_html(records: &Vec<PrinterRecord>, host: &str, port: u16) -> (r: String)
    ensures
        r@ == index_head() + index_items(records@, host@, port) + index_tail(host@, port),
{
    let mut s = String::from_str(
        "<!DOCTYPE html><html><head><title>ipp-printer-app</title></head><body><h1>ipp-printer-app</h1><ul>",
    );
    let mut i: usize = 0;
    while i < records.len()
        invariant
            i <= records@.len(),
            s@ == index_head() + index_items(records@.take(i as int), host@, port),
        decreases records@.len() - i,
    {
        let p = &records[i];
        let uri = p.config.printer_uri(host, port);
        push_str(&mut s, "<li><b>");
        push_str(&mut s, p.config.display_label());
        push_str(&mut s, "</b> (<code>");
        push_str(&mut s, p.config.name.as_str());
        push_str(&mut s, "</code>) \u{2014} <code>");
        push_str(&mut s, uri.as_str());
        push_str(&mut s, "</code> \u{2014} device <code>");
        push_str(&mut s, p.config.device_uri.as_str());
        push_str(&mut s, "</code></li>");
        proof {
            let t = records@.take(i + 1);
            assert(t.drop_last() =~= records@.take(i as int));
            assert(t.last() == records@[i as int]);
            assert(s@ =~= index_head() + index_items(records@.take(i + 1), host@, port));
        }
        i = i + 1;
    }
    proof {
        assert(records@.take(records@.len() as int) =~= records@);
    }
    push_str(&mut s, "</ul><p>Register with CUPS: <code>lpadmin -p NAME -E -v ipp://");
    push_str(&mut s, advertise_host(host));
    push_str(&mut s, ":");
    push_decimal(&mut s, port as u64);
    push_str(&mut s, "/ipp/print/NAME -m everywhere</code></p></body></html>");
    assert(s@ =~= index_head() + index_items(records@, host@, port) + index_tail(host@, port));
    s
}

// ---------------------------------------------------------------------------
// The spooler: what each print attempt does to the printer and the job.
// ---------------------------------------------------------------------------

/// Longest wait between two attempts of a held job, in milliseconds.
pub const BACKOFF_MAX_MS: u64 = 30_000;

/// Default wait before the first retry of a held job, in milliseconds.
pub const BACKOFF_START_MS: u64 = 2_000;

/// The first retry wait: the configured one (default 2 s), capped at 30 s.
pub fn initial_backoff_ms(configured: Option<u64>) -> (r: u64)
    ensures
        r == (match configured {
            Some(ms) => if ms < BACKOFF_MAX_MS {
                ms
            } else {
                BACKOFF_MAX_MS
            },
            None => BACKOFF_START_MS,
        }),
{
    let start = match configured {
        Some(ms) => ms,
        None => BACKOFF_START_MS,
    };
    if start < BACKOFF_MAX_MS {
        start
    } else {
        BACKOFF_MAX_MS
    }
}

/// The next retry wait: double the last one, capped at 30 s.
pub fn next_backoff_ms(backoff: u64) -> (r: u64)
    ensures
        r == (if 2 * backoff < BACKOFF_MAX_MS {
            2 * backoff
        } else {
            BACKOFF_MAX_MS as int
        }),
        r <= BACKOFF_MAX_MS,
{
    if backoff < BACKOFF_MAX_MS / 2 {
        backoff * 2
    } else {
        BACKOFF_MAX_MS
    }
}

/// A print job starts: the printer stays `processing` for the whole life
/// of the job (so the status poller keeps off the device) and the job is
/// `processing`.
pub fn start_job_processing(
    printers: &mut Vec<PrinterRecord>,
    jobs: &mut JobRegistry,
    name: &str,
    job_id: JobId,
    now: i32,
)
    requires
        old(jobs).wf(),
    ensures
        final(jobs).wf(),
        final(jobs).next_id() == old(jobs).next_id(),
        final(printers)@ == update_printer(
            old(printers)@,
            name@,
            |rec: PrinterRecord| with_printer_state(rec, IppPrinterState::Processing),
        ),
        final(jobs).jobs() == update_job(
            old(jobs).jobs(),
            job_id,
            |j: JobRecordV| with_state(j, JobState::Processing, now),
        ),
{
    set_printer_state(printers, name, IppPrinterState::Processing);
    jobs.set_state(job_id, JobState::Processing, now);
}

/// What one attempt's outcome does to the printer's reasons and state.
pub open spec fn printer_after_outcome(
    records: Seq<PrinterRecord>,
    name: Seq<char>,
    outcome: JobOutcome,
) -> Seq<PrinterRecord> {
    match outcome {
        JobOutcome::Completed => update_printer(
            update_printer(records, name, |rec: PrinterRecord| with_reasons(rec, PrinterReason(0))),
            name,
            |rec: PrinterRecord| with_printer_state(rec, IppPrinterState::Idle),
        ),
        JobOutcome::Failed(f) => update_printer(
            update_printer(
                records,
                name,
                |rec: PrinterRecord| with_reasons(rec, f.printer_reasons),
            ),
            name,
            |rec: PrinterRecord| with_printer_state(rec, IppPrinterState::Idle),
        ),
        JobOutcome::DeviceUnavailable { reasons } => update_printer(
            records,
            name,
            |rec: PrinterRecord| with_reasons(rec, reasons),
        ),
    }
}

/// What one attempt's outcome does to the job.
pub open spec fn jobs_after_outcome(
    jobs: Seq<JobRecordV>,
    job_id: JobId,
    outcome: JobOutcome,
    canceled: bool,
    now: i32,
) -> Seq<JobRecordV> {
    match outcome {
        JobOutcome::Completed => if canceled {
            jobs
        } else {
            update_job(jobs, job_id, |j: JobRecordV| with_state(j, JobState::Completed, now))
        },
        JobOutcome::Failed(f) => update_job(
            jobs,
            job_id,
            |j: JobRecordV| with_failure(j, f.printer_reasons.0, f.message@, now),
        ),
        JobOutcome::DeviceUnavailable { .. } => update_job(
            jobs,
            job_id,
            |j: JobRecordV| with_state(j, JobState::ProcessingStopped, now),
        ),
    }
}

/// Fold one print attempt's outcome into the printer and job records and
/// say whether the job is retried. `Completed`: reasons cleared, printer
/// idle, job completed (unless a cancel landed mid-print). `Failed`: the
/// failure's reasons on the printer, printer idle, job aborted with the
/// message; never retried. `DeviceUnavailable`: the reasons are surfaced but
/// the printer stays `processing`; the job is held (`processing-stopped`)
/// and retried.
pub fn record_outcome(
    printers: &mut Vec<PrinterRecord>,
    jobs: &mut JobRegistry,
    name: &str,
    job_id: JobId,
    outcome: JobOutcome,
    canceled: bool,
    now: i32,
) -> (retry: bool)
    requires
        old(jobs).wf(),
    ensures
        final(jobs).wf(),
        final(jobs).next_id() == old(jobs).next_id(),
        retry == outcome is DeviceUnavailable,
        final(printers)@ == printer_after_outcome(old(printers)@, name@, outcome),
        final(jobs).jobs() == jobs_after_outcome(old(jobs).jobs(), job_id, outcome, canceled, now),
{
    match outcome {
        JobOutcome::Completed => {
            set_printer_reasons(printers, name, PrinterReason::empty());
            set_printer_state(printers, name, IppPrinterState::Idle);
            if !canceled {
                jobs.set_state(job_id, JobState::Completed, now);
            }
            false
        },
        JobOutcome::Failed(f) => {
            set_printer_reasons(printers, name, f.printer_reasons);
            set_printer_state(printers, name, IppPrinterState::Idle);
            jobs.set_failure(job_id, f.printer_reasons, f.message, now);
            false
        },
        JobOutcome::DeviceUnavailable { reasons } => {
            set_printer_reasons(printers, name, reasons);
            jobs.set_state(job_id, JobState::ProcessingStopped, now);
            true
        },
    }
}

/// A held job is retried, never failed: an attempt that finds the device
/// unavailable leaves the job reading back `processing-stopped` (not aborted
/// or completed), every other job as it was, and every printer in its state
/// (the printer stays `processing` while the job is held).
pub proof fn lemma_unavailable_device_holds_job(
    printers: Seq<PrinterRecord>,
    jobs: Seq<JobRecordV>,
    name: Seq<char>,
    job_id: JobId,
    other: JobId,
    reasons: PrinterReason,
    canceled: bool,
    now: i32,
)
    requires
        ids_increasing(jobs),
    ensures
        ({
            let outcome = JobOutcome::DeviceUnavailable { reasons };
            let after = jobs_after_outcome(jobs, job_id, outcome, canceled, now);
            let ps = printer_after_outcome(printers, name, outcome);
            &&& find_job(after, job_id) == (match find_job(jobs, job_id) {
                Some(j) => Some(with_state(j, JobState::ProcessingStopped, now)),
                None => None,
            })
            &&& other != job_id ==> find_job(after, other) == find_job(jobs, other)
            &&& ps.len() == printers.len()
            &&& forall|k: int| 0 <= k < ps.len() ==> (#[trigger] ps[k]).state == printers[k].state
        }),
{
    lemma_find_after_update(
        jobs,
        job_id,
        other,
        |j: JobRecordV| with_state(j, JobState::ProcessingStopped, now),
    );
    lemma_printer_index_from(printers, name, 0);
}

/// A failed attempt is final: the job reads back aborted with the failure's
/// reasons and message, every other job as it was, and the printer is idle.
pub proof fn lemma_failed_attempt_aborts_job(
    printers: Seq<PrinterRecord>,
    jobs: Seq<JobRecordV>,
    name: Seq<char>,
    job_id: JobId,
    other: JobId,
    failure: JobFailure,
    canceled: bool,
    now: i32,
)
    requires
        ids_increasing(jobs),
    ensures
        ({
            let outcome = JobOutcome::Failed(failure);
            let after = jobs_after_outcome(jobs, job_id, outcome, canceled, now);
            let ps = printer_after_outcome(printers, name, outcome);
            &&& find_job(after, job_id) == (match find_job(jobs, job_id) {
                Some(j) => Some(
                    with_failure(j, failure.printer_reasons.0, failure.message@, now),
                ),
                None => None,
            })
            &&& other != job_id ==> find_job(after, other) == find_job(jobs, other)
            &&& printer_index(printers, name) matches Some(i) ==> ps[i].state
                == IppPrinterState::Idle && ps[i].reasons == failure.printer_reasons
        }),
{
    lemma_find_after_update(
        jobs,
        job_id,
        other,
        |j: JobRecordV| with_failure(j, failure.printer_reasons.0, failure.message@, now),
    );
    lemma_printer_index_from(printers, name, 0);
    let p1 = update_printer(printers, name, |rec: PrinterRecord| with_reasons(rec, failure.printer_reasons));
    if let Some(i) = printer_index(printers, name) {
        lemma_update_printer_keeps_names(printers, name, |rec: PrinterRecord| with_reasons(rec, failure.printer_reasons));
        assert(printer_index(p1, name) == Some(i));
    }
}

/// A completed print completes the job, unless a cancel landed while it
/// printed: then the job reads back exactly as it was (the cancel is not
/// overwritten). Either way the printer is idle with no reasons.
pub proof fn lemma_completed_print_respects_cancel(
    printers: Seq<PrinterRecord>,
    jobs: Seq<JobRecordV>,
    name: Seq<char>,
    job_id: JobId,
    canceled: bool,
    now: i32,
)
    requires
        ids_increasing(jobs),
    ensures
        ({
            let after = jobs_after_outcome(jobs, job_id, JobOutcome::Completed, canceled, now);
            let ps = printer_after_outcome(printers, name, JobOutcome::Completed);
            &&& canceled ==> after == jobs
            &&& !canceled ==> find_job(after, job_id) == (match find_job(jobs, job_id) {
                Some(j) => Some(with_state(j, JobState::Completed, now)),
                None => None,
            })
            &&& printer_index(printers, name) matches Some(i) ==> ps[i].state
                == IppPrinterState::Idle && ps[i].reasons.0 == 0
        }),
{
    lemma_find_after_update(
        jobs,
        job_id,
        job_id,
        |j: JobRecordV| with_state(j, JobState::Completed, now),
    );
    lemma_printer_index_from(printers, name, 0);
    let p1 = update_printer(printers, name, |rec: PrinterRecord| with_reasons(rec, PrinterReason(0)));
    if let Some(i) = printer_index(printers, name) {
        lemma_update_printer_keeps_names(printers, name, |rec: PrinterRecord| with_reasons(rec, PrinterReason(0)));
        assert(printer_index(p1, name) == Some(i));
    }
}

/// A canceled job ends: the held condition is cleared, the printer is idle
/// again and the job is (idempotently) canceled.
pub fn record_cancel(
    printers: &mut Vec<PrinterRecord>,
    jobs: &mut JobRegistry,
    name: &str,
    job_id: JobId,
    now: i32,
)
    requires
        old(jobs).wf(),
    ensures
        final(jobs).wf(),
        final(jobs).next_id() == old(jobs).next_id(),
        final(printers)@ == update_printer(
            update_printer(old(printers)@, name@, |rec: PrinterRecord| with_reasons(rec, PrinterReason(0))),
            name@,
            |rec: PrinterRecord| with_printer_state(rec, IppPrinterState::Idle),
        ),
        match crate::job::find_job(old(jobs).jobs(), job_id) {
            None => final(jobs).jobs() == old(jobs).jobs(),
            Some(j) => if crate::job::is_terminal(j.state) {
                final(jobs).jobs() == old(jobs).jobs()
            } else {
                final(jobs).jobs() == update_job(
                    old(jobs).jobs(),
                    job_id,
                    |j: JobRecordV| with_state(j, JobState::Canceled, now),
                )
            },
        },
{
    set_printer_reasons(printers, name, PrinterReason::empty());
    set_printer_state(printers, name, IppPrinterState::Idle);
    let _ = jobs.cancel(job_id, now);
}

} // verus!
