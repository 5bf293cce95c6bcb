//! Background `printer-state-reasons` polling: which printers are polled,
//! what a poll result does to a printer record, and how the discovery advert
//! is reconciled against reachability.

use vstd::prelude::*;

use crate::device::PollStatus;
use crate::flags::has_bits;
use crate::printer::{
    find_printer, lemma_printer_index_from, printer_index, IppPrinterState, PrinterConfig,
    PrinterRecord,
};

verus! {

/// Lets the status poller pull a printer out of DNS-SD discovery when its
/// device goes offline, and republish it when the device returns.
pub trait AdvertiserControl: Send + Sync {
    /// Republish the printer's discovery advert. Idempotent.
    fn publish(&self, rec: &PrinterRecord);

    /// Withdraw the printer's discovery advert. Idempotent.
    fn withdraw(&self, name: &str);

    /// Whether this printer is currently advertised.
    fn is_advertised(&self, name: &str) -> bool;
}

/// Default poll cadence in seconds.
pub const POLL_INTERVAL_SECS: u64 = 30;

/// The poll interval: the configured number of seconds, else the default.
pub fn poll_interval_secs(configured: Option<u64>) -> (r: u64)
    ensures
        r == match configured {
            Some(s) => s,
            None => POLL_INTERVAL_SECS,
        },
{
    match configured {
        Some(s) => s,
        None => POLL_INTERVAL_SECS,
    }
}

/// Printers that are not printing are polled: idle ones, and stopped
/// (offline) ones so they recover. Processing printers are left alone so the
/// poller never contends with a job for the device.
pub open spec fn is_poll_target(state: IppPrinterState) -> bool {
    state == IppPrinterState::Idle || state == IppPrinterState::Stopped
}

/// Whether a printer in `state` is polled.
pub fn should_poll(state: IppPrinterState) -> (r: bool)
    ensures
        r == is_poll_target(state),
{
    match state {
        IppPrinterState::Idle | IppPrinterState::Stopped => true,
        IppPrinterState::Processing => false,
    }
}

/// A device is reachable unless it reports `offline-report`.
pub open spec fn is_reachable(status: PollStatus) -> bool {
    !has_bits(status.reasons.0, 0x0800)
}

/// The configs of the printers the poller asks about, in registry order.
pub fn poll_targets(records: &Vec<PrinterRecord>) -> (r: Vec<PrinterConfig>)
    ensures
        configs_view(r@) == records@.filter(|rec: PrinterRecord| is_poll_target(rec.state)).map_values(
            |rec: PrinterRecord| rec.config@,
        ),
{
    let mut out: Vec<PrinterConfig> = Vec::new();
    let mut i: usize = 0;
    while i < records.len()
        invariant
            i <= records@.len(),
            configs_view(out@) == records@.take(i as int).filter(|rec: PrinterRecord| is_poll_target(rec.state)).map_values(
                |rec: PrinterRecord| rec.config@,
            ),
        decreases records@.len() - i,
    {
        let ghost before = configs_view(out@);
        proof {
            assert(records@.take(i + 1).drop_last() =~= records@.take(i as int));
            reveal_with_fuel(Seq::filter, 1);
        }
        if should_poll(records[i].state) {
            out.push(records[i].config.duplicate());
            proof {
                assert(configs_view(out@) =~= before.push(records@[i as int].config@));
            }
        }
        i = i + 1;
    }
    proof {
        assert(records@.take(records@.len() as int) =~= records@);
    }
    out
}

/// The views of a list of configs.
pub open spec fn configs_view(s: Seq<PrinterConfig>) -> Seq<crate::printer::PrinterConfigV> {
    s.map_values(|c: PrinterConfig| c@)
}

/// `after` is `before` with a poll result applied: the reasons are replaced;
/// the state becomes `idle` for a reachable device and `stopped` for an
/// offline one (so CUPS holds queued jobs until it is back); the loaded media
/// and supply level are replaced when the poll reports them and carried
/// forward when it omits them; config and UUID are kept.
pub open spec fn polled(before: PrinterRecord, after: PrinterRecord, status: PollStatus) -> bool {
    &&& after.reasons == status.reasons
    &&& after.state == (if is_reachable(status) {
        IppPrinterState::Idle
    } else {
        IppPrinterState::Stopped
    })
    &&& after.ready_media == (if status.ready_media is Some {
        status.ready_media
    } else {
        before.ready_media
    })
    &&& after.supply_percent == (if status.supply_percent is Some {
        status.supply_percent
    } else {
        before.supply_percent
    })
    &&& after.config == before.config
    &&& after.uuid == before.uuid
}

/// Apply a poll result to a printer (see [`polled`]). Returns whether the
/// device is reachable.
pub fn apply_poll_status(rec: &mut PrinterRecord, status: PollStatus) -> (reachable: bool)
    ensures
        reachable == is_reachable(status),
        polled(*old(rec), *final(rec), status),
{
    let reachable = !status.reasons.contains(crate::flags::PrinterReason::offline());
    rec.reasons = status.reasons;
    rec.state = if reachable {
        IppPrinterState::Idle
    } else {
        IppPrinterState::Stopped
    };
    if status.ready_media.is_some() {
        rec.ready_media = status.ready_media;
    }
    if status.supply_percent.is_some() {
        rec.supply_percent = status.supply_percent;
    }
    reachable
}

/// Apply one printer's poll result to the registry: the printer named
/// `name`, if it is still registered, gets the result (see [`polled`]) and
/// every other printer is left as it is. Returns whether the device is
/// reachable, which decides the discovery advert whether or not the printer
/// is still registered.
pub fn record_poll(records: &mut Vec<PrinterRecord>, name: &str, status: PollStatus) -> (reachable:
    bool)
    ensures
        reachable == is_reachable(status),
        match printer_index(old(records)@, name@) {
            None => final(records)@ == old(records)@,
            Some(i) => {
                &&& final(records)@.len() == old(records)@.len()
                &&& forall|k: int|
                    0 <= k < old(records)@.len() && k != i ==> #[trigger] final(records)@[k]
                        == old(records)@[k]
                &&& polled(old(records)@[i], final(records)@[i], status)
            },
        },
{
    match find_printer(records, name) {
        Some(i) => {
            proof {
                lemma_printer_index_from(old(records)@, name@, 0);
            }
            let mut rec = records.remove(i);
            let reachable = apply_poll_status(&mut rec, status);
            records.insert(i, rec);
            reachable
        },
        None => !status.reasons.contains(crate::flags::PrinterReason::offline()),
    }
}

/// What to do with a printer's discovery advert after a poll.
#[derive(Debug, Clone, Copy, PartialEq, Eq, Structural)]
pub enum AdvertAction {
    /// Republish the advert.
    Publish,
    /// Withdraw the advert.
    Withdraw,
    /// Leave the advert as it is.
    Keep,
}

/// Reconcile (not edge-trigger) the advert against reachability: a
/// reachable printer must be advertised, an offline one withdrawn.
pub fn advert_action(reachable: bool, advertised: bool) -> (r: AdvertAction)
    ensures
        r == (if reachable && !advertised {
            AdvertAction::Publish
        } else if !reachable && advertised {
            AdvertAction::Withdraw
        } else {
            AdvertAction::Keep
        }),
{
    if reachable && !advertised {
        AdvertAction::Publish
    } else if !reachable && advertised {
        AdvertAction::Withdraw
    } else {
        AdvertAction::Keep
    }
}

/// After reconciling, a printer is advertised exactly when its device is
/// reachable, whatever its advert state was before.
pub proof fn lemma_reconcile_matches_reachability(reachable: bool, advertised: bool)
    ensures
        ({
            let action = if reachable && !advertised {
                AdvertAction::Publish
            } else if !reachable && advertised {
                AdvertAction::Withdraw
            } else {
                AdvertAction::Keep
            };
            let after = match action {
                AdvertAction::Publish => true,
                AdvertAction::Withdraw => false,
                AdvertAction::Keep => advertised,
            };
            after == reachable
        }),
{
}

} // verus!
