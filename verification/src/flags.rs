//! IPP `printer-state-reasons` bit flags (PWG 5101.1 keywords).

use vstd::prelude::*;

verus! {

/// Underlying integer representation for [`PrinterReason`].
pub type PrinterReasonRaw = u32;

/// `printer-state-reasons` flags, one bit per PWG keyword. The empty set
/// ([`PrinterReason::empty`]) means "no reasons".
#[derive(Clone, Copy, Debug, PartialEq, Eq, Hash, Structural)]
pub struct PrinterReason(pub PrinterReasonRaw);

/// Number of PWG keywords that [`PrinterReason`] knows.
pub const REASON_COUNT: usize = 17;

/// The keyword table, in the order CUPS expects the keywords: each entry is a
/// flag bit and the keyword that names it.
pub open spec fn reason_table() -> Seq<(u32, Seq<char>)> {
    seq![
        (0x0001u32, "other"@),
        (0x0002u32, "cover-open"@),
        (0x8000u32, "door-open"@),
        (0x0004u32, "input-tray-missing"@),
        (0x0008u32, "marker-supply-empty"@),
        (0x0010u32, "marker-supply-low"@),
        (0x0020u32, "marker-waste-almost-full"@),
        (0x0040u32, "marker-waste-full"@),
        (0x0080u32, "media-empty"@),
        (0x0100u32, "media-jam"@),
        (0x0200u32, "media-low"@),
        (0x0400u32, "media-needed"@),
        (0x0800u32, "offline-report"@),
        (0x1000u32, "spool-area-full"@),
        (0x2000u32, "toner-empty"@),
        (0x4000u32, "toner-low"@),
        (0x10000u32, "identify-printer-requested"@),
    ]
}

/// Whether every bit of `flag` is set in `bits`.
pub open spec fn has_bits(bits: u32, flag: u32) -> bool {
    bits & flag == flag
}

/// The keywords of the first `n` table entries whose bit is set in `bits`,
/// in table order.
pub open spec fn keywords_upto(bits: u32, n: nat) -> Seq<Seq<char>>
    decreases n,
{
    if n == 0 {
        seq![]
    } else {
        let prev = keywords_upto(bits, (n - 1) as nat);
        let entry = reason_table()[n - 1];
        if has_bits(bits, entry.0) {
            prev.push(entry.1)
        } else {
            prev
        }
    }
}

/// What `printer-state-reasons` carries for a flag set: `["none"]` for the
/// empty set, otherwise the keywords of the set flags in table order.
pub open spec fn reason_keywords(bits: u32) -> Seq<Seq<char>> {
    if bits == 0 {
        seq!["none"@]
    } else {
        keywords_upto(bits, REASON_COUNT as nat)
    }
}

/// Entry `i` of the keyword table.
fn reason_entry(i: usize) -> (r: (u32, &'static str))
    requires
        i < REASON_COUNT,
    ensures
        r.0 == reason_table()[i as int].0,
        r.1@ == reason_table()[i as int].1,
{
    match i {
        0 => (0x0001, "other"),
        1 => (0x0002, "cover-open"),
        2 => (0x8000, "door-open"),
        3 => (0x0004, "input-tray-missing"),
        4 => (0x0008, "marker-supply-empty"),
        5 => (0x0010, "marker-supply-low"),
        6 => (0x0020, "marker-waste-almost-full"),
        7 => (0x0040, "marker-waste-full"),
        8 => (0x0080, "media-empty"),
        9 => (0x0100, "media-jam"),
        10 => (0x0200, "media-low"),
        11 => (0x0400, "media-needed"),
        12 => (0x0800, "offline-report"),
        13 => (0x1000, "spool-area-full"),
        14 => (0x2000, "toner-empty"),
        15 => (0x4000, "toner-low"),
        _ => (0x10000, "identify-printer-requested"),
    }
}

/// The views of a list of static strings.
pub open spec fn str_views(v: Seq<&'static str>) -> Seq<Seq<char>> {
    v.map_values(|s: &'static str| s@)
}

/// The table's keywords are pairwise distinct, and none of them is `none`.
proof fn lemma_table_keywords_distinct()
    ensures
        forall|i: int, j: int|
            0 <= i < REASON_COUNT && 0 <= j < REASON_COUNT && i != j ==> reason_table()[i].1
                != reason_table()[j].1,
        forall|i: int| 0 <= i < REASON_COUNT ==> reason_table()[i].1 != "none"@,
{
    reveal_strlit("none");
    reveal_strlit("other");
    reveal_strlit("cover-open");
    reveal_strlit("door-open");
    reveal_strlit("input-tray-missing");
    reveal_strlit("marker-supply-empty");
    reveal_strlit("marker-supply-low");
    reveal_strlit("marker-waste-almost-full");
    reveal_strlit("marker-waste-full");
    reveal_strlit("media-empty");
    reveal_strlit("media-jam");
    reveal_strlit("media-low");
    reveal_strlit("media-needed");
    reveal_strlit("offline-report");
    reveal_strlit("spool-area-full");
    reveal_strlit("toner-empty");
    reveal_strlit("toner-low");
    reveal_strlit("identify-printer-requested");
    let t = reason_table();
    assert(t[0].1.len() == 5 && t[0].1[0] == 'o');
    assert(t[1].1.len() == 10 && t[1].1[0] == 'c' && t[1].1[6] == 'o' && t[1].1[7] == 'p');
    assert(t[2].1.len() == 9 && t[2].1[0] == 'd' && t[2].1[6] == 'p' && t[2].1[7] == 'e');
    assert(t[3].1.len() == 18 && t[3].1[0] == 'i' && t[3].1[6] == 't' && t[3].1[7] == 'r');
    assert(t[4].1.len() == 19 && t[4].1[0] == 'm' && t[4].1[6] == '-' && t[4].1[7] == 's');
    assert(t[5].1.len() == 17 && t[5].1[0] == 'm' && t[5].1[6] == '-' && t[5].1[7] == 's');
    assert(t[6].1.len() == 24 && t[6].1[0] == 'm' && t[6].1[6] == '-' && t[6].1[7] == 'w');
    assert(t[7].1.len() == 17 && t[7].1[0] == 'm' && t[7].1[6] == '-' && t[7].1[7] == 'w');
    assert(t[8].1.len() == 11 && t[8].1[0] == 'm' && t[8].1[6] == 'e' && t[8].1[7] == 'm');
    assert(t[9].1.len() == 9 && t[9].1[0] == 'm' && t[9].1[6] == 'j' && t[9].1[7] == 'a');
    assert(t[10].1.len() == 9 && t[10].1[0] == 'm' && t[10].1[6] == 'l' && t[10].1[7] == 'o');
    assert(t[11].1.len() == 12 && t[11].1[0] == 'm' && t[11].1[6] == 'n' && t[11].1[7] == 'e');
    assert(t[12].1.len() == 14 && t[12].1[0] == 'o' && t[12].1[6] == 'e' && t[12].1[7] == '-');
    assert(t[13].1.len() == 15 && t[13].1[0] == 's' && t[13].1[6] == 'a' && t[13].1[7] == 'r');
    assert(t[14].1.len() == 11 && t[14].1[0] == 't' && t[14].1[6] == 'e' && t[14].1[7] == 'm');
    assert(t[15].1.len() == 9 && t[15].1[0] == 't' && t[15].1[6] == 'l' && t[15].1[7] == 'o');
    assert(t[16].1.len() == 26 && t[16].1[0] == 'i' && t[16].1[6] == 'f' && t[16].1[7] == 'y');
    assert forall|i: int, j: int|
        0 <= i < REASON_COUNT && 0 <= j < REASON_COUNT && i != j implies t[i].1 != t[j].1 by {
        if t[i].1 == t[j].1 {
            let a = t[i].1;
            let b = t[j].1;
            assert(a.len() == b.len() && a[0] == b[0]);
            if a.len() > 7 {
                assert(a[6] == b[6] && a[7] == b[7]);
            } else if a.len() > 6 {
                assert(a[6] == b[6]);
            }
            if i == 0 {} else if i == 1 {} else if i == 2 {} else if i == 3 {} else if i == 4 {} else if i == 5 {} else if i == 6 {} else if i == 7 {} else if i == 8 {} else if i == 9 {} else if i == 10 {} else if i == 11 {} else if i == 12 {} else if i == 13 {} else if i == 14 {} else if i == 15 {}
            if j == 0 {} else if j == 1 {} else if j == 2 {} else if j == 3 {} else if j == 4 {} else if j == 5 {} else if j == 6 {} else if j == 7 {} else if j == 8 {} else if j == 9 {} else if j == 10 {} else if j == 11 {} else if j == 12 {} else if j == 13 {} else if j == 14 {} else if j == 15 {}
        }
    }
    assert forall|i: int| 0 <= i < REASON_COUNT implies t[i].1 != "none"@ by {
        if t[i].1 == "none"@ {
            assert(t[i].1.len() == 4);
            if i == 0 {} else if i == 1 {} else if i == 2 {} else if i == 3 {} else if i == 4 {} else if i == 5 {} else if i == 6 {} else if i == 7 {} else if i == 8 {} else if i == 9 {} else if i == 10 {} else if i == 11 {} else if i == 12 {} else if i == 13 {} else if i == 14 {} else if i == 15 {}
        }
    }
}

proof fn lemma_keywords_upto_contains(bits: u32, n: nat, j: int)
    requires
        n <= REASON_COUNT,
        0 <= j < REASON_COUNT,
    ensures
        keywords_upto(bits, n).contains(reason_table()[j].1) <==> (j < n && has_bits(
            bits,
            reason_table()[j].0,
        )),
        !keywords_upto(bits, n).contains("none"@),
    decreases n,
{
    lemma_table_keywords_distinct();
    if n > 0 {
        lemma_keywords_upto_contains(bits, (n - 1) as nat, j);
        let prev = keywords_upto(bits, (n - 1) as nat);
        let entry = reason_table()[n - 1];
        if has_bits(bits, entry.0) {
            assert(keywords_upto(bits, n) == prev.push(entry.1));
            if j == n - 1 {
                assert(prev.push(entry.1)[prev.len() as int] == entry.1);
            } else {
                if prev.push(entry.1).contains(reason_table()[j].1) {
                    let k = choose|k: int|
                        0 <= k < prev.push(entry.1).len() && prev.push(entry.1)[k]
                            == reason_table()[j].1;
                    if k < prev.len() {
                        assert(prev[k] == reason_table()[j].1);
                    }
                }
                if prev.contains(reason_table()[j].1) {
                    let k = choose|k: int| 0 <= k < prev.len() && prev[k] == reason_table()[j].1;
                    assert(prev.push(entry.1)[k] == reason_table()[j].1);
                }
            }
            if prev.push(entry.1).contains("none"@) {
                let k = choose|k: int|
                    0 <= k < prev.push(entry.1).len() && prev.push(entry.1)[k] == "none"@;
                if k < prev.len() {
                    assert(prev[k] == "none"@);
                }
            }
        }
    }
}

/// For a non-empty set, a table keyword is reported exactly when its flag is
/// set, and `none` is never reported.
pub proof fn lemma_keyword_reported_iff_flag_set(bits: u32, j: int)
    requires
        bits != 0,
        0 <= j < REASON_COUNT,
    ensures
        reason_keywords(bits).contains(reason_table()[j].1) <==> has_bits(
            bits,
            reason_table()[j].0,
        ),
        !reason_keywords(bits).contains("none"@),
{
    lemma_keywords_upto_contains(bits, REASON_COUNT as nat, j);
}

impl PrinterReason {
    /// The empty set: no reasons.
    pub fn empty() -> (r: PrinterReason)
        ensures
            r.0 == 0,
    {
        PrinterReason(0)
    }

    /// The set holding exactly the bits of `bits`.
    pub fn from_bits_retain(bits: PrinterReasonRaw) -> (r: PrinterReason)
        ensures
            r.0 == bits,
    {
        PrinterReason(bits)
    }

    /// The raw bits of the set.
    pub fn bits(&self) -> (r: PrinterReasonRaw)
        ensures
            r == self.0,
    {
        self.0
    }

    /// `other`
    pub fn other() -> (r: PrinterReason)
        ensures
            r.0 == 0x0001,
    {
        PrinterReason(0x0001)
    }

    /// `cover-open`
    pub fn cover_open() -> (r: PrinterReason)
        ensures
            r.0 == 0x0002,
    {
        PrinterReason(0x0002)
    }

    /// `input-tray-missing`
    pub fn input_tray_missing() -> (r: PrinterReason)
        ensures
            r.0 == 0x0004,
    {
        PrinterReason(0x0004)
    }

    /// `marker-supply-empty`
    pub fn marker_supply_empty() -> (r: PrinterReason)
        ensures
            r.0 == 0x0008,
    {
        PrinterReason(0x0008)
    }

    /// `marker-supply-low`
    pub fn marker_supply_low() -> (r: PrinterReason)
        ensures
            r.0 == 0x0010,
    {
        PrinterReason(0x0010)
    }

    /// `marker-waste-almost-full`
    pub fn marker_waste_almost_full() -> (r: PrinterReason)
        ensures
            r.0 == 0x0020,
    {
        PrinterReason(0x0020)
    }

    /// `marker-waste-full`
    pub fn marker_waste_full() -> (r: PrinterReason)
        ensures
            r.0 == 0x0040,
    {
        PrinterReason(0x0040)
    }

    /// `media-empty`
    pub fn media_empty() -> (r: PrinterReason)
        ensures
            r.0 == 0x0080,
    {
        PrinterReason(0x0080)
    }

    /// `media-jam`
    pub fn media_jam() -> (r: PrinterReason)
        ensures
            r.0 == 0x0100,
    {
        PrinterReason(0x0100)
    }

    /// `media-low`
    pub fn media_low() -> (r: PrinterReason)
        ensures
            r.0 == 0x0200,
    {
        PrinterReason(0x0200)
    }

    /// `media-needed`
    pub fn media_needed() -> (r: PrinterReason)
        ensures
            r.0 == 0x0400,
    {
        PrinterReason(0x0400)
    }

    /// `offline-report`: the device cannot be reached.
    pub fn offline() -> (r: PrinterReason)
        ensures
            r.0 == 0x0800,
    {
        PrinterReason(0x0800)
    }

    /// `spool-area-full`
    pub fn spool_area_full() -> (r: PrinterReason)
        ensures
            r.0 == 0x1000,
    {
        PrinterReason(0x1000)
    }

    /// `toner-empty`
    pub fn toner_empty() -> (r: PrinterReason)
        ensures
            r.0 == 0x2000,
    {
        PrinterReason(0x2000)
    }

    /// `toner-low`
    pub fn toner_low() -> (r: PrinterReason)
        ensures
            r.0 == 0x4000,
    {
        PrinterReason(0x4000)
    }

    /// `door-open`
    pub fn door_open() -> (r: PrinterReason)
        ensures
            r.0 == 0x8000,
    {
        PrinterReason(0x8000)
    }

    /// `identify-printer-requested`
    pub fn identify_printer_requested() -> (r: PrinterReason)
        ensures
            r.0 == 0x10000,
    {
        PrinterReason(0x10000)
    }

    /// True if no flag is set.
    pub fn is_empty(&self) -> (r: bool)
        ensures
            r == (self.0 == 0),
    {
        self.0 == 0
    }

    /// True if every flag of `other` is set in `self`.
    pub fn contains(&self, other: PrinterReason) -> (r: bool)
        ensures
            r == has_bits(self.0, other.0),
    {
        self.0 & other.0 == other.0
    }

    /// The flags set in either `self` or `other`.
    pub fn union(self, other: PrinterReason) -> (r: PrinterReason)
        ensures
            r.0 == self.0 | other.0,
    {
        PrinterReason(self.0 | other.0)
    }

    /// PWG keyword tokens for this flag set, in the order CUPS expects.
    /// An empty set yields `["none"]`.
    pub fn ipp_keywords(&self) -> (r: Vec<&'static str>)
        ensures
            str_views(r@) == reason_keywords(self.0),
    {
        let mut out: Vec<&'static str> = Vec::new();
        if self.0 == 0 {
            out.push("none");
            proof {
                assert(str_views(out@) =~= seq!["none"@]);
            }
            return out;
        }
        let mut i: usize = 0;
        while i < REASON_COUNT
            invariant
                i <= REASON_COUNT,
                str_views(out@) == keywords_upto(self.0, i as nat),
            decreases REASON_COUNT - i,
        {
            let (bit, kw) = reason_entry(i);
            let ghost before = out@;
            if self.0 & bit == bit {
                out.push(kw);
                proof {
                    assert(out@ == before.push(kw));
                    assert(str_views(out@) =~= str_views(before).push(kw@));
                }
            }
            i = i + 1;
        }
        out
    }
}

impl core::ops::BitOr for PrinterReason {
    type Output = PrinterReason;

    fn bitor(self, rhs: PrinterReason) -> (r: PrinterReason) {
        self.union(rhs)
    }
}

impl vstd::std_specs::ops::BitOrSpecImpl for PrinterReason {
    open spec fn obeys_bitor_spec() -> bool {
        true
    }

    open spec fn bitor_req(self, rhs: PrinterReason) -> bool {
        true
    }

    open spec fn bitor_spec(self, rhs: PrinterReason) -> PrinterReason {
        PrinterReason(self.0 | rhs.0)
    }
}

} // verus!
