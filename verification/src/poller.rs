//! One refresh of the access-point list: merging what the API reports into
//! the records shown, and the order of the calls that gather it.

use vstd::prelude::*;

use crate::convert::{
    bss_type_name, bss_type_to_string, bssid_to_string, channel_from_frequency_khz, channel_of,
    colon_hex, interface_state_name, interface_state_to_string, phy_type_name,
    phy_type_to_string, quality_to_rssi_dbm, rssi_estimate,
};
use crate::native::{
    available_views, bss_views, AvailableNetworkRaw, AvailableView, BssEntryRaw, BssView,
    ConnectionView, CurrentConnectionRaw, InterfaceGuid, InterfaceInfoRaw, WifiError, WifiResult,
};
use crate::text::{
    decimal_digits, decimal_signed, lemma_text_le_total, lemma_text_le_transitive, push_decimal,
    push_signed_decimal, text_le,
};
use crate::types::{
    ap_views, summary_views, AccessPointRecord, ApView, InterfaceSummaryView, WifiInterfaceSummary,
    WifiSnapshot,
};

verus! {

/// Two BSS entries describe the same BSS when BSSID, SSID, BSS type, PHY
/// type and centre frequency agree.
pub open spec fn same_bss(a: BssView, b: BssView) -> bool {
    &&& a.bssid == b.bssid
    &&& a.ssid == b.ssid
    &&& a.bss_type == b.bss_type
    &&& a.phy_type == b.phy_type
    &&& a.center_freq_khz == b.center_freq_khz
}

/// `candidate` is better than `current`: higher link quality, then higher
/// RSSI, then higher rate.
pub open spec fn better_bss(candidate: BssView, current: BssView) -> bool {
    ||| candidate.link_quality > current.link_quality
    ||| candidate.link_quality == current.link_quality && candidate.rssi > current.rssi
    ||| candidate.link_quality == current.link_quality && candidate.rssi == current.rssi
        && candidate.max_rate_half_mbps > current.max_rate_half_mbps
}

/// Index of the last entry of `acc` that describes the same BSS as `e`, or
/// -1 when there is none.
pub open spec fn bss_position(acc: Seq<BssView>, e: BssView) -> int
    decreases acc.len(),
{
    if acc.len() == 0 {
        -1
    } else if same_bss(acc.last(), e) {
        acc.len() - 1
    } else {
        bss_position(acc.drop_last(), e)
    }
}

/// `acc` after taking `e` in: `e` replaces the entry for its BSS when it is
/// better, is dropped when it is not, and is appended when its BSS is new.
pub open spec fn merge_bss(acc: Seq<BssView>, e: BssView) -> Seq<BssView> {
    let k = bss_position(acc, e);
    if k < 0 {
        acc.push(e)
    } else if better_bss(e, acc[k]) {
        acc.update(k, e)
    } else {
        acc
    }
}

/// The entries with one entry per BSS, in the order in which each BSS first
/// appears: the first of its best entries.
pub open spec fn deduped(s: Seq<BssView>) -> Seq<BssView>
    decreases s.len(),
{
    if s.len() == 0 {
        seq![]
    } else {
        merge_bss(deduped(s.drop_last()), s.last())
    }
}

proof fn lemma_bss_position(acc: Seq<BssView>, e: BssView)
    ensures
        -1 <= bss_position(acc, e) < acc.len(),
        bss_position(acc, e) >= 0 ==> same_bss(acc[bss_position(acc, e)], e),
        bss_position(acc, e) == -1 ==> forall|j: int|
            0 <= j < acc.len() ==> !same_bss(#[trigger] acc[j], e),
    decreases acc.len(),
{
    if acc.len() > 0 && !same_bss(acc.last(), e) {
        lemma_bss_position(acc.drop_last(), e);
        let p = bss_position(acc.drop_last(), e);
        if p >= 0 {
            assert(acc.drop_last()[p] == acc[p]);
        } else {
            assert forall|j: int| 0 <= j < acc.len() implies !same_bss(#[trigger] acc[j], e) by {
                if j < acc.len() - 1 {
                    assert(acc.drop_last()[j] == acc[j]);
                }
            }
        }
    }
}

/// What merging keeps: one entry per BSS; every entry taken in has an entry
/// for its BSS; no entry taken in is better than the entry kept for its BSS;
/// every kept entry is one of those taken in.
pub open spec fn dedup_kept(s: Seq<BssView>, d: Seq<BssView>) -> bool {
    &&& forall|i: int, j: int| 0 <= i < j < d.len() ==> !same_bss(#[trigger] d[i], #[trigger] d[j])
    &&& forall|i: int| 0 <= i < s.len() ==> bss_position(d, #[trigger] s[i]) >= 0
    &&& forall|i: int, j: int|
        0 <= i < s.len() && 0 <= j < d.len() && same_bss(#[trigger] s[i], #[trigger] d[j])
            ==> !better_bss(s[i], d[j])
    &&& forall|j: int| 0 <= j < d.len() ==> exists|i: int| 0 <= i < s.len() && s[i] == #[trigger] d[j]
}

/// Merging BSS entries keeps exactly one entry per BSS, an entry for every
/// BSS that occurs, and for each BSS one of its entries that no other entry
/// of it is better than.
pub proof fn lemma_deduped_keeps_best(s: Seq<BssView>)
    ensures
        dedup_kept(s, deduped(s)),
    decreases s.len(),
{
    if s.len() > 0 {
        let t = s.drop_last();
        let e = s.last();
        let d0 = deduped(t);
        lemma_deduped_keeps_best(t);
        lemma_bss_position(d0, e);
        let k = bss_position(d0, e);
        let d = deduped(s);
        assert(d == merge_bss(d0, e));
        assert forall|i: int| 0 <= i < s.len() implies bss_position(d, #[trigger] s[i]) >= 0 by {
            lemma_bss_position(d, s[i]);
            if i < s.len() - 1 {
                assert(s[i] == t[i]);
                lemma_bss_position(d0, t[i]);
                let p = bss_position(d0, t[i]);
                assert(same_bss(d[p], s[i]));
            } else {
                if k < 0 {
                    assert(d[d0.len() as int] == e);
                } else {
                    assert(same_bss(d[k], s[i]));
                }
            }
        }
        assert forall|i: int, j: int| 0 <= i < j < d.len() implies !same_bss(
            #[trigger] d[i],
            #[trigger] d[j],
        ) by {
            if k < 0 && j == d0.len() {
                assert(d[i] == d0[i]);
            } else if k >= 0 && (i == k || j == k) {
                if i == k {
                    assert(d[j] == d0[j]);
                    assert(!same_bss(d0[k], d0[j]));
                } else {
                    assert(d[i] == d0[i]);
                    assert(!same_bss(d0[i], d0[k]));
                }
            } else {
                assert(d[i] == d0[i] && d[j] == d0[j]);
            }
        }
        assert forall|i: int, j: int|
            0 <= i < s.len() && 0 <= j < d.len() && same_bss(#[trigger] s[i], #[trigger] d[j])
                implies !better_bss(s[i], d[j]) by {
            if k < 0 && j == d0.len() {
                if i < s.len() - 1 {
                    assert(s[i] == t[i]);
                    lemma_bss_position(d0, t[i]);
                    let p = bss_position(d0, t[i]);
                    assert(same_bss(d0[p], e));
                    assert(false);
                }
            } else if k >= 0 && j == k && better_bss(e, d0[k]) {
                if i < s.len() - 1 {
                    assert(s[i] == t[i]);
                    assert(same_bss(t[i], d0[k]));
                    assert(!better_bss(t[i], d0[k]));
                }
            } else {
                assert(d[j] == d0[j]);
                if i < s.len() - 1 {
                    assert(s[i] == t[i]);
                }
            }
        }
        assert forall|j: int| 0 <= j < d.len() implies exists|i: int|
            0 <= i < s.len() && s[i] == #[trigger] d[j] by {
            if (k < 0 && j == d0.len()) || (k >= 0 && j == k && better_bss(e, d0[k])) {
                assert(s[s.len() - 1] == d[j]);
            } else {
                assert(d[j] == d0[j]);
                let i = choose|i: int| 0 <= i < t.len() && t[i] == d0[j];
                assert(s[i] == d[j]);
            }
        }
    }
}

fn same_bytes6(a: &[u8; 6], b: &[u8; 6]) -> (r: bool)
    ensures
        r == (a@ == b@),
{
    let mut i: usize = 0;
    while i < 6
        invariant
            a@.len() == 6,
            b@.len() == 6,
            0 <= i <= 6,
            forall|k: int| 0 <= k < i ==> a@[k] == b@[k],
        decreases 6 - i,
    {
        if a[i] != b[i] {
            return false;
        }
        i = i + 1;
    }
    assert(a@ =~= b@);
    true
}

fn same_bss_key(a: &BssEntryRaw, b: &BssEntryRaw) -> (r: bool)
    ensures
        r == same_bss(a@, b@),
{
    same_bytes6(&a.bssid, &b.bssid) && a.ssid == b.ssid && a.bss_type == b.bss_type
        && a.phy_type == b.phy_type && a.center_freq_khz == b.center_freq_khz
}

/// Whether `candidate` is better than `current`.
pub fn is_better_bss_entry(candidate: &BssEntryRaw, current: &BssEntryRaw) -> (r: bool)
    ensures
        r == better_bss(candidate@, current@),
{
    if candidate.link_quality != current.link_quality {
        return candidate.link_quality > current.link_quality;
    }
    if candidate.rssi != current.rssi {
        return candidate.rssi > current.rssi;
    }
    candidate.max_rate_half_mbps > current.max_rate_half_mbps
}

/// Keeps one entry per BSS (see `deduped`).
pub fn dedupe_bss_entries(entries: Vec<BssEntryRaw>) -> (r: Vec<BssEntryRaw>)
    ensures
        bss_views(r@) == deduped(bss_views(entries@)),
{
    let ghost orig = bss_views(entries@);
    let mut rest = entries;
    let mut out: Vec<BssEntryRaw> = Vec::new();
    let ghost mut done: int = 0;
    assert(orig.skip(0) =~= orig);
    assert(orig.take(0) =~= Seq::<BssView>::empty());
    while rest.len() > 0
        invariant
            0 <= done <= orig.len(),
            bss_views(rest@) == orig.skip(done),
            rest@.len() == orig.len() - done,
            bss_views(out@) == deduped(orig.take(done)),
        decreases rest.len(),
    {
        let ghost before = rest@;
        let e = rest.remove(0);
        proof {
            assert(bss_views(before)[0] == orig.skip(done)[0]);
            assert(rest@ =~= before.subrange(1, before.len() as int));
            assert forall|j: int| 0 <= j < rest@.len() implies #[trigger] bss_views(rest@)[j]
                == orig.skip(done + 1)[j] by {
                assert(bss_views(before)[j + 1] == orig.skip(done)[j + 1]);
            }
            assert(bss_views(rest@) =~= orig.skip(done + 1));
            assert(e@ == orig[done]);
            assert(orig.take(done + 1).drop_last() =~= orig.take(done));
        }
        let ghost acc = bss_views(out@);
        let mut k = out.len();
        assert(acc.take(k as int) =~= acc);
        while k > 0 && !same_bss_key(&out[k - 1], &e)
            invariant
                k <= out@.len(),
                acc == bss_views(out@),
                bss_position(acc, e@) == bss_position(acc.take(k as int), e@),
            decreases k,
        {
            assert(acc.take(k as int).drop_last() =~= acc.take(k - 1));
            k = k - 1;
        }
        if k > 0 {
            assert(acc.take(k as int).last() == acc[k - 1]);
            assert(bss_position(acc, e@) == k - 1);
            if is_better_bss_entry(&e, &out[k - 1]) {
                out.set(k - 1, e);
                assert(bss_views(out@) =~= acc.update(k - 1, e@));
            }
        } else {
            assert(bss_position(acc, e@) == -1);
            out.push(e);
            assert(bss_views(out@) =~= acc.push(e@));
        }
        proof {
            done = done + 1;
        }
    }
    assert(orig.take(done) =~= orig);
    out
}

/// What the available-network list says of one network (SSID and BSS type):
/// the PHY type to show and the best signal quality.
#[derive(Clone, Copy, Debug)]
pub struct AvailableHint {
    pub phy_type: i32,
    pub signal_quality: u32,
}

/// What the available-network entries say of the network `(ssid, bss_type)`,
/// taken in order: the first entry for it sets PHY type and signal quality;
/// a later one raises the signal quality to its own when higher, and sets the
/// PHY type when it is the connected one. None when no entry is for it.
pub open spec fn network_hint(nets: Seq<AvailableView>, ssid: Seq<char>, bss_type: i32) -> Option<
    AvailableHint,
>
    decreases nets.len(),
{
    if nets.len() == 0 {
        None
    } else {
        let prev = network_hint(nets.drop_last(), ssid, bss_type);
        let n = nets.last();
        if n.ssid == ssid && n.bss_type == bss_type {
            match prev {
                None => Some(AvailableHint { phy_type: n.phy_type, signal_quality: n.signal_quality }),
                Some(h) => Some(
                    AvailableHint {
                        phy_type: if n.connected {
                            n.phy_type
                        } else {
                            h.phy_type
                        },
                        signal_quality: if h.signal_quality < n.signal_quality {
                            n.signal_quality
                        } else {
                            h.signal_quality
                        },
                    },
                ),
            }
        } else {
            prev
        }
    }
}

/// One entry of the table of available networks.
#[derive(Debug)]
pub struct AvailableEntry {
    pub ssid: String,
    pub bss_type: i32,
    pub hint: AvailableHint,
}

/// What an entry of the table holds, with its SSID as characters.
pub struct AvailableEntryView {
    pub ssid: Seq<char>,
    pub bss_type: i32,
    pub hint: AvailableHint,
}

impl View for AvailableEntry {
    type V = AvailableEntryView;

    open spec fn view(&self) -> AvailableEntryView {
        AvailableEntryView { ssid: self.ssid@, bss_type: self.bss_type, hint: self.hint }
    }
}

/// The views of the entries of a table.
pub open spec fn entry_views(s: Seq<AvailableEntry>) -> Seq<AvailableEntryView> {
    s.map_values(|e: AvailableEntry| e@)
}

/// The entry is the one for network `(ssid, bss_type)`.
pub open spec fn entry_for(e: AvailableEntryView, ssid: Seq<char>, bss_type: i32) -> bool {
    e.ssid == ssid && e.bss_type == bss_type
}

/// What the table holds for network `(ssid, bss_type)`: the hint of its last
/// entry for it, if any.
pub open spec fn table_hint(table: Seq<AvailableEntryView>, ssid: Seq<char>, bss_type: i32) -> Option<
    AvailableHint,
>
    decreases table.len(),
{
    if table.len() == 0 {
        None
    } else if entry_for(table.last(), ssid, bss_type) {
        Some(table.last().hint)
    } else {
        table_hint(table.drop_last(), ssid, bss_type)
    }
}

proof fn lemma_table_hint_suffix(table: Seq<AvailableEntryView>, k: int, ssid: Seq<char>, bss_type: i32)
    requires
        0 <= k <= table.len(),
        forall|j: int| k <= j < table.len() ==> !entry_for(#[trigger] table[j], ssid, bss_type),
    ensures
        table_hint(table, ssid, bss_type) == table_hint(table.take(k), ssid, bss_type),
    decreases table.len() - k,
{
    if k < table.len() {
        lemma_table_hint_suffix(table.drop_last(), k, ssid, bss_type);
        assert(table.drop_last().take(k) =~= table.take(k));
    } else {
        assert(table.take(k) =~= table);
    }
}

proof fn lemma_table_hint_update_other(
    table: Seq<AvailableEntryView>,
    k: int,
    x: AvailableEntryView,
    ssid: Seq<char>,
    bss_type: i32,
)
    requires
        0 <= k < table.len(),
        !entry_for(table[k], ssid, bss_type),
        !entry_for(x, ssid, bss_type),
    ensures
        table_hint(table.update(k, x), ssid, bss_type) == table_hint(table, ssid, bss_type),
    decreases table.len(),
{
    if k < table.len() - 1 {
        lemma_table_hint_update_other(table.drop_last(), k, x, ssid, bss_type);
        assert(table.update(k, x).drop_last() =~= table.drop_last().update(k, x));
    } else {
        assert(table.update(k, x).drop_last() =~= table.drop_last());
    }
}

/// Index one past the last entry of the table for network `(ssid, bss_type)`,
/// or 0 when there is none.
fn find_entry(table: &Vec<AvailableEntry>, ssid: &String, bss_type: i32) -> (k: usize)
    ensures
        k <= table@.len(),
        forall|j: int| k <= j < table@.len() ==> !entry_for(
            #[trigger] entry_views(table@)[j],
            ssid@,
            bss_type,
        ),
        k > 0 ==> entry_for(entry_views(table@)[k - 1], ssid@, bss_type),
{
    let mut k = table.len();
    while k > 0 && !(table[k - 1].ssid == *ssid && table[k - 1].bss_type == bss_type)
        invariant
            k <= table@.len(),
            forall|j: int| k <= j < table@.len() ==> !entry_for(
                #[trigger] entry_views(table@)[j],
                ssid@,
                bss_type,
            ),
        decreases k,
    {
        k = k - 1;
    }
    k
}

/// What the table holds for network `(ssid, bss_type)`.
pub fn lookup_hint(table: &Vec<AvailableEntry>, ssid: &String, bss_type: i32) -> (r: Option<
    AvailableHint,
>)
    ensures
        r == table_hint(entry_views(table@), ssid@, bss_type),
{
    let k = find_entry(table, ssid, bss_type);
    proof {
        lemma_table_hint_suffix(entry_views(table@), k as int, ssid@, bss_type);
    }
    if k > 0 {
        assert(entry_views(table@).take(k as int).last() == entry_views(table@)[k - 1]);
        Some(table[k - 1].hint)
    } else {
        None
    }
}

/// The table of available networks: for every network (SSID and BSS type)
/// in the list, what the list says of it (see `network_hint`).
pub fn build_available_map(networks: &[AvailableNetworkRaw]) -> (table: Vec<AvailableEntry>)
    ensures
        forall|ssid: Seq<char>, bss_type: i32|
            #[trigger] table_hint(entry_views(table@), ssid, bss_type) == network_hint(
                available_views(networks@),
                ssid,
                bss_type,
            ),
{
    let ghost nets = available_views(networks@);
    let mut table: Vec<AvailableEntry> = Vec::new();
    let mut i: usize = 0;
    while i < networks.len()
        invariant
            0 <= i <= networks@.len(),
            nets == available_views(networks@),
            forall|ssid: Seq<char>, bss_type: i32|
                #[trigger] table_hint(entry_views(table@), ssid, bss_type) == network_hint(
                    nets.take(i as int),
                    ssid,
                    bss_type,
                ),
        decreases networks@.len() - i,
    {
        let item = &networks[i];
        let ghost old_table = entry_views(table@);
        assert(nets.take(i + 1).drop_last() =~= nets.take(i as int));
        assert(nets.take(i + 1).last() == item@);
        let k = find_entry(&table, &item.ssid, item.bss_type);
        if k > 0 {
            let old_hint = table[k - 1].hint;
            let phy_type = if item.connected {
                item.phy_type
            } else {
                old_hint.phy_type
            };
            let signal_quality = if old_hint.signal_quality < item.signal_quality {
                item.signal_quality
            } else {
                old_hint.signal_quality
            };
            let ssid = item.ssid.clone();
            let updated = AvailableEntry {
                ssid,
                bss_type: item.bss_type,
                hint: AvailableHint { phy_type, signal_quality },
            };
            proof {
                lemma_table_hint_suffix(old_table, k as int, item.ssid@, item.bss_type);
                assert(old_table.take(k as int).last() == old_table[k - 1]);
            }
            table.set(k - 1, updated);
            proof {
                let new_table = entry_views(table@);
                assert(new_table =~= old_table.update(k - 1, updated@));
                assert forall|ssid: Seq<char>, bss_type: i32|
                    #[trigger] table_hint(entry_views(table@), ssid, bss_type) == network_hint(
                        nets.take(i + 1),
                        ssid,
                        bss_type,
                    ) by {
                    if ssid == item.ssid@ && bss_type == item.bss_type {
                        assert forall|j: int| k <= j < new_table.len() implies !entry_for(
                            #[trigger] new_table[j],
                            ssid,
                            bss_type,
                        ) by {
                            assert(new_table[j] == old_table[j]);
                        }
                        lemma_table_hint_suffix(new_table, k as int, ssid, bss_type);
                        assert(new_table.take(k as int).last() == updated@);
                    } else {
                        lemma_table_hint_update_other(old_table, k - 1, updated@, ssid, bss_type);
                    }
                }
            }
        } else {
            let ssid = item.ssid.clone();
            let added = AvailableEntry {
                ssid,
                bss_type: item.bss_type,
                hint: AvailableHint { phy_type: item.phy_type, signal_quality: item.signal_quality },
            };
            proof {
                lemma_table_hint_suffix(old_table, 0, item.ssid@, item.bss_type);
            }
            table.push(added);
            proof {
                let new_table = entry_views(table@);
                assert(new_table =~= old_table.push(added@));
                assert(new_table.drop_last() =~= old_table);
                assert forall|ssid: Seq<char>, bss_type: i32|
                    #[trigger] table_hint(entry_views(table@), ssid, bss_type) == network_hint(
                        nets.take(i + 1),
                        ssid,
                        bss_type,
                    ) by {
                    assert(table_hint(old_table, ssid, bss_type) == network_hint(
                        nets.take(i as int),
                        ssid,
                        bss_type,
                    ));
                }
            }
        }
        i = i + 1;
    }
    assert(nets.take(networks@.len() as int) =~= nets);
    table
}

/// The view of an optional connection.
pub open spec fn connection_view(c: Option<CurrentConnectionRaw>) -> Option<ConnectionView> {
    match c {
        Some(c) => Some(c@),
        None => None,
    }
}

/// The interface is connected to the BSS with this BSSID.
pub open spec fn connected_to(conn: Option<ConnectionView>, bssid: Seq<u8>) -> bool {
    conn matches Some(c) && c.bssid == bssid
}

/// The record shown for a BSS entry: the PHY type from the hint when there
/// is one; the signal quality the higher of the entry's link quality and the
/// hint's; the connection's rates for the BSS of the connection.
pub open spec fn record_view(b: BssView, hint: Option<AvailableHint>, conn: Option<ConnectionView>) -> ApView {
    let phy = match hint {
        Some(h) => h.phy_type,
        None => b.phy_type,
    };
    let signal = match hint {
        Some(h) => if b.link_quality < h.signal_quality {
            h.signal_quality
        } else {
            b.link_quality
        },
        None => b.link_quality,
    };
    let connected = connected_to(conn, b.bssid);
    ApView {
        bssid: b.bssid,
        bssid_text: colon_hex(b.bssid),
        ssid: b.ssid,
        mode: bss_type_name(b.bss_type) + "/"@ + phy_type_name(phy),
        channel: channel_of(b.center_freq_khz) as u16,
        rate_half_mbps: b.max_rate_half_mbps,
        signal_quality: signal,
        rssi_dbm: b.rssi,
        center_freq_khz: b.center_freq_khz,
        connected,
        rx_rate: if connected {
            Some(conn->0.rx_rate)
        } else {
            None
        },
        tx_rate: if connected {
            Some(conn->0.tx_rate)
        } else {
            None
        },
    }
}

/// The record for a BSS entry, given what the available-network list says of
/// its network and the current connection.
pub fn access_point_record(
    bss: BssEntryRaw,
    hint: Option<AvailableHint>,
    connection: &Option<CurrentConnectionRaw>,
) -> (r: AccessPointRecord)
    ensures
        r@ == record_view(bss@, hint, connection_view(*connection)),
{
    let phy = match hint {
        Some(h) => h.phy_type,
        None => bss.phy_type,
    };
    let signal_quality = match hint {
        Some(h) => if bss.link_quality < h.signal_quality {
            h.signal_quality
        } else {
            bss.link_quality
        },
        None => bss.link_quality,
    };
    let connected = match connection {
        Some(c) => same_bytes6(&c.bssid, &bss.bssid),
        None => false,
    };
    let (rx_rate, tx_rate) = match connection {
        Some(c) => if connected {
            (Some(c.rx_rate), Some(c.tx_rate))
        } else {
            (None, None)
        },
        None => (None, None),
    };
    let mut mode = String::from_str(bss_type_to_string(bss.bss_type));
    mode.append("/");
    let phy_text = phy_type_to_string(phy);
    mode.append(phy_text.as_str());
    let r = AccessPointRecord {
        bssid: bss.bssid,
        bssid_text: bssid_to_string(bss.bssid),
        ssid: bss.ssid,
        mode,
        channel: channel_from_frequency_khz(bss.center_freq_khz),
        rate_half_mbps: bss.max_rate_half_mbps,
        signal_quality,
        rssi_dbm: bss.rssi,
        center_freq_khz: bss.center_freq_khz,
        connected,
        rx_rate,
        tx_rate,
    };
    assert(r.mode@ =~= bss_type_name(bss.bss_type) + "/"@ + phy_type_name(phy));
    r
}

/// Whether text `a` comes first or equals `b`.
pub fn text_le_exec(a: &str, b: &str) -> (r: bool)
    ensures
        r == text_le(a@, b@),
{
    let n = a.unicode_len();
    let m = b.unicode_len();
    let mut i: usize = 0;
    assert(a@.skip(0) =~= a@);
    assert(b@.skip(0) =~= b@);
    while i < n && i < m
        invariant
            n == a@.len(),
            m == b@.len(),
            i <= n,
            i <= m,
            text_le(a@, b@) == text_le(a@.skip(i as int), b@.skip(i as int)),
        decreases n - i,
    {
        let ca = a.get_char(i);
        let cb = b.get_char(i);
        if ca != cb {
            return (ca as u32) < (cb as u32);
        }
        assert(a@.skip(i as int).drop_first() =~= a@.skip(i + 1));
        assert(b@.skip(i as int).drop_first() =~= b@.skip(i + 1));
        i = i + 1;
    }
    i == n
}

/// The order of the access-point list: higher signal quality first, then
/// higher RSSI, then BSSID text in ascending order; `a` may come before `b`.
pub open spec fn ap_le(a: ApView, b: ApView) -> bool {
    ||| a.signal_quality > b.signal_quality
    ||| a.signal_quality == b.signal_quality && a.rssi_dbm > b.rssi_dbm
    ||| a.signal_quality == b.signal_quality && a.rssi_dbm == b.rssi_dbm && text_le(
        a.bssid_text,
        b.bssid_text,
    )
}

/// Of two records, one may come first.
pub proof fn lemma_ap_le_total(a: ApView, b: ApView)
    ensures
        ap_le(a, b) || ap_le(b, a),
{
    lemma_text_le_total(a.bssid_text, b.bssid_text);
}

/// The order of records is transitive.
pub proof fn lemma_ap_le_transitive(a: ApView, b: ApView, c: ApView)
    requires
        ap_le(a, b),
        ap_le(b, c),
    ensures
        ap_le(a, c),
{
    if a.signal_quality == b.signal_quality && b.signal_quality == c.signal_quality
        && a.rssi_dbm == b.rssi_dbm && b.rssi_dbm == c.rssi_dbm {
        lemma_text_le_transitive(a.bssid_text, b.bssid_text, c.bssid_text);
    }
}

/// The records are in list order.
pub open spec fn sorted_aps(s: Seq<ApView>) -> bool {
    forall|i: int, j: int| 0 <= i < j < s.len() ==> ap_le(#[trigger] s[i], #[trigger] s[j])
}

/// Whether record `a` may come before record `b` in the list.
pub fn ap_precedes(a: &AccessPointRecord, b: &AccessPointRecord) -> (r: bool)
    ensures
        r == ap_le(a@, b@),
{
    if a.signal_quality != b.signal_quality {
        return a.signal_quality > b.signal_quality;
    }
    if a.rssi_dbm != b.rssi_dbm {
        return a.rssi_dbm > b.rssi_dbm;
    }
    text_le_exec(a.bssid_text.as_str(), b.bssid_text.as_str())
}

/// Puts `rec` into the sorted list, after every record that may come before
/// it.
pub fn insert_sorted(aps: &mut Vec<AccessPointRecord>, rec: AccessPointRecord)
    requires
        sorted_aps(ap_views(old(aps)@)),
    ensures
        sorted_aps(ap_views(final(aps)@)),
        ap_views(final(aps)@).to_multiset() == ap_views(old(aps)@).to_multiset().insert(rec@),
{
    let ghost old_views = ap_views(aps@);
    let mut p = aps.len();
    while p > 0 && !ap_precedes(&aps[p - 1], &rec)
        invariant
            p <= aps@.len(),
            old_views == ap_views(aps@),
            forall|j: int| p <= j < old_views.len() ==> !ap_le(#[trigger] old_views[j], rec@),
        decreases p,
    {
        p = p - 1;
    }
    let ghost x = rec@;
    aps.insert(p, rec);
    proof {
        let n = ap_views(aps@);
        assert(n =~= old_views.insert(p as int, x));
        vstd::seq_lib::to_multiset_insert(old_views, p as int, x);
        assert forall|i: int, j: int| 0 <= i < j < n.len() implies ap_le(
            #[trigger] n[i],
            #[trigger] n[j],
        ) by {
            if j < p {
                assert(n[i] == old_views[i] && n[j] == old_views[j]);
            } else if j == p {
                assert(n[j] == x);
                assert(ap_le(old_views[p - 1], x));
                if i < p - 1 {
                    assert(ap_le(old_views[i], old_views[p - 1]));
                    lemma_ap_le_transitive(old_views[i], old_views[p - 1], x);
                }
            } else if i < p {
                assert(n[i] == old_views[i] && n[j] == old_views[j - 1]);
            } else if i == p {
                assert(!ap_le(old_views[j - 1], x));
                lemma_ap_le_total(old_views[j - 1], x);
            } else {
                assert(n[i] == old_views[i - 1] && n[j] == old_views[j - 1]);
            }
        }
    }
}

/// The records for the merged BSS entries, each with what the
/// available-network list says of its network and the connection.
pub open spec fn merged_records(
    entries: Seq<BssView>,
    nets: Seq<AvailableView>,
    conn: Option<ConnectionView>,
) -> Seq<ApView> {
    entries.map_values(|b: BssView| record_view(b, network_hint(nets, b.ssid, b.bss_type), conn))
}

/// The interfaces as shown: description and state name.
pub open spec fn interface_summaries(ifaces: Seq<InterfaceInfoRaw>) -> Seq<InterfaceSummaryView> {
    ifaces.map_values(
        |i: InterfaceInfoRaw|
            InterfaceSummaryView { description: i.description@, state: interface_state_name(i.state) },
    )
}

/// The status line of a refresh: the permission notice when a call was
/// denied; otherwise, when no access point was found, the connection (or
/// that nothing was found); otherwise the active interface, the number of
/// access points and the interface's state.
pub open spec fn status_text(
    permission_denied: bool,
    ap_count: nat,
    conn: Option<ConnectionView>,
    description: Seq<char>,
    state: i32,
) -> Seq<char> {
    if permission_denied {
        "定位权限未允许，部分 WiFi API 被拒绝，请在系统设置中开启位置权限"@
    } else if ap_count == 0 {
        match conn {
            Some(c) => "已连接 "@ + c.ssid + " ["@ + bss_type_name(c.bss_type) + " / "@
                + phy_type_name(c.phy_type) + "]，信号 "@ + decimal_digits(c.signal_quality as nat)
                + "% (~"@ + decimal_signed(rssi_estimate(c.signal_quality)) + " dBm)"@,
            None => "扫描完成，未发现 BSS 条目"@,
        }
    } else {
        description + " | AP "@ + decimal_digits(ap_count) + " 个 | 接口 "@
            + interface_state_name(state)
    }
}

/// The status line when the machine has no wireless interface.
pub open spec fn no_interface_status(negotiated_version: u32) -> Seq<char> {
    "WLAN v"@ + decimal_digits(negotiated_version as nat) + "，未发现可用无线网卡"@
}

/// `snap` is what a refresh shows for these results of the API calls.
pub open spec fn snapshot_built(
    ifaces: Seq<InterfaceInfoRaw>,
    active: int,
    nets: Seq<AvailableView>,
    bss: Seq<BssView>,
    conn: Option<ConnectionView>,
    permission_denied: bool,
    snap: WifiSnapshot,
) -> bool {
    let entries = deduped(bss);
    &&& summary_views(snap.interfaces@) == interface_summaries(ifaces)
    &&& snap.active_interface == active
    &&& snap.aps@.len() == entries.len()
    &&& sorted_aps(ap_views(snap.aps@))
    &&& ap_views(snap.aps@).to_multiset() == merged_records(entries, nets, conn).to_multiset()
    &&& snap.permission_denied == permission_denied
    &&& snap.status@ == status_text(
        permission_denied,
        entries.len(),
        conn,
        ifaces[active].description@,
        ifaces[active].state,
    )
}

/// The snapshot of a machine without wireless interface.
pub open spec fn empty_snapshot_built(negotiated_version: u32, snap: WifiSnapshot) -> bool {
    &&& snap.interfaces@.len() == 0
    &&& snap.active_interface == 0
    &&& snap.aps@.len() == 0
    &&& !snap.permission_denied
    &&& snap.status@ == no_interface_status(negotiated_version)
}

/// The status line of a refresh.
pub fn status_line(
    permission_denied: bool,
    ap_count: usize,
    connection: &Option<CurrentConnectionRaw>,
    active: &InterfaceInfoRaw,
) -> (r: String)
    ensures
        r@ == status_text(
            permission_denied,
            ap_count as nat,
            connection_view(*connection),
            active.description@,
            active.state,
        ),
{
    if permission_denied {
        return String::from_str("定位权限未允许，部分 WiFi API 被拒绝，请在系统设置中开启位置权限");
    }
    if ap_count == 0 {
        match connection {
            Some(c) => {
                let mut out = String::from_str("已连接 ");
                out.append(c.ssid.as_str());
                out.append(" [");
                out.append(bss_type_to_string(c.bss_type));
                out.append(" / ");
                let phy = phy_type_to_string(c.phy_type);
                out.append(phy.as_str());
                out.append("]，信号 ");
                push_decimal(&mut out, c.signal_quality as u64);
                out.append("% (~");
                push_signed_decimal(&mut out, quality_to_rssi_dbm(c.signal_quality) as i64);
                out.append(" dBm)");
                out
            },
            None => String::from_str("扫描完成，未发现 BSS 条目"),
        }
    } else {
        let mut out = String::from_str(active.description.as_str());
        out.append(" | AP ");
        push_decimal(&mut out, ap_count as u64);
        out.append(" 个 | 接口 ");
        out.append(interface_state_to_string(active.state));
        out
    }
}

/// What a refresh shows when the machine has no wireless interface.
pub fn empty_snapshot(negotiated_version: u32) -> (snap: WifiSnapshot)
    ensures
        empty_snapshot_built(negotiated_version, snap),
{
    let mut status = String::from_str("WLAN v");
    push_decimal(&mut status, negotiated_version as u64);
    status.append("，未发现可用无线网卡");
    WifiSnapshot {
        interfaces: Vec::new(),
        active_interface: 0,
        aps: Vec::new(),
        permission_denied: false,
        status,
    }
}

/// What a refresh shows, from the results of the API calls: the interfaces,
/// one record per BSS in list order, and the status line.
pub fn build_snapshot(
    interfaces: Vec<InterfaceInfoRaw>,
    active_interface: usize,
    available: &[AvailableNetworkRaw],
    bss_entries: Vec<BssEntryRaw>,
    connection: Option<CurrentConnectionRaw>,
    permission_denied: bool,
) -> (snap: WifiSnapshot)
    requires
        active_interface < interfaces@.len(),
    ensures
        snapshot_built(
            interfaces@,
            active_interface as int,
            available_views(available@),
            bss_views(bss_entries@),
            connection_view(connection),
            permission_denied,
            snap,
        ),
{
    let ghost nets = available_views(available@);
    let ghost conn = connection_view(connection);
    let entries = dedupe_bss_entries(bss_entries);
    let ghost ev = bss_views(entries@);
    let count = entries.len();
    let table = build_available_map(available);
    let mut aps: Vec<AccessPointRecord> = Vec::new();
    let mut rest = entries;
    let ghost mut done: int = 0;
    assert(ev.skip(0) =~= ev);
    assert(merged_records(ev.take(0), nets, conn) =~= Seq::<ApView>::empty());
    assert(ap_views(aps@) =~= merged_records(ev.take(0), nets, conn));
    while rest.len() > 0
        invariant
            0 <= done <= ev.len(),
            bss_views(rest@) == ev.skip(done),
            rest@.len() == ev.len() - done,
            aps@.len() == done,
            sorted_aps(ap_views(aps@)),
            ap_views(aps@).to_multiset() == merged_records(ev.take(done), nets, conn).to_multiset(),
            conn == connection_view(connection),
            forall|ssid: Seq<char>, bss_type: i32|
                #[trigger] table_hint(entry_views(table@), ssid, bss_type) == network_hint(
                    nets,
                    ssid,
                    bss_type,
                ),
        decreases rest.len(),
    {
        let ghost before = rest@;
        let b = rest.remove(0);
        proof {
            assert(bss_views(before)[0] == ev.skip(done)[0]);
            assert(rest@ =~= before.subrange(1, before.len() as int));
            assert forall|j: int| 0 <= j < rest@.len() implies #[trigger] bss_views(rest@)[j]
                == ev.skip(done + 1)[j] by {
                assert(bss_views(before)[j + 1] == ev.skip(done)[j + 1]);
            }
            assert(bss_views(rest@) =~= ev.skip(done + 1));
            assert(b@ == ev[done]);
        }
        let hint = lookup_hint(&table, &b.ssid, b.bss_type);
        let rec = access_point_record(b, hint, &connection);
        let ghost old_aps = ap_views(aps@);
        insert_sorted(&mut aps, rec);
        proof {
            let m = merged_records(ev.take(done), nets, conn);
            assert(merged_records(ev.take(done + 1), nets, conn) =~= m.push(rec@));
            vstd::seq_lib::to_multiset_build(m, rec@);
            vstd::seq_lib::to_multiset_len(ap_views(aps@));
            vstd::seq_lib::to_multiset_len(old_aps);
            done = done + 1;
        }
    }
    assert(ev.take(done) =~= ev);
    let mut summaries: Vec<WifiInterfaceSummary> = Vec::new();
    let mut i: usize = 0;
    while i < interfaces.len()
        invariant
            0 <= i <= interfaces@.len(),
            summary_views(summaries@) == interface_summaries(interfaces@.take(i as int)),
        decreases interfaces@.len() - i,
    {
        let description = interfaces[i].description.clone();
        let state = String::from_str(interface_state_to_string(interfaces[i].state));
        let ghost old_summaries = summary_views(summaries@);
        summaries.push(WifiInterfaceSummary { description, state });
        proof {
            let target = interface_summaries(interfaces@.take(i + 1));
            assert(interface_summaries(interfaces@.take(i as int)) =~= target.drop_last());
            assert(summary_views(summaries@).drop_last() =~= old_summaries);
            assert(summary_views(summaries@).last() == target.last());
            assert(summary_views(summaries@) =~= old_summaries.push(target.last()));
            assert(target =~= target.drop_last().push(target.last()));
        }
        i = i + 1;
    }
    assert(interfaces@.take(interfaces@.len() as int) =~= interfaces@);
    let status = status_line(permission_denied, count, &connection, &interfaces[active_interface]);
    WifiSnapshot {
        interfaces: summaries,
        active_interface,
        aps,
        permission_denied,
        status,
    }
}

/// Where a refresh stands, with what it has gathered so far.
#[derive(Debug)]
pub enum CollectStage {
    /// The interfaces are to be listed.
    ListingInterfaces,
    /// A scan is to be requested on the active interface.
    Scanning { interfaces: Vec<InterfaceInfoRaw>, active: usize },
    /// The available-network list of the active interface is to be read.
    FetchingAvailable { interfaces: Vec<InterfaceInfoRaw>, active: usize, permission_denied: bool },
    /// The BSS list of the active interface is to be read.
    FetchingBss {
        interfaces: Vec<InterfaceInfoRaw>,
        active: usize,
        permission_denied: bool,
        available: Vec<AvailableNetworkRaw>,
    },
    /// The current connection of the active interface is to be read.
    FetchingConnection {
        interfaces: Vec<InterfaceInfoRaw>,
        active: usize,
        permission_denied: bool,
        available: Vec<AvailableNetworkRaw>,
        bss_entries: Vec<BssEntryRaw>,
    },
    /// The refresh is over, with this outcome.
    Finished { result: WifiResult<WifiSnapshot> },
}

/// The call that a refresh needs next.
#[derive(Debug)]
pub enum PollAction {
    ListInterfaces,
    TriggerScan(InterfaceGuid),
    GetAvailableNetworks(InterfaceGuid),
    GetBssEntries(InterfaceGuid),
    GetCurrentConnection(InterfaceGuid),
    /// The refresh is over: no call is needed.
    Done,
}

/// The outcome of a call, handed back to the refresh that asked for it.
#[derive(Debug)]
pub enum PollEvent {
    Interfaces(WifiResult<Vec<InterfaceInfoRaw>>),
    ScanTriggered(WifiResult<()>),
    AvailableNetworks(WifiResult<Vec<AvailableNetworkRaw>>),
    BssEntries(WifiResult<Vec<BssEntryRaw>>),
    CurrentConnection(WifiResult<Option<CurrentConnectionRaw>>),
}

/// The interface that a refresh looks at: the one selected (the first when
/// none is), but at most the last of `count`.
pub open spec fn chosen_interface(selected: Option<usize>, count: int) -> int {
    let wanted: int = match selected {
        Some(v) => v as int,
        None => 0,
    };
    if wanted < count - 1 {
        wanted
    } else {
        count - 1
    }
}

/// The call needed in a stage: for the stages after listing, on the active
/// interface.
pub open spec fn stage_action(stage: CollectStage) -> PollAction {
    match stage {
        CollectStage::ListingInterfaces => PollAction::ListInterfaces,
        CollectStage::Scanning { interfaces, active } => PollAction::TriggerScan(
            interfaces[active as int].guid,
        ),
        CollectStage::FetchingAvailable { interfaces, active, .. } => PollAction::GetAvailableNetworks(
            interfaces[active as int].guid,
        ),
        CollectStage::FetchingBss { interfaces, active, .. } => PollAction::GetBssEntries(
            interfaces[active as int].guid,
        ),
        CollectStage::FetchingConnection { interfaces, active, .. } => PollAction::GetCurrentConnection(
            interfaces[active as int].guid,
        ),
        CollectStage::Finished { .. } => PollAction::Done,
    }
}

/// How a refresh goes on from `stage` when `event` comes in, `next` being the
/// stage after it. Listing fails the refresh on an error and finishes it at
/// once when there is no interface; the scan is requested only when due; an
/// access-denied error of the scan or of a later call marks the permission
/// as denied and stands for an empty answer, any other error fails the
/// refresh; the answer to the last call finishes it with the snapshot of all
/// that was gathered. An event that answers another call than the one
/// needed changes nothing.
pub open spec fn stage_after(
    selected: Option<usize>,
    scan_due: bool,
    negotiated_version: u32,
    stage: CollectStage,
    event: PollEvent,
    next: CollectStage,
) -> bool {
    match (stage, event) {
        (CollectStage::ListingInterfaces, PollEvent::Interfaces(Err(e))) => next
            == CollectStage::Finished { result: Err(e) },
        (CollectStage::ListingInterfaces, PollEvent::Interfaces(Ok(list))) => {
            let active = chosen_interface(selected, list@.len() as int) as usize;
            if list@.len() == 0 {
                next matches CollectStage::Finished { result: Ok(snap) } && empty_snapshot_built(
                    negotiated_version,
                    snap,
                )
            } else if scan_due {
                next == CollectStage::Scanning { interfaces: list, active }
            } else {
                next == CollectStage::FetchingAvailable {
                    interfaces: list,
                    active,
                    permission_denied: false,
                }
            }
        },
        (CollectStage::Scanning { interfaces, active }, PollEvent::ScanTriggered(r)) => match r {
            Ok(_) => next == CollectStage::FetchingAvailable {
                interfaces,
                active,
                permission_denied: false,
            },
            Err(e) => if e.access_denied() {
                next == CollectStage::FetchingAvailable { interfaces, active, permission_denied: true }
            } else {
                next == CollectStage::Finished { result: Err(e) }
            },
        },
        (
            CollectStage::FetchingAvailable { interfaces, active, permission_denied },
            PollEvent::AvailableNetworks(r),
        ) => match r {
            Ok(list) => next == CollectStage::FetchingBss {
                interfaces,
                active,
                permission_denied,
                available: list,
            },
            Err(e) => if e.access_denied() {
                next matches CollectStage::FetchingBss {
                    interfaces: i2,
                    active: a2,
                    permission_denied: true,
                    available,
                } && i2 == interfaces && a2 == active && available@.len() == 0
            } else {
                next == CollectStage::Finished { result: Err(e) }
            },
        },
        (
            CollectStage::FetchingBss { interfaces, active, permission_denied, available },
            PollEvent::BssEntries(r),
        ) => match r {
            Ok(list) => next == CollectStage::FetchingConnection {
                interfaces,
                active,
                permission_denied,
                available,
                bss_entries: list,
            },
            Err(e) => if e.access_denied() {
                next matches CollectStage::FetchingConnection {
                    interfaces: i2,
                    active: a2,
                    permission_denied: true,
                    available: n2,
                    bss_entries,
                } && i2 == interfaces && a2 == active && n2 == available && bss_entries@.len() == 0
            } else {
                next == CollectStage::Finished { result: Err(e) }
            },
        },
        (
            CollectStage::FetchingConnection {
                interfaces,
                active,
                permission_denied,
                available,
                bss_entries,
            },
            PollEvent::CurrentConnection(r),
        ) => match r {
            Ok(connection) => next matches CollectStage::Finished { result: Ok(snap) }
                && snapshot_built(
                interfaces@,
                active as int,
                available_views(available@),
                bss_views(bss_entries@),
                connection_view(connection),
                permission_denied,
                snap,
            ),
            Err(e) => if e.access_denied() {
                next matches CollectStage::Finished { result: Ok(snap) } && snapshot_built(
                    interfaces@,
                    active as int,
                    available_views(available@),
                    bss_views(bss_entries@),
                    None,
                    true,
                    snap,
                )
            } else {
                next == CollectStage::Finished { result: Err(e) }
            },
        },
        (stage, _) => next == stage,
    }
}

/// The active interface of a stage lies in its interface list.
pub open spec fn stage_wf(stage: CollectStage) -> bool {
    match stage {
        CollectStage::Scanning { interfaces, active } => active < interfaces@.len(),
        CollectStage::FetchingAvailable { interfaces, active, .. } => active < interfaces@.len(),
        CollectStage::FetchingBss { interfaces, active, .. } => active < interfaces@.len(),
        CollectStage::FetchingConnection { interfaces, active, .. } => active < interfaces@.len(),
        _ => true,
    }
}

/// One refresh in progress.
#[derive(Debug)]
pub struct CollectRun {
    selected_interface: Option<usize>,
    scan_due: bool,
    negotiated_version: u32,
    stage: CollectStage,
}

impl CollectRun {
    #[verifier::type_invariant]
    spec fn wf(self) -> bool {
        stage_wf(self.stage)
    }

    /// The interface the user selected, if any.
    pub closed spec fn selected(self) -> Option<usize> {
        self.selected_interface
    }

    /// Whether this refresh requests a scan.
    pub closed spec fn scans(self) -> bool {
        self.scan_due
    }

    /// The WLAN API version, for the status line of a machine without
    /// interface.
    pub closed spec fn version(self) -> u32 {
        self.negotiated_version
    }

    /// Where the refresh stands.
    pub closed spec fn stage(self) -> CollectStage {
        self.stage
    }

    /// The call the refresh needs next.
    pub fn next_action(&self) -> (a: PollAction)
        ensures
            a == stage_action(self.stage()),
    {
        proof {
            use_type_invariant(self);
        }
        match &self.stage {
            CollectStage::ListingInterfaces => PollAction::ListInterfaces,
            CollectStage::Scanning { interfaces, active } => PollAction::TriggerScan(
                interfaces[*active].guid,
            ),
            CollectStage::FetchingAvailable { interfaces, active, .. } => PollAction::GetAvailableNetworks(
                interfaces[*active].guid,
            ),
            CollectStage::FetchingBss { interfaces, active, .. } => PollAction::GetBssEntries(
                interfaces[*active].guid,
            ),
            CollectStage::FetchingConnection { interfaces, active, .. } => PollAction::GetCurrentConnection(
                interfaces[*active].guid,
            ),
            CollectStage::Finished { .. } => PollAction::Done,
        }
    }

    /// The outcome of the refresh, once it is over.
    pub fn into_result(self) -> (r: Option<WifiResult<WifiSnapshot>>)
        ensures
            self.stage() matches CollectStage::Finished { result } ==> r == Some(result),
            !(self.stage() is Finished) ==> r is None,
    {
        match self.stage {
            CollectStage::Finished { result } => Some(result),
            _ => None,
        }
    }

    /// Takes in the outcome of a call (see `stage_after`).
    pub fn advance(self, event: PollEvent) -> (next: CollectRun)
        ensures
            next.selected() == self.selected(),
            next.scans() == self.scans(),
            next.version() == self.version(),
            stage_after(
                self.selected(),
                self.scans(),
                self.version(),
                self.stage(),
                event,
                next.stage(),
            ),
    {
        proof {
            use_type_invariant(&self);
        }
        let CollectRun { selected_interface, scan_due, negotiated_version, stage } = self;
        let next_stage = match (stage, event) {
            (CollectStage::ListingInterfaces, PollEvent::Interfaces(Err(e))) => {
                CollectStage::Finished { result: Err(e) }
            },
            (CollectStage::ListingInterfaces, PollEvent::Interfaces(Ok(list))) => {
                if list.len() == 0 {
                    CollectStage::Finished { result: Ok(empty_snapshot(negotiated_version)) }
                } else {
                    let wanted = match selected_interface {
                        Some(v) => v,
                        None => 0,
                    };
                    let last = list.len() - 1;
                    let active = if wanted < last {
                        wanted
                    } else {
                        last
                    };
                    if scan_due {
                        CollectStage::Scanning { interfaces: list, active }
                    } else {
                        CollectStage::FetchingAvailable {
                            interfaces: list,
                            active,
                            permission_denied: false,
                        }
                    }
                }
            },
            (CollectStage::Scanning { interfaces, active }, PollEvent::ScanTriggered(r)) => {
                match r {
                    Ok(()) => CollectStage::FetchingAvailable {
                        interfaces,
                        active,
                        permission_denied: false,
                    },
                    Err(e) => {
                        if e.is_access_denied() {
                            CollectStage::FetchingAvailable {
                                interfaces,
                                active,
                                permission_denied: true,
                            }
                        } else {
                            CollectStage::Finished { result: Err(e) }
                        }
                    },
                }
            },
            (
                CollectStage::FetchingAvailable { interfaces, active, permission_denied },
                PollEvent::AvailableNetworks(r),
            ) => {
                match r {
                    Ok(list) => CollectStage::FetchingBss {
                        interfaces,
                        active,
                        permission_denied,
                        available: list,
                    },
                    Err(e) => {
                        if e.is_access_denied() {
                            CollectStage::FetchingBss {
                                interfaces,
                                active,
                                permission_denied: true,
                                available: Vec::new(),
                            }
                        } else {
                            CollectStage::Finished { result: Err(e) }
                        }
                    },
                }
            },
            (
                CollectStage::FetchingBss { interfaces, active, permission_denied, available },
                PollEvent::BssEntries(r),
            ) => {
                match r {
                    Ok(list) => CollectStage::FetchingConnection {
                        interfaces,
                        active,
                        permission_denied,
                        available,
                        bss_entries: list,
                    },
                    Err(e) => {
                        if e.is_access_denied() {
                            CollectStage::FetchingConnection {
                                interfaces,
                                active,
                                permission_denied: true,
                                available,
                                bss_entries: Vec::new(),
                            }
                        } else {
                            CollectStage::Finished { result: Err(e) }
                        }
                    },
                }
            },
            (
                CollectStage::FetchingConnection {
                    interfaces,
                    active,
                    permission_denied,
                    available,
                    bss_entries,
                },
                PollEvent::CurrentConnection(r),
            ) => {
                match r {
                    Ok(connection) => CollectStage::Finished {
                        result: Ok(
                            build_snapshot(
                                interfaces,
                                active,
                                available.as_slice(),
                                bss_entries,
                                connection,
                                permission_denied,
                            ),
                        ),
                    },
                    Err(e) => {
                        if e.is_access_denied() {
                            CollectStage::Finished {
                                result: Ok(
                                    build_snapshot(
                                        interfaces,
                                        active,
                                        available.as_slice(),
                                        bss_entries,
                                        None,
                                        true,
                                    ),
                                ),
                            }
                        } else {
                            CollectStage::Finished { result: Err(e) }
                        }
                    },
                }
            },
            (stage, _) => stage,
        };
        CollectRun { selected_interface, scan_due, negotiated_version, stage: next_stage }
    }
}

/// Refreshes the access-point list of the machine, counting its refreshes.
#[derive(Debug)]
pub struct WifiPoller {
    /// How many refreshes have begun (saturating).
    pub tick_count: u64,
}

impl WifiPoller {
    /// A poller that has not refreshed yet.
    pub fn new() -> (p: Self)
        ensures
            p.tick_count == 0,
    {
        WifiPoller { tick_count: 0 }
    }

    /// Begins a refresh for the interface the user selected: the count of
    /// refreshes goes up by one (saturating), and a scan is requested on
    /// every second refresh.
    pub fn collect(&mut self, selected_interface: Option<usize>, negotiated_version: u32) -> (run: CollectRun)
        ensures
            final(self).tick_count == (if old(self).tick_count < u64::MAX {
                old(self).tick_count + 1
            } else {
                old(self).tick_count as int
            }),
            run.selected() == selected_interface,
            run.scans() == (final(self).tick_count % 2 == 0),
            run.version() == negotiated_version,
            run.stage() is ListingInterfaces,
    {
        self.tick_count = self.tick_count.saturating_add(1);
        CollectRun {
            selected_interface,
            scan_due: self.tick_count % 2 == 0,
            negotiated_version,
            stage: CollectStage::ListingInterfaces,
        }
    }
}

/// The event answers the call that the stage needs.
pub open spec fn answers(stage: CollectStage, event: PollEvent) -> bool {
    match (stage, event) {
        (CollectStage::ListingInterfaces, PollEvent::Interfaces(_)) => true,
        (CollectStage::Scanning { .. }, PollEvent::ScanTriggered(_)) => true,
        (CollectStage::FetchingAvailable { .. }, PollEvent::AvailableNetworks(_)) => true,
        (CollectStage::FetchingBss { .. }, PollEvent::BssEntries(_)) => true,
        (CollectStage::FetchingConnection { .. }, PollEvent::CurrentConnection(_)) => true,
        _ => false,
    }
}

/// How many calls a refresh in this stage may still need.
pub open spec fn calls_left(stage: CollectStage) -> nat {
    match stage {
        CollectStage::ListingInterfaces => 5,
        CollectStage::Scanning { .. } => 4,
        CollectStage::FetchingAvailable { .. } => 3,
        CollectStage::FetchingBss { .. } => 2,
        CollectStage::FetchingConnection { .. } => 1,
        CollectStage::Finished { .. } => 0,
    }
}

/// The error an event reports, if any.
pub open spec fn event_error(event: PollEvent) -> Option<WifiError> {
    match event {
        PollEvent::Interfaces(Err(e)) => Some(e),
        PollEvent::ScanTriggered(Err(e)) => Some(e),
        PollEvent::AvailableNetworks(Err(e)) => Some(e),
        PollEvent::BssEntries(Err(e)) => Some(e),
        PollEvent::CurrentConnection(Err(e)) => Some(e),
        _ => None,
    }
}

/// The stage records that a call was denied.
pub open spec fn marks_denied(stage: CollectStage) -> bool {
    match stage {
        CollectStage::FetchingAvailable { permission_denied, .. } => permission_denied,
        CollectStage::FetchingBss { permission_denied, .. } => permission_denied,
        CollectStage::FetchingConnection { permission_denied, .. } => permission_denied,
        CollectStage::Finished { result: Ok(snap) } => snap.permission_denied,
        _ => false,
    }
}

/// The refresh is at its first call, listing the interfaces.
pub open spec fn listing(stage: CollectStage) -> bool {
    stage is ListingInterfaces
}

/// The refresh is over and failed.
pub open spec fn failed(stage: CollectStage) -> bool {
    match stage {
        CollectStage::Finished { result: Err(_) } => true,
        _ => false,
    }
}

/// Each answered call moves a refresh forward, so a refresh is over after
/// at most five calls; an event that answers no needed call changes nothing.
pub proof fn lemma_refresh_progress(
    selected: Option<usize>,
    scan_due: bool,
    negotiated_version: u32,
    stage: CollectStage,
    event: PollEvent,
    next: CollectStage,
)
    requires
        stage_after(selected, scan_due, negotiated_version, stage, event, next),
    ensures
        answers(stage, event) ==> calls_left(next) < calls_left(stage),
        !answers(stage, event) ==> next == stage,
{
}

/// An error of a call fails the refresh, except an access-denied error after
/// the interfaces are listed: that one lets the refresh go on and marks the
/// permission as denied.
pub proof fn lemma_call_errors(
    selected: Option<usize>,
    scan_due: bool,
    negotiated_version: u32,
    stage: CollectStage,
    event: PollEvent,
    next: CollectStage,
    e: WifiError,
)
    requires
        stage_after(selected, scan_due, negotiated_version, stage, event, next),
        answers(stage, event),
        event_error(event) == Some(e),
    ensures
        e.access_denied() && !listing(stage) ==> marks_denied(next) && !failed(next),
        !(e.access_denied() && !listing(stage)) ==> next == (CollectStage::Finished {
            result: Err::<WifiSnapshot, WifiError>(e),
        }),
{
}

/// Once a call of a refresh was denied, the refresh keeps that mark until it
/// is over, and its snapshot says so, unless a later error fails it.
pub proof fn lemma_denied_mark_persists(
    selected: Option<usize>,
    scan_due: bool,
    negotiated_version: u32,
    stage: CollectStage,
    event: PollEvent,
    next: CollectStage,
)
    requires
        stage_after(selected, scan_due, negotiated_version, stage, event, next),
        marks_denied(stage),
    ensures
        marks_denied(next) || failed(next),
{
}

/// The available-network list has an entry for network `(ssid, bss_type)`.
pub open spec fn lists_network(nets: Seq<AvailableView>, i: int, ssid: Seq<char>, bss_type: i32) -> bool {
    0 <= i < nets.len() && nets[i].ssid == ssid && nets[i].bss_type == bss_type
}

/// There is a hint for a network exactly when the list has an entry for it;
/// its signal quality is the highest among those entries, and its PHY type
/// is that of one of them.
pub proof fn lemma_network_hint(nets: Seq<AvailableView>, ssid: Seq<char>, bss_type: i32)
    ensures
        network_hint(nets, ssid, bss_type) is Some <==> exists|i: int|
            #[trigger] lists_network(nets, i, ssid, bss_type),
        network_hint(nets, ssid, bss_type) matches Some(h) ==> {
            &&& forall|i: int| #[trigger]
                lists_network(nets, i, ssid, bss_type) ==> nets[i].signal_quality
                    <= h.signal_quality
            &&& exists|i: int| #[trigger]
                lists_network(nets, i, ssid, bss_type) && nets[i].signal_quality
                    == h.signal_quality
            &&& exists|i: int| #[trigger]
                lists_network(nets, i, ssid, bss_type) && nets[i].phy_type == h.phy_type
        },
    decreases nets.len(),
{
    if nets.len() > 0 {
        let t = nets.drop_last();
        let n = nets.last();
        let last = nets.len() - 1;
        lemma_network_hint(t, ssid, bss_type);
        assert forall|i: int| 0 <= i < t.len() implies lists_network(t, i, ssid, bss_type)
            == #[trigger] lists_network(nets, i, ssid, bss_type) by {
            assert(t[i] == nets[i]);
        }
        if n.ssid == ssid && n.bss_type == bss_type {
            assert(lists_network(nets, last, ssid, bss_type));
            let h = network_hint(nets, ssid, bss_type)->0;
            match network_hint(t, ssid, bss_type) {
                None => {
                    assert forall|i: int| #[trigger]
                        lists_network(nets, i, ssid, bss_type) implies nets[i].signal_quality
                        <= h.signal_quality by {
                        if i < last {
                            assert(lists_network(t, i, ssid, bss_type));
                        }
                    }
                },
                Some(h0) => {
                    let i0 = choose|i: int| #[trigger]
                        lists_network(t, i, ssid, bss_type) && t[i].signal_quality
                            == h0.signal_quality;
                    let p0 = choose|i: int| #[trigger]
                        lists_network(t, i, ssid, bss_type) && t[i].phy_type == h0.phy_type;
                    assert(lists_network(nets, i0, ssid, bss_type));
                    assert(lists_network(nets, p0, ssid, bss_type));
                    assert forall|i: int| #[trigger]
                        lists_network(nets, i, ssid, bss_type) implies nets[i].signal_quality
                        <= h.signal_quality by {
                        if i < last {
                            assert(lists_network(t, i, ssid, bss_type));
                        }
                    }
                },
            }
        } else {
            assert forall|i: int| #[trigger] lists_network(nets, i, ssid, bss_type) implies i < last by {}
            if network_hint(t, ssid, bss_type) is Some {
                let h = network_hint(t, ssid, bss_type)->0;
                let i0 = choose|i: int| #[trigger]
                    lists_network(t, i, ssid, bss_type) && t[i].signal_quality == h.signal_quality;
                let p0 = choose|i: int| #[trigger]
                    lists_network(t, i, ssid, bss_type) && t[i].phy_type == h.phy_type;
                assert(lists_network(nets, i0, ssid, bss_type));
                assert(lists_network(nets, p0, ssid, bss_type));
            } else {
                assert forall|i: int| #[trigger] lists_network(nets, i, ssid, bss_type) implies false by {
                    assert(lists_network(t, i, ssid, bss_type));
                }
            }
        }
    }
}

/// A record shows the higher of the BSS's link quality and the signal
/// quality of its network, carries the connection's rates exactly when it
/// is for the BSS of the connection, and shows the BSSID as text.
pub proof fn lemma_record_view(b: BssView, hint: Option<AvailableHint>, conn: Option<ConnectionView>)
    ensures
        ({
            let r = record_view(b, hint, conn);
            &&& r.signal_quality >= b.link_quality
            &&& hint matches Some(h) ==> r.signal_quality >= h.signal_quality
            &&& r.connected <==> connected_to(conn, b.bssid)
            &&& r.rx_rate is Some <==> r.connected
            &&& r.tx_rate is Some <==> r.connected
            &&& r.bssid_text == colon_hex(b.bssid)
        }),
{
}

/// The record was made from one of the BSS entries.
pub open spec fn record_from(
    bss: Seq<BssView>,
    nets: Seq<AvailableView>,
    conn: Option<ConnectionView>,
    r: ApView,
) -> bool {
    exists|j: int|
        0 <= j < bss.len() && r == record_view(
            #[trigger] bss[j],
            network_hint(nets, bss[j].ssid, bss[j].bss_type),
            conn,
        )
}

/// Every record of a snapshot is the record of one of the BSS entries that
/// the API reported.
pub proof fn lemma_snapshot_records(
    ifaces: Seq<InterfaceInfoRaw>,
    active: int,
    nets: Seq<AvailableView>,
    bss: Seq<BssView>,
    conn: Option<ConnectionView>,
    permission_denied: bool,
    snap: WifiSnapshot,
)
    requires
        snapshot_built(ifaces, active, nets, bss, conn, permission_denied, snap),
    ensures
        forall|i: int|
            0 <= i < snap.aps@.len() ==> record_from(bss, nets, conn, #[trigger] snap.aps@[i]@),
{
    let aps = ap_views(snap.aps@);
    let d = deduped(bss);
    let m = merged_records(d, nets, conn);
    lemma_deduped_keeps_best(bss);
    assert forall|i: int| 0 <= i < snap.aps@.len() implies record_from(
        bss,
        nets,
        conn,
        #[trigger] snap.aps@[i]@,
    ) by {
        let r = snap.aps@[i]@;
        assert(aps[i] == r);
        assert(aps.contains(r));
        vstd::seq_lib::to_multiset_contains(aps, r);
        vstd::seq_lib::to_multiset_contains(m, r);
        let j = choose|j: int| 0 <= j < m.len() && m[j] == r;
        let k = choose|k: int| 0 <= k < bss.len() && bss[k] == #[trigger] d[j];
        assert(r == record_view(bss[k], network_hint(nets, bss[k].ssid, bss[k].bss_type), conn));
    }
}

/// Merging never loses a BSS: for every entry taken in, a kept entry has the
/// same BSSID, SSID, BSS type, PHY type and centre frequency; no two kept
/// entries agree on all five; every kept entry is one of those taken in; and
/// no entry taken in beats the kept entry of its BSS on link quality, then
/// RSSI, then rate.
pub proof fn lemma_deduped_keeps_every_bss(s: Seq<BssView>)
    ensures
        forall|i: int|
            0 <= i < s.len() ==> exists|j: int|
                0 <= j < deduped(s).len() && (#[trigger] deduped(s)[j]).bssid == (
                #[trigger] s[i]).bssid && deduped(s)[j].ssid == s[i].ssid && deduped(s)[j].bss_type
                    == s[i].bss_type && deduped(s)[j].phy_type == s[i].phy_type
                    && deduped(s)[j].center_freq_khz == s[i].center_freq_khz,
        forall|i: int, j: int|
            0 <= i < j < deduped(s).len() ==> !((#[trigger] deduped(s)[i]).bssid == (
            #[trigger] deduped(s)[j]).bssid && deduped(s)[i].ssid == deduped(s)[j].ssid
                && deduped(s)[i].bss_type == deduped(s)[j].bss_type && deduped(s)[i].phy_type
                == deduped(s)[j].phy_type && deduped(s)[i].center_freq_khz
                == deduped(s)[j].center_freq_khz),
        forall|j: int|
            0 <= j < deduped(s).len() ==> exists|i: int|
                0 <= i < s.len() && s[i] == #[trigger] deduped(s)[j],
        forall|i: int, j: int|
            0 <= i < s.len() && 0 <= j < deduped(s).len() && (#[trigger] s[i]).bssid == (
            #[trigger] deduped(s)[j]).bssid && s[i].ssid == deduped(s)[j].ssid && s[i].bss_type
                == deduped(s)[j].bss_type && s[i].phy_type == deduped(s)[j].phy_type
                && s[i].center_freq_khz == deduped(s)[j].center_freq_khz ==> {
                ||| s[i].link_quality < deduped(s)[j].link_quality
                ||| s[i].link_quality == deduped(s)[j].link_quality && s[i].rssi
                    < deduped(s)[j].rssi
                ||| s[i].link_quality == deduped(s)[j].link_quality && s[i].rssi
                    == deduped(s)[j].rssi && s[i].max_rate_half_mbps
                    <= deduped(s)[j].max_rate_half_mbps
            },
{
    let d = deduped(s);
    assert forall|i: int| 0 <= i < s.len() implies exists|j: int|
        0 <= j < d.len() && (#[trigger] d[j]).bssid == (#[trigger] s[i]).bssid && d[j].ssid
            == s[i].ssid && d[j].bss_type == s[i].bss_type && d[j].phy_type == s[i].phy_type
            && d[j].center_freq_khz == s[i].center_freq_khz by {
        lemma_deduped_keeps_best(s);
        lemma_bss_position(d, s[i]);
        let p = bss_position(d, s[i]);
        assert(same_bss(d[p], s[i]));
    }
    assert forall|i: int, j: int| 0 <= i < j < d.len() implies !((#[trigger] d[i]).bssid == (
    #[trigger] d[j]).bssid && d[i].ssid == d[j].ssid && d[i].bss_type == d[j].bss_type
        && d[i].phy_type == d[j].phy_type && d[i].center_freq_khz == d[j].center_freq_khz) by {
        lemma_deduped_keeps_best(s);
        assert(!same_bss(d[i], d[j]));
    }
    assert forall|j: int| 0 <= j < d.len() implies exists|i: int|
        0 <= i < s.len() && s[i] == #[trigger] d[j] by {
        lemma_deduped_keeps_best(s);
    }
    assert forall|i: int, j: int|
        0 <= i < s.len() && 0 <= j < d.len() && (#[trigger] s[i]).bssid == (#[trigger] d[j]).bssid
            && s[i].ssid == d[j].ssid && s[i].bss_type == d[j].bss_type && s[i].phy_type
            == d[j].phy_type && s[i].center_freq_khz == d[j].center_freq_khz implies {
        ||| s[i].link_quality < d[j].link_quality
        ||| s[i].link_quality == d[j].link_quality && s[i].rssi < d[j].rssi
        ||| s[i].link_quality == d[j].link_quality && s[i].rssi == d[j].rssi
            && s[i].max_rate_half_mbps <= d[j].max_rate_half_mbps
    } by {
        lemma_deduped_keeps_best(s);
        assert(same_bss(s[i], d[j]));
        assert(!better_bss(s[i], d[j]));
    }
}

/// When a call of the refresh was denied, the status line is the permission
/// notice, however many access points are listed.
pub proof fn lemma_denied_status(
    ifaces: Seq<InterfaceInfoRaw>,
    active: int,
    nets: Seq<AvailableView>,
    bss: Seq<BssView>,
    conn: Option<ConnectionView>,
    snap: WifiSnapshot,
)
    requires
        snapshot_built(ifaces, active, nets, bss, conn, true, snap),
    ensures
        snap.permission_denied,
        snap.status@ == "定位权限未允许，部分 WiFi API 被拒绝，请在系统设置中开启位置权限"@,
{
}

/// The interfaces that a stage of a refresh carries (none before listing
/// and after the end).
pub open spec fn stage_interfaces(stage: CollectStage) -> Option<(Vec<InterfaceInfoRaw>, usize)> {
    match stage {
        CollectStage::Scanning { interfaces, active } => Some((interfaces, active)),
        CollectStage::FetchingAvailable { interfaces, active, .. } => Some((interfaces, active)),
        CollectStage::FetchingBss { interfaces, active, .. } => Some((interfaces, active)),
        CollectStage::FetchingConnection { interfaces, active, .. } => Some((interfaces, active)),
        _ => None,
    }
}

/// The interface a call is made on, for the calls after listing.
pub open spec fn action_interface(action: PollAction) -> Option<InterfaceGuid> {
    match action {
        PollAction::TriggerScan(g) => Some(g),
        PollAction::GetAvailableNetworks(g) => Some(g),
        PollAction::GetBssEntries(g) => Some(g),
        PollAction::GetCurrentConnection(g) => Some(g),
        _ => None,
    }
}

/// Listing a non-empty set of interfaces picks the selected one, the first
/// when none is selected and the last when the selection is past the end.
pub proof fn lemma_listing_picks_selected(
    selected: Option<usize>,
    scan_due: bool,
    negotiated_version: u32,
    list: Vec<InterfaceInfoRaw>,
    next: CollectStage,
)
    requires
        stage_after(
            selected,
            scan_due,
            negotiated_version,
            CollectStage::ListingInterfaces,
            PollEvent::Interfaces(Ok(list)),
            next,
        ),
        list@.len() > 0,
    ensures
        stage_interfaces(next) is Some,
        ({
            let (ifaces, active) = stage_interfaces(next)->0;
            &&& ifaces == list
            &&& selected is None ==> active == 0
            &&& (selected is Some && selected->0 < list@.len()) ==> active == selected->0
            &&& (selected is Some && selected->0 >= list@.len()) ==> active == list@.len() - 1
        }),
{
}

/// The steps after listing keep the interfaces and the active one.
pub proof fn lemma_steps_keep_interface(
    selected: Option<usize>,
    scan_due: bool,
    negotiated_version: u32,
    stage: CollectStage,
    event: PollEvent,
    next: CollectStage,
)
    requires
        stage_after(selected, scan_due, negotiated_version, stage, event, next),
        stage_interfaces(stage) is Some,
        stage_interfaces(next) is Some,
    ensures
        stage_interfaces(next) == stage_interfaces(stage),
{
}

/// Every call after listing (scan, available networks, BSS list, current
/// connection) is made on the GUID of the active interface.
pub proof fn lemma_calls_on_active_interface(stage: CollectStage)
    requires
        stage_wf(stage),
        stage_interfaces(stage) is Some,
    ensures
        ({
            let (ifaces, active) = stage_interfaces(stage)->0;
            action_interface(stage_action(stage)) == Some(ifaces[active as int].guid)
        }),
{
}

/// When the current-connection call answers with a connection, the refresh
/// ends with a snapshot built on it: a record is connected exactly when its
/// BSSID is the connection's, and then carries the connection's rates, and
/// otherwise none; a BSS of the connection that the API reported shows as a
/// connected record; and with no BSS listed and no call denied, the status
/// line names the connection.
pub proof fn lemma_connection_in_snapshot(
    selected: Option<usize>,
    scan_due: bool,
    negotiated_version: u32,
    stage: CollectStage,
    c: CurrentConnectionRaw,
    next: CollectStage,
)
    requires
        stage_after(
            selected,
            scan_due,
            negotiated_version,
            stage,
            PollEvent::CurrentConnection(Ok(Some(c))),
            next,
        ),
        stage is FetchingConnection,
    ensures
        next matches CollectStage::Finished { result: Ok(snap) } && {
            &&& forall|i: int|
                0 <= i < snap.aps@.len() ==> {
                    let r = #[trigger] snap.aps@[i];
                    &&& r.connected == (r.bssid@ == c.bssid@)
                    &&& r.rx_rate == (if r.connected {
                        Some(c.rx_rate)
                    } else {
                        None
                    })
                    &&& r.tx_rate == (if r.connected {
                        Some(c.tx_rate)
                    } else {
                        None
                    })
                }
            &&& (stage->bss_entries@.len() == 0 && !stage->FetchingConnection_permission_denied)
                ==> snap.status@.take("已连接 "@.len() as int) == "已连接 "@ && snap.status@.subrange(
                "已连接 "@.len() as int,
                "已连接 "@.len() + c.ssid@.len() as int,
            ) == c.ssid@
            &&& (exists|k: int| 0 <= k < stage->bss_entries@.len() && (#[trigger] stage->bss_entries@[k]).bssid@ == c.bssid@)
                ==> exists|i: int| 0 <= i < snap.aps@.len() && (#[trigger] snap.aps@[i]).connected
        },
{
    let interfaces = stage->FetchingConnection_interfaces;
    let active = stage->FetchingConnection_active;
    let pd = stage->FetchingConnection_permission_denied;
    let available = stage->FetchingConnection_available;
    let bss_entries = stage->bss_entries;
    let snap = next->result->Ok_0;
    let conn = Some(c@);
    let nets = available_views(available@);
    let bss = bss_views(bss_entries@);
    assert(connection_view(Some(c)) == conn);
    assert(snapshot_built(interfaces@, active as int, nets, bss, conn, pd, snap));
    lemma_snapshot_records(interfaces@, active as int, nets, bss, conn, pd, snap);
    assert forall|i: int| 0 <= i < snap.aps@.len() implies {
        let r = #[trigger] snap.aps@[i];
        &&& r.connected == (r.bssid@ == c.bssid@)
        &&& r.rx_rate == (if r.connected {
            Some(c.rx_rate)
        } else {
            None
        })
        &&& r.tx_rate == (if r.connected {
            Some(c.tx_rate)
        } else {
            None
        })
    } by {
        assert(record_from(bss, nets, conn, snap.aps@[i]@));
        let j = choose|j: int|
            0 <= j < bss.len() && snap.aps@[i]@ == record_view(
                #[trigger] bss[j],
                network_hint(nets, bss[j].ssid, bss[j].bss_type),
                conn,
            );
    }
    if bss_entries@.len() == 0 && !pd {
        assert(bss =~= Seq::<BssView>::empty());
        assert(deduped(bss).len() == 0);
        let n = "已连接 "@.len() as int;
        let head = "已连接 "@ + c.ssid@;
        assert(snap.status@.take(head.len() as int) == head);
        assert(snap.status@.take(n) =~= head.take(n));
        assert(head.take(n) =~= "已连接 "@);
        assert(snap.status@.subrange(n, n + c.ssid@.len()) =~= head.subrange(n, head.len() as int));
        assert(head.subrange(n, head.len() as int) =~= c.ssid@);
    }
    if exists|k: int| 0 <= k < bss_entries@.len() && (#[trigger] bss_entries@[k]).bssid@ == c.bssid@ {
        let k = choose|k: int| 0 <= k < bss_entries@.len() && (#[trigger] bss_entries@[k]).bssid@ == c.bssid@;
        let d = deduped(bss);
        lemma_deduped_keeps_best(bss);
        assert(bss[k] == bss_entries@[k]@);
        lemma_bss_position(d, bss[k]);
        let p = bss_position(d, bss[k]);
        let m = merged_records(d, nets, conn);
        let rec = m[p];
        assert(rec.connected);
        assert(m.contains(rec));
        let aps = ap_views(snap.aps@);
        vstd::seq_lib::to_multiset_contains(m, rec);
        vstd::seq_lib::to_multiset_contains(aps, rec);
        let i = choose|i: int| 0 <= i < aps.len() && aps[i] == rec;
        assert(snap.aps@[i].connected);
    }
}

} // verus!
