//! Device discovery's decisions: the sweep range and its bounds, what an SSDP
//! reply's `LOCATION` points at, a UPnP description's identity, the candidate
//! assembled from a DDMS banner, and how candidates are keyed and matched
//! against the saved devices.
//!
//! Three strategies feed one confirmation stage (DDMS M-SEARCH, SSDP for the
//! stable UPnP uuid, and a subnet sweep); the sockets, timers and events are
//! the application's.

use vstd::prelude::*;
use vstd::slice::*;

use crate::error::AppError;
use crate::luci::codec::{string_from_utf8_lossy, utf8_lossy};
use crate::luci::model::{DdmsBanner, NetMode};
use crate::store::SavedDevice;
use crate::text::{
    all_digits, chars_of, dec, digits_value, eq_ignore_ascii_case, eq_ignore_case, find_char, find_in, find_seq, find_sub, is_digit,
    lemma_find_in_bounds, lemma_find_in_sub, lemma_split_on_unfold, lower_seq, owned, parse_unsigned, parse_unsigned_chars, push_dec,
    same_text, split_on, string_of_range, to_lower, trim, trim_range, trimmed,
};


verus! {

/// Scan progress for one strategy.
pub const EVENT_SCAN_PROGRESS: &'static str = "scan-progress";
/// A confirmed candidate, emitted as soon as it is assembled.
pub const EVENT_SCAN_DEVICE_FOUND: &'static str = "scan-device-found";
/// The scan finished, normally or cancelled.
pub const EVENT_SCAN_COMPLETE: &'static str = "scan-complete";
/// DDMS discovery port and search target.
pub const DDMS_PORT: u16 = 1800;
pub const DDMS_ST: &'static str = "urn:schemas-upnp-org:device:DDMSServer:1";
/// Standard SSDP port and search target.
pub const SSDP_PORT: u16 = 1900;
pub const SSDP_ST: &'static str = "urn:schemas-upnp-org:device:MediaRenderer:1";
/// Default UPnP description port when a `LOCATION` header omits it.
pub const UPNP_PORT: u16 = 49494;
/// The max random delay (s) a device waits before replying.
pub const MX: u32 = 2;
/// Datagram/description buffer size.
pub const UDP_BUF: usize = 4096;
/// In-flight sweep probes.
pub const CONCURRENCY: usize = 64;
/// Sweep progress is published every this many hosts.
pub const SWEEP_BATCH: u32 = 8;
/// Narrowest prefix expanded (a /16 is already 65 534 probes).
pub const MIN_SWEEP_PREFIX: u8 = 16;

// -------------------------------------------------------------- options --

/// `scan` arguments. The sweep is user-toggleable but defaults on.
#[derive(Debug, Clone)]
pub struct ScanOptions {
    pub sweep: bool,
    pub cidr: Option<String>,
}

impl Default for ScanOptions {
    fn default() -> (r: Self)
        ensures
            r.sweep,
            r.cidr is None,
    {
        ScanOptions { sweep: true, cidr: None }
    }
}

/// Which strategy a progress event is about.
#[derive(Debug, Clone, Copy, PartialEq, Eq, Structural)]
pub enum Phase {
    Ddms,
    Ssdp,
    Sweep,
}

impl Phase {
    /// The slot of this strategy's counters.
    pub fn index(self) -> (r: usize)
        ensures
            r == match self {
                Phase::Ddms => 0usize,
                Phase::Ssdp => 1usize,
                Phase::Sweep => 2usize,
            },
    {
        match self {
            Phase::Ddms => 0,
            Phase::Ssdp => 1,
            Phase::Sweep => 2,
        }
    }
}

/// Whether a progress event is due: forced, a completed strategy, or (for the
/// sweep, every `SWEEP_BATCH` hosts) once the minimum gap has passed.
pub fn publish_due(phase: Phase, scanned: u32, total: u32, force: bool, gap_elapsed: bool) -> (r:
    bool)
    ensures
        r == (force || (total > 0 && scanned >= total) || ((!(phase is Sweep) || scanned % 8 == 0)
            && gap_elapsed)),
{
    let complete = total > 0 && scanned >= total;
    let batched = match phase {
        Phase::Sweep => scanned % SWEEP_BATCH == 0,
        _ => true,
    };
    force || complete || (batched && gap_elapsed)
}

// ---------------------------------------------------------- candidates --

/// A discovered device the user may add.
#[derive(Debug, Clone, PartialEq, Eq)]
pub struct DeviceCandidate {
    /// UPnP UDN uuid: the stable key (empty when only DDMS/Luci confirmed it).
    pub uuid: String,
    /// DDMS `USN` (a MAC), the fallback key.
    pub usn: String,
    pub ip: String,
    pub name: String,
    pub model: String,
    pub firmware: String,
    pub net_mode: Option<NetMode>,
    pub wifi_band: Option<String>,
    /// Already saved: matched on uuid, then usn, then ip.
    pub already_added: bool,
}

/// UPnP identity from `description.xml`.
#[derive(Debug, Clone)]
pub struct UpnpIdentity {
    pub uuid: String,
    pub model: String,
    pub friendly_name: String,
}

impl Default for UpnpIdentity {
    fn default() -> (r: Self)
        ensures
            r.uuid@.len() == 0,
            r.model@.len() == 0,
            r.friendly_name@.len() == 0,
    {
        UpnpIdentity { uuid: String::new(), model: String::new(), friendly_name: String::new() }
    }
}

/// The dedupe/identity key: uuid, then usn (ASCII case folded), then ip.
pub open spec fn key_text(uuid: Seq<char>, usn: Seq<char>, ip: Seq<char>) -> Seq<char> {
    if trim(uuid).len() > 0 {
        "uuid:"@ + trim(uuid)
    } else if trim(usn).len() > 0 {
        "usn:"@ + lower_seq(trim(usn))
    } else {
        "ip:"@ + ip
    }
}

/// Dedupe/identity key: uuid, then usn, then ip.
pub fn candidate_key(uuid: &str, usn: &str, ip: &str) -> (r: String)
    ensures
        r@ == key_text(uuid@, usn@, ip@),
{
    let u = trimmed(uuid);
    let m = trimmed(usn);
    if u.as_str().unicode_len() > 0 {
        let mut r = owned("uuid:");
        r.append(u.as_str());
        r
    } else if m.as_str().unicode_len() > 0 {
        let mut r = owned("usn:");
        let low = to_lower(m.as_str());
        r.append(low.as_str());
        r
    } else {
        let mut r = owned("ip:");
        r.append(ip);
        r
    }
}

/// The saved device is the same unit: same uuid, same usn (ASCII case
/// ignored), or same ip; a blank uuid or usn matches nothing.
pub open spec fn same_unit(d: SavedDevice, uuid: Seq<char>, usn: Seq<char>, ip: Seq<char>) -> bool {
    ||| (trim(uuid).len() > 0 && d.uuid@ == trim(uuid))
    ||| (trim(usn).len() > 0 && eq_ignore_case(d.usn@, trim(usn)))
    ||| d.ip@ == ip
}

/// Is this candidate already saved (matched on uuid, then usn, then ip)?
pub fn already_added(uuid: &str, usn: &str, ip: &str, saved: &[SavedDevice]) -> (r: bool)
    ensures
        r == exists|i: int| 0 <= i < saved@.len() && same_unit(#[trigger] saved@[i], uuid@, usn@, ip@),
{
    let u = trimmed(uuid);
    let m = trimmed(usn);
    let has_u = u.as_str().unicode_len() > 0;
    let has_m = m.as_str().unicode_len() > 0;
    let mut i: usize = 0;
    while i < saved.len()
        invariant
            i <= saved@.len(),
            u@ == trim(uuid@),
            m@ == trim(usn@),
            has_u == (u@.len() > 0),
            has_m == (m@.len() > 0),
            forall|k: int| 0 <= k < i ==> !same_unit(#[trigger] saved@[k], uuid@, usn@, ip@),
        decreases saved@.len() - i,
    {
        let d = &saved[i];
        if (has_u && same_text(d.uuid.as_str(), u.as_str())) || (has_m && eq_ignore_ascii_case(
            d.usn.as_str(),
            m.as_str(),
        )) || same_text(d.ip.as_str(), ip) {
            assert(same_unit(saved@[i as int], uuid@, usn@, ip@));
            return true;
        }
        i = i + 1;
    }
    false
}

/// The key a candidate is deduplicated by.
pub open spec fn key_of(c: DeviceCandidate) -> Seq<char> {
    key_text(c.uuid@, c.usn@, c.ip@)
}

/// One scan's confirmed candidates, at most one per key, in the order they
/// were confirmed.
pub struct FoundCandidates {
    keys: Vec<String>,
    found: Vec<DeviceCandidate>,
}

impl FoundCandidates {
    /// The candidates recorded so far.
    pub closed spec fn candidates(&self) -> Seq<DeviceCandidate> {
        self.found@
    }

    /// One entry per key: the keys are those of the candidates, and distinct.
    pub closed spec fn wf(&self) -> bool {
        &&& self.keys@.len() == self.found@.len()
        &&& forall|i: int| 0 <= i < self.keys@.len() ==> #[trigger] self.keys@[i]@ == key_of(self.found@[i])
        &&& forall|i: int, j: int|
            0 <= i < j < self.keys@.len() ==> #[trigger] self.keys@[i]@ != #[trigger] self.keys@[j]@
    }

    pub fn new() -> (r: Self)
        ensures
            r.wf(),
            r.candidates().len() == 0,
    {
        FoundCandidates { keys: Vec::new(), found: Vec::new() }
    }

    /// Record a confirmed candidate unless one with the same key already was;
    /// says whether it was new.
    pub fn record(&mut self, candidate: DeviceCandidate) -> (is_new: bool)
        requires
            old(self).wf(),
        ensures
            final(self).wf(),
            is_new == !(exists|i: int|
                0 <= i < old(self).candidates().len() && key_of(#[trigger] old(self).candidates()[i])
                    == key_of(candidate)),
            is_new ==> final(self).candidates() == old(self).candidates().push(candidate),
            !is_new ==> final(self).candidates() == old(self).candidates(),
    {
        let key = candidate_key(candidate.uuid.as_str(), candidate.usn.as_str(), candidate.ip.as_str());
        let mut i: usize = 0;
        while i < self.keys.len()
            invariant
                self.wf(),
                *self == *old(self),
                i <= self.keys@.len(),
                key@ == key_of(candidate),
                forall|j: int| 0 <= j < i ==> #[trigger] self.keys@[j]@ != key@,
            decreases self.keys@.len() - i,
        {
            if self.keys[i] == key {
                assert(key_of(self.found@[i as int]) == key_of(candidate));
                assert(old(self).candidates()[i as int] == self.found@[i as int]);
                assert(key_of(old(self).candidates()[i as int]) == key_of(candidate));
                return false;
            }
            i = i + 1;
        }
        assert forall|j: int| 0 <= j < old(self).candidates().len() implies key_of(
            #[trigger] old(self).candidates()[j],
        ) != key_of(candidate) by {
            assert(self.keys@[j]@ == key_of(self.found@[j]));
        }
        self.keys.push(key);
        self.found.push(candidate);
        true
    }

    /// How many candidates were recorded.
    pub fn len(&self) -> (r: usize)
        ensures
            r == self.candidates().len(),
    {
        self.found.len()
    }

    /// The recorded candidates, in confirmation order.
    pub fn into_candidates(self) -> (r: Vec<DeviceCandidate>)
        ensures
            r@ == self.candidates(),
    {
        self.found
    }
}

/// A scan reports each unit once: no two recorded candidates share a
/// dedupe key.
pub proof fn law_found_keys_distinct(found: &FoundCandidates)
    requires
        found.wf(),
    ensures
        forall|i: int, j: int|
            0 <= i < j < found.candidates().len() ==> key_of(#[trigger] found.candidates()[i])
                != key_of(#[trigger] found.candidates()[j]),
{
    assert forall|i: int, j: int| 0 <= i < j < found.candidates().len() implies key_of(
        #[trigger] found.candidates()[i],
    ) != key_of(#[trigger] found.candidates()[j]) by {
        assert(found.keys@[i]@ == key_of(found.found@[i]));
        assert(found.keys@[j]@ == key_of(found.found@[j]));
    }
}

/// The order a scan reports candidates in: by address, an address that is
/// not a dotted quad counting as 255.255.255.255.
pub open spec fn address_key(ip: Seq<char>) -> u32 {
    match ipv4_text(ip) {
        Some(a) => a,
        None => u32::MAX,
    }
}

/// `c` inserted into `s` after every entry whose address key is not above
/// its own, counting from the end.
pub open spec fn insert_by_address(s: Seq<DeviceCandidate>, c: DeviceCandidate) -> Seq<DeviceCandidate>
    decreases s.len(),
{
    if s.len() == 0 {
        seq![c]
    } else if address_key(s.last().ip@) <= address_key(c.ip@) {
        s.push(c)
    } else {
        insert_by_address(s.drop_last(), c).push(s.last())
    }
}

/// `s` in address order, candidates with equal keys in the order they were found
/// (an insertion sort).
pub open spec fn by_address(s: Seq<DeviceCandidate>) -> Seq<DeviceCandidate>
    decreases s.len(),
{
    if s.len() == 0 {
        Seq::empty()
    } else {
        insert_by_address(by_address(s.drop_last()), s.last())
    }
}

/// Inserting before the trailing run of larger keys is `insert_by_address`.
proof fn lemma_insert_at(s: Seq<DeviceCandidate>, c: DeviceCandidate, j: int)
    requires
        0 <= j <= s.len(),
        forall|k: int| j <= k < s.len() ==> address_key(#[trigger] s[k].ip@) > address_key(c.ip@),
        j > 0 ==> address_key(s[j - 1].ip@) <= address_key(c.ip@),
    ensures
        insert_by_address(s, c) == s.insert(j, c),
    decreases s.len(),
{
    if s.len() == 0 {
        assert(s.insert(0, c) =~= seq![c]);
    } else if j == s.len() {
        assert(s.insert(j, c) =~= s.push(c));
    } else {
        assert(address_key(s[s.len() - 1].ip@) > address_key(c.ip@));
        let init = s.drop_last();
        assert forall|k: int| j <= k < init.len() implies address_key(#[trigger] init[k].ip@) > address_key(
            c.ip@,
        ) by {
            assert(init[k] == s[k]);
        }
        if j > 0 {
            assert(init[j - 1] == s[j - 1]);
        }
        lemma_insert_at(init, c, j);
        assert(init.insert(j, c).push(s.last()) =~= s.insert(j, c));
    }
}

/// The address key of a candidate's IP text.
fn address_key_of(ip: &str) -> (r: u32)
    ensures
        r == address_key(ip@),
{
    match parse_ipv4(ip) {
        Some(a) => a,
        None => u32::MAX,
    }
}

/// The scan's result order: by address (a dotted quad's value, anything else
/// last), keeping the confirmation order among equal addresses.
pub fn sort_by_address(candidates: Vec<DeviceCandidate>) -> (r: Vec<DeviceCandidate>)
    ensures
        r@ == by_address(candidates@),
{
    let ghost all = candidates@;
    let n = candidates.len();
    let mut rest = candidates;
    let mut out: Vec<DeviceCandidate> = Vec::new();
    let mut i: usize = 0;
    while i < n
        invariant
            rest@ == all.skip(i as int),
            i <= all.len(),
            all.len() == n,
            out@ == by_address(all.take(i as int)),
        decreases rest@.len(),
    {
        let c = rest.remove(0);
        assert(c == all[i as int]);
        let kc = address_key_of(c.ip.as_str());
        let mut j: usize = out.len();
        while j > 0 && address_key_of(out[j - 1].ip.as_str()) > kc
            invariant
                j <= out@.len(),
                kc == address_key(c.ip@),
                forall|k: int| j <= k < out@.len() ==> address_key(#[trigger] out@[k].ip@) > kc,
            decreases j,
        {
            j = j - 1;
        }
        proof {
            lemma_insert_at(out@, c, j as int);
            assert(all.take(i + 1).drop_last() =~= all.take(i as int));
            assert(all.take(i + 1).last() == c);
            assert(rest@ =~= all.skip(i + 1));
        }
        out.insert(j, c);
        i = i + 1;
    }
    assert(all.take(i as int) =~= all);
    out
}

/// Address order sorts: every reported candidate's key is at most the next
/// one's, and the candidates are those that were found, each as often.
pub proof fn law_by_address_sorted(s: Seq<DeviceCandidate>)
    ensures
        by_address(s).len() == s.len(),
        forall|i: int, j: int|
            0 <= i < j < by_address(s).len() ==> address_key(#[trigger] by_address(s)[i].ip@)
                <= address_key(#[trigger] by_address(s)[j].ip@),
        by_address(s).to_multiset() =~= s.to_multiset(),
    decreases s.len(),
{
    broadcast use vstd::seq_lib::group_to_multiset_ensures;
    if s.len() > 0 {
        law_by_address_sorted(s.drop_last());
        lemma_insert_sorted(by_address(s.drop_last()), s.last());
        assert(s.drop_last().push(s.last()) =~= s);
    }
}

/// Inserting into a sorted sequence keeps it sorted, one longer, with the
/// inserted candidate added to its contents.
proof fn lemma_insert_sorted(s: Seq<DeviceCandidate>, c: DeviceCandidate)
    requires
        forall|i: int, j: int|
            0 <= i < j < s.len() ==> address_key(#[trigger] s[i].ip@) <= address_key(#[trigger] s[j].ip@),
    ensures
        insert_by_address(s, c).len() == s.len() + 1,
        forall|i: int, j: int|
            0 <= i < j < insert_by_address(s, c).len() ==> address_key(
                #[trigger] insert_by_address(s, c)[i].ip@,
            ) <= address_key(#[trigger] insert_by_address(s, c)[j].ip@),
        insert_by_address(s, c).to_multiset() =~= s.to_multiset().insert(c),
    decreases s.len(),
{
    broadcast use vstd::seq_lib::group_to_multiset_ensures;
    if s.len() == 0 {
        assert(seq![c] =~= Seq::<DeviceCandidate>::empty().push(c));
    } else if address_key(s.last().ip@) <= address_key(c.ip@) {
        let t = s.push(c);
        assert forall|i: int, j: int| 0 <= i < j < t.len() implies address_key(#[trigger] t[i].ip@)
            <= address_key(#[trigger] t[j].ip@) by {
            if j == s.len() {
                if i < s.len() - 1 {
                    assert(address_key(s[i].ip@) <= address_key(s[s.len() - 1].ip@));
                }
            }
        }
    } else {
        let init = s.drop_last();
        assert forall|i: int, j: int| 0 <= i < j < init.len() implies address_key(
            #[trigger] init[i].ip@,
        ) <= address_key(#[trigger] init[j].ip@) by {
            assert(init[i] == s[i] && init[j] == s[j]);
        }
        lemma_insert_sorted(init, c);
        let u = insert_by_address(init, c);
        let t = u.push(s.last());
        // Every entry of u is either an entry of init or c; both are at most
        // s.last()'s key.
        assert forall|k: int| 0 <= k < u.len() implies address_key(#[trigger] u[k].ip@) <= address_key(
            s.last().ip@,
        ) by {
            assert(u.to_multiset().count(u[k]) > 0);
            assert(u.to_multiset() =~= init.to_multiset().insert(c));
            if u[k] != c {
                assert(init.to_multiset().count(u[k]) > 0);
                assert(init.contains(u[k]));
                let w = choose|w: int| 0 <= w < init.len() && init[w] == u[k];
                assert(s[w] == init[w]);
                assert(address_key(s[w].ip@) <= address_key(s[s.len() - 1].ip@));
            }
        }
        assert forall|i: int, j: int| 0 <= i < j < t.len() implies address_key(#[trigger] t[i].ip@)
            <= address_key(#[trigger] t[j].ip@) by {
            if j == u.len() {
                assert(t[i] == u[i]);
            }
        }
        assert(s =~= init.push(s.last()));
        assert(s.to_multiset() =~= init.to_multiset().insert(s.last()));
    }
}

/// The text of an optional banner value, or empty.
pub open spec fn or_empty(v: Option<Seq<char>>) -> Seq<char> {
    match v {
        Some(s) => s,
        None => Seq::empty(),
    }
}

/// The candidate for a DDMS-confirmed address, carrying the UPnP uuid: the
/// banner's name, else the UPnP friendly name; the banner's model, else the
/// UPnP model.
pub fn ddms_candidate(ip: &str, banner: &DdmsBanner, identity: &UpnpIdentity, saved: &[SavedDevice]) -> (r:
    DeviceCandidate)
    ensures
        r.uuid@ == identity.uuid@,
        r.usn@ == or_empty(banner.lookup("USN"@)),
        r.ip@ == ip@,
        r.name@ == match banner.lookup("DEVICENAME"@) {
            Some(n) => n,
            None => identity.friendly_name@,
        },
        r.model@ == match banner.lookup("CAST_MODEL"@) {
            Some(m) => m,
            None => identity.model@,
        },
        r.firmware@ == or_empty(banner.lookup("FWVERSION"@)),
        r.net_mode == crate::luci::model::net_mode_of(banner.lookup("NETMODE"@)),
        match banner.lookup("WIFIBAND"@) {
            Some(b) => r.wifi_band matches Some(w) && w@ == b,
            None => r.wifi_band is None,
        },
        r.already_added == exists|i: int|
            0 <= i < saved@.len() && same_unit(
                #[trigger] saved@[i],
                identity.uuid@,
                or_empty(banner.lookup("USN"@)),
                ip@,
            ),
{
    let usn = match banner.usn() {
        Some(u) => owned(u),
        None => String::new(),
    };
    let name = match banner.device_name() {
        Some(n) => owned(n),
        None => identity.friendly_name.clone(),
    };
    let model = match banner.model() {
        Some(m) => owned(m),
        None => identity.model.clone(),
    };
    let firmware = match banner.firmware() {
        Some(f) => owned(f),
        None => String::new(),
    };
    let wifi_band = match banner.wifi_band() {
        Some(w) => Some(owned(w)),
        None => None,
    };
    let added = already_added(identity.uuid.as_str(), usn.as_str(), ip, saved);
    DeviceCandidate {
        uuid: identity.uuid.clone(),
        usn,
        ip: owned(ip),
        name,
        model,
        firmware,
        net_mode: banner.net_mode(),
        wifi_band,
        already_added: added,
    }
}

/// A DDMS reply is kept only if it looks like a device: it names one, gives
/// its port, or carries a USN.
pub fn looks_like_device(banner: &DdmsBanner) -> (r: bool)
    ensures
        r == (banner.lookup("DEVICENAME"@) is Some || banner.lookup("USN"@) is Some || (
        banner.lookup("PORT"@) matches Some(p) && parse_unsigned(p, 65535) is Some)),
{
    banner.device_name().is_some() || banner.port().is_some() || banner.usn().is_some()
}

// ----------------------------------------------------------- XML fields --

/// The text between the first `<tag>` and the next `</tag>`, trimmed
/// (case-sensitive): good enough for `description.xml`.
pub open spec fn xml_field_text(xml: Seq<char>, tag: Seq<char>) -> Option<Seq<char>> {
    let open = seq!['<'] + tag + seq!['>'];
    match find_sub(xml, open, 0) {
        None => None,
        Some(i) => {
            let start = i + open.len();
            match find_sub(xml, seq!['<', '/'] + tag + seq!['>'], start) {
                None => None,
                Some(end) => Some(trim(xml.subrange(start, end))),
            }
        },
    }
}

fn tag_pattern(closing: bool, tag: &str) -> (r: Vec<char>)
    ensures
        r@ == (if closing {
            seq!['<', '/']
        } else {
            seq!['<']
        }) + tag@ + seq!['>'],
{
    let ghost pre = if closing {
        seq!['<', '/']
    } else {
        seq!['<']
    };
    let mut r: Vec<char> = Vec::new();
    r.push('<');
    if closing {
        r.push('/');
    }
    let cs = chars_of(tag);
    let ghost r0 = r@;
    assert(r0 =~= pre);
    let mut i: usize = 0;
    while i < cs.len()
        invariant
            i <= cs@.len(),
            cs@ == tag@,
            r@ == r0 + cs@.subrange(0, i as int),
        decreases cs@.len() - i,
    {
        r.push(cs[i]);
        i = i + 1;
        assert(r@ =~= r0 + cs@.subrange(0, i as int));
    }
    r.push('>');
    assert(cs@.subrange(0, i as int) =~= tag@);
    assert(r@ =~= pre + tag@ + seq!['>']);
    r
}

/// A single value out of an XML-ish document: the trimmed text between
/// `<tag>` and `</tag>` (case-sensitive, first match).
pub fn xml_field(xml: &str, tag: &str) -> (r: Option<String>)
    ensures
        match xml_field_text(xml@, tag@) {
            Some(t) => r matches Some(v) && v@ == t,
            None => r is None,
        },
{
    let cs = chars_of(xml);
    let open = tag_pattern(false, tag);
    let close = tag_pattern(true, tag);
    let found = find_seq(cs.as_slice(), open.as_slice(), 0);
    let i = match found {
        Some(i) => i,
        None => return None,
    };
    let olen = open.len();
    let n = cs.len();
    assert(i + olen <= n);
    let start = i + olen;
    let end = match find_seq(cs.as_slice(), close.as_slice(), start) {
        Some(e) => e,
        None => return None,
    };
    let (a, b) = trim_range(cs.as_slice(), start, end);
    Some(string_of_range(cs.as_slice(), a, b))
}

/// `s` without the prefix `p` when it has it, else `s`.
pub open spec fn strip_prefix(s: Seq<char>, p: Seq<char>) -> Seq<char> {
    if p.len() <= s.len() && s.subrange(0, p.len() as int) == p {
        s.skip(p.len() as int)
    } else {
        s
    }
}

/// The identity a UPnP `description.xml` gives: the UDN without its `uuid:`
/// prefix, the model and the friendly name; kept only when there is a uuid or
/// a model to key on.
pub open spec fn identity_text(xml: Seq<char>) -> Option<(Seq<char>, Seq<char>, Seq<char>)> {
    let uuid = match xml_field_text(xml, "UDN"@) {
        Some(u) => strip_prefix(trim(u), "uuid:"@),
        None => Seq::empty(),
    };
    let model = or_empty(xml_field_text(xml, "modelName"@));
    let name = or_empty(xml_field_text(xml, "friendlyName"@));
    if uuid.len() > 0 || model.len() > 0 {
        Some((uuid, model, name))
    } else {
        None
    }
}

fn field_or_empty(xml: &str, tag: &str) -> (r: String)
    ensures
        r@ == or_empty(xml_field_text(xml@, tag@)),
{
    match xml_field(xml, tag) {
        Some(v) => v,
        None => String::new(),
    }
}

/// Parse a fetched `description.xml` into the device's UPnP identity.
pub fn identity_from_xml(xml: &str) -> (r: Option<UpnpIdentity>)
    ensures
        match identity_text(xml@) {
            Some((u, m, n)) => r matches Some(i) && i.uuid@ == u && i.model@ == m
                && i.friendly_name@ == n,
            None => r is None,
        },
{
    proof {
        reveal_strlit("uuid:");
    }
    let uuid = match xml_field(xml, "UDN") {
        Some(u) => {
            let t = trimmed(u.as_str());
            let cs = chars_of(t.as_str());
            let p: Vec<char> = vec!['u', 'u', 'i', 'd', ':'];
            assert(p@ =~= "uuid:"@);
            if cs.len() >= 5 && crate::text::has_at(cs.as_slice(), 0, p.as_slice()) {
                assert(cs@.skip(5) =~= cs@.subrange(5, cs@.len() as int));
                string_of_range(cs.as_slice(), 5, cs.len())
            } else {
                t
            }
        },
        None => String::new(),
    };
    let model = field_or_empty(xml, "modelName");
    let friendly_name = field_or_empty(xml, "friendlyName");
    if uuid.as_str().unicode_len() > 0 || model.as_str().unicode_len() > 0 {
        Some(UpnpIdentity { uuid, model, friendly_name })
    } else {
        None
    }
}

// ------------------------------------------------------------- LOCATION --

/// The trimmed value of the first `name: value` line whose name is
/// `location` (any case).
pub open spec fn location_value(lines: Seq<Seq<char>>) -> Option<Seq<char>>
    decreases lines.len(),
{
    if lines.len() == 0 {
        None
    } else {
        let l = lines[0];
        let c = find_in(l, ':', 0, l.len() as int);
        if c < l.len() && eq_ignore_case(trim(l.subrange(0, c)), "location"@) {
            Some(trim(l.subrange(c + 1, l.len() as int)))
        } else {
            location_value(lines.drop_first())
        }
    }
}

/// The last position of `c` in `s`, or -1.
pub open spec fn last_index(s: Seq<char>, c: char) -> int
    decreases s.len(),
{
    if s.len() == 0 {
        -1
    } else if s.last() == c {
        s.len() - 1
    } else {
        last_index(s.drop_last(), c)
    }
}

/// The URL without its scheme.
pub open spec fn after_scheme(v: Seq<char>) -> Seq<char> {
    match find_sub(v, "://"@, 0) {
        Some(i) => v.skip(i + 3),
        None => v,
    }
}

/// The authority: up to the first `/`.
pub open spec fn authority_of(after: Seq<char>) -> Seq<char> {
    after.subrange(0, find_in(after, '/', 0, after.len() as int))
}

/// The path: from the first `/`, defaulting to `/description.xml`.
pub open spec fn path_of(after: Seq<char>) -> Seq<char> {
    let slash = find_in(after, '/', 0, after.len() as int);
    if slash < after.len() {
        after.skip(slash)
    } else {
        "/description.xml"@
    }
}

/// The authority without user info (up to the last `@`).
pub open spec fn without_userinfo(auth: Seq<char>) -> Seq<char> {
    let at = last_index(auth, '@');
    if at >= 0 {
        auth.skip(at + 1)
    } else {
        auth
    }
}

/// Host and port, split at the last `:`; a missing or unreadable port is
/// 49494.
pub open spec fn host_port(auth: Seq<char>) -> (Seq<char>, u16) {
    let colon = last_index(auth, ':');
    if colon >= 0 {
        (
            auth.subrange(0, colon),
            match parse_unsigned(auth.skip(colon + 1), 65535) {
                Some(p) => p as u16,
                None => 49494u16,
            },
        )
    } else {
        (auth, 49494u16)
    }
}

/// Host text, port and path a `LOCATION` URL points at.
pub open spec fn location_url_parts(value: Seq<char>) -> (Seq<char>, u16, Seq<char>) {
    let after = after_scheme(value);
    let (host, port) = host_port(without_userinfo(authority_of(after)));
    (host, port, path_of(after))
}

/// What an SSDP reply's `LOCATION` header points at.
pub open spec fn location_text(payload: Seq<char>) -> Option<(Seq<char>, u16, Seq<char>)> {
    match location_value(split_on(payload, '\n')) {
        Some(v) => Some(location_url_parts(v)),
        None => None,
    }
}

proof fn lemma_last_index_bounds(s: Seq<char>, c: char)
    ensures
        -1 <= last_index(s, c) < s.len(),
        last_index(s, c) >= 0 ==> s[last_index(s, c)] == c,
    decreases s.len(),
{
    if s.len() > 0 && s.last() != c {
        lemma_last_index_bounds(s.drop_last(), c);
    }
}

fn last_char(s: &[char], from: usize, to: usize, c: char) -> (r: Option<usize>)
    requires
        from <= to <= s@.len(),
    ensures
        match r {
            Some(i) => last_index(s@.subrange(from as int, to as int), c) == i - from && from <= i
                < to,
            None => last_index(s@.subrange(from as int, to as int), c) == -1,
        },
{
    let mut j = to;
    while j > from
        invariant
            from <= j <= to <= s@.len(),
            last_index(s@.subrange(from as int, to as int), c) == last_index(
                s@.subrange(from as int, j as int),
                c,
            ),
        decreases j - from,
    {
        assert(s@.subrange(from as int, j as int).drop_last() =~= s@.subrange(
            from as int,
            j - 1,
        ));
        if s[j - 1] == c {
            return Some(j - 1);
        }
        j = j - 1;
    }
    None
}

fn lines_location(cs: &[char], from: usize) -> (r: Option<(usize, usize)>)
    requires
        from <= cs@.len(),
    ensures
        match location_value(split_on(cs@.subrange(from as int, cs@.len() as int), '\n')) {
            Some(v) => r matches Some((a, b)) && a <= b <= cs@.len() && cs@.subrange(
                a as int,
                b as int,
            ) == v,
            None => r is None,
        },
    decreases cs@.len() - from,
{
    let n = cs.len();
    let ghost rest = cs@.subrange(from as int, n as int);
    let nl = find_char(cs, '\n', from, n);
    proof {
        lemma_find_in_sub(cs@, '\n', from as int, n as int, 0);
        lemma_find_in_bounds(cs@, '\n', from as int, n as int);
        lemma_split_on_unfold(rest, '\n');
        assert(find_in(rest, '\n', 0, rest.len() as int) == nl - from);
    }
    let ghost lines = split_on(rest, '\n');
    let ghost line = cs@.subrange(from as int, nl as int);
    proof {
        assert(rest.subrange(0, nl - from) =~= line);
        assert(lines[0] == line);
    }
    let colon = find_char(cs, ':', from, nl);
    proof {
        lemma_find_in_sub(cs@, ':', from as int, nl as int, 0);
        lemma_find_in_bounds(cs@, ':', from as int, nl as int);
        assert(find_in(line, ':', 0, line.len() as int) == colon - from);
    }
    if colon < nl {
        let (a, b) = trim_range(cs, from, colon);
        let name = string_of_range(cs, a, b);
        proof {
            assert(cs@.subrange(from as int, colon as int) =~= line.subrange(0, colon - from));
            assert(name@ == trim(line.subrange(0, colon - from)));
        }
        if eq_ignore_ascii_case(name.as_str(), "location") {
            let (x, y) = trim_range(cs, colon + 1, nl);
            proof {
                assert(cs@.subrange(colon + 1, nl as int) =~= line.subrange(
                    colon - from + 1,
                    line.len() as int,
                ));
                assert(location_value(lines) == Some(
                    trim(line.subrange(colon - from + 1, line.len() as int)),
                ));
            }
            return Some((x, y));
        }
        proof {
            assert(!eq_ignore_case(trim(line.subrange(0, colon - from)), "location"@));
        }
    }
    proof {
        assert(location_value(lines) == location_value(lines.drop_first()));
    }
    if nl >= n {
        proof {
            assert(lines =~= seq![rest]);
            assert(lines.drop_first() =~= Seq::<Seq<char>>::empty());
        }
        return None;
    }
    proof {
        assert(rest.subrange(nl - from + 1, rest.len() as int) =~= cs@.subrange(nl + 1, n as int));
        assert(lines.drop_first() =~= split_on(cs@.subrange(nl + 1, n as int), '\n'));
    }
    lines_location(cs, nl + 1)
}

fn strip_scheme(v: &[char]) -> (r: Vec<char>)
    ensures
        r@ == after_scheme(v@),
{
    let scheme: Vec<char> = vec![':', '/', '/'];
    proof {
        reveal_strlit("://");
        assert(scheme@ =~= "://"@);
    }
    let found = find_seq(v, scheme.as_slice(), 0);
    match found {
        Some(i) => {
            let n = v.len();
            assert(i + 3 <= n);
            let start = i + 3;
            assert(v@.subrange(start as int, v@.len() as int) =~= v@.skip(start as int));
            slice_to_vec(slice_subrange(v, start, v.len()))
        },
        None => slice_to_vec(v),
    }
}

fn split_path(after: &[char]) -> (r: (Vec<char>, String))
    ensures
        r.0@ == authority_of(after@),
        r.1@ == path_of(after@),
{
    let n = after.len();
    let slash = find_char(after, '/', 0, n);
    proof {
        lemma_find_in_bounds(after@, '/', 0, n as int);
    }
    let auth = slice_to_vec(slice_subrange(after, 0, slash));
    let path = if slash < n {
        assert(after@.subrange(slash as int, n as int) =~= after@.skip(slash as int));
        string_of_range(after, slash, n)
    } else {
        owned("/description.xml")
    };
    (auth, path)
}

fn drop_userinfo(auth: &[char]) -> (r: Vec<char>)
    ensures
        r@ == without_userinfo(auth@),
{
    let n = auth.len();
    proof {
        assert(auth@.subrange(0, n as int) =~= auth@);
        lemma_last_index_bounds(auth@, '@');
    }
    match last_char(auth, 0, n, '@') {
        Some(i) => {
            assert(auth@.subrange(i + 1, n as int) =~= auth@.skip(i + 1));
            slice_to_vec(slice_subrange(auth, i + 1, n))
        },
        None => slice_to_vec(auth),
    }
}

fn split_host_port(auth: &[char]) -> (r: (String, u16))
    ensures
        r.0@ == host_port(auth@).0,
        r.1 == host_port(auth@).1,
{
    let n = auth.len();
    proof {
        assert(auth@.subrange(0, n as int) =~= auth@);
        lemma_last_index_bounds(auth@, ':');
    }
    match last_char(auth, 0, n, ':') {
        Some(c) => {
            let host = string_of_range(auth, 0, c);
            let port_chars = slice_subrange(auth, c + 1, n);
            assert(port_chars@ =~= auth@.skip(c + 1));
            let port: u16 = match parse_unsigned_chars(port_chars, 65535) {
                Some(p) => p as u16,
                None => UPNP_PORT,
            };
            (host, port)
        },
        None => {
            assert(auth@.subrange(0, n as int) =~= auth@);
            (string_of_range(auth, 0, n), UPNP_PORT)
        },
    }
}

/// The host text, port and path an SSDP reply's `LOCATION` header points at
/// (falling back to :49494 and `/description.xml`); the host is still text,
/// for the caller to read as an IPv4 address.
pub fn location_parts(payload: &str) -> (r: Option<(String, u16, String)>)
    ensures
        match location_text(payload@) {
            Some((h, p, path)) => r matches Some((rh, rp, rpath)) && rh@ == h && rp == p
                && rpath@ == path,
            None => r is None,
        },
{
    let cs = chars_of(payload);
    assert(cs@.subrange(0, cs@.len() as int) =~= cs@);
    let (va, vb) = match lines_location(cs.as_slice(), 0) {
        Some(p) => p,
        None => return None,
    };
    let after = strip_scheme(slice_subrange(cs.as_slice(), va, vb));
    let (auth, path) = split_path(after.as_slice());
    let auth = drop_userinfo(auth.as_slice());
    let (host, port) = split_host_port(auth.as_slice());
    Some((host, port, path))
}

/// What a `LOCATION` header points at, when its host is an IPv4 literal:
/// the address (big-endian), the port and the path. Any other host gives
/// nothing, and the caller falls back to the sender's address.
pub fn location_target(payload: &str) -> (r: Option<(u32, u16, String)>)
    ensures
        match location_text(payload@) {
            Some((h, p, path)) => match ipv4_text(h) {
                Some(a) => r matches Some((ra, rp, rpath)) && ra == a && rp == p && rpath@ == path,
                None => r is None,
            },
            None => r is None,
        },
{
    match location_parts(payload) {
        Some((host, port, path)) => match parse_ipv4(host.as_str()) {
            Some(a) => Some((a, port, path)),
            None => None,
        },
        None => None,
    }
}

// ------------------------------------------------------- IPv4 addresses --

/// One octet of a dotted quad: one to three ASCII digits, no leading zero
/// unless the octet is `0`, at most 255.
pub open spec fn octet_text(p: Seq<char>) -> Option<nat> {
    if 1 <= p.len() <= 3 && is_digit(p[0]) && !(p.len() > 1 && p[0] == '0') {
        parse_unsigned(p, 255)
    } else {
        None
    }
}

/// The octets of dot-separated pieces; `None` if any piece is not one.
pub open spec fn octets_of(parts: Seq<Seq<char>>) -> Option<Seq<nat>>
    decreases parts.len(),
{
    if parts.len() == 0 {
        Some(Seq::empty())
    } else {
        match octet_text(parts[0]) {
            None => None,
            Some(v) => match octets_of(parts.drop_first()) {
                None => None,
                Some(rest) => Some(seq![v] + rest),
            },
        }
    }
}

/// A dotted-quad IPv4 address (`a.b.c.d`, exactly four octets), as a
/// big-endian number.
pub open spec fn ipv4_text(s: Seq<char>) -> Option<u32> {
    match octets_of(split_on(s, '.')) {
        Some(ns) => if ns.len() == 4 {
            Some((ns[0] * 16777216 + ns[1] * 65536 + ns[2] * 256 + ns[3]) as u32)
        } else {
            None
        },
        None => None,
    }
}

/// The octet `s[from..to]` spells, if it is one.
fn octet_chars(s: &[char], from: usize, to: usize) -> (r: Option<u64>)
    requires
        from <= to <= s@.len(),
    ensures
        match octet_text(s@.subrange(from as int, to as int)) {
            Some(v) => r == Some(v as u64),
            None => r is None,
        },
{
    let n = to - from;
    if n < 1 || n > 3 {
        return None;
    }
    let c = s[from];
    if !('0' <= c && c <= '9') || (n > 1 && c == '0') {
        return None;
    }
    let sub = slice_subrange(s, from, to);
    parse_unsigned_chars(sub, 255)
}

/// The octets of the `.`-separated pieces of `s[from..to]`, or `None` when
/// one is not an octet.
fn dot_octets(s: &[char], from: usize, to: usize) -> (r: Option<Vec<u64>>)
    requires
        from <= to <= s@.len(),
    ensures
        match octets_of(split_on(s@.subrange(from as int, to as int), '.')) {
            Some(ns) => r matches Some(v) && v@.len() == ns.len() && forall|i: int|
                0 <= i < ns.len() ==> #[trigger] v@[i] == ns[i],
            None => r is None,
        },
    decreases to - from,
{
    let dot = find_char(s, '.', from, to);
    let ghost piece = s@.subrange(from as int, to as int);
    proof {
        lemma_find_in_sub(s@, '.', from as int, to as int, 0);
        lemma_split_on_unfold(piece, '.');
        lemma_find_in_bounds(s@, '.', from as int, to as int);
    }
    let head = octet_chars(s, from, dot);
    let ghost parts = split_on(piece, '.');
    proof {
        assert(s@.subrange(from as int, dot as int) =~= parts[0]);
    }
    match head {
        None => None,
        Some(v) => {
            if dot >= to {
                proof {
                    assert(parts.drop_first() =~= Seq::<Seq<char>>::empty());
                    assert(octets_of(parts.drop_first()) == Some(Seq::<nat>::empty()));
                    assert(octets_of(parts) == Some(seq![v as nat] + Seq::<nat>::empty()));
                }
                let mut out: Vec<u64> = Vec::new();
                out.push(v);
                Some(out)
            } else {
                proof {
                    assert(piece.subrange(dot - from + 1, piece.len() as int) =~= s@.subrange(
                        dot + 1,
                        to as int,
                    ));
                    assert(parts.drop_first() =~= split_on(s@.subrange(dot + 1, to as int), '.'));
                }
                match dot_octets(s, dot + 1, to) {
                    None => None,
                    Some(rest) => {
                        let mut out: Vec<u64> = Vec::new();
                        out.push(v);
                        let mut k: usize = 0;
                        while k < rest.len()
                            invariant
                                k <= rest@.len(),
                                octets_of(parts.drop_first()) matches Some(rs) && rest@.len()
                                    == rs.len() && forall|i: int|
                                    0 <= i < rs.len() ==> #[trigger] rest@[i] == rs[i],
                                octets_of(parts) == match octets_of(parts.drop_first()) {
                                    Some(rs) => Some(seq![v as nat] + rs),
                                    None => None::<Seq<nat>>,
                                },
                                out@.len() == k + 1,
                                out@[0] == v,
                                forall|i: int| 0 <= i < k ==> #[trigger] out@[i + 1] == rest@[i],
                            decreases rest@.len() - k,
                        {
                            out.push(rest[k]);
                            k = k + 1;
                        }
                        proof {
                            let ns = octets_of(parts).unwrap();
                            let rs = octets_of(parts.drop_first()).unwrap();
                            assert(ns == seq![v as nat] + rs);
                            assert forall|i: int| 0 <= i < ns.len() implies #[trigger] out@[i]
                                == ns[i] by {
                                if i > 0 {
                                    assert(out@[(i - 1) + 1] == rest@[i - 1]);
                                }
                            }
                        }
                        Some(out)
                    },
                }
            }
        },
    }
}

/// Every octet is at most 255.
proof fn lemma_octets_bounded(parts: Seq<Seq<char>>)
    requires
        octets_of(parts) is Some,
    ensures
        forall|i: int| 0 <= i < octets_of(parts)->0.len() ==> #[trigger] octets_of(parts)->0[i] <= 255,
        octets_of(parts)->0.len() == parts.len(),
    decreases parts.len(),
{
    if parts.len() > 0 {
        lemma_octets_bounded(parts.drop_first());
    }
}

/// Read a dotted-quad IPv4 address (`str::parse::<Ipv4Addr>`'s grammar:
/// exactly four decimal octets, no leading zeros) as a big-endian number.
pub fn parse_ipv4(s: &str) -> (r: Option<u32>)
    ensures
        r == ipv4_text(s@),
{
    let cs = chars_of(s);
    let n = cs.len();
    assert(cs@.subrange(0, n as int) =~= cs@);
    match dot_octets(cs.as_slice(), 0, n) {
        None => None,
        Some(v) => {
            if v.len() != 4 {
                return None;
            }
            proof {
                lemma_octets_bounded(split_on(cs@, '.'));
            }
            let (a, b, c, d) = (v[0], v[1], v[2], v[3]);
            assert(a <= 255 && b <= 255 && c <= 255 && d <= 255) by {
                let ns = octets_of(split_on(cs@, '.'))->0;
                assert(v@[0] == ns[0] && v@[1] == ns[1] && v@[2] == ns[2] && v@[3] == ns[3]);
            }
            assert(a * 16777216 + b * 65536 + c * 256 + d < 0x1_0000_0000) by (nonlinear_arith)
                requires
                    a <= 255,
                    b <= 255,
                    c <= 255,
                    d <= 255,
            ;
            Some((a * 16777216 + b * 65536 + c * 256 + d) as u32)
        },
    }
}

// ----------------------------------------------------------- sweep range --

/// A decimal field of a network address: one to `width` ASCII digits
/// (leading zeros allowed) whose value is at most `max`.
pub open spec fn net_field(p: Seq<char>, width: nat, max: nat) -> Option<nat> {
    if 1 <= p.len() <= width && all_digits(p) && digits_value(p) <= max {
        Some(digits_value(p))
    } else {
        None
    }
}

/// The network a text `a.b.c.d/len` names: four fields of up to three digits
/// below 256, a slash, and a prefix of up to two digits at most 32; the
/// address as a big-endian number (host bits kept) and the prefix length.
pub open spec fn ipv4_net_text(s: Seq<char>) -> Option<(u32, u8)> {
    let halves = split_on(s, '/');
    let quad = split_on(halves[0], '.');
    if halves.len() != 2 || quad.len() != 4 {
        None
    } else {
        match (
            net_field(quad[0], 3, 255),
            net_field(quad[1], 3, 255),
            net_field(quad[2], 3, 255),
            net_field(quad[3], 3, 255),
            net_field(halves[1], 2, 32),
        ) {
            (Some(a), Some(b), Some(c), Some(d), Some(p)) => Some(
                ((a * 16777216 + b * 65536 + c * 256 + d) as u32, p as u8),
            ),
            _ => None,
        }
    }
}

/// `"a.b.c.d/len".parse::<ipnet::Ipv4Net>()`, read back as the address and
/// prefix length. ipnet's parser reads each octet as a run of at most three
/// digits below 256, then `/`, then a run of at most two digits below 33, and
/// wants the end of the text there; the network keeps the address as given.
#[verifier::external_body]
fn parse_ipv4_net(s: &str) -> (r: Option<(u32, u8)>)
    ensures
        r == ipv4_net_text(s@),
{
    match s.parse::<ipnet::Ipv4Net>() {
        Ok(net) => Some((u32::from(net.addr()), net.prefix_len())),
        Err(_) => None,
    }
}

/// 2 to the `n`.
pub open spec fn pow2(n: nat) -> nat
    decreases n,
{
    if n == 0 {
        1
    } else {
        2 * pow2((n - 1) as nat)
    }
}

/// A sweep range: a network address (host bits clear) and its prefix.
#[derive(Debug, Clone, Copy, PartialEq, Eq, Structural)]
pub struct Cidr {
    pub network: u32,
    pub prefix: u8,
}

/// The network of `addr` under a `prefix`-bit mask: the host bits cleared.
pub open spec fn network_of(addr: u32, prefix: u8) -> int {
    let size = pow2((32 - prefix) as nat) as int;
    (addr as int / size) * size
}

/// The `a.b.c.d` text of a big-endian address.
pub open spec fn dotted(a: u32) -> Seq<char> {
    dec((a as nat / 16777216) % 256) + "."@ + dec((a as nat / 65536) % 256) + "."@ + dec(
        (a as nat / 256) % 256,
    ) + "."@ + dec(a as nat % 256)
}

impl Cidr {
    /// A well-formed range: prefix at most 32, host bits clear.
    pub open spec fn wf(&self) -> bool {
        &&& self.prefix <= 32
        &&& self.network == network_of(self.network, self.prefix)
    }

    /// The `a.b.c.d/len` text.
    pub open spec fn text(&self) -> Seq<char> {
        dotted(self.network) + "/"@ + dec(self.prefix as nat)
    }

    /// How many hosts the sweep covers: all but the network and broadcast
    /// addresses, except on /31 and /32.
    pub open spec fn spec_host_count(&self) -> nat {
        if self.prefix < 31 {
            (pow2((32 - self.prefix) as nat) - 2) as nat
        } else {
            pow2((32 - self.prefix) as nat)
        }
    }

    /// The first host the sweep covers.
    pub open spec fn spec_first_host(&self) -> int {
        if self.prefix < 31 {
            self.network + 1
        } else {
            self.network as int
        }
    }

    /// The `a.b.c.d/len` text of the range.
    pub fn to_string(&self) -> (r: String)
        ensures
            r@ == self.text(),
    {
        let a = self.network;
        let mut r = String::new();
        push_dec(&mut r, ((a / 16777216) % 256) as u64);
        r.append(".");
        push_dec(&mut r, ((a / 65536) % 256) as u64);
        r.append(".");
        push_dec(&mut r, ((a / 256) % 256) as u64);
        r.append(".");
        push_dec(&mut r, (a % 256) as u64);
        r.append("/");
        push_dec(&mut r, self.prefix as u64);
        proof {
            assert(Seq::<char>::empty() + dec((a as nat / 16777216) % 256) =~= dec(
                (a as nat / 16777216) % 256,
            ));
        }
        r
    }

    /// The hosts the sweep covers: the first host's address and how many
    /// consecutive addresses follow from it.
    pub fn host_range(&self) -> (r: (u32, u64))
        requires
            self.wf(),
        ensures
            r.0 == self.spec_first_host(),
            r.1 == self.spec_host_count(),
            r.0 + r.1 <= 0x1_0000_0000,
    {
        let size = block_size(self.prefix);
        proof {
            lemma_network_room(self.network, self.prefix);
        }
        if self.prefix < 31 {
            proof {
                lemma_pow2_ge4((32 - self.prefix) as nat);
            }
            (self.network + 1, size - 2)
        } else {
            (self.network, size)
        }
    }

    /// The addresses a sweep of this range probes, in order: every host but
    /// this machine's address and those already confirmed.
    pub fn sweep_hosts(&self, local: Option<u32>, confirmed: &[u32]) -> (r: Vec<u32>)
        requires
            self.wf(),
        ensures
            r@ == sweep_targets(self.spec_first_host(), self.spec_host_count(), local, confirmed@),
    {
        let (first, count) = self.host_range();
        let mut r: Vec<u32> = Vec::new();
        let mut k: u64 = 0;
        while k < count
            invariant
                k <= count,
                first + count <= 0x1_0000_0000,
                r@ == sweep_targets(first as int, k as nat, local, confirmed@),
            decreases count - k,
        {
            let h = (first as u64 + k) as u32;
            let mut seen = false;
            let mut j: usize = 0;
            while j < confirmed.len()
                invariant
                    j <= confirmed@.len(),
                    seen == confirmed@.subrange(0, j as int).contains(h),
                decreases confirmed@.len() - j,
            {
                proof {
                    let s = confirmed@.subrange(0, j + 1);
                    assert(s.drop_last() =~= confirmed@.subrange(0, j as int));
                    if s.contains(h) {
                        let w = choose|w: int| 0 <= w < s.len() && s[w] == h;
                        if w < j {
                            assert(confirmed@.subrange(0, j as int)[w] == h);
                        }
                    }
                    if confirmed@.subrange(0, j as int).contains(h) {
                        let w = choose|w: int| 0 <= w < j && confirmed@.subrange(0, j as int)[w] == h;
                        assert(s[w] == h);
                    }
                    if confirmed[j as int] == h {
                        assert(s[j as int] == h);
                    }
                }
                if confirmed[j] == h {
                    seen = true;
                }
                j = j + 1;
            }
            assert(confirmed@.subrange(0, confirmed@.len() as int) =~= confirmed@);
            let is_local = match local {
                Some(l) => l == h,
                None => false,
            };
            if !is_local && !seen {
                r.push(h);
            }
            k = k + 1;
        }
        r
    }
}

/// The addresses among the first `k` hosts from `first` that a sweep
/// probes: all but `local` and those in `confirmed`.
pub open spec fn sweep_targets(first: int, k: nat, local: Option<u32>, confirmed: Seq<u32>) -> Seq<u32>
    decreases k,
{
    if k == 0 {
        Seq::empty()
    } else {
        let rest = sweep_targets(first, (k - 1) as nat, local, confirmed);
        let h = (first + k - 1) as u32;
        if local == Some(h) || confirmed.contains(h) {
            rest
        } else {
            rest.push(h)
        }
    }
}

proof fn lemma_pow2_ge4(n: nat)
    requires
        n >= 2,
    ensures
        pow2(n) >= 4,
    decreases n,
{
    if n > 2 {
        lemma_pow2_ge4((n - 1) as nat);
    } else {
        assert(pow2(2) == 4) by {
            reveal_with_fuel(pow2, 3);
        }
    }
}

proof fn lemma_pow2_pos(n: nat)
    ensures
        pow2(n) >= 1,
    decreases n,
{
    if n > 0 {
        lemma_pow2_pos((n - 1) as nat);
    }
}

proof fn lemma_pow2_le32(n: nat)
    requires
        n <= 32,
    ensures
        pow2(n) <= 0x1_0000_0000,
    decreases n,
{
    if n > 0 {
        lemma_pow2_le32((n - 1) as nat);
        lemma_pow2_mono((n - 1) as nat, 31);
        assert(pow2(31) == 0x8000_0000) by {
            reveal_with_fuel(pow2, 32);
        }
    }
}

proof fn lemma_pow2_mono(a: nat, b: nat)
    requires
        a <= b,
    ensures
        pow2(a) <= pow2(b),
    decreases b,
{
    if a < b {
        lemma_pow2_mono(a, (b - 1) as nat);
        lemma_pow2_pos((b - 1) as nat);
    }
}

/// A network address with room for its host block: network + size <= 2^32.
proof fn lemma_network_room(network: u32, prefix: u8)
    requires
        prefix <= 32,
        network == network_of(network, prefix),
    ensures
        network + pow2((32 - prefix) as nat) <= 0x1_0000_0000,
{
    let size = pow2((32 - prefix) as nat) as int;
    lemma_pow2_pos((32 - prefix) as nat);
    lemma_pow2_le32((32 - prefix) as nat);
    lemma_block_divides(prefix);
    lemma_block_fits(network as int, size);
}

proof fn lemma_block_fits(a: int, size: int)
    requires
        0 <= a < 0x1_0000_0000,
        1 <= size <= 0x1_0000_0000,
        0x1_0000_0000int % size == 0,
    ensures
        (a / size) * size + size <= 0x1_0000_0000,
{
    let q = a / size;
    let m = 0x1_0000_0000int / size;
    vstd::arithmetic::div_mod::lemma_fundamental_div_mod(a, size);
    vstd::arithmetic::div_mod::lemma_fundamental_div_mod(0x1_0000_0000int, size);
    assert(size * q + a % size == a);
    assert(size * m == 0x1_0000_0000);
    assert(0 <= a % size);
    assert(q < m) by (nonlinear_arith)
        requires
            size * q <= a,
            a < size * m,
            size >= 1,
    ;
    assert(size * (q + 1) <= size * m) by (nonlinear_arith)
        requires
            q + 1 <= m,
            size >= 1,
    ;
    assert(q * size + size == size * (q + 1)) by (nonlinear_arith);
}

/// `2^(32 - prefix)` as a `u64`.
fn block_size(prefix: u8) -> (r: u64)
    requires
        prefix <= 32,
    ensures
        r == pow2((32 - prefix) as nat),
{
    let mut r: u64 = 1;
    let mut k: u8 = 0;
    while k < 32 - prefix
        invariant
            k <= 32 - prefix,
            prefix <= 32,
            r == pow2(k as nat),
        decreases 32 - prefix - k,
    {
        proof {
            lemma_pow2_le32(k as nat);
        }
        r = r * 2;
        k = k + 1;
    }
    r
}

proof fn lemma_pow2_add(a: nat, b: nat)
    ensures
        pow2(a + b) == pow2(a) * pow2(b),
    decreases a,
{
    if a > 0 {
        let a1 = (a - 1) as nat;
        lemma_pow2_add(a1, b);
        assert(pow2(a) == 2 * pow2(a1));
        assert((a1 + b) as nat == (a + b - 1) as nat);
        assert(pow2(a + b) == 2 * pow2((a1 + b) as nat));
        let x = pow2(a1) as int;
        let y = pow2(b) as int;
        assert(2 * (x * y) == (2 * x) * y) by (nonlinear_arith);
        assert(pow2(a) * pow2(b) == (2 * x) * y);
        assert(pow2(a + b) == 2 * (x * y));
    } else {
        assert(pow2(a) == 1);
        let y = pow2(b) as int;
        assert(1 * y == y);
    }
}

/// The block of a `prefix`-bit network tiles the address space.
proof fn lemma_block_divides(prefix: u8)
    requires
        prefix <= 32,
    ensures
        0x1_0000_0000int % (pow2((32 - prefix) as nat) as int) == 0,
{
    let h = (32 - prefix) as nat;
    lemma_pow2_add(h, prefix as nat);
    assert(pow2(32) == 0x1_0000_0000) by {
        reveal_with_fuel(pow2, 33);
    }
    lemma_pow2_pos(h);
    vstd::arithmetic::div_mod::lemma_mod_multiples_basic(pow2(prefix as nat) as int, pow2(h) as int);
    assert(pow2(prefix as nat) * pow2(h) == pow2(h) * pow2(prefix as nat)) by (nonlinear_arith);
}

/// Why a sweep range is refused, or the range: unreadable text is not a
/// range; a prefix under /16 is too broad; otherwise the host bits are
/// cleared.
pub fn cidr_from_parsed(raw: &str, parsed: Option<(u32, u8)>) -> (r: Result<Cidr, AppError>)
    requires
        parsed matches Some((a, p)) ==> p <= 32,
    ensures
        match parsed {
            None => r matches Err(AppError::InvalidInput(m)) && m@ == "\u{201c}"@ + raw@
                + "\u{201d} is not a valid IPv4 range \u{2014} use CIDR notation, for example 192.168.1.0/24."@,
            Some((a, p)) => if p < 16 {
                r matches Err(AppError::InvalidInput(m)) && m@ == "/"@ + dec(p as nat)
                    + " is too broad to sweep ("@ + dec(pow2((32 - p) as nat))
                    + " addresses). Use /16 or narrower."@
            } else {
                r matches Ok(c) && c.wf() && c.prefix == p && c.network == network_of(a, p)
            },
        },
{
    match parsed {
        None => {
            let mut m = owned("\u{201c}");
            m.append(raw);
            m.append(
                "\u{201d} is not a valid IPv4 range \u{2014} use CIDR notation, for example 192.168.1.0/24.",
            );
            Err(AppError::InvalidInput(m))
        },
        Some((a, p)) => {
            let size = block_size(p);
            if p < MIN_SWEEP_PREFIX {
                let mut m = owned("/");
                push_dec(&mut m, p as u64);
                m.append(" is too broad to sweep (");
                push_dec(&mut m, size);
                m.append(" addresses). Use /16 or narrower.");
                return Err(AppError::InvalidInput(m));
            }
            proof {
                lemma_pow2_pos((32 - p) as nat);
                let q = a as int / size as int;
                assert(q * size <= a) by (nonlinear_arith)
                    requires
                        q == a as int / size as int,
                        size >= 1,
                ;
                assert(q >= 0) by (nonlinear_arith)
                    requires
                        q == a as int / size as int,
                        size >= 1,
                        a >= 0,
                ;
                assert(q * size >= 0) by (nonlinear_arith)
                    requires
                        q >= 0,
                        size >= 1,
                ;
            }
            let network = ((a as u64 / size) * size) as u32;
            proof {
                lemma_block_divides(p);
                lemma_pow2_le32((32 - p) as nat);
                let size_i = size as int;
                let q = a as int / size_i;
                assert(network as int == q * size_i);
                assert((q * size_i) / size_i == q) by (nonlinear_arith)
                    requires
                        size_i >= 1,
                ;
                vstd::arithmetic::div_mod::lemma_div_multiples_vanish(q, size_i);
                assert(size_i * q == q * size_i) by (nonlinear_arith);
                assert(network_of(network, p) == (network as int / size_i) * size_i);
            }
            Ok(Cidr { network, prefix: p })
        },
    }
}

/// Parse and bounds-check a sweep range (the text trimmed first); host bits
/// are truncated.
pub fn parse_cidr(cidr: &str) -> (r: Result<Cidr, AppError>)
    ensures
        match ipv4_net_text(trim(cidr@)) {
            None => r matches Err(AppError::InvalidInput(m)) && m@ == "\u{201c}"@ + trim(cidr@)
                + "\u{201d} is not a valid IPv4 range \u{2014} use CIDR notation, for example 192.168.1.0/24."@,
            Some((a, p)) => if p < 16 {
                r matches Err(AppError::InvalidInput(m)) && m@ == "/"@ + dec(p as nat)
                    + " is too broad to sweep ("@ + dec(pow2((32 - p) as nat))
                    + " addresses). Use /16 or narrower."@
            } else {
                r matches Ok(c) && c.wf() && c.prefix == p && c.network == network_of(a, p)
            },
        },
{
    let raw = trimmed(cidr);
    let parsed = parse_ipv4_net(raw.as_str());
    cidr_from_parsed(raw.as_str(), parsed)
}

/// The range a sweep is asked for: the requested one unless blank, else the
/// saved setting unless blank (both trimmed); `None` leaves it to
/// auto-detection.
pub open spec fn chosen_cidr_text(requested: Option<Seq<char>>, configured: Option<Seq<char>>) -> Option<Seq<char>> {
    if requested matches Some(r) && trim(r).len() > 0 {
        Some(trim(requested.unwrap()))
    } else if configured matches Some(c) && trim(c).len() > 0 {
        Some(trim(configured.unwrap()))
    } else {
        None
    }
}

/// The sweep range: the one the request or the settings name, else the one
/// auto-detected from this machine's address (`detected`, when there is one).
pub fn sweep_cidr(options: &ScanOptions, configured: Option<&str>, detected: Option<String>) -> (r: Option<
    String,
>)
    ensures
        crate::luci::model::opt_view(r) == match chosen_cidr_text(
            crate::luci::model::opt_view(options.cidr),
            match configured {
                Some(c) => Some(c@),
                None => None,
            },
        ) {
            Some(t) => Some(t),
            None => crate::luci::model::opt_view(detected),
        },
{
    if let Some(c) = &options.cidr {
        let t = trimmed(c.as_str());
        if t.as_str().unicode_len() > 0 {
            return Some(t);
        }
    }
    if let Some(c) = configured {
        let t = trimmed(c);
        if t.as_str().unicode_len() > 0 {
            return Some(t);
        }
    }
    detected
}

// ------------------------------------------------------------ requests --

/// The M-SEARCH datagram for `target`, addressed to `host`.
pub open spec fn msearch_text(host: Seq<char>, target: Seq<char>) -> Seq<char> {
    "M-SEARCH * HTTP/1.1\r\nHOST: "@ + host + "\r\nMAN: \"ssdp:discover\"\r\nMX: 2\r\nST: "@
        + target + "\r\n\r\n"@
}

/// The M-SEARCH request sent (twice) to a multicast group.
pub fn msearch_request(host: &str, target: &str) -> (r: String)
    ensures
        r@ == msearch_text(host@, target@),
{
    let mut r = owned("M-SEARCH * HTTP/1.1\r\nHOST: ");
    r.append(host);
    r.append("\r\nMAN: \"ssdp:discover\"\r\nMX: 2\r\nST: ");
    r.append(target);
    r.append("\r\n\r\n");
    r
}

/// The minimal HTTP/1.0 GET for a device's description.
pub fn http_get_request(path: &str, host: &str) -> (r: String)
    ensures
        r@ == "GET "@ + path@ + " HTTP/1.0\r\nHost: "@ + host@ + "\r\nConnection: close\r\n\r\n"@,
{
    let mut r = owned("GET ");
    r.append(path);
    r.append(" HTTP/1.0\r\nHost: ");
    r.append(host);
    r.append("\r\nConnection: close\r\n\r\n");
    r
}

/// The body of a raw HTTP reply: everything after the first blank line, or
/// the whole text when there is none.
pub fn http_body(raw: &[u8]) -> (r: String)
    ensures
        r@ == crate::upnp::split_reply(utf8_lossy(raw@)).1,
{
    let text = string_from_utf8_lossy(raw);
    let cs = chars_of(text.as_str());
    let sep: Vec<char> = vec!['\r', '\n', '\r', '\n'];
    assert(sep@ =~= seq!['\r', '\n', '\r', '\n']);
    let n = cs.len();
    match find_seq(cs.as_slice(), sep.as_slice(), 0) {
        Some(i) => {
            assert(cs@.subrange(i + 4, n as int) =~= cs@.skip(i + 4));
            string_of_range(cs.as_slice(), i + 4, n)
        },
        None => {
            assert(cs@.subrange(0, n as int) =~= cs@);
            string_of_range(cs.as_slice(), 0, n)
        },
    }
}

} // verus!
