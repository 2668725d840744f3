//! Saved-device list edits behind the device commands: lookup by identity,
//! the stable key a new device is saved under, adding or refreshing an entry,
//! forgetting one, and setting its alias.

use vstd::prelude::*;

use crate::error::AppError;
use crate::luci::model::{opt_view, NetMode};
use crate::store::SavedDevice;
use crate::text::{owned, same_text, trim, trimmed};

verus! {

/// The message a stale device reference is refused with.
pub open spec fn gone_text() -> Seq<char> {
    "That device is no longer in the list."@
}

fn gone() -> (r: AppError)
    ensures
        r matches AppError::NotFound(m) && m@ == gone_text(),
{
    AppError::NotFound(owned("That device is no longer in the list."))
}

/// The position of the saved device with identity `uuid` (the first, should
/// there be two), or the stale-reference error.
pub fn find_saved(devices: &[SavedDevice], uuid: &str) -> (r: Result<usize, AppError>)
    ensures
        match r {
            Ok(i) => i < devices@.len() && devices@[i as int].uuid@ == uuid@ && forall|j: int|
                0 <= j < i ==> #[trigger] devices@[j].uuid@ != uuid@,
            Err(e) => (e matches AppError::NotFound(m) && m@ == gone_text()) && forall|j: int|
                0 <= j < devices@.len() ==> #[trigger] devices@[j].uuid@ != uuid@,
        },
{
    let mut i: usize = 0;
    while i < devices.len()
        invariant
            i <= devices@.len(),
            forall|j: int| 0 <= j < i ==> #[trigger] devices@[j].uuid@ != uuid@,
        decreases devices@.len() - i,
    {
        if same_text(devices[i].uuid.as_str(), uuid) {
            return Ok(i);
        }
        i = i + 1;
    }
    Err(gone())
}

/// The key a freshly probed device is saved under: UPnP uuid, then USN, then
/// IP (the first two trimmed).
pub open spec fn stable_key_text(upnp_uuid: Seq<char>, usn: Seq<char>, ip: Seq<char>) -> Seq<char> {
    if trim(upnp_uuid).len() > 0 {
        trim(upnp_uuid)
    } else if trim(usn).len() > 0 {
        trim(usn)
    } else {
        ip
    }
}

/// The stable key for a freshly probed device.
pub fn stable_key(upnp_uuid: &str, usn: &str, ip: &str) -> (r: String)
    ensures
        r@ == stable_key_text(upnp_uuid@, usn@, ip@),
{
    let u = trimmed(upnp_uuid);
    if u.as_str().unicode_len() > 0 {
        return u;
    }
    let m = trimmed(usn);
    if m.as_str().unicode_len() > 0 {
        m
    } else {
        owned(ip)
    }
}

/// How the last known transport is persisted.
pub fn net_mode_str(mode: Option<NetMode>) -> (r: Option<String>)
    ensures
        opt_view(r) == match mode {
            Some(NetMode::Ethernet) => Some("ethernet"@),
            Some(NetMode::Wifi) => Some("wifi"@),
            None => None::<Seq<char>>,
        },
{
    match mode {
        Some(NetMode::Ethernet) => Some(owned("ethernet")),
        Some(NetMode::Wifi) => Some(owned("wifi")),
        None => None,
    }
}

/// The saved entry for a device added by hand at `ip`: keyed by its stable
/// key, with the probed `usn`, transport and last contact, no alias, and
/// pinned so a scan never prunes it.
pub fn manual_entry(
    upnp_uuid: &str,
    usn: String,
    ip: &str,
    net_mode: Option<NetMode>,
    last_seen: Option<i64>,
) -> (r: SavedDevice)
    ensures
        r.uuid@ == stable_key_text(upnp_uuid@, usn@, ip@),
        r.usn@ == usn@,
        r.ip@ == ip@,
        r.alias is None,
        opt_view(r.net_mode) == match net_mode {
            Some(NetMode::Ethernet) => Some("ethernet"@),
            Some(NetMode::Wifi) => Some("wifi"@),
            None => None::<Seq<char>>,
        },
        r.last_seen == last_seen,
        r.pinned_manual,
{
    let uuid = stable_key(upnp_uuid, usn.as_str(), ip);
    SavedDevice {
        uuid,
        usn,
        ip: owned(ip),
        alias: None,
        net_mode: net_mode_str(net_mode),
        last_seen,
        pinned_manual: true,
    }
}

/// The same entry with the identity and contact fields of `fresh`, pinned as
/// added by hand; its alias is kept.
pub open spec fn refreshed(old: SavedDevice, fresh: SavedDevice) -> SavedDevice {
    SavedDevice {
        ip: fresh.ip,
        usn: fresh.usn,
        net_mode: fresh.net_mode,
        last_seen: fresh.last_seen,
        pinned_manual: true,
        ..old
    }
}

/// The saved list after recording `entry`: the first entry with its uuid
/// refreshed in place, or `entry` appended when the uuid is new.
pub open spec fn recorded(devices: Seq<SavedDevice>, entry: SavedDevice) -> Seq<SavedDevice> {
    match find_uuid(devices, entry.uuid@) {
        Some(i) => devices.update(i, refreshed(devices[i], entry)),
        None => devices.push(entry),
    }
}

/// Save a confirmed device: an entry with the same identity is refreshed in
/// place (re-adding a known device updates its IP); otherwise the entry is
/// appended.
pub fn record_device(devices: &mut Vec<SavedDevice>, entry: SavedDevice)
    ensures
        final(devices)@ == recorded(old(devices)@, entry),
{
    let mut i: usize = 0;
    while i < devices.len()
        invariant
            i <= devices@.len(),
            devices@ == old(devices)@,
            forall|j: int| 0 <= j < i ==> #[trigger] devices@[j].uuid@ != entry.uuid@,
        decreases devices@.len() - i,
    {
        if same_text(devices[i].uuid.as_str(), entry.uuid.as_str()) {
            proof {
                lemma_find_uuid(old(devices)@, entry.uuid@, i as int);
            }
            let mut d = devices[i].clone();
            d.ip = entry.ip;
            d.usn = entry.usn;
            d.net_mode = entry.net_mode;
            d.last_seen = entry.last_seen;
            d.pinned_manual = true;
            devices.set(i, d);
            return;
        }
        i = i + 1;
    }
    proof {
        lemma_find_uuid_none(old(devices)@, entry.uuid@);
    }
    devices.push(entry);
}

/// The first position holding identity `uuid`.
pub open spec fn find_uuid(devices: Seq<SavedDevice>, uuid: Seq<char>) -> Option<int> {
    if exists|i: int| 0 <= i < devices.len() && #[trigger] devices[i].uuid@ == uuid {
        Some(
            choose|i: int|
                0 <= i < devices.len() && devices[i].uuid@ == uuid && forall|j: int|
                    0 <= j < i ==> #[trigger] devices[j].uuid@ != uuid,
        )
    } else {
        None
    }
}

proof fn lemma_find_uuid(devices: Seq<SavedDevice>, uuid: Seq<char>, i: int)
    requires
        0 <= i < devices.len(),
        devices[i].uuid@ == uuid,
        forall|j: int| 0 <= j < i ==> #[trigger] devices[j].uuid@ != uuid,
    ensures
        find_uuid(devices, uuid) == Some(i),
{
    let k = choose|k: int|
        0 <= k < devices.len() && devices[k].uuid@ == uuid && forall|j: int|
            0 <= j < k ==> #[trigger] devices[j].uuid@ != uuid;
    assert(0 <= k < devices.len() && devices[k].uuid@ == uuid && forall|j: int|
        0 <= j < k ==> #[trigger] devices[j].uuid@ != uuid);
    if k < i {
        assert(devices[k].uuid@ != uuid);
    }
    if i < k {
        assert(devices[i].uuid@ != uuid);
    }
}

proof fn lemma_find_uuid_none(devices: Seq<SavedDevice>, uuid: Seq<char>)
    requires
        forall|j: int| 0 <= j < devices.len() ==> #[trigger] devices[j].uuid@ != uuid,
    ensures
        find_uuid(devices, uuid) is None,
{
}

/// Some entry with the uuid is the first one with it.
proof fn lemma_first_exists(devices: Seq<SavedDevice>, uuid: Seq<char>, k: int)
    requires
        0 <= k < devices.len(),
        devices[k].uuid@ == uuid,
    ensures
        exists|i: int|
            0 <= i < devices.len() && devices[i].uuid@ == uuid && forall|j: int|
                0 <= j < i ==> #[trigger] devices[j].uuid@ != uuid,
    decreases k,
{
    if exists|j: int| 0 <= j < k && #[trigger] devices[j].uuid@ == uuid {
        let j = choose|j: int| 0 <= j < k && #[trigger] devices[j].uuid@ == uuid;
        lemma_first_exists(devices, uuid, j);
    } else {
        assert(forall|j: int| 0 <= j < k ==> #[trigger] devices[j].uuid@ != uuid);
        assert(0 <= k < devices.len() && devices[k].uuid@ == uuid && forall|j: int|
            0 <= j < k ==> #[trigger] devices[j].uuid@ != uuid);
    }
}

/// What `find_uuid` finds is the first entry with the uuid.
proof fn lemma_find_uuid_some(devices: Seq<SavedDevice>, uuid: Seq<char>)
    requires
        find_uuid(devices, uuid) is Some,
    ensures
        ({
            let i = find_uuid(devices, uuid)->0;
            &&& 0 <= i < devices.len()
            &&& devices[i].uuid@ == uuid
            &&& forall|j: int| 0 <= j < i ==> #[trigger] devices[j].uuid@ != uuid
        }),
{
    let k = choose|k: int| 0 <= k < devices.len() && #[trigger] devices[k].uuid@ == uuid;
    lemma_first_exists(devices, uuid, k);
}

/// Recording a device makes its uuid found with the address and USN just
/// recorded; the list grows by one exactly when the uuid was new, and recording
/// the same entry again grows it no further.
pub proof fn law_record_device(devices: Seq<SavedDevice>, entry: SavedDevice)
    ensures
        ({
            let after = recorded(devices, entry);
            &&& find_uuid(after, entry.uuid@) matches Some(i) && after[i].ip == entry.ip
                && after[i].usn == entry.usn
            &&& after.len() == devices.len() + (if find_uuid(devices, entry.uuid@) is Some {
                0int
            } else {
                1int
            })
            &&& recorded(after, entry).len() == after.len()
        }),
{
    let u = entry.uuid@;
    match find_uuid(devices, u) {
        Some(i) => {
            lemma_find_uuid_some(devices, u);
            let after = devices.update(i, refreshed(devices[i], entry));
            assert(after[i].uuid@ == u);
            assert forall|j: int| 0 <= j < i implies #[trigger] after[j].uuid@ != u by {
                assert(after[j] == devices[j]);
            }
            lemma_find_uuid(after, u, i);
            assert(recorded(devices, entry) == after);
            assert(recorded(after, entry) == after.update(i, refreshed(after[i], entry)));
        },
        None => {
            let after = devices.push(entry);
            assert forall|j: int| 0 <= j < devices.len() implies #[trigger] after[j].uuid@ != u by {
                assert(after[j] == devices[j]);
                if devices[j].uuid@ == u {
                    lemma_first_exists(devices, u, j);
                }
            }
            lemma_find_uuid(after, u, devices.len() as int);
            assert(recorded(devices, entry) == after);
            assert(after[devices.len() as int] == entry);
            assert(recorded(after, entry) == after.update(
                devices.len() as int,
                refreshed(after[devices.len() as int], entry),
            ));
        },
    }
}

/// Removing a uuid leaves no entry with it, so looking it up fails, and keeps
/// every entry with another uuid.
pub proof fn law_remove_forgets(devices: Seq<SavedDevice>, uuid: Seq<char>)
    ensures
        forall|i: int|
            0 <= i < without_uuid(devices, uuid).len() ==> #[trigger] without_uuid(devices, uuid)[i].uuid@
                != uuid,
        find_uuid(without_uuid(devices, uuid), uuid) is None,
        forall|j: int|
            0 <= j < devices.len() && devices[j].uuid@ != uuid ==> without_uuid(devices, uuid).contains(
                #[trigger] devices[j],
            ),
    decreases devices.len(),
{
    if devices.len() > 0 {
        let init = devices.drop_last();
        law_remove_forgets(init, uuid);
        let rest = without_uuid(init, uuid);
        let w = without_uuid(devices, uuid);
        assert forall|j: int| 0 <= j < devices.len() && devices[j].uuid@ != uuid implies w.contains(
            #[trigger] devices[j],
        ) by {
            if j < devices.len() - 1 {
                assert(devices[j] == init[j]);
                assert(rest.contains(init[j]));
                let k = choose|k: int| 0 <= k < rest.len() && rest[k] == init[j];
                assert(w[k] == rest[k]);
            } else {
                assert(w[w.len() - 1] == devices.last());
            }
        }
        assert forall|i: int| 0 <= i < w.len() implies #[trigger] w[i].uuid@ != uuid by {
            if i < rest.len() {
                assert(w[i] == rest[i]);
            }
        }
    }
    lemma_find_uuid_none(without_uuid(devices, uuid), uuid);
}

/// The entries whose identity is not `uuid`, in order.
pub open spec fn without_uuid(devices: Seq<SavedDevice>, uuid: Seq<char>) -> Seq<SavedDevice>
    decreases devices.len(),
{
    if devices.len() == 0 {
        Seq::empty()
    } else {
        let rest = without_uuid(devices.drop_last(), uuid);
        if devices.last().uuid@ == uuid {
            rest
        } else {
            rest.push(devices.last())
        }
    }
}

/// Forget a device: every entry with identity `uuid` is dropped; when there
/// was none the list is unchanged and the stale-reference error comes back.
pub fn remove_saved(devices: &mut Vec<SavedDevice>, uuid: &str) -> (r: Result<(), AppError>)
    ensures
        final(devices)@ == without_uuid(old(devices)@, uuid@),
        (r is Ok) == (exists|i: int| 0 <= i < old(devices)@.len() && #[trigger] old(devices)@[i].uuid@
            == uuid@),
        r matches Err(e) ==> (e matches AppError::NotFound(m) && m@ == gone_text()),
{
    let ghost orig = devices@;
    let mut kept: Vec<SavedDevice> = Vec::new();
    let mut found = false;
    let n = devices.len();
    let mut taken: Vec<SavedDevice> = Vec::new();
    std::mem::swap(&mut taken, devices);
    let mut i: usize = 0;
    while i < n
        invariant
            i <= n,
            n == orig.len(),
            taken@ == orig,
            devices@.len() == 0,
            kept@ == without_uuid(orig.take(i as int), uuid@),
            found == exists|j: int| 0 <= j < i && #[trigger] orig[j].uuid@ == uuid@,
        decreases n - i,
    {
        assert(orig.take(i + 1).drop_last() =~= orig.take(i as int));
        if same_text(taken[i].uuid.as_str(), uuid) {
            found = true;
        } else {
            kept.push(taken[i].clone());
        }
        i = i + 1;
    }
    assert(orig.take(n as int) =~= orig);
    *devices = kept;
    if found {
        Ok(())
    } else {
        Err(gone())
    }
}

/// An alias as stored: trimmed, and blank means none.
pub open spec fn alias_text(alias: Option<Seq<char>>) -> Option<Seq<char>> {
    match alias {
        Some(a) => if trim(a).len() > 0 {
            Some(trim(a))
        } else {
            None
        },
        None => None,
    }
}

/// Normalise a requested alias.
pub fn normalize_alias(alias: Option<String>) -> (r: Option<String>)
    ensures
        opt_view(r) == alias_text(opt_view(alias)),
{
    match alias {
        Some(a) => {
            let t = trimmed(a.as_str());
            if t.as_str().unicode_len() > 0 {
                Some(t)
            } else {
                None
            }
        },
        None => None,
    }
}

/// The name pushed to the device on a rename: there must be one.
pub fn name_to_push(alias: &Option<String>) -> (r: Result<String, AppError>)
    ensures
        match alias {
            Some(a) => r matches Ok(n) && n@ == a@,
            None => r matches Err(AppError::InvalidInput(m)) && m@
                == "Enter a name before pushing it to the device."@,
        },
{
    match alias {
        Some(a) => Ok(a.clone()),
        None => Err(AppError::InvalidInput(owned("Enter a name before pushing it to the device."))),
    }
}

} // verus!
