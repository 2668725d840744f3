//! Typed parses of Luci payloads, the DDMS discovery banner, and the app-facing
//! `DeviceSnapshot`.
//!
//! Everything here is tolerant: Luci scalars are bare ASCII (`"30"`,
//! `"UNMUTE"`), and the DDMS banner is CRLF `KEY:VALUE` text — an unexpected
//! field is ignored, never fatal.

use serde_json::Value;
use vstd::prelude::*;
use vstd::string::*;
use vstd::slice::*;

use crate::text::{
    chars_of, dec_signed, eq_ignore_ascii_case, eq_ignore_case, find_char, find_in,
    lemma_find_in_bounds, owned, same_text,
    parse_signed, parse_trimmed_signed, parse_trimmed_unsigned, parse_unsigned,
    parse_unsigned_chars, push_dec_signed, starts_with, str_starts_with, string_of_range, to_upper,
    trim, trim_range, trimmed, upper_seq, upper_string_of_range,
};

verus! {

// ------------------------------------------------------------- DevInfo --

/// `DevInfo(92)` — device identity, MACs and firmware. The `eth0`/`wlan0` split
/// is the wired-vs-Wi-Fi signal the UI surfaces.
#[derive(Debug, Default, PartialEq, Eq)]
pub struct DevInfo {
    pub macaddress: MacAddresses,
    pub serialnumber: SerialNumber,
    pub versioninfo: VersionInfo,
}

#[derive(Debug, Default, PartialEq, Eq)]
pub struct MacAddresses {
    pub bt: String,
    pub eth0: String,
    pub wlan0: String,
}

#[derive(Debug, Default, PartialEq, Eq)]
pub struct SerialNumber {
    pub device_serialnumber: String,
}

#[derive(Debug, Default, PartialEq, Eq)]
pub struct VersionInfo {
    pub devicefwversion: String,
    pub mcuversion: String,
}

impl Clone for DevInfo {
    fn clone(&self) -> (r: Self)
        ensures
            r == *self,
    {
        DevInfo {
            macaddress: self.macaddress.clone(),
            serialnumber: self.serialnumber.clone(),
            versioninfo: self.versioninfo.clone(),
        }
    }
}

impl Clone for MacAddresses {
    fn clone(&self) -> (r: Self)
        ensures
            r == *self,
    {
        MacAddresses {
            bt: self.bt.clone(),
            eth0: self.eth0.clone(),
            wlan0: self.wlan0.clone(),
        }
    }
}

impl Clone for SerialNumber {
    fn clone(&self) -> (r: Self)
        ensures
            r == *self,
    {
        SerialNumber {
            device_serialnumber: self.device_serialnumber.clone(),
        }
    }
}

impl Clone for VersionInfo {
    fn clone(&self) -> (r: Self)
        ensures
            r == *self,
    {
        VersionInfo {
            devicefwversion: self.devicefwversion.clone(),
            mcuversion: self.mcuversion.clone(),
        }
    }
}

// ------------------------------------------------------ scalar helpers --

/// `VOLUME(64)` → 0..=100: the trimmed decimal payload, when it is a volume
/// in that range.
pub fn parse_volume(payload: &str) -> (r: Option<u8>)
    ensures
        match parse_unsigned(trim(payload@), 100) {
            Some(v) => r == Some(v as u8),
            None => r is None,
        },
        r matches Some(v) ==> v <= 100,
{
    match parse_trimmed_unsigned(payload, 100) {
        Some(v) => Some(v as u8),
        None => None,
    }
}

pub open spec fn mute_word() -> Seq<char> {
    seq!['M', 'U', 'T', 'E']
}

/// `Mute_Unmute(63)` → `"MUTE"` (any case) = true, anything else = false.
pub fn parse_mute(payload: &str) -> (r: bool)
    ensures
        r == eq_ignore_case(trim(payload@), mute_word()),
{
    let t = trimmed(payload);
    let w = "MUTE";
    proof {
        reveal_strlit("MUTE");
    }
    assert(w@ =~= mute_word());
    eq_ignore_ascii_case(t.as_str(), w)
}

/// `PLAY_STATE(51)` → the raw integer (`0` = stopped, `1` = playing, …).
pub fn parse_play_state(payload: &str) -> (r: Option<i32>)
    ensures
        match r {
            Some(v) => parse_signed(trim(payload@), i32::MIN as int, i32::MAX as int) == Some(
                v as int,
            ),
            None => parse_signed(trim(payload@), i32::MIN as int, i32::MAX as int) is None,
        },
{
    match parse_trimmed_signed(payload, i32::MIN as i64, i32::MAX as i64) {
        Some(v) => Some(v as i32),
        None => None,
    }
}

/// `CURRSOURCE(50)` → the raw source integer.
pub fn parse_source(payload: &str) -> (r: Option<i32>)
    ensures
        match r {
            Some(v) => parse_signed(trim(payload@), i32::MIN as int, i32::MAX as int) == Some(
                v as int,
            ),
            None => parse_signed(trim(payload@), i32::MIN as int, i32::MAX as int) is None,
        },
{
    parse_play_state(payload)
}

/// The label for a `CURRSOURCE`/`PlayBackSource` code: `0` is idle, `4` an
/// active stream, anything else `"Source N"`.
pub open spec fn source_label_spec(source: int) -> Seq<char> {
    if source == 0 {
        seq!['I', 'd', 'l', 'e']
    } else if source == 4 {
        seq!['S', 't', 'r', 'e', 'a', 'm', 'i', 'n', 'g']
    } else {
        seq!['S', 'o', 'u', 'r', 'c', 'e', ' '] + dec_signed(source)
    }
}

/// `CURRSOURCE(50)`/`PlayBackSource(10)` integer → a human label. Only `0`
/// (idle) and `4` (an active stream) are field-verified; every other code
/// degrades to `"Source N"` rather than guessing.
pub fn source_label(source: i32) -> (r: String)
    ensures
        r@ == source_label_spec(source as int),
{
    if source == 0 {
        let r = owned("Idle");
        proof {
            reveal_strlit("Idle");
        }
        assert(r@ =~= source_label_spec(0));
        r
    } else if source == 4 {
        let r = owned("Streaming");
        proof {
            reveal_strlit("Streaming");
        }
        assert(r@ =~= source_label_spec(4));
        r
    } else {
        let mut r = owned("Source ");
        proof {
            reveal_strlit("Source ");
        }
        push_dec_signed(&mut r, source as i64);
        assert(r@ =~= source_label_spec(source as int));
        r
    }
}

/// Whether transport controls can act on a source: `0` (idle) is not, every
/// other code is.
pub fn source_controllable(source: i32) -> (r: bool)
    ensures
        r == (source != 0),
{
    source != 0
}

// --------------------------------------------------------- DDMS banner --

/// An association list of `(KEY, value)` text, keys distinct.
pub type Entries = Seq<(Seq<char>, Seq<char>)>;

/// Position of `key` in `m`, or `m.len()` when absent.
pub open spec fn entry_index<V>(m: Seq<(Seq<char>, V)>, key: Seq<char>) -> int
    decreases m.len(),
{
    if m.len() == 0 {
        0
    } else {
        let j = entry_index(m.drop_last(), key);
        if j < m.len() - 1 {
            j
        } else if m.last().0 == key {
            m.len() - 1
        } else {
            m.len() as int
        }
    }
}

/// The value stored under `key`.
pub open spec fn entry_get<V>(m: Seq<(Seq<char>, V)>, key: Seq<char>) -> Option<V> {
    if entry_index(m, key) < m.len() {
        Some(m[entry_index(m, key)].1)
    } else {
        None
    }
}

/// Map insertion on an association list: replace the value under an existing
/// key, else append.
pub open spec fn entry_put<V>(m: Seq<(Seq<char>, V)>, key: Seq<char>, value: V) -> Seq<(Seq<char>, V)> {
    if entry_index(m, key) < m.len() {
        m.update(entry_index(m, key), (key, value))
    } else {
        m.push((key, value))
    }
}

/// The entry one banner line contributes: the text before the first `:`,
/// trimmed and uppercased, as key; the rest, trimmed, as value. Lines with no
/// colon or an empty key contribute nothing.
pub open spec fn line_entry(text: Seq<char>, from: int, to: int) -> Option<(Seq<char>, Seq<char>)> {
    let c = find_in(text, ':', from, to);
    if c < to {
        let key = upper_seq(trim(text.subrange(from, c)));
        let value = trim(text.subrange(c + 1, to));
        if key.len() > 0 {
            Some((key, value))
        } else {
            None
        }
    } else {
        None
    }
}

/// The entries of a banner, reading lines from position `pos` on into `m`.
/// Lines end at `\n`; a `\r` before it is whitespace the trimming removes.
pub open spec fn banner_from(text: Seq<char>, pos: int, m: Entries) -> Entries
    decreases text.len() - pos,
{
    if pos < 0 || pos > text.len() {
        m
    } else {
        let e = find_in(text, '\n', pos, text.len() as int);
        proof {
            lemma_find_in_bounds(text, '\n', pos, text.len() as int);
        }
        let m2 = match line_entry(text, pos, e) {
            Some((k, v)) => entry_put(m, k, v),
            None => m,
        };
        if e >= text.len() {
            m2
        } else {
            banner_from(text, e + 1, m2)
        }
    }
}

/// The entries of a whole banner.
pub open spec fn banner_entries(text: Seq<char>) -> Entries {
    banner_from(text, 0, Seq::empty())
}

/// What a lookup by (case-insensitive) key answers: the value when present
/// and not empty.
pub open spec fn banner_lookup(m: Entries, key: Seq<char>) -> Option<Seq<char>> {
    match entry_get(m, upper_seq(key)) {
        Some(v) => if v.len() > 0 {
            Some(v)
        } else {
            None
        },
        None => None,
    }
}

/// A parsed DDMS M-SEARCH banner (CRLF `KEY:VALUE` lines). Keys are uppercased
/// so lookups are case-insensitive; the raw fields are kept for the debug pane.
#[derive(Debug, Clone, Default, PartialEq, Eq)]
pub struct DdmsBanner {
    /// `(KEY, value)` pairs; no key occurs twice.
    pub fields: Vec<(String, String)>,
}

/// Wired vs Wi-Fi.
#[derive(Debug, Clone, Copy, PartialEq, Eq, Structural)]
pub enum NetMode {
    Ethernet,
    Wifi,
}

/// Group role.
#[derive(Debug, Clone, Copy, PartialEq, Eq, Structural)]
pub enum Role {
    Solo,
    Master,
    Slave,
}

/// `NETMODE` → `ETH0`/`ETH` (any case) is wired, `WLAN…`/`WIFI` is Wi-Fi.
pub open spec fn net_mode_of(v: Option<Seq<char>>) -> Option<NetMode> {
    match v {
        Some(m) => if eq_ignore_case(m, seq!['E', 'T', 'H', '0']) || eq_ignore_case(
            m,
            seq!['E', 'T', 'H'],
        ) {
            Some(NetMode::Ethernet)
        } else if starts_with(upper_seq(m), seq!['W', 'L', 'A', 'N']) || eq_ignore_case(
            m,
            seq!['W', 'I', 'F', 'I'],
        ) {
            Some(NetMode::Wifi)
        } else {
            None
        },
        None => None,
    }
}

/// Group role from the `State` field: absent, empty or `S` is standalone, a
/// leading `M` master, anything else slave.
pub open spec fn role_of(state: Option<Seq<char>>) -> Role {
    match state {
        None => Role::Solo,
        Some(s) => {
            let u = upper_seq(trim(s));
            if u.len() == 0 || u == seq!['S'] {
                Role::Solo
            } else if u[0] == 'M' {
                Role::Master
            } else {
                Role::Slave
            }
        },
    }
}

impl DdmsBanner {
    /// The fields as text.
    pub open spec fn entries(&self) -> Entries {
        self.fields@.map_values(|p: (String, String)| (p.0@, p.1@))
    }

    /// The value under `key` (any case), when present and not empty.
    pub open spec fn lookup(&self, key: Seq<char>) -> Option<Seq<char>> {
        banner_lookup(self.entries(), key)
    }

    fn index_of(&self, key: &String) -> (r: usize)
        ensures
            r == entry_index(self.entries(), key@),
    {
        let ghost m = self.entries();
        let n = self.fields.len();
        let mut i: usize = 0;
        while i < n
            invariant
                i <= n,
                n == self.fields@.len(),
                m == self.entries(),
                entry_index(m.subrange(0, i as int), key@) == i,
            decreases n - i,
        {
            proof {
                assert(m.subrange(0, i + 1).drop_last() =~= m.subrange(0, i as int));
            }
            if self.fields[i].0 == *key {
                proof {
                    lemma_entry_index_found(m, key@, i as int);
                }
                return i;
            }
            i = i + 1;
        }
        assert(m.subrange(0, n as int) =~= m);
        n
    }

    /// Map insertion: the value replaces an existing one under the same key.
    fn put(&mut self, key: String, value: String)
        ensures
            final(self).entries() == entry_put(old(self).entries(), key@, value@),
    {
        let i = self.index_of(&key);
        let ghost k = key@;
        let ghost v = value@;
        if i < self.fields.len() {
            self.fields.set(i, (key, value));
            assert(self.entries() =~= entry_put(old(self).entries(), k, v));
        } else {
            self.fields.push((key, value));
            assert(self.entries() =~= entry_put(old(self).entries(), k, v));
        }
    }

    /// Parse a banner. Lines without a colon (the `HTTP/1.1 200 OK` status
    /// line, blank lines) are skipped; a repeated key keeps its last value.
    pub fn parse(text: &str) -> (b: DdmsBanner)
        ensures
            b.entries() == banner_entries(text@),
    {
        let cs = chars_of(text);
        let n = cs.len();
        let mut b = DdmsBanner { fields: Vec::new() };
        assert(b.entries() =~= Seq::<(Seq<char>, Seq<char>)>::empty());
        let mut pos: usize = 0;
        loop
            invariant
                pos <= n,
                n == cs@.len(),
                cs@ == text@,
                banner_entries(text@) == banner_from(text@, pos as int, b.entries()),
            decreases n - pos,
        {
            let e = find_char(cs.as_slice(), '\n', pos, n);
            let c = find_char(cs.as_slice(), ':', pos, e);
            proof {
                lemma_find_in_bounds(cs@, ':', pos as int, e as int);
            }
            let ghost before = b.entries();
            if c < e {
                let (ka, kb) = trim_range(cs.as_slice(), pos, c);
                let key = upper_string_of_range(cs.as_slice(), ka, kb);
                let (va, vb) = trim_range(cs.as_slice(), c + 1, e);
                let value = string_of_range(cs.as_slice(), va, vb);
                if key.as_str().unicode_len() > 0 {
                    b.put(key, value);
                }
            }
            assert(b.entries() == match line_entry(text@, pos as int, e as int) {
                Some((k, v)) => entry_put(before, k, v),
                None => before,
            });
            if e >= n {
                return b;
            }
            pos = e + 1;
        }
    }

    /// The value under `key` (case-insensitive), when present and not empty.
    pub fn get(&self, key: &str) -> (r: Option<&str>)
        ensures
            match r {
                Some(v) => self.lookup(key@) == Some(v@),
                None => self.lookup(key@) is None,
            },
    {
        let k = to_upper(key);
        let i = self.index_of(&k);
        if i < self.fields.len() {
            let v = self.fields[i].1.as_str();
            if v.unicode_len() > 0 {
                Some(v)
            } else {
                None
            }
        } else {
            None
        }
    }

    pub fn device_name(&self) -> (r: Option<&str>)
        ensures
            match r {
                Some(v) => self.lookup("DEVICENAME"@) == Some(v@),
                None => self.lookup("DEVICENAME"@) is None,
            },
    {
        self.get("DEVICENAME")
    }

    pub fn state(&self) -> (r: Option<&str>)
        ensures
            match r {
                Some(v) => self.lookup("STATE"@) == Some(v@),
                None => self.lookup("STATE"@) is None,
            },
    {
        self.get("STATE")
    }

    pub fn usn(&self) -> (r: Option<&str>)
        ensures
            match r {
                Some(v) => self.lookup("USN"@) == Some(v@),
                None => self.lookup("USN"@) is None,
            },
    {
        self.get("USN")
    }

    /// `PORT` as a number.
    pub fn port(&self) -> (r: Option<u16>)
        ensures
            match self.lookup("PORT"@) {
                Some(p) => match parse_unsigned(p, 65535) {
                    Some(v) => r == Some(v as u16),
                    None => r is None,
                },
                None => r is None,
            },
    {
        match self.get("PORT") {
            Some(p) => {
                let cs = chars_of(p);
                match parse_unsigned_chars(cs.as_slice(), 65535) {
                    Some(v) => Some(v as u16),
                    None => None,
                }
            },
            None => None,
        }
    }

    pub fn firmware(&self) -> (r: Option<&str>)
        ensures
            match r {
                Some(v) => self.lookup("FWVERSION"@) == Some(v@),
                None => self.lookup("FWVERSION"@) is None,
            },
    {
        self.get("FWVERSION")
    }

    pub fn model(&self) -> (r: Option<&str>)
        ensures
            match r {
                Some(v) => self.lookup("CAST_MODEL"@) == Some(v@),
                None => self.lookup("CAST_MODEL"@) is None,
            },
    {
        self.get("CAST_MODEL")
    }

    /// `NETMODE` → the app's wired / Wi-Fi distinction.
    pub fn net_mode(&self) -> (r: Option<NetMode>)
        ensures
            r == net_mode_of(self.lookup("NETMODE"@)),
    {
        proof {
            reveal_strlit("ETH0");
            reveal_strlit("ETH");
            reveal_strlit("WLAN");
            reveal_strlit("WIFI");
        }
        let e0 = "ETH0";
        let e1 = "ETH";
        let w0 = "WLAN";
        let w1 = "WIFI";
        assert(e0@ =~= seq!['E', 'T', 'H', '0']);
        assert(e1@ =~= seq!['E', 'T', 'H']);
        assert(w0@ =~= seq!['W', 'L', 'A', 'N']);
        assert(w1@ =~= seq!['W', 'I', 'F', 'I']);
        match self.get("NETMODE") {
            Some(m) => {
                if eq_ignore_ascii_case(m, e0) || eq_ignore_ascii_case(m, e1) {
                    Some(NetMode::Ethernet)
                } else {
                    let up = to_upper(m);
                    if str_starts_with(up.as_str(), w0) || eq_ignore_ascii_case(m, w1) {
                        Some(NetMode::Wifi)
                    } else {
                        None
                    }
                }
            },
            None => None,
        }
    }

    /// `WIFIBAND` (`ETH` | `2G` | `5G`), verbatim.
    pub fn wifi_band(&self) -> (r: Option<&str>)
        ensures
            match r {
                Some(v) => self.lookup("WIFIBAND"@) == Some(v@),
                None => self.lookup("WIFIBAND"@) is None,
            },
    {
        self.get("WIFIBAND")
    }

    /// Best-effort group role from the `State` field. `S`/empty = standalone;
    /// a leading `M` reads as master; anything else as slave.
    pub fn role(&self) -> (r: Role)
        ensures
            r == role_of(self.lookup("STATE"@)),
    {
        match self.state() {
            None => Role::Solo,
            Some(s) => {
                let t = trimmed(s);
                let u = to_upper(t.as_str());
                let cs = chars_of(u.as_str());
                if cs.len() == 0 || (cs.len() == 1 && cs[0] == 'S') {
                    assert(cs.len() == 1 && cs[0] == 'S' ==> cs@ =~= seq!['S']);
                    Role::Solo
                } else if cs[0] == 'M' {
                    Role::Master
                } else {
                    assert(cs@ != seq!['S']);
                    Role::Slave
                }
            },
        }
    }
}

pub proof fn lemma_entry_index_found<V>(m: Seq<(Seq<char>, V)>, key: Seq<char>, i: int)
    requires
        0 <= i < m.len(),
        m[i].0 == key,
        entry_index(m.subrange(0, i), key) == i,
    ensures
        entry_index(m, key) == i,
    decreases m.len() - i,
{
    if i + 1 < m.len() {
        assert(m.drop_last().subrange(0, i) =~= m.subrange(0, i));
        lemma_entry_index_found(m.drop_last(), key, i);
    } else {
        assert(m.drop_last() =~= m.subrange(0, i));
    }
}

// ------------------------------------------------------------ app models --

/// Now-playing metadata (best-effort from `TRACK_INFO`/`GETPLAYDURATION`).
#[derive(Debug, Default, PartialEq, Eq)]
pub struct Track {
    pub title: String,
    pub artist: String,
    pub album: String,
    /// Total length in ms, when known.
    pub duration_ms: Option<u64>,
    /// Current position in ms (from `GETPLAYDURATION` pushes), when known.
    pub position_ms: Option<u64>,
}

/// One scalar of a JSON object, as far as track metadata reads it.
#[derive(Debug, Clone)]
pub enum JsonScalar {
    /// A JSON string.
    Str(String),
    /// A JSON number: its value when it is a non-negative integer that fits
    /// `u64`.
    Num(Option<u64>),
    /// Anything else (null, bool, array, object).
    Other,
}

/// A JSON scalar in plain values.
pub ghost enum JsonScalarView {
    Str(Seq<char>),
    Num(Option<u64>),
    Other,
}

pub open spec fn scalar_view(v: JsonScalar) -> JsonScalarView {
    match v {
        JsonScalar::Str(s) => JsonScalarView::Str(s@),
        JsonScalar::Num(n) => JsonScalarView::Num(n),
        JsonScalar::Other => JsonScalarView::Other,
    }
}

/// A JSON object's fields in plain values.
pub open spec fn fields_view(fields: Seq<(String, JsonScalar)>) -> Seq<(Seq<char>, JsonScalarView)> {
    fields.map_values(|f: (String, JsonScalar)| (f.0@, scalar_view(f.1)))
}

/// The value under `key` in a JSON object's fields (the first one, should a
/// key occur twice).
pub open spec fn json_get(fields: Seq<(Seq<char>, JsonScalarView)>, key: Seq<char>) -> Option<JsonScalarView>
    decreases fields.len(),
{
    if fields.len() == 0 {
        None
    } else if fields[0].0 == key {
        Some(fields[0].1)
    } else {
        json_get(fields.drop_first(), key)
    }
}

/// The first of `keys` whose value is a string with visible text, trimmed.
pub open spec fn pick_text(fields: Seq<(Seq<char>, JsonScalarView)>, keys: Seq<Seq<char>>) -> Seq<char>
    decreases keys.len(),
{
    if keys.len() == 0 {
        Seq::empty()
    } else {
        match json_get(fields, keys[0]) {
            Some(JsonScalarView::Str(s)) => if trim(s).len() > 0 {
                trim(s)
            } else {
                pick_text(fields, keys.drop_first())
            },
            _ => pick_text(fields, keys.drop_first()),
        }
    }
}

/// The first of `keys` that holds a number (taken as is, even when it is not
/// a `u64`) or a string that parses as one.
pub open spec fn pick_duration(fields: Seq<(Seq<char>, JsonScalarView)>, keys: Seq<Seq<char>>) -> Option<u64>
    decreases keys.len(),
{
    if keys.len() == 0 {
        None
    } else {
        match json_get(fields, keys[0]) {
            Some(JsonScalarView::Num(n)) => n,
            Some(JsonScalarView::Str(s)) => match parse_unsigned(trim(s), u64::MAX as nat) {
                Some(v) => Some(v as u64),
                None => pick_duration(fields, keys.drop_first()),
            },
            _ => pick_duration(fields, keys.drop_first()),
        }
    }
}

pub open spec fn title_keys() -> Seq<Seq<char>> {
    seq!["title"@, "Title"@, "TITLE"@, "trackName"@]
}

pub open spec fn artist_keys() -> Seq<Seq<char>> {
    seq!["artist"@, "Artist"@, "ARTIST"@, "artistName"@]
}

pub open spec fn album_keys() -> Seq<Seq<char>> {
    seq!["album"@, "Album"@, "ALBUM"@, "albumName"@]
}

pub open spec fn duration_keys() -> Seq<Seq<char>> {
    seq!["duration"@, "totlen"@, "totalTime"@, "durationMs"@]
}

fn json_lookup<'a>(fields: &'a [(String, JsonScalar)], key: &str) -> (r: Option<&'a JsonScalar>)
    ensures
        match r {
            Some(v) => json_get(fields_view(fields@), key@) == Some(scalar_view(*v)),
            None => json_get(fields_view(fields@), key@) is None,
        },
{
    let n = fields.len();
    let mut i: usize = 0;
    assert(fields@.subrange(0, n as int) =~= fields@);
    while i < n
        invariant
            i <= n,
            n == fields@.len(),
            json_get(fields_view(fields@), key@) == json_get(
                fields_view(fields@.subrange(i as int, n as int)),
                key@,
            ),
        decreases n - i,
    {
        assert(fields_view(fields@.subrange(i as int, n as int)).drop_first() =~= fields_view(
            fields@.subrange(i + 1, n as int),
        ));
        assert(fields_view(fields@.subrange(i as int, n as int))[0] == (
            fields@[i as int].0@,
            scalar_view(fields@[i as int].1),
        ));
        if same_text(fields[i].0.as_str(), key) {
            return Some(&fields[i].1);
        }
        i = i + 1;
    }
    None
}

fn pick_text_exec(fields: &[(String, JsonScalar)], keys: &[&str]) -> (r: String)
    ensures
        r@ == pick_text(fields_view(fields@), keys@.map_values(|k: &str| k@)),
{
    let ghost ks = keys@.map_values(|k: &str| k@);
    let mut i: usize = 0;
    assert(ks.subrange(0, ks.len() as int) =~= ks);
    while i < keys.len()
        invariant
            i <= keys@.len(),
            ks == keys@.map_values(|k: &str| k@),
            pick_text(fields_view(fields@), ks) == pick_text(
                fields_view(fields@),
                ks.subrange(i as int, ks.len() as int),
            ),
        decreases keys.len() - i,
    {
        let ghost rest = ks.subrange(i as int, ks.len() as int);
        assert(rest[0] == keys@[i as int]@);
        assert(rest.drop_first() =~= ks.subrange(i + 1, ks.len() as int));
        match json_lookup(fields, keys[i]) {
            Some(JsonScalar::Str(s)) => {
                let t = trimmed(s.as_str());
                if t.as_str().unicode_len() > 0 {
                    return t;
                }
            },
            _ => {},
        }
        i = i + 1;
    }
    assert(ks.subrange(i as int, ks.len() as int) =~= Seq::<Seq<char>>::empty());
    String::new()
}

fn pick_duration_exec(fields: &[(String, JsonScalar)], keys: &[&str]) -> (r: Option<u64>)
    ensures
        r == pick_duration(fields_view(fields@), keys@.map_values(|k: &str| k@)),
{
    let ghost ks = keys@.map_values(|k: &str| k@);
    let mut i: usize = 0;
    assert(ks.subrange(0, ks.len() as int) =~= ks);
    while i < keys.len()
        invariant
            i <= keys@.len(),
            ks == keys@.map_values(|k: &str| k@),
            pick_duration(fields_view(fields@), ks) == pick_duration(
                fields_view(fields@),
                ks.subrange(i as int, ks.len() as int),
            ),
        decreases keys.len() - i,
    {
        let ghost rest = ks.subrange(i as int, ks.len() as int);
        assert(rest[0] == keys@[i as int]@);
        assert(rest.drop_first() =~= ks.subrange(i + 1, ks.len() as int));
        match json_lookup(fields, keys[i]) {
            Some(JsonScalar::Num(n)) => {
                return *n;
            },
            Some(JsonScalar::Str(s)) => {
                match parse_trimmed_unsigned(s.as_str(), u64::MAX) {
                    Some(v) => {
                        return Some(v);
                    },
                    None => {},
                }
            },
            _ => {},
        }
        i = i + 1;
    }
    None
}

impl Clone for Track {
    fn clone(&self) -> (r: Self)
        ensures
            r == *self,
    {
        Track {
            title: self.title.clone(),
            artist: self.artist.clone(),
            album: self.album.clone(),
            duration_ms: self.duration_ms,
            position_ms: self.position_ms,
        }
    }
}

impl Track {
    /// True when there is nothing worth showing.
    pub fn is_empty(&self) -> (r: bool)
        ensures
            r == (self.title@.len() == 0 && self.artist@.len() == 0 && self.album@.len() == 0
                && self.duration_ms is None && self.position_ms is None),
    {
        self.title.as_str().unicode_len() == 0 && self.artist.as_str().unicode_len() == 0
            && self.album.as_str().unicode_len() == 0 && self.duration_ms.is_none()
            && self.position_ms.is_none()
    }

    /// The `TRACK_INFO(44)` fields read out of a JSON object: the first
    /// non-blank string among each name's usual spellings, and the first
    /// duration-like value.
    pub fn from_json_fields(fields: &[(String, JsonScalar)]) -> (t: Track)
        ensures
            t.title@ == pick_text(fields_view(fields@), title_keys()),
            t.artist@ == pick_text(fields_view(fields@), artist_keys()),
            t.album@ == pick_text(fields_view(fields@), album_keys()),
            t.duration_ms == pick_duration(fields_view(fields@), duration_keys()),
            t.position_ms is None,
    {
        let tk: [&str; 4] = ["title", "Title", "TITLE", "trackName"];
        let ak: [&str; 4] = ["artist", "Artist", "ARTIST", "artistName"];
        let bk: [&str; 4] = ["album", "Album", "ALBUM", "albumName"];
        let dk: [&str; 4] = ["duration", "totlen", "totalTime", "durationMs"];
        assert(tk@.map_values(|k: &str| k@) =~= title_keys());
        assert(ak@.map_values(|k: &str| k@) =~= artist_keys());
        assert(bk@.map_values(|k: &str| k@) =~= album_keys());
        assert(dk@.map_values(|k: &str| k@) =~= duration_keys());
        Track {
            title: pick_text_exec(fields, &tk),
            artist: pick_text_exec(fields, &ak),
            album: pick_text_exec(fields, &bk),
            duration_ms: pick_duration_exec(fields, &dk),
            position_ms: None,
        }
    }

    /// Parse the `TRACK_INFO(44)` payload: the schema is firmware-specific,
    /// so a JSON object's usual field spellings are read and the rest
    /// ignored; anything that is not a JSON object gives the empty track.
    pub fn parse_track_info(payload: &str) -> (t: Track)
        ensures
            match json_object_fields(trim(payload@)) {
                Some(f) => {
                    &&& t.title@ == pick_text(f, title_keys())
                    &&& t.artist@ == pick_text(f, artist_keys())
                    &&& t.album@ == pick_text(f, album_keys())
                    &&& t.duration_ms == pick_duration(f, duration_keys())
                },
                None => {
                    &&& t.title@.len() == 0
                    &&& t.artist@.len() == 0
                    &&& t.album@.len() == 0
                    &&& t.duration_ms is None
                },
            },
            t.position_ms is None,
    {
        let text = trimmed(payload);
        match parse_json_object(text.as_str()) {
            Some(fields) => Track::from_json_fields(fields.as_slice()),
            None => Track {
                title: String::new(),
                artist: String::new(),
                album: String::new(),
                duration_ms: None,
                position_ms: None,
            },
        }
    }
}

/// What `serde_json` reads from a text when it is a JSON object: its members
/// as (key, scalar) pairs; nothing for any other text.
pub uninterp spec fn json_object_fields(text: Seq<char>) -> Option<Seq<(Seq<char>, JsonScalarView)>>;

/// `serde_json::from_str::<Value>`, kept when it yields an object, whose
/// members are converted one for one: a string as `Str`, a number by
/// `as_u64` as `Num`, any other value as `Other`. serde_json's grammar takes
/// pages, so the result is named; it depends on the text alone.
#[verifier::external_body]
fn parse_json_object(text: &str) -> (r: Option<Vec<(String, JsonScalar)>>)
    ensures
        match r {
            Some(f) => json_object_fields(text@) == Some(fields_view(f@)),
            None => json_object_fields(text@) is None,
        },
{
    match serde_json::from_str::<Value>(text) {
        Ok(Value::Object(map)) => Some(
            map.into_iter().map(|(k, v)| (k, match v {
                Value::String(s) => JsonScalar::Str(s),
                Value::Number(n) => JsonScalar::Num(n.as_u64()),
                Value::Null | Value::Bool(_) | Value::Array(_) | Value::Object(_) => JsonScalar::Other,
            })).collect(),
        ),
        Ok(_) | Err(_) => None,
    }
}

/// A raw payload kept verbatim for the debug pane.
#[derive(Debug, PartialEq, Eq)]
pub enum RawValue {
    /// A text payload, shown as a JSON string.
    Text(String),
    /// A value already rendered as JSON text.
    Json(String),
    /// The device's `DevInfo`.
    DevInfo(DevInfo),
}

impl Clone for RawValue {
    fn clone(&self) -> (r: Self)
        ensures
            r == *self,
    {
        match self {
            RawValue::Text(t) => RawValue::Text(t.clone()),
            RawValue::Json(j) => RawValue::Json(j.clone()),
            RawValue::DevInfo(d) => RawValue::DevInfo(d.clone()),
        }
    }
}

/// The view of an optional text.
pub open spec fn opt_view(o: Option<String>) -> Option<Seq<char>> {
    match o {
        Some(s) => Some(s@),
        None => None,
    }
}

/// What the UI prints: the alias, else the device name, else the IP (alias
/// and name trimmed; a blank one does not count).
pub open spec fn display_name_spec(alias: Option<Seq<char>>, device_name: Seq<char>, ip: Seq<char>) -> Seq<char> {
    let a = match alias {
        Some(a) => trim(a),
        None => Seq::empty(),
    };
    if a.len() > 0 {
        a
    } else if trim(device_name).len() > 0 {
        trim(device_name)
    } else {
        ip
    }
}

/// What the UI prints: alias, else device name, else IP.
pub fn display_name(alias: Option<&str>, device_name: &str, ip: &str) -> (r: String)
    ensures
        r@ == display_name_spec(
            match alias {
                Some(a) => Some(a@),
                None => None,
            },
            device_name@,
            ip@,
        ),
{
    if let Some(a) = alias {
        let t = trimmed(a);
        if t.as_str().unicode_len() > 0 {
            return t;
        }
    }
    let n = trimmed(device_name);
    if n.as_str().unicode_len() > 0 {
        n
    } else {
        owned(ip)
    }
}

pub(crate) fn display_name_of(alias: &Option<String>, device_name: &str, ip: &str) -> (r: String)
    ensures
        r@ == display_name_spec(opt_view(*alias), device_name@, ip@),
{
    match alias {
        Some(a) => display_name(Some(a.as_str()), device_name, ip),
        None => display_name(None, device_name, ip),
    }
}

/// The per-device state the frontend renders and the poller diffs.
#[derive(Debug, Clone, PartialEq, Eq)]
pub struct DeviceSnapshot {
    pub uuid: String,
    pub ip: String,
    /// Name reported by the device (DDMS `DeviceName` / `DevName`).
    pub name: String,
    /// Local override; `None` = use the device's own name.
    pub alias: Option<String>,
    /// Alias, else device name, else IP — what the UI prints.
    pub display_name: String,
    pub online: bool,
    /// Wired or Wi-Fi, when known.
    pub net_mode: Option<NetMode>,
    /// `ETH` | `2G` | `5G`, verbatim.
    pub wifi_band: Option<String>,
    pub model: String,
    pub firmware: String,
    pub role: Role,
    /// DDMS zone id, when grouped.
    pub group_id: Option<String>,
    /// The master this device follows, when a slave.
    pub master_uuid: Option<String>,
    pub volume: Option<u8>,
    pub mute: bool,
    /// Raw `CURRSOURCE` integer.
    pub source: Option<i32>,
    /// Human label for `source`.
    pub source_label: Option<String>,
    /// Raw `PLAY_STATE` integer.
    pub play_state: Option<i32>,
    pub track: Option<Track>,
    /// Unix ms of the last successful contact.
    pub last_seen: Option<i64>,
    /// Verbatim raw payloads by name, for the debug pane (names distinct).
    pub raw: Vec<(String, RawValue)>,
}

impl DeviceSnapshot {
    /// The offline placeholder for a saved device not reached yet.
    pub fn offline(uuid: &str, ip: &str, alias: Option<String>, last_seen: Option<i64>) -> (r: Self)
        ensures
            r.uuid@ == uuid@,
            r.ip@ == ip@,
            r.name@ == Seq::<char>::empty(),
            r.alias == alias,
            r.display_name@ == display_name_spec(opt_view(alias), Seq::empty(), ip@),
            !r.online,
            r.net_mode is None,
            r.wifi_band is None,
            r.model@ == Seq::<char>::empty(),
            r.firmware@ == Seq::<char>::empty(),
            r.role == Role::Solo,
            r.group_id is None,
            r.master_uuid is None,
            r.volume is None,
            !r.mute,
            r.source is None,
            r.source_label is None,
            r.play_state is None,
            r.track is None,
            r.last_seen == last_seen,
            r.raw@.len() == 0,
    {
        let display = display_name_of(&alias, "", ip);
        proof {
            reveal_strlit("");
        }
        DeviceSnapshot {
            uuid: owned(uuid),
            ip: owned(ip),
            name: String::new(),
            alias,
            display_name: display,
            online: false,
            net_mode: None,
            wifi_band: None,
            model: String::new(),
            firmware: String::new(),
            role: Role::Solo,
            group_id: None,
            master_uuid: None,
            volume: None,
            mute: false,
            source: None,
            source_label: None,
            play_state: None,
            track: None,
            last_seen,
            raw: Vec::new(),
        }
    }

    /// Recompute `display_name` after `alias`/`name` change.
    pub fn refresh_display_name(&mut self)
        ensures
            final(self).display_name@ == display_name_spec(
                opt_view(old(self).alias),
                old(self).name@,
                old(self).ip@,
            ),
            *final(self) == (DeviceSnapshot {
                display_name: final(self).display_name,
                ..*old(self)
            }),
    {
        self.display_name = display_name_of(&self.alias, self.name.as_str(), self.ip.as_str());
    }

    /// The snapshot unreachable: identity, name, network and last contact
    /// kept; live state, role and grouping cleared.
    pub open spec fn marked_offline(self) -> DeviceSnapshot {
        DeviceSnapshot {
            online: false,
            volume: None,
            mute: false,
            source: None,
            source_label: None,
            play_state: None,
            track: None,
            role: Role::Solo,
            group_id: None,
            master_uuid: None,
            ..self
        }
    }

    /// Mark a previously-known snapshot unreachable, keeping identity fields
    /// so the card stays recognisable while greyed out.
    pub fn mark_offline(&mut self)
        ensures
            *final(self) == old(self).marked_offline(),
    {
        self.online = false;
        self.volume = None;
        self.mute = false;
        self.source = None;
        self.source_label = None;
        self.play_state = None;
        self.track = None;
        self.role = Role::Solo;
        self.group_id = None;
        self.master_uuid = None;
    }
}

/// The trimmed text of the string under `key`, when it has visible text.
pub open spec fn visible_text(f: Seq<(Seq<char>, JsonScalarView)>, key: Seq<char>) -> Option<Seq<char>> {
    match json_get(f, key) {
        Some(JsonScalarView::Str(s)) => if trim(s).len() > 0 {
            Some(trim(s))
        } else {
            None
        },
        _ => None,
    }
}

/// The visible text under the first of four keys that has some, or nothing.
pub open spec fn first_visible(
    f: Seq<(Seq<char>, JsonScalarView)>,
    k0: Seq<char>,
    k1: Seq<char>,
    k2: Seq<char>,
    k3: Seq<char>,
) -> Seq<char> {
    if visible_text(f, k0) is Some {
        visible_text(f, k0)->0
    } else if visible_text(f, k1) is Some {
        visible_text(f, k1)->0
    } else if visible_text(f, k2) is Some {
        visible_text(f, k2)->0
    } else if visible_text(f, k3) is Some {
        visible_text(f, k3)->0
    } else {
        Seq::empty()
    }
}

proof fn lemma_pick_text4(
    f: Seq<(Seq<char>, JsonScalarView)>,
    k0: Seq<char>,
    k1: Seq<char>,
    k2: Seq<char>,
    k3: Seq<char>,
)
    ensures
        pick_text(f, seq![k0, k1, k2, k3]) == first_visible(f, k0, k1, k2, k3),
{
    let ks = seq![k0, k1, k2, k3];
    assert(ks.drop_first() =~= seq![k1, k2, k3]);
    assert(seq![k1, k2, k3].drop_first() =~= seq![k2, k3]);
    assert(seq![k2, k3].drop_first() =~= seq![k3]);
    assert(seq![k3].drop_first() =~= Seq::<Seq<char>>::empty());
    reveal_with_fuel(pick_text, 5);
}

/// Which member a track field is read from: the lowercase key first, then
/// the capitalised, the uppercase and the `…Name` spelling, the first one
/// holding visible text winning, trimmed; a field none of them fills is
/// empty. The duration is the `duration` member when it is a number.
pub proof fn law_track_field_keys(f: Seq<(Seq<char>, JsonScalarView)>)
    ensures
        pick_text(f, title_keys()) == first_visible(f, "title"@, "Title"@, "TITLE"@, "trackName"@),
        pick_text(f, artist_keys()) == first_visible(
            f,
            "artist"@,
            "Artist"@,
            "ARTIST"@,
            "artistName"@,
        ),
        pick_text(f, album_keys()) == first_visible(f, "album"@, "Album"@, "ALBUM"@, "albumName"@),
        json_get(f, "duration"@) matches Some(JsonScalarView::Num(n)) ==> pick_duration(
            f,
            duration_keys(),
        ) == n,
{
    lemma_pick_text4(f, "title"@, "Title"@, "TITLE"@, "trackName"@);
    lemma_pick_text4(f, "artist"@, "Artist"@, "ARTIST"@, "artistName"@);
    lemma_pick_text4(f, "album"@, "Album"@, "ALBUM"@, "albumName"@);
}

} // verus!
