//! UPnP / DLNA over the MediaRenderer on `<ip>:49494`: the transport verbs
//! and the SOAP envelopes they travel in, and the parsing of a
//! `GetPositionInfo` reply (DIDL-Lite metadata, duration and position).
//!
//! Transport goes through AVTransport because the vendor protocol acks
//! transport payloads without acting on them, and now-playing comes from
//! `GetPositionInfo` because the vendor track-info query never answers.

use vstd::prelude::*;
use vstd::slice::*;
use vstd::utf8::encode_utf8;

use crate::error::AppError;
use crate::luci::codec::{string_from_utf8_lossy, utf8_lossy};
use crate::text::{
    chars_of, eq_ignore_ascii_case, eq_ignore_case, find_char, find_in, find_seq,
    find_sub, lemma_find_in_bounds, lemma_find_in_sub, lemma_split_on_unfold, owned, parse_unsigned, parse_unsigned_chars, push_dec, replace_all, replace_chars,
    same_text, split_on, string_of, string_of_range, trim, trim_range, trimmed,
};

verus! {

/// The MediaRenderer control port.
pub const UPNP_PORT: u16 = 49494;
/// The AVTransport control path.
pub const TRANSPORT_PATH: &'static str = "/upnp/control/rendertransport1";
/// The AVTransport service type.
pub const TRANSPORT_SERVICE: &'static str = "urn:schemas-upnp-org:service:AVTransport:1";
/// Seconds a whole SOAP round trip may take.
pub const SOAP_TIMEOUT_SECS: u64 = 4;

// ------------------------------------------------------------ transport --

/// The transport verbs the UI exposes.
#[derive(Debug, Clone, Copy, PartialEq, Eq, Structural)]
pub enum Transport {
    Play,
    Pause,
    Next,
    Previous,
    Stop,
}

/// The verb a frontend command names: trimmed, ASCII case ignored.
pub open spec fn transport_of(cmd: Seq<char>) -> Option<Transport> {
    let t = trim(cmd);
    if eq_ignore_case(t, "play"@) {
        Some(Transport::Play)
    } else if eq_ignore_case(t, "pause"@) {
        Some(Transport::Pause)
    } else if eq_ignore_case(t, "next"@) {
        Some(Transport::Next)
    } else if eq_ignore_case(t, "prev"@) || eq_ignore_case(t, "previous"@) {
        Some(Transport::Previous)
    } else if eq_ignore_case(t, "stop"@) {
        Some(Transport::Stop)
    } else {
        None
    }
}

/// The AVTransport action name of each verb.
pub open spec fn action_name(t: Transport) -> Seq<char> {
    match t {
        Transport::Play => "Play"@,
        Transport::Pause => "Pause"@,
        Transport::Next => "Next"@,
        Transport::Previous => "Previous"@,
        Transport::Stop => "Stop"@,
    }
}

/// The action's arguments besides `InstanceID`: `Play` needs a `Speed`.
pub open spec fn action_args(t: Transport) -> Seq<(Seq<char>, Seq<char>)> {
    match t {
        Transport::Play => seq![("Speed"@, "1"@)],
        _ => Seq::empty(),
    }
}

/// `<name>value</name>` for each argument, in order.
pub open spec fn args_xml(args: Seq<(Seq<char>, Seq<char>)>) -> Seq<char>
    decreases args.len(),
{
    if args.len() == 0 {
        Seq::empty()
    } else {
        let (n, v) = args.last();
        args_xml(args.drop_last()) + seq!['<'] + n + seq!['>'] + v + seq!['<', '/'] + n + seq![
            '>',
        ]
    }
}

impl Transport {
    /// Parse the frontend's verb.
    pub fn parse(cmd: &str) -> (r: Option<Self>)
        ensures
            r == transport_of(cmd@),
    {
        let t = trimmed(cmd);
        let t = t.as_str();
        if eq_ignore_ascii_case(t, "play") {
            Some(Transport::Play)
        } else if eq_ignore_ascii_case(t, "pause") {
            Some(Transport::Pause)
        } else if eq_ignore_ascii_case(t, "next") {
            Some(Transport::Next)
        } else if eq_ignore_ascii_case(t, "prev") || eq_ignore_ascii_case(t, "previous") {
            Some(Transport::Previous)
        } else if eq_ignore_ascii_case(t, "stop") {
            Some(Transport::Stop)
        } else {
            None
        }
    }

    /// The AVTransport action name.
    pub fn action(self) -> (r: &'static str)
        ensures
            r@ == action_name(self),
    {
        match self {
            Transport::Play => "Play",
            Transport::Pause => "Pause",
            Transport::Next => "Next",
            Transport::Previous => "Previous",
            Transport::Stop => "Stop",
        }
    }

    /// The action's arguments (besides `InstanceID`), as `(name, value)`.
    pub fn extra_args(self) -> (r: Vec<(&'static str, &'static str)>)
        ensures
            r@.len() == action_args(self).len(),
            forall|i: int|
                0 <= i < r@.len() ==> (#[trigger] r@[i]).0@ == action_args(self)[i].0 && r@[i].1@
                    == action_args(self)[i].1,
    {
        let mut r: Vec<(&'static str, &'static str)> = Vec::new();
        match self {
            Transport::Play => r.push(("Speed", "1")),
            _ => {},
        }
        r
    }
}

/// The body of a transport action: the instance, then each argument.
pub open spec fn transport_body_text(t: Transport) -> Seq<char> {
    "<InstanceID>0</InstanceID>"@ + args_xml(action_args(t))
}

/// The inner XML of the SOAP call for `cmd`.
pub fn transport_body(cmd: Transport) -> (r: String)
    ensures
        r@ == transport_body_text(cmd),
{
    let args = cmd.extra_args();
    let mut body = owned("<InstanceID>0</InstanceID>");
    let mut i: usize = 0;
    while i < args.len()
        invariant
            i <= args@.len(),
            args@.len() == action_args(cmd).len(),
            forall|k: int|
                0 <= k < args@.len() ==> (#[trigger] args@[k]).0@ == action_args(cmd)[k].0
                    && args@[k].1@ == action_args(cmd)[k].1,
            body@ == "<InstanceID>0</InstanceID>"@ + args_xml(action_args(cmd).take(i as int)),
        decreases args@.len() - i,
    {
        let (name, value) = args[i];
        body.append("<");
        body.append(name);
        body.append(">");
        body.append(value);
        body.append("</");
        body.append(name);
        body.append(">");
        proof {
            reveal_strlit("<");
            reveal_strlit(">");
            reveal_strlit("</");
            assert(action_args(cmd).take(i + 1).drop_last() =~= action_args(cmd).take(i as int));
            assert("<"@ =~= seq!['<']);
            assert(">"@ =~= seq!['>']);
            assert("</"@ =~= seq!['<', '/']);
            assert(body@ =~= "<InstanceID>0</InstanceID>"@ + args_xml(
                action_args(cmd).take(i + 1),
            ));
        }
        i = i + 1;
    }
    assert(action_args(cmd).take(i as int) =~= action_args(cmd));
    body
}

/// The SOAP envelope around one action call.
pub open spec fn envelope_text(action: Seq<char>, service: Seq<char>, inner: Seq<char>) -> Seq<
    char,
> {
    "<?xml version=\"1.0\" encoding=\"utf-8\"?><s:Envelope xmlns:s=\"http://schemas.xmlsoap.org/soap/envelope/\" s:encodingStyle=\"http://schemas.xmlsoap.org/soap/encoding/\"><s:Body><u:"@
        + action + " xmlns:u=\""@ + service + "\">"@ + inner + "</u:"@ + action
        + "></s:Body></s:Envelope>"@
}

/// The SOAP envelope for `action` of `service` with body `inner`.
pub fn soap_envelope(action: &str, service: &str, inner: &str) -> (r: String)
    ensures
        r@ == envelope_text(action@, service@, inner@),
{
    let mut r = owned(
        "<?xml version=\"1.0\" encoding=\"utf-8\"?><s:Envelope xmlns:s=\"http://schemas.xmlsoap.org/soap/envelope/\" s:encodingStyle=\"http://schemas.xmlsoap.org/soap/encoding/\"><s:Body><u:",
    );
    r.append(action);
    r.append(" xmlns:u=\"");
    r.append(service);
    r.append("\">");
    r.append(inner);
    r.append("</u:");
    r.append(action);
    r.append("></s:Body></s:Envelope>");
    r
}

/// The raw HTTP/1.0 request carrying `envelope` to `path` on `host`; the
/// length header counts the envelope's UTF-8 bytes.
pub open spec fn request_text(
    path: Seq<char>,
    host: Seq<char>,
    service: Seq<char>,
    action: Seq<char>,
    envelope: Seq<char>,
) -> Seq<char> {
    "POST "@ + path + " HTTP/1.0\r\nHost: "@ + host
        + "\r\nContent-Type: text/xml; charset=\"utf-8\"\r\nContent-Length: "@ + crate::text::dec(
        encode_utf8(envelope).len(),
    ) + "\r\nSOAPACTION: \""@ + service + "#"@ + action + "\"\r\nConnection: close\r\n\r\n"@
        + envelope
}

/// The HTTP request for one SOAP action.
pub fn soap_request(path: &str, host: &str, service: &str, action: &str, envelope: &str) -> (r:
    String)
    ensures
        r@ == request_text(path@, host@, service@, action@, envelope@),
{
    let mut r = owned("POST ");
    r.append(path);
    r.append(" HTTP/1.0\r\nHost: ");
    r.append(host);
    r.append("\r\nContent-Type: text/xml; charset=\"utf-8\"\r\nContent-Length: ");
    push_dec(&mut r, envelope.as_bytes().len() as u64);
    r.append("\r\nSOAPACTION: \"");
    r.append(service);
    r.append("#");
    r.append(action);
    r.append("\"\r\nConnection: close\r\n\r\n");
    r.append(envelope);
    r
}

// ---------------------------------------------------------------- reply --

/// The first line `str::lines` yields: up to the first `\n`, without the
/// `\r` of a `\r\n`; none for empty text.
pub open spec fn first_line(h: Seq<char>) -> Option<Seq<char>> {
    if h.len() == 0 {
        None
    } else {
        let nl = find_in(h, '\n', 0, h.len() as int);
        let l = h.subrange(0, nl);
        if nl < h.len() && l.len() > 0 && l.last() == '\r' {
            Some(l.drop_last())
        } else {
            Some(l)
        }
    }
}

/// Headers and body of an HTTP reply, split at the first blank line; all
/// body when there is none.
pub open spec fn split_reply(text: Seq<char>) -> (Seq<char>, Seq<char>) {
    match find_sub(text, seq!['\r', '\n', '\r', '\n'], 0) {
        Some(i) => (text.subrange(0, i), text.skip(i + 4)),
        None => (Seq::empty(), text),
    }
}

/// What a SOAP reply amounts to: its body when the status line says 200,
/// else the status line (trimmed) it was refused with.
pub open spec fn reply_outcome(text: Seq<char>) -> Result<Seq<char>, Seq<char>> {
    let (headers, body) = split_reply(text);
    match first_line(headers) {
        Some(l) => if find_sub(l, " 200"@, 0) is Some {
            Ok(body)
        } else {
            Err(trim(l))
        },
        None => Err(Seq::empty()),
    }
}

/// Judge a raw SOAP reply from the device at `ip` to `action`: the body on
/// `200`, else a device error naming the status line.
pub fn soap_reply(ip: &str, action: &str, raw: &[u8]) -> (r: Result<String, AppError>)
    ensures
        match reply_outcome(utf8_lossy(raw@)) {
            Ok(body) => r matches Ok(b) && b@ == body,
            Err(code) => r matches Err(AppError::Device(m)) && m@ == ip@ + " rejected the UPnP "@
                + action@ + ": "@ + code,
        },
{
    let text = string_from_utf8_lossy(raw);
    let cs = chars_of(text.as_str());
    let n = cs.len();
    let sep: Vec<char> = vec!['\r', '\n', '\r', '\n'];
    assert(sep@ =~= seq!['\r', '\n', '\r', '\n']);
    let (h_end, b_start): (usize, usize) = match find_seq(cs.as_slice(), sep.as_slice(), 0) {
        Some(i) => (i, i + 4),
        None => (0, 0),
    };
    let ghost headers = cs@.subrange(0, h_end as int);
    proof {
        assert(cs@.subrange(b_start as int, n as int) =~= split_reply(cs@).1);
        assert(headers =~= split_reply(cs@).0);
    }
    let status: Option<(usize, usize)> = if h_end == 0 {
        None
    } else {
        let hs = slice_subrange(cs.as_slice(), 0, h_end);
        let nl = find_char(hs, '\n', 0, h_end);
        proof {
            lemma_find_in_bounds(hs@, '\n', 0, h_end as int);
        }
        let end = if nl < h_end && nl > 0 && hs[nl - 1] == '\r' {
            nl - 1
        } else {
            nl
        };
        Some((0, end))
    };
    match status {
        Some((a, e)) => {
            let line = slice_subrange(cs.as_slice(), a, e);
            let pat: Vec<char> = vec![' ', '2', '0', '0'];
            proof {
                reveal_strlit(" 200");
                assert(pat@ =~= " 200"@);
                assert(line@ =~= first_line(headers).unwrap());
            }
            if find_seq(line, pat.as_slice(), 0).is_some() {
                Ok(string_of_range(cs.as_slice(), b_start, n))
            } else {
                let (x, y) = trim_range(cs.as_slice(), a, e);
                let code = string_of_range(cs.as_slice(), x, y);
                let mut m = owned(ip);
                m.append(" rejected the UPnP ");
                m.append(action);
                m.append(": ");
                m.append(code.as_str());
                Err(AppError::Device(m))
            }
        },
        None => {
            let mut m = owned(ip);
            m.append(" rejected the UPnP ");
            m.append(action);
            m.append(": ");
            proof {
                assert(m@ =~= ip@ + " rejected the UPnP "@ + action@ + ": "@ + Seq::<char>::empty());
            }
            Err(AppError::Device(m))
        },
    }
}


// -------------------------------------------------------------- parsing --

/// Now-playing pulled from `GetPositionInfo` (DIDL-Lite metadata + timings).
#[derive(Debug, Clone, Default, PartialEq, Eq)]
pub struct NowPlaying {
    pub title: String,
    pub artist: String,
    pub album: String,
    pub duration_ms: Option<u64>,
    pub position_ms: Option<u64>,
}

impl NowPlaying {
    /// Nothing is known of the current item (a stopped renderer).
    pub fn is_empty(&self) -> (r: bool)
        ensures
            r == (self.title@.len() == 0 && self.artist@.len() == 0 && self.album@.len() == 0
                && self.duration_ms is None),
    {
        self.title.as_str().unicode_len() == 0 && self.artist.as_str().unicode_len() == 0
            && self.album.as_str().unicode_len() == 0 && self.duration_ms.is_none()
    }
}

/// The text content of the first `<name>…</name>` element, trimmed; `None`
/// when absent or blank. Attributes on the opening tag are tolerated.
pub open spec fn tag_text(xml: Seq<char>, name: Seq<char>) -> Option<Seq<char>> {
    match find_sub(xml, seq!['<'] + name, 0) {
        None => None,
        Some(start) => {
            let gt = find_in(xml, '>', start, xml.len() as int);
            if gt >= xml.len() {
                None
            } else {
                match find_sub(xml, seq!['<', '/'] + name + seq!['>'], gt + 1) {
                    None => None,
                    Some(end) => {
                        let inner = trim(xml.subrange(gt + 1, end));
                        if inner.len() == 0 {
                            None
                        } else {
                            Some(inner)
                        }
                    },
                }
            }
        },
    }
}

fn pattern_with(pre: Vec<char>, name: &str, post: Vec<char>) -> (r: Vec<char>)
    ensures
        r@ == pre@ + name@ + post@,
{
    let mut r = pre;
    let cs = chars_of(name);
    let ghost r0 = r@;
    let mut i: usize = 0;
    while i < cs.len()
        invariant
            i <= cs@.len(),
            cs@ == name@,
            r@ == r0 + cs@.subrange(0, i as int),
        decreases cs@.len() - i,
    {
        r.push(cs[i]);
        i = i + 1;
        assert(r@ =~= r0 + cs@.subrange(0, i as int));
    }
    let ghost r1 = r@;
    let mut k: usize = 0;
    while k < post.len()
        invariant
            k <= post@.len(),
            r@ == r1 + post@.subrange(0, k as int),
        decreases post@.len() - k,
    {
        r.push(post[k]);
        k = k + 1;
        assert(r@ =~= r1 + post@.subrange(0, k as int));
    }
    assert(cs@.subrange(0, i as int) =~= name@);
    assert(post@.subrange(0, k as int) =~= post@);
    r
}

/// The trimmed text of the first `<name>` element of `xml`, if not blank.
pub fn tag_chars(xml: &[char], name: &str) -> (r: Option<Vec<char>>)
    ensures
        match tag_text(xml@, name@) {
            Some(t) => r matches Some(v) && v@ == t,
            None => r is None,
        },
{
    let open = pattern_with(vec!['<'], name, Vec::new());
    let close = pattern_with(vec!['<', '/'], name, vec!['>']);
    proof {
        assert(open@ =~= seq!['<'] + name@);
        assert(close@ =~= seq!['<', '/'] + name@ + seq!['>']);
    }
    let n = xml.len();
    let start = match find_seq(xml, open.as_slice(), 0) {
        Some(i) => i,
        None => return None,
    };
    let gt = find_char(xml, '>', start, n);
    if gt >= n {
        return None;
    }
    let end = match find_seq(xml, close.as_slice(), gt + 1) {
        Some(e) => e,
        None => return None,
    };
    let (a, b) = trim_range(xml, gt + 1, end);
    if a == b {
        return None;
    }
    Some(slice_to_vec(slice_subrange(xml, a, b)))
}

/// Each piece trimmed and parsed as a `u64`; `None` if any piece fails.
pub open spec fn parse_pieces(parts: Seq<Seq<char>>) -> Option<Seq<nat>>
    decreases parts.len(),
{
    if parts.len() == 0 {
        Some(Seq::empty())
    } else {
        match parse_unsigned(trim(parts[0]), u64::MAX as nat) {
            None => None,
            Some(v) => match parse_pieces(parts.drop_first()) {
                None => None,
                Some(rest) => Some(seq![v] + rest),
            },
        }
    }
}

/// `H:MM:SS(.fff)`, `M:SS` or `S`, fractions dropped, in milliseconds
/// (wrapping at 2^64); `None` for blank text, `NOT_IMPLEMENTED`, a piece
/// that is not a number, or more than three pieces.
pub open spec fn hms_ms(s: Seq<char>) -> Option<u64> {
    let t = trim(s);
    if t.len() == 0 || t == "NOT_IMPLEMENTED"@ {
        None
    } else {
        let hms = t.subrange(0, find_in(t, '.', 0, t.len() as int));
        match parse_pieces(split_on(hms, ':')) {
            None => None,
            Some(ns) => if ns.len() == 3 {
                Some((((ns[0] * 3600 + ns[1] * 60 + ns[2]) * 1000) % 0x1_0000_0000_0000_0000) as u64)
            } else if ns.len() == 2 {
                Some((((ns[0] * 60 + ns[1]) * 1000) % 0x1_0000_0000_0000_0000) as u64)
            } else if ns.len() == 1 {
                Some(((ns[0] * 1000) % 0x1_0000_0000_0000_0000) as u64)
            } else {
                None
            },
        }
    }
}

/// The numbers of the `:`-separated pieces of `s[from..to]`, or `None` when
/// one is not a number.
fn parse_colon_pieces(s: &[char], from: usize, to: usize) -> (r: Option<Vec<u64>>)
    requires
        from <= to <= s@.len(),
    ensures
        match parse_pieces(split_on(s@.subrange(from as int, to as int), ':')) {
            Some(ns) => r matches Some(v) && v@.len() == ns.len() && forall|i: int|
                0 <= i < ns.len() ==> #[trigger] v@[i] == ns[i],
            None => r is None,
        },
    decreases to - from,
{
    let colon = find_char(s, ':', from, to);
    let ghost piece = s@.subrange(from as int, to as int);
    proof {
        lemma_find_in_sub(s@, ':', from as int, to as int, 0);
        lemma_split_on_unfold(piece, ':');
        lemma_find_in_bounds(s@, ':', from as int, to as int);
    }
    let (a, b) = trim_range(s, from, colon);
    let sub = slice_subrange(s, a, b);
    let head = parse_unsigned_chars(sub, u64::MAX);
    let ghost parts = split_on(piece, ':');
    proof {
        assert(s@.subrange(from as int, colon as int) =~= parts[0]);
        assert(parts[0] =~= piece.subrange(0, colon - from));
    }
    proof {
        assert(sub@ == trim(parts[0]));
    }
    match head {
        None => None,
        Some(v) => {
            if colon >= to {
                proof {
                    assert(parts.drop_first() =~= Seq::<Seq<char>>::empty());
                    assert(parse_pieces(parts.drop_first()) == Some(Seq::<nat>::empty()));
                    assert(parse_pieces(parts) == Some(seq![v as nat] + Seq::<nat>::empty()));
                }
                let mut out: Vec<u64> = Vec::new();
                out.push(v);
                Some(out)
            } else {
                proof {
                    assert(piece.subrange(colon - from + 1, piece.len() as int) =~= s@.subrange(
                        colon + 1,
                        to as int,
                    ));
                    assert(parts.drop_first() =~= split_on(s@.subrange(colon + 1, to as int), ':'));
                }
                match parse_colon_pieces(s, colon + 1, to) {
                    None => None,
                    Some(rest) => {
                        let mut out: Vec<u64> = Vec::new();
                        out.push(v);
                        let mut k: usize = 0;
                        while k < rest.len()
                            invariant
                                k <= rest@.len(),
                                parse_pieces(parts.drop_first()) matches Some(rs) && rest@.len()
                                    == rs.len() && forall|i: int|
                                    0 <= i < rs.len() ==> #[trigger] rest@[i] == rs[i],
                                parse_pieces(parts) == match parse_pieces(parts.drop_first()) {
                                    Some(rs) => Some(seq![v as nat] + rs),
                                    None => None::<Seq<nat>>,
                                },
                                out@.len() == k + 1,
                                out@[0] == v,
                                forall|i: int| 0 <= i < k ==> #[trigger] out@[i + 1] == rest@[i],
                            decreases rest@.len() - k,
                        {
                            out.push(rest[k]);
                            k = k + 1;
                        }
                        proof {
                            let ns = parse_pieces(parts).unwrap();
                            let rs = parse_pieces(parts.drop_first()).unwrap();
                            assert(ns == seq![v as nat] + rs);
                            assert forall|i: int| 0 <= i < ns.len() implies #[trigger] out@[i]
                                == ns[i] by {
                                if i > 0 {
                                    assert(out@[(i - 1) + 1] == rest@[i - 1]);
                                }
                            }
                        }
                        Some(out)
                    },
                }
            }
        },
    }
}

/// `H:MM:SS(.fff)` → milliseconds: what UPnP uses for both duration and
/// position.
pub fn parse_hms(s: &str) -> (r: Option<u64>)
    ensures
        r == hms_ms(s@),
{
    let t = trimmed(s);
    let cs = chars_of(t.as_str());
    let n = cs.len();
    if n == 0 || same_text(t.as_str(), "NOT_IMPLEMENTED") {
        return None;
    }
    let dot = find_char(cs.as_slice(), '.', 0, n);
    let nums = match parse_colon_pieces(cs.as_slice(), 0, dot) {
        Some(v) => v,
        None => return None,
    };
    proof {
        lemma_find_in_bounds(cs@, '.', 0, n as int);
    }
    if nums.len() == 3 {
        let total: u128 = (nums[0] as u128) * 3600 + (nums[1] as u128) * 60 + (nums[2] as u128);
        Some(((total * 1000) % 0x1_0000_0000_0000_0000u128) as u64)
    } else if nums.len() == 2 {
        let total: u128 = (nums[0] as u128) * 60 + (nums[1] as u128);
        Some(((total * 1000) % 0x1_0000_0000_0000_0000u128) as u64)
    } else if nums.len() == 1 {
        let total: u128 = nums[0] as u128;
        Some(((total * 1000) % 0x1_0000_0000_0000_0000u128) as u64)
    } else {
        None
    }
}

/// Minimal XML entity unescape for the escaped DIDL blob.
pub open spec fn unescaped(s: Seq<char>) -> Seq<char> {
    replace_all(
        replace_all(
            replace_all(
                replace_all(replace_all(s, "&lt;"@, "<"@), "&gt;"@, ">"@),
                "&quot;"@,
                "\""@,
            ),
            "&apos;"@,
            "'"@,
        ),
        "&amp;"@,
        "&"@,
    )
}

fn replace_lit(s: &[char], pat: &str, rep: &str) -> (r: Vec<char>)
    requires
        pat@.len() > 0,
    ensures
        r@ == replace_all(s@, pat@, rep@),
{
    let p = chars_of(pat);
    let q = chars_of(rep);
    replace_chars(s, p.as_slice(), q.as_slice())
}

/// `s` with the five predefined XML entities decoded, `&amp;` last.
pub fn unescape(s: &[char]) -> (r: Vec<char>)
    ensures
        r@ == unescaped(s@),
{
    proof {
        reveal_strlit("&lt;");
        reveal_strlit("&gt;");
        reveal_strlit("&quot;");
        reveal_strlit("&apos;");
        reveal_strlit("&amp;");
    }
    let a = replace_lit(s, "&lt;", "<");
    let b = replace_lit(a.as_slice(), "&gt;", ">");
    let c = replace_lit(b.as_slice(), "&quot;", "\"");
    let d = replace_lit(c.as_slice(), "&apos;", "'");
    replace_lit(d.as_slice(), "&amp;", "&")
}

/// A tag's text, or nothing.
pub open spec fn text_or_empty(t: Option<Seq<char>>) -> Seq<char> {
    match t {
        Some(v) => v,
        None => Seq::empty(),
    }
}

/// The DIDL-Lite document carried (escaped) in `TrackMetaData`.
pub open spec fn didl_of(xml: Seq<char>) -> Option<Seq<char>> {
    match tag_text(xml, "TrackMetaData"@) {
        Some(m) => Some(unescaped(m)),
        None => None,
    }
}

/// What a `GetPositionInfo` reply says is playing.
pub open spec fn position_title(xml: Seq<char>) -> Seq<char> {
    match didl_of(xml) {
        Some(d) => text_or_empty(tag_text(d, "dc:title"@)),
        None => Seq::empty(),
    }
}

pub open spec fn position_artist(xml: Seq<char>) -> Seq<char> {
    match didl_of(xml) {
        Some(d) => match tag_text(d, "upnp:artist"@) {
            Some(a) => a,
            None => text_or_empty(tag_text(d, "dc:creator"@)),
        },
        None => Seq::empty(),
    }
}

pub open spec fn position_album(xml: Seq<char>) -> Seq<char> {
    match didl_of(xml) {
        Some(d) => text_or_empty(tag_text(d, "upnp:album"@)),
        None => Seq::empty(),
    }
}

/// The track duration; a zero duration means "no track", not a zero-length
/// track.
pub open spec fn position_duration(xml: Seq<char>) -> Option<u64> {
    match tag_text(xml, "TrackDuration"@) {
        Some(t) => match hms_ms(t) {
            Some(ms) => if ms > 0 {
                Some(ms)
            } else {
                None
            },
            None => None,
        },
        None => None,
    }
}

pub open spec fn position_rel_time(xml: Seq<char>) -> Option<u64> {
    match tag_text(xml, "RelTime"@) {
        Some(t) => hms_ms(t),
        None => None,
    }
}

fn tag_or_empty(xml: &[char], name: &str) -> (r: String)
    ensures
        r@ == text_or_empty(tag_text(xml@, name@)),
{
    match tag_chars(xml, name) {
        Some(v) => string_of(v.as_slice()),
        None => String::new(),
    }
}

fn tag_hms(xml: &[char], name: &str) -> (r: Option<u64>)
    ensures
        r == match tag_text(xml@, name@) {
            Some(t) => hms_ms(t),
            None => None,
        },
{
    match tag_chars(xml, name) {
        Some(v) => {
            let s = string_of(v.as_slice());
            parse_hms(s.as_str())
        },
        None => None,
    }
}

/// Parse a `GetPositionInfo` response: `TrackDuration`, `RelTime`, and the
/// XML-escaped DIDL-Lite in `TrackMetaData`. Absent metadata is not an error:
/// a stopped renderer answers with empty fields.
pub fn parse_position_info(xml: &str) -> (r: NowPlaying)
    ensures
        r.title@ == position_title(xml@),
        r.artist@ == position_artist(xml@),
        r.album@ == position_album(xml@),
        r.duration_ms == position_duration(xml@),
        r.position_ms == position_rel_time(xml@),
{
    let cs = chars_of(xml);
    let (title, artist, album) = match tag_chars(cs.as_slice(), "TrackMetaData") {
        Some(meta) => {
            let didl = unescape(meta.as_slice());
            let d = didl.as_slice();
            let artist = match tag_chars(d, "upnp:artist") {
                Some(a) => string_of(a.as_slice()),
                None => tag_or_empty(d, "dc:creator"),
            };
            (tag_or_empty(d, "dc:title"), artist, tag_or_empty(d, "upnp:album"))
        },
        None => (String::new(), String::new(), String::new()),
    };
    let duration_ms = match tag_hms(cs.as_slice(), "TrackDuration") {
        Some(ms) => if ms > 0 {
            Some(ms)
        } else {
            None
        },
        None => None,
    };
    NowPlaying {
        title,
        artist,
        album,
        duration_ms,
        position_ms: tag_hms(cs.as_slice(), "RelTime"),
    }
}

/// The artist a `GetPositionInfo` reply reports is its DIDL-Lite's
/// `upnp:artist` whenever that element has text, whatever `dc:creator` holds;
/// the creator is only the fallback; without metadata there is no artist.
/// Title and album come from `dc:title` and `upnp:album` alone.
pub proof fn law_position_metadata(xml: Seq<char>)
    ensures
        ({
            let d = didl_of(xml)->0;
            let artist = tag_text(d, "upnp:artist"@);
            &&& didl_of(xml) is Some && artist is Some ==> position_artist(xml) == artist->0
            &&& didl_of(xml) is Some && artist is None ==> position_artist(xml) == text_or_empty(
                tag_text(d, "dc:creator"@),
            )
            &&& didl_of(xml) is Some ==> position_title(xml) == text_or_empty(
                tag_text(d, "dc:title"@),
            )
            &&& didl_of(xml) is Some ==> position_album(xml) == text_or_empty(
                tag_text(d, "upnp:album"@),
            )
            &&& didl_of(xml) is None ==> position_artist(xml).len() == 0 && position_title(
                xml,
            ).len() == 0 && position_album(xml).len() == 0
        }),
{
}

/// A text with no whitespace at either end is its own trim.
proof fn lemma_trim_unpadded(s: Seq<char>)
    requires
        s.len() > 0,
        !crate::text::is_ws(s[0]),
        !crate::text::is_ws(s.last()),
    ensures
        trim(s) == s,
{
    assert(crate::text::trim_start(s) == s);
    assert(crate::text::trim_end(s) == s);
}

/// A run of digits is read as its own value.
proof fn lemma_digit_piece(d: Seq<char>)
    requires
        d.len() > 0,
        crate::text::all_digits(d),
        crate::text::digits_value(d) <= u64::MAX,
    ensures
        trim(d) == d,
        parse_unsigned(trim(d), u64::MAX as nat) == Some(crate::text::digits_value(d)),
        forall|i: int| 0 <= i < d.len() ==> #[trigger] d[i] != ':' && d[i] != '.',
{
    assert(crate::text::is_digit(d[0]));
    assert(crate::text::is_digit(d.last()));
    lemma_trim_unpadded(d);
}

/// A plain `H:MM:SS` time, with or without a fraction after a dot, is
/// `((H·60 + MM)·60 + SS)` seconds in milliseconds, the fraction dropped.
pub proof fn law_hms_reads_hours_minutes_seconds(
    h: Seq<char>,
    m: Seq<char>,
    sec: Seq<char>,
    frac: Seq<char>,
)
    requires
        h.len() > 0 && crate::text::all_digits(h) && crate::text::digits_value(h) <= u64::MAX,
        m.len() > 0 && crate::text::all_digits(m) && crate::text::digits_value(m) <= u64::MAX,
        sec.len() > 0 && crate::text::all_digits(sec) && crate::text::digits_value(sec)
            <= u64::MAX,
        crate::text::all_digits(frac),
    ensures
        ({
            let ms = (crate::text::digits_value(h) * 3600 + crate::text::digits_value(m) * 60
                + crate::text::digits_value(sec)) * 1000;
            let core = h + seq![':'] + m + seq![':'] + sec;
            &&& hms_ms(core) == Some((ms % 0x1_0000_0000_0000_0000) as u64)
            &&& hms_ms(core + seq!['.'] + frac) == Some((ms % 0x1_0000_0000_0000_0000) as u64)
        }),
{
    lemma_digit_piece(h);
    lemma_digit_piece(m);
    lemma_digit_piece(sec);
    let core = h + seq![':'] + m + seq![':'] + sec;
    let a = h.len() as int;
    let b = a + 1 + m.len();
    // No dot and no whitespace in the core.
    assert forall|k: int| 0 <= k < core.len() implies #[trigger] core[k] != '.' && !crate::text::is_ws(core[k]) by {
        if k < a {
            assert(core[k] == h[k]);
            assert(crate::text::is_digit(h[k]));
        } else if k == a || k == b {
        } else if k < b {
            assert(core[k] == m[k - a - 1]);
            assert(crate::text::is_digit(m[k - a - 1]));
        } else {
            assert(core[k] == sec[k - b - 1]);
            assert(crate::text::is_digit(sec[k - b - 1]));
        }
    }
    assert(core[0] == h[0]);
    reveal_strlit("NOT_IMPLEMENTED");
    // The pieces between the colons.
    crate::text::lemma_find_in(core, ':', 0, core.len() as int, a);
    lemma_split_on_unfold(core, ':');
    let r1 = core.subrange(a + 1, core.len() as int);
    assert(r1 =~= m + seq![':'] + sec);
    crate::text::lemma_find_in(r1, ':', 0, r1.len() as int, m.len() as int);
    lemma_split_on_unfold(r1, ':');
    let r2 = r1.subrange(m.len() as int + 1, r1.len() as int);
    assert(r2 =~= sec);
    crate::text::lemma_find_in(r2, ':', 0, r2.len() as int, r2.len() as int);
    lemma_split_on_unfold(r2, ':');
    assert(core.subrange(0, a) =~= h);
    assert(r1.subrange(0, m.len() as int) =~= m);
    let parts = split_on(core, ':');
    assert(parts =~= seq![h, m, sec]);
    assert(parts.drop_first() =~= seq![m, sec]);
    assert(seq![m, sec].drop_first() =~= seq![sec]);
    assert(seq![sec].drop_first() =~= Seq::<Seq<char>>::empty());
    reveal_with_fuel(parse_pieces, 4);
    let vh = crate::text::digits_value(h);
    let vm = crate::text::digits_value(m);
    let vs = crate::text::digits_value(sec);
    assert(parse_pieces(seq![sec]) == Some(seq![vs] + Seq::<nat>::empty()));
    assert(parse_pieces(parts) == Some(seq![vh] + (seq![vm] + (seq![vs] + Seq::<nat>::empty()))));
    let ns = seq![vh] + (seq![vm] + (seq![vs] + Seq::<nat>::empty()));
    assert(ns =~= seq![vh, vm, vs]);
    // Without a fraction.
    lemma_trim_unpadded(core);
    crate::text::lemma_find_in(core, '.', 0, core.len() as int, core.len() as int);
    assert(core.subrange(0, core.len() as int) =~= core);
    if core == "NOT_IMPLEMENTED"@ {
        assert(core[0] == 'N');
    }
    // With a fraction.
    let t = core + seq!['.'] + frac;
    assert(t[0] == core[0]);
    assert(!crate::text::is_ws(t.last())) by {
        if frac.len() > 0 {
            assert(t.last() == frac.last());
            assert(crate::text::is_digit(frac[frac.len() - 1]));
        }
    }
    lemma_trim_unpadded(t);
    assert forall|k: int| 0 <= k < core.len() implies #[trigger] t[k] != '.' by {
        assert(t[k] == core[k]);
    }
    crate::text::lemma_find_in(t, '.', 0, t.len() as int, core.len() as int);
    assert(t.subrange(0, core.len() as int) =~= core);
    if t == "NOT_IMPLEMENTED"@ {
        assert(t[0] == 'N');
    }
}

} // verus!
