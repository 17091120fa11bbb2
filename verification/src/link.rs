//! The connection settings of an online game and the bytes on its wires: the
//! choices of the start menu and of the command line, the length prefix of
//! the LAN channel, the room URL of the cloud channel, and the room server's
//! own messages. Sockets, threads and JSON are the caller's.
use vstd::prelude::*;
use vstd::utf8::encode_utf8;

use crate::protocol::wire::WireMessage;
use crate::text::{
    chars_eq, chars_of, parse_u32, parse_u32_chars, push_char, string_of, sub_vec, trim, trim_vec,
};
use crate::types::Side;

verus! {

/// How to reach the other side.
#[derive(Debug, Clone)]
pub enum ConnectMode {
    /// Wait on this port (LAN, sente).
    Listen(u16),
    /// Connect to this address (LAN, gote).
    Connect(String),
    /// Join this room of the room server; the server assigns the side.
    Cloud { room_key: String },
}

/// The settings of an online game.
#[derive(Debug, Clone)]
pub struct OnlineConfig {
    /// The side on the LAN; on the cloud the room server overrides it.
    pub local_side: Side,
    pub mode: ConnectMode,
    pub secret: Vec<u8>,
}

/// The choice made on the start menu.
#[derive(Debug, Clone)]
pub enum PortalResult {
    Local,
    Online(OnlineConfig),
    Quit,
}

/// A message of the room server itself.
#[derive(Debug, Clone, Copy, PartialEq, Eq, Structural)]
pub enum DoSystemMsg {
    SideAssigned { side: Side },
    RoomFull,
    PeerDisconnected,
    PeerReconnected,
    YouReconnected,
}

/// What the network side hands to the game loop.
#[derive(Debug)]
pub enum NetEvent {
    Message(WireMessage),
    System(DoSystemMsg),
    Disconnected,
}

/// What `str::parse::<u16>` accepts (an optional `+`, then decimal digits).
pub open spec fn parse_u16(s: Seq<char>) -> Option<u16> {
    match parse_u32(s) {
        Some(n) => if n <= u16::MAX {
            Some(n as u16)
        } else {
            None
        },
        None => None,
    }
}

fn parse_u16_chars(v: &[char]) -> (r: Option<u16>)
    ensures
        r == parse_u16(v@),
{
    match parse_u32_chars(v) {
        Some(n) => if n <= 65535 {
            Some(n as u16)
        } else {
            None
        },
        None => None,
    }
}

fn bytes_of(s: &str) -> (v: Vec<u8>)
    ensures
        v@ == encode_utf8(s@),
{
    let t = s.as_bytes();
    let mut v: Vec<u8> = Vec::new();
    let mut i: usize = 0;
    while i < t.len()
        invariant
            i <= t@.len(),
            t@ == encode_utf8(s@),
            v@ == t@.take(i as int),
        decreases t@.len() - i,
    {
        v.push(t[i]);
        assert(v@ =~= t@.take(i + 1));
        i += 1;
    }
    assert(v@ =~= t@);
    v
}

/// The settings as values.
pub struct ConfigView {
    pub local_side: Side,
    pub listen: Option<u16>,
    pub connect: Option<Seq<char>>,
    pub secret: Seq<u8>,
}

pub open spec fn config_view(c: OnlineConfig) -> ConfigView {
    ConfigView {
        local_side: c.local_side,
        listen: match c.mode {
            ConnectMode::Listen(p) => Some(p),
            _ => None,
        },
        connect: match c.mode {
            ConnectMode::Connect(a) => Some(a@),
            _ => None,
        },
        secret: c.secret@,
    }
}

/// The form of the start menu: waiting needs a port, connecting needs an
/// address (both trimmed); the waiting side plays sente.
pub open spec fn submit_result(listen: bool, addr_or_port: Seq<char>, secret: Seq<char>) -> Result<ConfigView, Seq<char>> {
    let t = trim(addr_or_port);
    if listen {
        match parse_u16(t) {
            Some(p) => Ok(
                ConfigView {
                    local_side: Side::Sente,
                    listen: Some(p),
                    connect: None,
                    secret: encode_utf8(secret),
                },
            ),
            None => Err("ポート番号は 1〜65535 の整数で入力してください"@),
        }
    } else if t.len() == 0 {
        Err("接続先アドレスを入力してください (例: 192.168.1.10:8765)"@)
    } else {
        Ok(
            ConfigView {
                local_side: Side::Gote,
                listen: None,
                connect: Some(t),
                secret: encode_utf8(secret),
            },
        )
    }
}

/// Checks the form of the start menu (see `submit_result`).
pub fn try_submit(listen: bool, addr_or_port: &str, secret: &str) -> (r: Result<OnlineConfig, String>)
    ensures
        match submit_result(listen, addr_or_port@, secret@) {
            Ok(v) => r matches Ok(c) && config_view(c) == v,
            Err(m) => r matches Err(e) && e@ == m,
        },
{
    let v = chars_of(addr_or_port);
    let t = trim_vec(v.as_slice());
    if listen {
        match parse_u16_chars(t.as_slice()) {
            Some(p) => Ok(
                OnlineConfig { local_side: Side::Sente, mode: ConnectMode::Listen(p), secret: bytes_of(secret) },
            ),
            None => Err(crate::text::string_of_str("ポート番号は 1〜65535 の整数で入力してください")),
        }
    } else if t.len() == 0 {
        Err(crate::text::string_of_str("接続先アドレスを入力してください (例: 192.168.1.10:8765)"))
    } else {
        Ok(
            OnlineConfig {
                local_side: Side::Gote,
                mode: ConnectMode::Connect(string_of(t.as_slice())),
                secret: bytes_of(secret),
            },
        )
    }
}

/// What the command line has set so far: a port to wait on, an address to
/// connect to, a secret.
pub struct ArgState {
    pub listen: Option<u16>,
    pub connect: Option<Seq<char>>,
    pub secret: Option<Seq<char>>,
}

/// The command line read from argument `i` on: `--listen <port>` (a port that
/// does not parse clears it), `--connect <addr>`, `--secret <text>`; other
/// arguments are skipped, and an option at the end without a value changes
/// nothing.
pub open spec fn scan_args(args: Seq<Seq<char>>, i: int, st: ArgState) -> ArgState
    decreases args.len() - i,
{
    if i >= args.len() || i < 1 {
        st
    } else if args[i] == "--listen"@ {
        if i + 1 < args.len() {
            scan_args(args, i + 2, ArgState { listen: parse_u16(args[i + 1]), ..st })
        } else {
            st
        }
    } else if args[i] == "--connect"@ {
        if i + 1 < args.len() {
            scan_args(args, i + 2, ArgState { connect: Some(args[i + 1]), ..st })
        } else {
            st
        }
    } else if args[i] == "--secret"@ {
        if i + 1 < args.len() {
            scan_args(args, i + 2, ArgState { secret: Some(args[i + 1]), ..st })
        } else {
            st
        }
    } else {
        scan_args(args, i + 1, st)
    }
}

/// The settings given on the command line (the first argument is the
/// program): none without `--listen` or `--connect`; waiting wins over
/// connecting; a missing secret is empty.
pub open spec fn online_args(args: Seq<Seq<char>>) -> Option<ConfigView> {
    let st = scan_args(args, 1, ArgState { listen: None, connect: None, secret: None });
    let secret = match st.secret {
        Some(s) => encode_utf8(s),
        None => Seq::empty(),
    };
    match st.listen {
        Some(p) => Some(
            ConfigView { local_side: Side::Sente, listen: Some(p), connect: None, secret },
        ),
        None => match st.connect {
            Some(a) => Some(
                ConfigView { local_side: Side::Gote, listen: None, connect: Some(a), secret },
            ),
            None => None,
        },
    }
}

/// The views of a list of strings.
pub open spec fn arg_views(v: Seq<String>) -> Seq<Seq<char>> {
    v.map_values(|s: String| s@)
}

fn is_text(v: &Vec<char>, t: &str) -> (b: bool)
    ensures
        b == (v@ == t@),
{
    let w = chars_of(t);
    chars_eq(v.as_slice(), w.as_slice())
}

/// The settings given on the command line (see `online_args`).
pub fn parse_online_args(args: &[String]) -> (r: Option<OnlineConfig>)
    ensures
        match online_args(arg_views(args@)) {
            Some(c) => r matches Some(x) && config_view(x) == c,
            None => r is None,
        },
{
    let ghost a = arg_views(args@);
    let mut listen: Option<u16> = None;
    let mut connect: Option<Vec<char>> = None;
    let mut secret: Option<Vec<char>> = None;
    let mut i: usize = 1;
    while i < args.len()
        invariant
            1 <= i,
            a == arg_views(args@),
            scan_args(a, i as int, ArgState {
                listen,
                connect: match connect { Some(c) => Some(c@), None => None },
                secret: match secret { Some(c) => Some(c@), None => None },
            }) == scan_args(a, 1, ArgState { listen: None, connect: None, secret: None }),
        ensures
            (ArgState {
                listen,
                connect: match connect { Some(c) => Some(c@), None => None },
                secret: match secret { Some(c) => Some(c@), None => None },
            }) == scan_args(a, 1, ArgState { listen: None, connect: None, secret: None }),
        decreases args.len() - i,
    {
        let cur = chars_of(args[i].as_str());
        assert(cur@ == a[i as int]);
        if is_text(&cur, "--listen") {
            if i + 1 < args.len() {
                let v = chars_of(args[i + 1].as_str());
                listen = parse_u16_chars(v.as_slice());
                i += 2;
            } else {
                break;
            }
        } else if is_text(&cur, "--connect") {
            if i + 1 < args.len() {
                connect = Some(chars_of(args[i + 1].as_str()));
                i += 2;
            } else {
                break;
            }
        } else if is_text(&cur, "--secret") {
            if i + 1 < args.len() {
                secret = Some(chars_of(args[i + 1].as_str()));
                i += 2;
            } else {
                break;
            }
        } else {
            i += 1;
        }
    }
    let ghost st = scan_args(a, 1, ArgState { listen: None, connect: None, secret: None });
    let secret_bytes = match &secret {
        Some(s) => {
            let t = string_of(s.as_slice());
            bytes_of(t.as_str())
        },
        None => Vec::new(),
    };
    match listen {
        Some(p) => Some(OnlineConfig { local_side: Side::Sente, mode: ConnectMode::Listen(p), secret: secret_bytes }),
        None => match connect {
            Some(c) => Some(
                OnlineConfig {
                    local_side: Side::Gote,
                    mode: ConnectMode::Connect(string_of(c.as_slice())),
                    secret: secret_bytes,
                },
            ),
            None => None,
        },
    }
}

/// The room server's message of a type (with the `your_side` field when there
/// is one); none for any other type, which may be a game message.
pub open spec fn system_of(kind: Seq<char>, your_side: Option<Seq<char>>) -> Option<DoSystemMsg> {
    if kind == "peer_joined"@ || kind == "room_ready"@ {
        Some(
            DoSystemMsg::SideAssigned {
                side: if your_side == Some("sente"@) {
                    Side::Sente
                } else {
                    Side::Gote
                },
            },
        )
    } else if kind == "room_full"@ {
        Some(DoSystemMsg::RoomFull)
    } else if kind == "peer_disconnected"@ {
        Some(DoSystemMsg::PeerDisconnected)
    } else if kind == "peer_reconnected"@ {
        Some(DoSystemMsg::PeerReconnected)
    } else if kind == "you_reconnected"@ {
        Some(DoSystemMsg::YouReconnected)
    } else {
        None
    }
}

/// The room server's message of a type (see `system_of`).
pub fn system_message(kind: &str, your_side: Option<&str>) -> (r: Option<DoSystemMsg>)
    ensures
        r == system_of(
            kind@,
            match your_side {
                Some(t) => Some(t@),
                None => None,
            },
        ),
{
    let k = chars_of(kind);
    if is_text(&k, "peer_joined") || is_text(&k, "room_ready") {
        let sente = match your_side {
            Some(t) => {
                let v = chars_of(t);
                is_text(&v, "sente")
            },
            None => false,
        };
        Some(DoSystemMsg::SideAssigned { side: if sente { Side::Sente } else { Side::Gote } })
    } else if is_text(&k, "room_full") {
        Some(DoSystemMsg::RoomFull)
    } else if is_text(&k, "peer_disconnected") {
        Some(DoSystemMsg::PeerDisconnected)
    } else if is_text(&k, "peer_reconnected") {
        Some(DoSystemMsg::PeerReconnected)
    } else if is_text(&k, "you_reconnected") {
        Some(DoSystemMsg::YouReconnected)
    } else {
        None
    }
}

/// The largest message body the LAN channel accepts, in bytes.
pub const MAX_FRAME: usize = 1048576;

/// Four bytes holding `n` big-endian.
pub open spec fn be32(n: int) -> Seq<u8> {
    seq![(n / 16777216) as u8, (n / 65536 % 256) as u8, (n / 256 % 256) as u8, (n % 256) as u8]
}

/// A message of the LAN channel: its length in four big-endian bytes, then it.
pub fn frame(body: &[u8]) -> (r: Vec<u8>)
    requires
        body@.len() <= u32::MAX,
    ensures
        r@ == be32(body@.len() as int) + body@,
{
    let n = body.len() as u32;
    let mut r: Vec<u8> = Vec::new();
    r.push((n / 16777216) as u8);
    r.push((n / 65536 % 256) as u8);
    r.push((n / 256 % 256) as u8);
    r.push((n % 256) as u8);
    let mut i: usize = 0;
    while i < body.len()
        invariant
            i <= body@.len(),
            r@ == be32(n as int) + body@.take(i as int),
        decreases body@.len() - i,
    {
        r.push(body[i]);
        assert(r@ =~= be32(n as int) + body@.take(i + 1));
        i += 1;
    }
    assert(body@.take(body@.len() as int) =~= body@);
    r
}

/// The length that a LAN header announces: the body follows when it is from
/// 1 to `MAX_FRAME` bytes; otherwise the channel is dropped.
pub open spec fn frame_len_of(h: Seq<u8>) -> Option<int> {
    let n = h[0] * 16777216 + h[1] * 65536 + h[2] * 256 + h[3];
    if n == 0 || n > MAX_FRAME {
        None
    } else {
        Some(n)
    }
}

/// The length that a LAN header announces (see `frame_len_of`).
pub fn frame_len(h: [u8; 4]) -> (r: Option<usize>)
    ensures
        match frame_len_of(h@) {
            Some(n) => r == Some(n as usize),
            None => r is None,
        },
{
    let n: u64 = h[0] as u64 * 16777216 + h[1] as u64 * 65536 + h[2] as u64 * 256 + h[3] as u64;
    if n == 0 || n > 1048576 {
        None
    } else {
        Some(n as usize)
    }
}

/// The first `://` at or after `i`.
pub open spec fn scheme_end(s: Seq<char>, i: int) -> Option<int>
    decreases s.len() - i,
{
    if i < 0 || i + 3 > s.len() {
        None
    } else if s[i] == ':' && s[i + 1] == '/' && s[i + 2] == '/' {
        Some(i)
    } else {
        scheme_end(s, i + 1)
    }
}

/// The last `:` among the first `n` characters.
pub open spec fn last_colon(s: Seq<char>, n: int) -> Option<int>
    decreases n,
{
    if n <= 0 {
        None
    } else if s[n - 1] == ':' {
        Some(n - 1)
    } else {
        last_colon(s, n - 1)
    }
}

/// The host and port of `scheme://host[:port]/...`; the port is 443 when absent,
/// and there is none when the scheme separator is missing or the port does not parse.
pub open spec fn host_port(url: Seq<char>) -> Option<(Seq<char>, u16)> {
    match scheme_end(url, 0) {
        None => None,
        Some(k) => {
            let rest = url.skip(k + 3);
            let host_part = match split_once_char(rest, '/') {
                Some(i) => rest.take(i),
                None => rest,
            };
            match last_colon(host_part, host_part.len() as int) {
                Some(j) => match parse_u16(host_part.skip(j + 1)) {
                    Some(p) => Some((host_part.take(j), p)),
                    None => None,
                },
                None => Some((host_part, 443)),
            }
        },
    }
}

/// The first position of `c` in `s`, if any.
pub open spec fn split_once_char(s: Seq<char>, c: char) -> Option<int> {
    if s.contains(c) {
        Some(crate::text::first_index(s, c))
    } else {
        None
    }
}

fn find_scheme_end(v: &Vec<char>) -> (r: Option<usize>)
    ensures
        match r {
            Some(k) => scheme_end(v@, 0) == Some(k as int) && k + 3 <= v@.len(),
            None => scheme_end(v@, 0) is None,
        },
{
    let mut i: usize = 0;
    while i < v.len() && v.len() - i >= 3
        invariant
            i <= v.len(),
            scheme_end(v@, 0) == scheme_end(v@, i as int),
        decreases v.len() - i,
    {
        if v[i] == ':' && v[i + 1] == '/' && v[i + 2] == '/' {
            return Some(i);
        }
        i += 1;
    }
    None
}

/// The host and port of a WebSocket URL (see `host_port`).
pub fn parse_host_port(url: &str) -> (r: Option<(String, u16)>)
    ensures
        match host_port(url@) {
            Some((h, p)) => r matches Some((x, q)) && x@ == h && q == p,
            None => r is None,
        },
{
    let v = chars_of(url);
    let k = match find_scheme_end(&v) {
        Some(k) => k,
        None => {
            return None;
        },
    };
    let n = v.len();
    assert(k + 3 <= n);
    let rest = sub_vec(v.as_slice(), k + 3, n);
    assert(rest@ =~= v@.skip(k + 3));
    let host_part = match crate::text::split_index(rest.as_slice(), '/') {
        Some(j) => sub_vec(rest.as_slice(), 0, j),
        None => rest,
    };
    let ghost hp = host_part@;
    assert(hp =~= match split_once_char(rest@, '/') {
        Some(j) => rest@.take(j),
        None => rest@,
    });
    let mut j = host_part.len();
    while j > 0
        invariant
            j <= hp.len(),
            hp == host_part@,
            last_colon(hp, hp.len() as int) == last_colon(hp, j as int),
        ensures
            j <= hp.len(),
            last_colon(hp, hp.len() as int) == last_colon(hp, j as int),
            j > 0 ==> hp[j - 1] == ':',
        decreases j,
    {
        if host_part[j - 1] == ':' {
            break;
        }
        j -= 1;
    }
    if j == 0 {
        return Some((string_of(host_part.as_slice()), 443));
    }
    assert(last_colon(hp, hp.len() as int) == Some(j - 1));
    let port_chars = sub_vec(host_part.as_slice(), j, host_part.len());
    assert(port_chars@ =~= hp.skip(j as int));
    match parse_u16_chars(port_chars.as_slice()) {
        Some(p) => {
            let h = sub_vec(host_part.as_slice(), 0, j - 1);
            assert(h@ =~= hp.take(j - 1));
            Some((string_of(h.as_slice()), p))
        },
        None => None,
    }
}

/// A byte that a URL carries as it is: a letter, a digit, `-`, `_`, `.` or `~`.
pub open spec fn unreserved(b: u8) -> bool {
    (65 <= b <= 90) || (97 <= b <= 122) || (48 <= b <= 57) || b == 45 || b == 95 || b == 46 || b
        == 126
}

/// An upper-case hexadecimal digit.
pub open spec fn hex_upper(d: int) -> char {
    if d < 10 {
        (48 + d) as char
    } else {
        (55 + d) as char
    }
}

/// The first `n` bytes percent-encoded: unreserved bytes as they are, any
/// other as `%` and two upper-case hexadecimal digits.
pub open spec fn url_encoded(bs: Seq<u8>, n: int) -> Seq<char>
    decreases n,
{
    if n <= 0 {
        Seq::empty()
    } else {
        let b = bs[n - 1];
        url_encoded(bs, n - 1) + if unreserved(b) {
            seq![b as char]
        } else {
            seq!['%', hex_upper(b as int / 16), hex_upper(b as int % 16)]
        }
    }
}

fn hex_upper_char(d: u8) -> (c: char)
    requires
        d < 16,
    ensures
        c == hex_upper(d as int),
{
    if d < 10 {
        (48 + d) as char
    } else {
        (55 + d) as char
    }
}

/// A room key percent-encoded for the room URL (see `url_encoded`, on its UTF-8 bytes).
pub fn urlencode(s: &str) -> (r: String)
    ensures
        r@ == url_encoded(encode_utf8(s@), encode_utf8(s@).len() as int),
{
    let t = s.as_bytes();
    let mut out = String::new();
    let mut i: usize = 0;
    while i < t.len()
        invariant
            i <= t@.len(),
            t@ == encode_utf8(s@),
            out@ == url_encoded(t@, i as int),
        decreases t@.len() - i,
    {
        let b = t[i];
        if (65 <= b && b <= 90) || (97 <= b && b <= 122) || (48 <= b && b <= 57) || b == 45 || b
            == 95 || b == 46 || b == 126 {
            push_char(&mut out, b as char);
        } else {
            push_char(&mut out, '%');
            push_char(&mut out, hex_upper_char(b / 16));
            push_char(&mut out, hex_upper_char(b % 16));
        }
        i += 1;
    }
    out
}

} // verus!
