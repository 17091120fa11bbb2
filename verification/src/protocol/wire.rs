//! The messages of the game channel, and hexadecimal text for 32-byte values.
//! Their JSON form is the application's: this module holds the values.
use vstd::prelude::*;
use vstd::utf8::{encode_utf8, is_ascii_chars, is_ascii_chars_encode_utf8};

use crate::text::push_char;

verus! {

/// A message of the game channel.
#[derive(Debug, Clone, PartialEq, Eq)]
pub enum WireMessage {
    /// The handshake: versions, the hash of the shared secret, and the side.
    Hello { rule_major: u32, rule_minor: u32, proto_ver: u32, auth_hash: String, side: String },
    /// A commitment, in hexadecimal.
    Commit { commitment: String },
    /// A reveal: the action in USI, the nonce and the board hash in hexadecimal.
    Reveal { action: String, nonce: String, board_hash: String },
    /// An acknowledgement of the other side's reveal.
    Ack,
    /// A reconnection request: the hash of the secret and the current board hash.
    Reconnect { auth_hash: String, board_hash: String },
    /// The acceptance of a reconnection, with the board hash to resume from.
    ReconnectAck { board_hash: String },
    /// The end of the game on a protocol failure, with a reason.
    Abort { reason: String },
}

/// Why a text is not a message of the game channel.
#[derive(Debug, Clone, Copy, PartialEq, Eq, Structural)]
pub enum WireError {
    InvalidJson,
    UnknownType,
}

/// The lower-case hexadecimal digit of `d` (below 16).
pub open spec fn hex_digit(d: int) -> char {
    if d < 10 {
        (48 + d) as char
    } else {
        (87 + d) as char
    }
}

/// Two lower-case hexadecimal digits per byte.
pub open spec fn hex_text(bytes: Seq<u8>) -> Seq<char> {
    Seq::new(
        2 * bytes.len(),
        |i: int|
            if i % 2 == 0 {
                hex_digit((bytes[i / 2] / 16) as int)
            } else {
                hex_digit((bytes[i / 2] % 16) as int)
            },
    )
}

fn digit(d: u8) -> (c: char)
    requires
        d < 16,
    ensures
        c == hex_digit(d as int),
{
    if d < 10 {
        (48 + d) as char
    } else {
        (87 + d) as char
    }
}

/// The bytes in lower-case hexadecimal, two digits each.
pub fn to_hex(bytes: &[u8]) -> (s: String)
    ensures
        s@ == hex_text(bytes@),
{
    let mut s = String::new();
    let mut i: usize = 0;
    while i < bytes.len()
        invariant
            i <= bytes.len(),
            s@ == hex_text(bytes@.take(i as int)),
        decreases bytes.len() - i,
    {
        let ghost before = s@;
        let b = bytes[i];
        push_char(&mut s, digit(b / 16));
        push_char(&mut s, digit(b % 16));
        assert(s@ =~= hex_text(bytes@.take(i + 1))) by {
            let t = bytes@.take(i + 1);
            assert forall|k: int| 0 <= k < s@.len() implies s@[k] == hex_text(t)[k] by {
                if k < 2 * i {
                    assert(hex_text(bytes@.take(i as int))[k] == hex_text(t)[k]);
                }
            }
        }
        i += 1;
    }
    assert(bytes@.take(bytes@.len() as int) =~= bytes@);
    s
}

/// The value of a hexadecimal digit byte, in either case.
pub open spec fn hex_value(c: u8) -> Option<u8> {
    if 48 <= c <= 57 {
        Some((c - 48) as u8)
    } else if 97 <= c <= 102 {
        Some((c - 87) as u8)
    } else if 65 <= c <= 70 {
        Some((c - 55) as u8)
    } else {
        None
    }
}

/// The byte that two hexadecimal digits name, high digit first.
pub open spec fn hex_pair(a: u8, b: u8) -> Option<u8> {
    match (hex_value(a), hex_value(b)) {
        (Some(x), Some(y)) => Some((16 * x + y) as u8),
        _ => None,
    }
}

/// Reads 32 bytes from 64 bytes of hexadecimal text, two by two.
pub open spec fn hex32_of(t: Seq<u8>) -> Option<Seq<u8>> {
    if t.len() == 64 && forall|i: int| 0 <= i < 32 ==> #[trigger] hex_pair(t[2 * i], t[2 * i + 1]) is Some {
        Some(Seq::new(32, |i: int| hex_pair(t[2 * i], t[2 * i + 1])->0))
    } else {
        None
    }
}

fn value_of(c: u8) -> (r: Option<u8>)
    ensures
        r == hex_value(c),
{
    if 48 <= c && c <= 57 {
        Some(c - 48)
    } else if 97 <= c && c <= 102 {
        Some(c - 87)
    } else if 65 <= c && c <= 70 {
        Some(c - 55)
    } else {
        None
    }
}

fn pair_of(a: u8, b: u8) -> (r: Option<u8>)
    ensures
        r == hex_pair(a, b),
{
    match (value_of(a), value_of(b)) {
        (Some(x), Some(y)) => Some(16 * x + y),
        _ => None,
    }
}

/// Reads 32 bytes from their hexadecimal text (see `hex32_of`, on the UTF-8
/// bytes of `s`).
pub fn from_hex32(s: &str) -> (r: Option<[u8; 32]>)
    ensures
        match hex32_of(encode_utf8(s@)) {
            Some(v) => r matches Some(a) && a@ == v,
            None => r is None,
        },
{
    let t = s.as_bytes();
    if t.len() != 64 {
        return None;
    }
    let mut out = [0u8; 32];
    let mut i: usize = 0;
    while i < 32
        invariant
            i <= 32,
            t@ == encode_utf8(s@),
            t@.len() == 64,
            forall|k: int| 0 <= k < i ==> #[trigger] hex_pair(t@[2 * k], t@[2 * k + 1]) == Some(out@[k]),
        decreases 32 - i,
    {
        match pair_of(t[2 * i], t[2 * i + 1]) {
            Some(v) => {
                out[i] = v;
            },
            None => {
                assert(hex_pair(t@[2 * (i as int)], t@[2 * (i as int) + 1]) is None);
                return None;
            },
        }
        i += 1;
    }
    assert(out@ =~= Seq::new(32, |k: int| hex_pair(t@[2 * k], t@[2 * k + 1])->0));
    Some(out)
}

/// Law: reading the hexadecimal text of 32 bytes gives them back.
pub proof fn lemma_hex_roundtrip(bytes: Seq<u8>)
    requires
        bytes.len() == 32,
    ensures
        hex32_of(encode_utf8(hex_text(bytes))) == Some(bytes),
{
    let h = hex_text(bytes);
    assert(is_ascii_chars(h)) by {
        assert forall|i: int| 0 <= i < h.len() implies '\0' <= #[trigger] h[i] <= '\u{7f}' by {
            if i % 2 == 0 {
                assert(bytes[i / 2] / 16 < 16);
            } else {
                assert(bytes[i / 2] % 16 < 16);
            }
        }
    }
    is_ascii_chars_encode_utf8(h);
    let t = encode_utf8(h);
    assert forall|i: int| 0 <= i < 32 implies #[trigger] hex_pair(t[2 * i], t[2 * i + 1]) == Some(bytes[i]) by {
        let b = bytes[i];
        assert(t[2 * i] == h[2 * i] as u8);
        assert(t[2 * i + 1] == h[2 * i + 1] as u8);
        assert((2 * i) / 2 == i);
        assert((2 * i + 1) / 2 == i);
        assert((2 * i) % 2 == 0);
        assert((2 * i + 1) % 2 == 1);
        let hi = b / 16;
        let lo = b % 16;
        assert(h[2 * i] == hex_digit(hi as int));
        assert(h[2 * i + 1] == hex_digit(lo as int));
        assert(hex_value(h[2 * i] as u8) == Some(hi));
        assert(hex_value(h[2 * i + 1] as u8) == Some(lo));
        assert(16 * hi + lo == b);
    }
    assert(hex32_of(t) == Some(bytes)) by {
        assert(Seq::new(32, |i: int| hex_pair(t[2 * i], t[2 * i + 1])->0) =~= bytes);
    }
}

} // verus!
