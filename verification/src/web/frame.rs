//! Frames of a websocket, and the handshake that opens one.

use vstd::prelude::*;
use vstd::utf8::{decode_utf8, encode_utf8, valid_utf8};
use crate::encoding::{base64_encode, base64_of, sha1_digest, sha1_of, text_of_bytes, utf8_bytes};
use crate::text::cat3;

verus! {

/// The most bytes that a frame may hold on the channel with foreground sessions.
pub const WEBSOCKET_MAX_FRAME_BYTES: usize = 131072;

/// The most bytes that a frame may hold on the channel without foreground sessions.
pub const SMALL_FRAME_BYTES: usize = 65536;

pub const OPCODE_TEXT: u8 = 1;

pub const OPCODE_BINARY: u8 = 2;

pub const OPCODE_CLOSE: u8 = 8;

pub const OPCODE_PING: u8 = 9;

pub const OPCODE_PONG: u8 = 10;

// ---------------------------------------------------------------------------
// Numbers in bytes
// ---------------------------------------------------------------------------
/// The number that bytes write, the highest byte first.
pub open spec fn big_endian(b: Seq<u8>) -> nat
    decreases b.len(),
{
    if b.len() == 0 {
        0
    } else {
        big_endian(b.drop_last()) * 256 + b.last() as nat
    }
}

/// A number in `k` bytes, the highest byte first.
pub open spec fn to_big_endian(n: nat, k: nat) -> Seq<u8>
    decreases k,
{
    if k == 0 {
        Seq::empty()
    } else {
        to_big_endian(n / 256, (k - 1) as nat).push((n % 256) as u8)
    }
}

pub open spec fn power256(k: nat) -> nat
    decreases k,
{
    if k == 0 {
        1
    } else {
        256 * power256((k - 1) as nat)
    }
}

proof fn lemma_big_endian_back(n: nat, k: nat)
    requires
        n < power256(k),
    ensures
        to_big_endian(n, k).len() == k,
        big_endian(to_big_endian(n, k)) == n,
    decreases k,
{
    if k > 0 {
        let p = power256((k - 1) as nat);
        assert(n / 256 < p) by (nonlinear_arith)
            requires
                n < 256 * p,
        ;
        lemma_big_endian_back(n / 256, (k - 1) as nat);
        let s = to_big_endian(n, k);
        assert(s.drop_last() =~= to_big_endian(n / 256, (k - 1) as nat));
        assert(n == (n / 256) * 256 + n % 256) by (nonlinear_arith);
    }
}

proof fn lemma_big_endian_bound(b: Seq<u8>)
    ensures
        big_endian(b) < power256(b.len()),
    decreases b.len(),
{
    if b.len() > 0 {
        lemma_big_endian_bound(b.drop_last());
        let p = power256((b.len() - 1) as nat);
        let v = big_endian(b.drop_last());
        assert(v * 256 + b.last() as nat <= (p - 1) * 256 + 255) by (nonlinear_arith)
            requires
                v < p,
                b.last() as nat <= 255,
        ;
    }
}

proof fn lemma_powers()
    ensures
        power256(2) == 65536,
        power256(8) == 0x1_0000_0000_0000_0000,
{
    reveal_with_fuel(power256, 9);
}

fn push_big_endian(list: &mut Vec<u8>, n: u64, k: usize)
    requires
        k <= 8,
    ensures
        final(list)@ == old(list)@ + to_big_endian(n as nat, k as nat),
    decreases k,
{
    if k > 0 {
        push_big_endian(list, n / 256, k - 1);
        let ghost before = list@;
        list.push((n % 256) as u8);
        assert(list@ =~= old(list)@ + to_big_endian(n as nat, k as nat));
    } else {
        assert(list@ =~= old(list)@ + Seq::<u8>::empty());
    }
}

fn read_big_endian(b: &[u8], from: usize, k: usize) -> (n: u64)
    requires
        k <= 8,
        from + k <= b@.len(),
    ensures
        n == big_endian(b@.subrange(from as int, from + k)),
{
    let mut n: u64 = 0;
    let mut i: usize = 0;
    let total: usize = b.len();
    let end: usize = from + k;
    assert(b@.subrange(from as int, from as int) =~= Seq::empty());
    while i < k
        invariant
            i <= k <= 8,
            from + k == end,
            end <= b@.len(),
            n == big_endian(b@.subrange(from as int, from + i)),
        decreases k - i,
    {
        let ghost now = b@.subrange(from as int, from + i + 1);
        proof {
            assert(now.drop_last() =~= b@.subrange(from as int, from + i));
            assert(now.last() == b@[from + i]);
            lemma_big_endian_bound(now);
            lemma_powers();
            lemma_power_grows((i + 1) as nat, 8);
        }
        n = n * 256 + b[from + i] as u64;
        i += 1;
    }
    n
}

proof fn lemma_power_grows(a: nat, b: nat)
    requires
        a <= b,
    ensures
        power256(a) <= power256(b),
    decreases b,
{
    if a < b {
        lemma_power_grows(a, (b - 1) as nat);
    }
}

// ---------------------------------------------------------------------------
// Writing frames
// ---------------------------------------------------------------------------
/// The length of a payload as a frame states it.
pub open spec fn frame_length(n: nat) -> Seq<u8> {
    if n < 126 {
        seq![n as u8]
    } else if n < 65536 {
        seq![126u8] + to_big_endian(n, 2)
    } else {
        seq![127u8] + to_big_endian(n, 8)
    }
}

/// A final frame without a mask.
pub open spec fn frame_bytes(opcode: u8, payload: Seq<u8>) -> Seq<u8> {
    seq![(128 + opcode % 16) as u8] + frame_length(payload.len()) + payload
}

/// Writes a frame.
pub fn encode_frame(opcode: u8, payload: &[u8]) -> (r: Vec<u8>)
    ensures
        r@ == frame_bytes(opcode, payload@),
{
    let n: usize = payload.len();
    let mut r: Vec<u8> = Vec::new();
    r.push(128 + opcode % 16);
    if n < 126 {
        r.push(n as u8);
        assert(r@ =~= seq![(128 + opcode % 16) as u8] + frame_length(n as nat));
    } else if n < 65536 {
        r.push(126);
        push_big_endian(&mut r, n as u64, 2);
        assert(r@ =~= seq![(128 + opcode % 16) as u8] + frame_length(n as nat));
    } else {
        r.push(127);
        push_big_endian(&mut r, n as u64, 8);
        assert(r@ =~= seq![(128 + opcode % 16) as u8] + frame_length(n as nat));
    }
    r.extend_from_slice(payload);
    assert(r@ =~= frame_bytes(opcode, payload@));
    r
}

/// Writes a frame, unless its payload is too large.
pub fn encode_limited_frame(opcode: u8, payload: &[u8]) -> (r: Option<Vec<u8>>)
    ensures
        match r {
            Some(frame) => payload@.len() <= WEBSOCKET_MAX_FRAME_BYTES && frame@ == frame_bytes(
                opcode,
                payload@,
            ),
            None => payload@.len() > WEBSOCKET_MAX_FRAME_BYTES,
        },
{
    if payload.len() > WEBSOCKET_MAX_FRAME_BYTES {
        None
    } else {
        Some(encode_frame(opcode, payload))
    }
}

// ---------------------------------------------------------------------------
// Reading frames
// ---------------------------------------------------------------------------
/// A payload under a mask of four bytes; a mask laid twice is lifted.
pub open spec fn masked(payload: Seq<u8>, mask: Seq<u8>) -> Seq<u8> {
    Seq::new(payload.len(), |i: int| payload[i] ^ mask[i % 4])
}

/// What bytes at the start of a stream say.
pub enum FrameView {
    /// The frame goes on; so many bytes are needed to learn more.
    Incomplete(nat),
    /// The frame holds more than is allowed.
    TooLarge,
    /// A whole frame of so many bytes.
    Whole { opcode: u8, payload: Seq<u8>, size: nat },
}

/// The number of bytes behind the second that state the length.
pub open spec fn extended(code: u8) -> nat {
    if code == 126 {
        2
    } else if code == 127 {
        8
    } else {
        0
    }
}

pub open spec fn frame_of(b: Seq<u8>, max: nat) -> FrameView {
    if b.len() < 2 {
        FrameView::Incomplete(2)
    } else {
        let code = b[1] % 128;
        let ext = extended(code);
        if b.len() < 2 + ext {
            FrameView::Incomplete(2 + ext)
        } else {
            let n = if ext == 0 {
                code as nat
            } else {
                big_endian(b.subrange(2, 2 + ext as int))
            };
            if n > max {
                FrameView::TooLarge
            } else {
                let at = 2 + ext + (if b[1] >= 128 {
                    4nat
                } else {
                    0
                });
                if b.len() < at + n {
                    FrameView::Incomplete(at + n)
                } else {
                    let raw = b.subrange(at as int, (at + n) as int);
                    FrameView::Whole {
                        opcode: b[0] % 16,
                        payload: if b[1] >= 128 {
                            masked(raw, b.subrange(at - 4, at as int))
                        } else {
                            raw
                        },
                        size: at + n,
                    }
                }
            }
        }
    }
}

#[derive(Debug)]
pub enum FrameProgress {
    Incomplete(usize),
    TooLarge,
    Whole { opcode: u8, payload: Vec<u8>, size: usize },
}

impl FrameProgress {
    pub open spec fn view(self) -> FrameView {
        match self {
            FrameProgress::Incomplete(n) => FrameView::Incomplete(n as nat),
            FrameProgress::TooLarge => FrameView::TooLarge,
            FrameProgress::Whole { opcode, payload, size } => FrameView::Whole {
                opcode,
                payload: payload@,
                size: size as nat,
            },
        }
    }
}

/// Reads the frame at the start of a stream.
pub fn decode_frame(b: &[u8], max: usize) -> (r: FrameProgress)
    requires
        max <= WEBSOCKET_MAX_FRAME_BYTES,
    ensures
        r@ == frame_of(b@, max as nat),
{
    if b.len() < 2 {
        return FrameProgress::Incomplete(2);
    }
    let code: u8 = b[1] % 128;
    let ext: usize = if code == 126 {
        2
    } else if code == 127 {
        8
    } else {
        0
    };
    if b.len() < 2 + ext {
        return FrameProgress::Incomplete(2 + ext);
    }
    let n: u64 = if ext == 0 {
        code as u64
    } else {
        read_big_endian(b, 2, ext)
    };
    if n > max as u64 {
        return FrameProgress::TooLarge;
    }
    let n: usize = n as usize;
    let is_masked: bool = b[1] >= 128;
    let at: usize = if is_masked {
        2 + ext + 4
    } else {
        2 + ext
    };
    if b.len() < at + n {
        return FrameProgress::Incomplete(at + n);
    }
    let ghost raw = b@.subrange(at as int, at + n);
    let mut payload: Vec<u8> = Vec::new();
    let mut i: usize = 0;
    let ghost whole = if is_masked {
        masked(raw, b@.subrange(at - 4, at as int))
    } else {
        raw
    };
    while i < n
        invariant
            i <= n,
            at + n <= b@.len(),
            at <= 14,
            n <= WEBSOCKET_MAX_FRAME_BYTES,
            is_masked ==> at >= 6,
            raw == b@.subrange(at as int, at + n),
            whole == if is_masked {
                masked(raw, b@.subrange(at - 4, at as int))
            } else {
                raw
            },
            payload@ =~= whole.take(i as int),
        decreases n - i,
    {
        if is_masked {
            let m: u8 = b[at - 4 + i % 4];
            payload.push(b[at + i] ^ m);
        } else {
            payload.push(b[at + i]);
        }
        i += 1;
    }
    assert(whole.take(n as int) =~= whole);
    FrameProgress::Whole { opcode: b[0] % 16, payload, size: at + n }
}

/// What a client sent.
#[derive(Debug)]
pub enum ClientWebSocketFrame {
    Text(String),
    Binary(Vec<u8>),
    Ping(Vec<u8>),
    Pong,
    Close,
}

#[derive(Clone, Copy, Debug, PartialEq, Eq, Structural)]
pub enum FrameError {
    NotUtf8,
    UnsupportedOpcode(u8),
}

/// Tells frames apart by their opcode.
pub fn classify_frame(opcode: u8, payload: Vec<u8>) -> (r: Result<ClientWebSocketFrame, FrameError>)
    ensures
        match r {
            Ok(ClientWebSocketFrame::Text(t)) => opcode == OPCODE_TEXT && valid_utf8(payload@)
                && t@ == decode_utf8(payload@),
            Ok(ClientWebSocketFrame::Binary(b)) => opcode == OPCODE_BINARY && b == payload,
            Ok(ClientWebSocketFrame::Ping(b)) => opcode == OPCODE_PING && b == payload,
            Ok(ClientWebSocketFrame::Pong) => opcode == OPCODE_PONG,
            Ok(ClientWebSocketFrame::Close) => opcode == OPCODE_CLOSE,
            Err(FrameError::NotUtf8) => opcode == OPCODE_TEXT && !valid_utf8(payload@),
            Err(FrameError::UnsupportedOpcode(o)) => o == opcode && opcode != OPCODE_TEXT && opcode
                != OPCODE_BINARY && opcode != OPCODE_CLOSE && opcode != OPCODE_PING && opcode
                != OPCODE_PONG,
        },
{
    if opcode == OPCODE_TEXT {
        match text_of_bytes(payload) {
            Some(t) => Ok(ClientWebSocketFrame::Text(t)),
            None => Err(FrameError::NotUtf8),
        }
    } else if opcode == OPCODE_BINARY {
        Ok(ClientWebSocketFrame::Binary(payload))
    } else if opcode == OPCODE_CLOSE {
        Ok(ClientWebSocketFrame::Close)
    } else if opcode == OPCODE_PING {
        Ok(ClientWebSocketFrame::Ping(payload))
    } else if opcode == OPCODE_PONG {
        Ok(ClientWebSocketFrame::Pong)
    } else {
        Err(FrameError::UnsupportedOpcode(opcode))
    }
}

// ---------------------------------------------------------------------------
// Laws
// ---------------------------------------------------------------------------
/// A frame on the stream: a final one of its kind, its length in seven bits, or in the two or
/// eight bytes behind the mark for them with the highest byte first, and the bytes as they
/// are.
pub proof fn frame_has_its_length_in_front(opcode: u8, payload: Seq<u8>)
    requires
        opcode < 16,
        payload.len() < 0x1_0000_0000_0000_0000,
    ensures
        ({
            let b = frame_bytes(opcode, payload);
            let n = payload.len();
            &&& b[0] == 0x80 + opcode
            &&& payload.is_suffix_of(b)
            &&& n < 126 ==> b.len() == 2 + n && b[1] == n
            &&& 126 <= n < 65536 ==> b.len() == 4 + n && b[1] == 126 && b[2] == n / 256 && b[3] == n
                % 256
            &&& n >= 65536 ==> b.len() == 10 + n && b[1] == 127 && b[9] == n % 256 && b[8] == n / 256
                % 256 && b[7] == n / 65536 % 256 && b[6] == n / 0x100_0000 % 256
        }),
{
    let b = frame_bytes(opcode, payload);
    let n = payload.len();
    assert(b.subrange(b.len() - n, b.len() as int) =~= payload);
    let two = to_big_endian(n, 2);
    let one = to_big_endian(n / 256, 1);
    assert(to_big_endian(n / 256 / 256, 0) =~= Seq::<u8>::empty());
    assert(one =~= seq![(n / 256 % 256) as u8]);
    assert(two =~= seq![(n / 256 % 256) as u8, (n % 256) as u8]);
    if n >= 65536 {
        lemma_big_endian_len(n, 8);
        lemma_big_endian_len(n / 256, 7);
        lemma_big_endian_len(n / 256 / 256, 6);
        lemma_big_endian_len(n / 256 / 256 / 256, 5);
        lemma_big_endian_len(n / 256 / 256 / 256 / 256, 4);
        let e = to_big_endian(n, 8);
        let s7 = to_big_endian(n / 256, 7);
        let s6 = to_big_endian(n / 256 / 256, 6);
        let s5 = to_big_endian(n / 256 / 256 / 256, 5);
        assert(e == s7.push((n % 256) as u8));
        assert(s7 == s6.push((n / 256 % 256) as u8));
        assert(s6 == s5.push((n / 256 / 256 % 256) as u8));
        assert(s5 == to_big_endian(n / 256 / 256 / 256 / 256, 4).push(
            (n / 256 / 256 / 256 % 256) as u8,
        ));
        assert(n / 65536 == n / 256 / 256);
        assert(n / 0x100_0000 == n / 256 / 256 / 256);
        assert(b[9] == e[7] && b[8] == e[6] && b[7] == e[5] && b[6] == e[4]);
    }
}

proof fn lemma_big_endian_len(n: nat, k: nat)
    ensures
        to_big_endian(n, k).len() == k,
    decreases k,
{
    if k > 0 {
        lemma_big_endian_len(n / 256, (k - 1) as nat);
    }
}

/// A frame of a client is masked: each byte is read by the byte of the mask that comes round
/// every four bytes.
pub proof fn frame_of_a_client_is_unmasked(
    opcode: u8,
    mask: Seq<u8>,
    raw: Seq<u8>,
    tail: Seq<u8>,
    max: nat,
    i: int,
)
    requires
        opcode < 16,
        mask.len() == 4,
        raw.len() < 126,
        raw.len() <= max,
        0 <= i < raw.len(),
    ensures
        ({
            let b = seq![(0x80 + opcode) as u8, (0x80 + raw.len()) as u8] + mask + raw + tail;
            &&& frame_of(b, max) matches FrameView::Whole { opcode: o, payload, size }
            &&& o == opcode
            &&& size == 6 + raw.len()
            &&& payload.len() == raw.len()
            &&& payload[i] == raw[i] ^ mask[i % 4]
        }),
        frame_of(seq![(0x80 + opcode) as u8, (0x80 + raw.len()) as u8] + mask, max)
            is Incomplete,
{
    let head = seq![(0x80 + opcode) as u8, (0x80 + raw.len()) as u8];
    let b = head + mask + raw + tail;
    assert(b[0] == 0x80 + opcode && b[1] == 0x80 + raw.len());
    assert(b[1] % 128 == raw.len());
    assert(b[0] % 16 == opcode);
    let n = raw.len() as int;
    assert(b.subrange(6, 6 + n) =~= raw);
    assert(b.subrange(2, 6) =~= mask);
    let c = head + mask;
    assert(c[1] == 0x80 + raw.len());
}

/// A frame that was written is read back, whatever follows it on the stream.
pub proof fn written_frame_is_read_back(opcode: u8, payload: Seq<u8>, tail: Seq<u8>, max: nat)
    requires
        opcode < 16,
        payload.len() <= max,
        payload.len() < 0x1_0000_0000_0000_0000,
    ensures
        frame_of(frame_bytes(opcode, payload) + tail, max) == (FrameView::Whole {
            opcode,
            payload,
            size: frame_bytes(opcode, payload).len(),
        }),
{
    lemma_powers();
    let n = payload.len();
    let f = frame_bytes(opcode, payload);
    let b = f + tail;
    assert(b[0] == 128 + opcode);
    assert(b[0] % 16 == opcode);
    if n < 126 {
        assert(frame_length(n).len() == 1);
        assert(b[1] == n as u8);
        assert(b.subrange(2, 2 + n as int) =~= payload);
    } else if n < 65536 {
        lemma_big_endian_back(n, 2);
        assert(frame_length(n).len() == 3);
        assert(b[1] == 126);
        assert(b.subrange(2, 4) =~= to_big_endian(n, 2));
        assert(b.subrange(4, 4 + n as int) =~= payload);
    } else {
        lemma_big_endian_back(n, 8);
        assert(frame_length(n).len() == 9);
        assert(b[1] == 127);
        assert(b.subrange(2, 10) =~= to_big_endian(n, 8));
        assert(b.subrange(10, 10 + n as int) =~= payload);
    }
}

/// A mask that is laid twice leaves the payload as it was.
pub proof fn mask_lifts_itself(payload: Seq<u8>, mask: Seq<u8>)
    ensures
        masked(masked(payload, mask), mask) == payload,
{
    assert forall|i: int| 0 <= i < payload.len() implies masked(masked(payload, mask), mask)[i]
        == payload[i] by {
        let p = payload[i];
        let m = mask[i % 4];
        assert((p ^ m) ^ m == p) by (bit_vector);
    }
    assert(masked(masked(payload, mask), mask) =~= payload);
}

// ---------------------------------------------------------------------------
// Handshake
// ---------------------------------------------------------------------------
/// The answer to the key of a client.
pub open spec fn accept_key(key: Seq<char>) -> Seq<char> {
    base64_of(
        sha1_of(encode_utf8(key) + encode_utf8("258EAFA5-E914-47DA-95CA-C5AB0DC85B11"@)),
    )
}

pub fn websocket_accept_key(key: &str) -> (r: String)
    ensures
        r@ == accept_key(key@),
{
    let mut bytes: Vec<u8> = utf8_bytes(key);
    let guid: Vec<u8> = utf8_bytes("258EAFA5-E914-47DA-95CA-C5AB0DC85B11");
    bytes.extend_from_slice(guid.as_slice());
    assert(bytes@ =~= encode_utf8(key@) + encode_utf8("258EAFA5-E914-47DA-95CA-C5AB0DC85B11"@));
    let digest: Vec<u8> = sha1_digest(bytes.as_slice());
    base64_encode(digest.as_slice())
}

/// The response that opens a websocket.
pub fn handshake_response(key: &str) -> (r: String)
    ensures
        r@
            == "HTTP/1.1 101 Switching Protocols\r\nUpgrade: websocket\r\nConnection: Upgrade\r\nSec-WebSocket-Accept: "@
            + accept_key(key@) + "\r\n\r\n"@,
{
    let accept: String = websocket_accept_key(key);
    cat3(
        "HTTP/1.1 101 Switching Protocols\r\nUpgrade: websocket\r\nConnection: Upgrade\r\nSec-WebSocket-Accept: ",
        accept.as_str(),
        "\r\n\r\n",
    )
}

} // verus!
