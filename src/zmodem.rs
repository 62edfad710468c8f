//! ZMODEM framing: frame kinds and headers, hex and binary headers, escaping, data
//! subpackets, and the cancel sequence.

use vstd::prelude::*;

use crate::bytes::{bytes_equal, slice_range};
use crate::crc::{crc16, crc16_of, crc32, crc32_of};

verus! {

pub const ZPAD: u8 = 0x2a;
pub const ZDLE: u8 = 0x18;
pub const ZBIN: u8 = 0x41;
pub const ZHEX: u8 = 0x42;
pub const ZBIN32: u8 = 0x43;
/// Subpacket ends, no reply wanted, no more subpackets follow.
pub const ZCRCE: u8 = 0x68;
/// Subpacket ends, no reply wanted, more subpackets follow.
pub const ZCRCG: u8 = 0x69;
/// Subpacket ends, a ZACK is wanted, more subpackets follow.
pub const ZCRCQ: u8 = 0x6a;
/// Subpacket ends, a ZACK is wanted, the sender waits for it.
pub const ZCRCW: u8 = 0x6b;
pub const XON: u8 = 0x11;
pub const XOFF: u8 = 0x13;
pub const CAN: u8 = 0x18;
pub const BACKSPACE: u8 = 0x08;
pub const CR: u8 = 0x0d;
pub const LF: u8 = 0x0a;

/// The frame types of ZMODEM, in the order of their type codes 0 to 19.
#[derive(Clone, Copy, Debug, PartialEq, Eq, Structural)]
pub enum FrameKind {
    RqInit,
    RInit,
    SInit,
    Ack,
    File,
    Skip,
    Nak,
    Abort,
    Fin,
    RPos,
    Data,
    Eof,
    FErr,
    Crc,
    Challenge,
    Compl,
    Can,
    FreeCnt,
    Command,
    StdErr,
}

/// The type code of a frame kind.
pub open spec fn kind_code(k: FrameKind) -> u8 {
    match k {
        FrameKind::RqInit => 0,
        FrameKind::RInit => 1,
        FrameKind::SInit => 2,
        FrameKind::Ack => 3,
        FrameKind::File => 4,
        FrameKind::Skip => 5,
        FrameKind::Nak => 6,
        FrameKind::Abort => 7,
        FrameKind::Fin => 8,
        FrameKind::RPos => 9,
        FrameKind::Data => 10,
        FrameKind::Eof => 11,
        FrameKind::FErr => 12,
        FrameKind::Crc => 13,
        FrameKind::Challenge => 14,
        FrameKind::Compl => 15,
        FrameKind::Can => 16,
        FrameKind::FreeCnt => 17,
        FrameKind::Command => 18,
        FrameKind::StdErr => 19,
    }
}

/// The frame kind with type code `c`, if there is one.
pub open spec fn kind_of_code(c: u8) -> Option<FrameKind> {
    if c == 0 { Some(FrameKind::RqInit) }
    else if c == 1 { Some(FrameKind::RInit) }
    else if c == 2 { Some(FrameKind::SInit) }
    else if c == 3 { Some(FrameKind::Ack) }
    else if c == 4 { Some(FrameKind::File) }
    else if c == 5 { Some(FrameKind::Skip) }
    else if c == 6 { Some(FrameKind::Nak) }
    else if c == 7 { Some(FrameKind::Abort) }
    else if c == 8 { Some(FrameKind::Fin) }
    else if c == 9 { Some(FrameKind::RPos) }
    else if c == 10 { Some(FrameKind::Data) }
    else if c == 11 { Some(FrameKind::Eof) }
    else if c == 12 { Some(FrameKind::FErr) }
    else if c == 13 { Some(FrameKind::Crc) }
    else if c == 14 { Some(FrameKind::Challenge) }
    else if c == 15 { Some(FrameKind::Compl) }
    else if c == 16 { Some(FrameKind::Can) }
    else if c == 17 { Some(FrameKind::FreeCnt) }
    else if c == 18 { Some(FrameKind::Command) }
    else if c == 19 { Some(FrameKind::StdErr) }
    else { None }
}

impl FrameKind {
    pub fn code(&self) -> (r: u8)
        ensures
            r == kind_code(*self),
    {
        match self {
            FrameKind::RqInit => 0,
            FrameKind::RInit => 1,
            FrameKind::SInit => 2,
            FrameKind::Ack => 3,
            FrameKind::File => 4,
            FrameKind::Skip => 5,
            FrameKind::Nak => 6,
            FrameKind::Abort => 7,
            FrameKind::Fin => 8,
            FrameKind::RPos => 9,
            FrameKind::Data => 10,
            FrameKind::Eof => 11,
            FrameKind::FErr => 12,
            FrameKind::Crc => 13,
            FrameKind::Challenge => 14,
            FrameKind::Compl => 15,
            FrameKind::Can => 16,
            FrameKind::FreeCnt => 17,
            FrameKind::Command => 18,
            FrameKind::StdErr => 19,
        }
    }

    pub fn from_code(c: u8) -> (r: Option<FrameKind>)
        ensures
            r == kind_of_code(c),
    {
        if c == 0 { Some(FrameKind::RqInit) }
        else if c == 1 { Some(FrameKind::RInit) }
        else if c == 2 { Some(FrameKind::SInit) }
        else if c == 3 { Some(FrameKind::Ack) }
        else if c == 4 { Some(FrameKind::File) }
        else if c == 5 { Some(FrameKind::Skip) }
        else if c == 6 { Some(FrameKind::Nak) }
        else if c == 7 { Some(FrameKind::Abort) }
        else if c == 8 { Some(FrameKind::Fin) }
        else if c == 9 { Some(FrameKind::RPos) }
        else if c == 10 { Some(FrameKind::Data) }
        else if c == 11 { Some(FrameKind::Eof) }
        else if c == 12 { Some(FrameKind::FErr) }
        else if c == 13 { Some(FrameKind::Crc) }
        else if c == 14 { Some(FrameKind::Challenge) }
        else if c == 15 { Some(FrameKind::Compl) }
        else if c == 16 { Some(FrameKind::Can) }
        else if c == 17 { Some(FrameKind::FreeCnt) }
        else if c == 18 { Some(FrameKind::Command) }
        else if c == 19 { Some(FrameKind::StdErr) }
        else { None }
    }
}

/// Every type code names its kind back.
pub proof fn lemma_kind_code_inverse(k: FrameKind)
    ensures
        kind_of_code(kind_code(k)) == Some(k),
{
}

/// A frame header: its kind and four bytes `z0` to `z3` (flags, or a file offset with its
/// least significant byte first).
#[derive(Clone, Copy, Debug, PartialEq, Eq, Structural)]
pub struct Header {
    pub kind: FrameKind,
    pub z0: u8,
    pub z1: u8,
    pub z2: u8,
    pub z3: u8,
}

/// The five bytes that a header's check covers: type code, then `z0` to `z3`.
pub open spec fn header_bytes(h: Header) -> Seq<u8> {
    seq![kind_code(h.kind), h.z0, h.z1, h.z2, h.z3]
}

/// The offset that a header carries, `z0` least significant.
pub open spec fn header_offset(h: Header) -> nat {
    (h.z0 as nat) + (h.z1 as nat) * 0x100 + (h.z2 as nat) * 0x1_0000 + (h.z3 as nat) * 0x100_0000
}

/// The header of kind `kind` that carries `offset`.
pub open spec fn at_offset(kind: FrameKind, offset: u32) -> Header {
    Header {
        kind,
        z0: (offset % 0x100) as u8,
        z1: (offset / 0x100 % 0x100) as u8,
        z2: (offset / 0x1_0000 % 0x100) as u8,
        z3: (offset / 0x100_0000) as u8,
    }
}

/// The offset carried by `at_offset(kind, offset)` is `offset`.
pub proof fn lemma_at_offset(kind: FrameKind, offset: u32)
    ensures
        header_offset(at_offset(kind, offset)) == offset as nat,
{
}

impl Header {
    /// A header that carries a file offset (ZRPOS, ZDATA, ZEOF, ZACK).
    pub fn with_offset(kind: FrameKind, offset: u32) -> (r: Header)
        ensures
            r == at_offset(kind, offset),
            header_offset(r) == offset as nat,
    {
        proof {
            lemma_at_offset(kind, offset);
        }
        Header {
            kind,
            z0: (offset % 0x100) as u8,
            z1: (offset / 0x100 % 0x100) as u8,
            z2: (offset / 0x1_0000 % 0x100) as u8,
            z3: (offset / 0x100_0000) as u8,
        }
    }

    /// The offset this header carries.
    pub fn offset(&self) -> (r: u32)
        ensures
            r as nat == header_offset(*self),
    {
        self.z0 as u32 + self.z1 as u32 * 0x100 + self.z2 as u32 * 0x1_0000 + self.z3 as u32
            * 0x100_0000
    }
}

/// The lower-case hex digit of a value below 16.
pub open spec fn hex_digit(n: u8) -> u8 {
    if n < 10 {
        (0x30 + n) as u8
    } else {
        (0x57 + n) as u8
    }
}

/// The value of a lower-case hex digit, if `c` is one.
pub open spec fn hex_value(c: u8) -> Option<u8> {
    if 0x30 <= c <= 0x39 {
        Some((c - 0x30) as u8)
    } else if 0x61 <= c <= 0x66 {
        Some((c - 0x57) as u8)
    } else {
        None
    }
}

/// Each byte as two lower-case hex digits, high nibble first.
pub open spec fn hex_of(s: Seq<u8>) -> Seq<u8> {
    Seq::new(
        2 * s.len(),
        |j: int|
            if j % 2 == 0 {
                hex_digit(s[j / 2] >> 4u8)
            } else {
                hex_digit(s[j / 2] & 0xf)
            },
    )
}

/// A header's five bytes followed by their CRC-16, high byte first.
pub open spec fn checked_header(h: Header) -> Seq<u8> {
    let c = crc16_of(header_bytes(h));
    header_bytes(h) + seq![(c >> 8u16) as u8, (c & 0xff) as u8]
}

/// A header as a hex frame: `ZPAD ZPAD ZDLE ZHEX`, fourteen hex digits, `CR LF XON`.
pub open spec fn hex_frame(h: Header) -> Seq<u8> {
    seq![ZPAD, ZPAD, ZDLE, ZHEX] + hex_of(checked_header(h)) + seq![CR, LF, XON]
}

/// Where the hex digits of a hex frame start: after `ZPAD ZPAD ZDLE ZHEX` or `ZPAD ZDLE ZHEX`;
/// 0 where `s` starts with neither.
pub open spec fn hex_start(s: Seq<u8>) -> int {
    if s.len() >= 4 && s[0] == ZPAD && s[1] == ZPAD && s[2] == ZDLE && s[3] == ZHEX {
        4
    } else if s.len() >= 3 && s[0] == ZPAD && s[1] == ZDLE && s[2] == ZHEX {
        3
    } else {
        0
    }
}

/// The `i`-th byte spelled by the hex digits from `start` on; all of them must be digits.
pub open spec fn unhex_at(s: Seq<u8>, start: int, i: int) -> u8 {
    (hex_value(s[start + 2 * i]).unwrap() * 16 + hex_value(s[start + 2 * i + 1]).unwrap()) as u8
}

/// What a received hex frame holds: a header whose type code is known and whose CRC-16 is
/// right, or nothing. Bytes after the fourteen digits are not looked at.
pub open spec fn parse_hex_header(s: Seq<u8>) -> Option<Header> {
    let st = hex_start(s);
    if st == 0 || s.len() < st + 14 {
        None
    } else if exists|j: int| st <= j < st + 14 && hex_value(#[trigger] s[j]).is_none() {
        None
    } else {
        let b = Seq::new(7, |i: int| unhex_at(s, st, i));
        match kind_of_code(b[0]) {
            None => None,
            Some(kind) => {
                let h = Header { kind, z0: b[1], z1: b[2], z2: b[3], z3: b[4] };
                if crc16_of(header_bytes(h)) as int == b[5] as int * 256 + b[6] as int {
                    Some(h)
                } else {
                    None
                }
            },
        }
    }
}

fn hex_digit_exec(n: u8) -> (r: u8)
    requires
        n < 16,
    ensures
        r == hex_digit(n),
{
    if n < 10 {
        0x30 + n
    } else {
        0x57 + n
    }
}

fn hex_value_exec(c: u8) -> (r: Option<u8>)
    ensures
        r == hex_value(c),
{
    if 0x30 <= c && c <= 0x39 {
        Some(c - 0x30)
    } else if 0x61 <= c && c <= 0x66 {
        Some(c - 0x57)
    } else {
        None
    }
}

proof fn lemma_hex_digit_value(n: u8)
    requires
        n < 16,
    ensures
        hex_value(hex_digit(n)) == Some(n),
{
}

proof fn lemma_nibbles(b: u8)
    ensures
        (b >> 4u8) < 16,
        (b & 0xf) < 16,
        (b >> 4u8) * 16 + (b & 0xf) == b,
{
    assert((b >> 4u8) < 16) by (bit_vector);
    assert((b & 0xf) < 16) by (bit_vector);
    assert((b >> 4u8) * 16 + (b & 0xf) == b) by (bit_vector);
}

/// Appends the hex digits of `src` to `dst`.
fn append_hex(dst: &mut Vec<u8>, src: &[u8])
    ensures
        final(dst)@ == old(dst)@ + hex_of(src@),
{
    let ghost start = dst@;
    let mut i: usize = 0;
    while i < src.len()
        invariant
            i <= src@.len(),
            dst@ == start + hex_of(src@.subrange(0, i as int)),
        decreases src@.len() - i,
    {
        let b = src[i];
        proof {
            lemma_nibbles(b);
        }
        dst.push(hex_digit_exec(b >> 4u8));
        dst.push(hex_digit_exec(b & 0xf));
        i += 1;
        proof {
            let t = src@.subrange(0, i as int);
            assert(dst@ =~= start + hex_of(t)) by {
                assert forall|j: int| 0 <= j < hex_of(t).len() implies #[trigger] hex_of(t)[j] == (
                dst@[start.len() + j]) by {
                    if j < 2 * (i - 1) {
                        assert(hex_of(src@.subrange(0, i - 1))[j] == hex_of(t)[j]);
                    }
                }
            }
        }
    }
    proof {
        assert(src@.subrange(0, src@.len() as int) =~= src@);
    }
}

/// Encodes a header as a hex frame.
pub fn encode_hex(h: &Header) -> (r: Vec<u8>)
    ensures
        r@ == hex_frame(*h),
{
    let mut bytes: Vec<u8> = Vec::new();
    bytes.push(h.kind.code());
    bytes.push(h.z0);
    bytes.push(h.z1);
    bytes.push(h.z2);
    bytes.push(h.z3);
    proof {
        assert(bytes@ =~= header_bytes(*h));
    }
    let c = crc16(bytes.as_slice());
    bytes.push((c >> 8u16) as u8);
    bytes.push((c & 0xff) as u8);
    proof {
        assert(bytes@ =~= checked_header(*h));
    }
    let mut r: Vec<u8> = Vec::new();
    r.push(ZPAD);
    r.push(ZPAD);
    r.push(ZDLE);
    r.push(ZHEX);
    let ghost head = r@;
    append_hex(&mut r, bytes.as_slice());
    r.push(CR);
    r.push(LF);
    r.push(XON);
    proof {
        assert(head =~= seq![ZPAD, ZPAD, ZDLE, ZHEX]);
        assert(r@ =~= hex_frame(*h));
    }
    r
}

/// Decodes a hex frame header: `Some` exactly where the frame is well formed, its type
/// code is known and its CRC-16 is right.
pub fn decode_hex(s: &[u8]) -> (r: Option<Header>)
    ensures
        r == parse_hex_header(s@),
{
    let n = s.len();
    let st: usize = if n >= 4 && s[0] == ZPAD && s[1] == ZPAD && s[2] == ZDLE && s[3] == ZHEX {
        4
    } else if n >= 3 && s[0] == ZPAD && s[1] == ZDLE && s[2] == ZHEX {
        3
    } else {
        0
    };
    if st == 0 || n < st + 14 {
        return None;
    }
    let mut b: Vec<u8> = Vec::new();
    let mut i: usize = 0;
    while i < 7
        invariant
            i <= 7,
            st == hex_start(s@),
            st > 0,
            s@.len() >= st + 14,
            n == s@.len(),
            b@ =~= Seq::new(i as nat, |k: int| unhex_at(s@, st as int, k)),
            forall|j: int| st <= j < st + 2 * i ==> hex_value(#[trigger] s@[j]).is_some(),
        decreases 7 - i,
    {
        let hi = hex_value_exec(s[st + 2 * i]);
        let lo = hex_value_exec(s[st + 2 * i + 1]);
        match (hi, lo) {
            (Some(h), Some(l)) => {
                proof {
                    assert(h < 16 && l < 16);
                }
                b.push(h * 16 + l);
            },
            _ => {
                proof {
                    if hi.is_none() {
                        assert(hex_value(s@[st + 2 * i]).is_none());
                    } else {
                        assert(hex_value(s@[st + 2 * i + 1]).is_none());
                    }
                }
                return None;
            },
        }
        i += 1;
    }
    proof {
        assert(!(exists|j: int| st <= j < st + 14 && hex_value(#[trigger] s@[j]).is_none()));
    }
    match FrameKind::from_code(b[0]) {
        None => None,
        Some(kind) => {
            let h = Header { kind, z0: b[1], z1: b[2], z2: b[3], z3: b[4] };
            let mut hb: Vec<u8> = Vec::new();
            hb.push(b[0]);
            hb.push(b[1]);
            hb.push(b[2]);
            hb.push(b[3]);
            hb.push(b[4]);
            proof {
                assert(hb@ =~= header_bytes(h));
            }
            let c = crc16(hb.as_slice());
            if c as u32 == b[5] as u32 * 256 + b[6] as u32 {
                Some(h)
            } else {
                None
            }
        },
    }
}

/// Reading back a hex frame gives the header that was encoded, for every header.
pub proof fn lemma_hex_round_trip(h: Header)
    ensures
        parse_hex_header(hex_frame(h)) == Some(h),
{
    let s = hex_frame(h);
    let ch = checked_header(h);
    let hx = hex_of(ch);
    assert(s.len() == 21);
    assert(hex_start(s) == 4);
    assert forall|j: int| 0 <= j < 14 implies s[4 + j] == #[trigger] hx[j] by {}
    assert forall|i: int| 0 <= i < 7 implies unhex_at(s, 4, i) == #[trigger] ch[i] by {
        lemma_nibbles(ch[i]);
        assert(s[4 + 2 * i] == hx[2 * i]);
        assert(s[4 + 2 * i + 1] == hx[2 * i + 1]);
        assert((2 * i) / 2 == i && (2 * i) % 2 == 0);
        assert((2 * i + 1) / 2 == i && (2 * i + 1) % 2 == 1);
        lemma_hex_digit_value(ch[i] >> 4u8);
        lemma_hex_digit_value(ch[i] & 0xf);
    }
    assert forall|j: int| 4 <= j < 4 + 14 implies hex_value(#[trigger] s[j]).is_some() by {
        let k = j - 4;
        assert(s[j] == hx[k]);
        lemma_nibbles(ch[k / 2]);
        lemma_hex_digit_value(ch[k / 2] >> 4u8);
        lemma_hex_digit_value(ch[k / 2] & 0xf);
    }
    let b = Seq::new(7, |i: int| unhex_at(s, 4, i));
    assert(b[0] == kind_code(h.kind));
    lemma_kind_code_inverse(h.kind);
    let c = crc16_of(header_bytes(h));
    assert(((c >> 8u16) as u8) as int * 256 + ((c & 0xff) as u8) as int == c as int) by {
        assert(((c >> 8u16) as u8) as u16 * 256 + ((c & 0xff) as u8) as u16 == c) by (bit_vector);
    }
}

/// The bytes that are sent escaped inside binary frames and data subpackets.
pub open spec fn needs_escape(b: u8) -> bool {
    b == ZDLE || b == XON || b == XOFF || b == 0x98 || b == 0x91 || b == 0x93 || b == 0x8d || b
        == 0x8f
}

/// One byte on the wire: `ZDLE (b ^ 0x40)` where it must be escaped, else itself.
pub open spec fn escape_unit(b: u8) -> Seq<u8> {
    if needs_escape(b) {
        seq![ZDLE, b ^ 0x40u8]
    } else {
        seq![b]
    }
}

/// A byte string escaped for the wire.
pub open spec fn escape_spec(s: Seq<u8>) -> Seq<u8>
    decreases s.len(),
{
    if s.len() == 0 {
        Seq::empty()
    } else {
        escape_unit(s[0]) + escape_spec(s.skip(1))
    }
}

/// What was escaped: each `ZDLE x` stands for `x ^ 0x40`; `None` where the string ends in
/// a lone `ZDLE`.
pub open spec fn unescape_spec(s: Seq<u8>) -> Option<Seq<u8>>
    decreases s.len(),
{
    if s.len() == 0 {
        Some(Seq::empty())
    } else if s[0] == ZDLE {
        if s.len() < 2 {
            None
        } else {
            match unescape_spec(s.skip(2)) {
                None => None,
                Some(t) => Some(seq![s[1] ^ 0x40u8] + t),
            }
        }
    } else {
        match unescape_spec(s.skip(1)) {
            None => None,
            Some(t) => Some(seq![s[0]] + t),
        }
    }
}

/// `o` with `p` put in front of what it holds.
pub open spec fn prefixed(p: Seq<u8>, o: Option<Seq<u8>>) -> Option<Seq<u8>> {
    match o {
        None => None,
        Some(t) => Some(p + t),
    }
}

/// Escapes a byte string for a binary frame or data subpacket.
pub fn escape(s: &[u8]) -> (r: Vec<u8>)
    ensures
        r@ == escape_spec(s@),
{
    let mut r: Vec<u8> = Vec::new();
    let mut i: usize = 0;
    proof {
        assert(s@.subrange(0, s@.len() as int) =~= s@);
        assert(r@ + escape_spec(s@) =~= escape_spec(s@));
    }
    while i < s.len()
        invariant
            i <= s@.len(),
            r@ + escape_spec(s@.subrange(i as int, s@.len() as int)) == escape_spec(s@),
        decreases s@.len() - i,
    {
        let b = s[i];
        let ghost rest = s@.subrange(i as int, s@.len() as int);
        proof {
            assert(rest.skip(1) =~= s@.subrange(i + 1, s@.len() as int));
            assert(rest[0] == b);
        }
        let ghost before = r@;
        if b == ZDLE || b == XON || b == XOFF || b == 0x98 || b == 0x91 || b == 0x93 || b == 0x8d
            || b == 0x8f {
            r.push(ZDLE);
            r.push(b ^ 0x40);
        } else {
            r.push(b);
        }
        proof {
            assert(r@ =~= before + escape_unit(b));
            assert(before + escape_spec(rest) =~= r@ + escape_spec(
                s@.subrange(i + 1, s@.len() as int),
            ));
        }
        i += 1;
    }
    proof {
        assert(s@.subrange(s@.len() as int, s@.len() as int) =~= Seq::<u8>::empty());
        assert(r@ + Seq::<u8>::empty() =~= r@);
    }
    r
}

/// Undoes `escape`: `None` exactly where the string ends in a lone `ZDLE`.
pub fn unescape(s: &[u8]) -> (r: Option<Vec<u8>>)
    ensures
        match r {
            None => unescape_spec(s@).is_none(),
            Some(v) => unescape_spec(s@) == Some(v@),
        },
{
    let mut r: Vec<u8> = Vec::new();
    let mut i: usize = 0;
    proof {
        assert(s@.subrange(0, s@.len() as int) =~= s@);
        match unescape_spec(s@) {
            None => {},
            Some(t) => {
                assert(r@ + t =~= t);
            },
        }
    }
    while i < s.len()
        invariant
            i <= s@.len(),
            prefixed(r@, unescape_spec(s@.subrange(i as int, s@.len() as int))) == unescape_spec(
                s@,
            ),
        decreases s@.len() - i,
    {
        let ghost rest = s@.subrange(i as int, s@.len() as int);
        let ghost before = r@;
        if s[i] == ZDLE {
            if i + 1 >= s.len() {
                return None;
            }
            r.push(s[i + 1] ^ 0x40);
            proof {
                assert(rest.skip(2) =~= s@.subrange(i + 2, s@.len() as int));
                match unescape_spec(rest.skip(2)) {
                    None => {},
                    Some(t) => {
                        assert(before + (seq![s@[i + 1] ^ 0x40u8] + t) =~= r@ + t);
                    },
                }
            }
            i += 2;
        } else {
            r.push(s[i]);
            proof {
                assert(rest.skip(1) =~= s@.subrange(i + 1, s@.len() as int));
                match unescape_spec(rest.skip(1)) {
                    None => {},
                    Some(t) => {
                        assert(before + (seq![s@[i as int]] + t) =~= r@ + t);
                    },
                }
            }
            i += 1;
        }
    }
    proof {
        assert(s@.subrange(s@.len() as int, s@.len() as int) =~= Seq::<u8>::empty());
        assert(r@ + Seq::<u8>::empty() =~= r@);
    }
    Some(r)
}

/// Unescaping what was escaped gives the same bytes back, for every byte string.
pub proof fn lemma_escape_round_trip(s: Seq<u8>)
    ensures
        unescape_spec(escape_spec(s)) == Some(s),
    decreases s.len(),
{
    if s.len() == 0 {
        assert(escape_spec(s) =~= Seq::<u8>::empty());
        assert(s =~= Seq::<u8>::empty());
    } else {
        lemma_escape_round_trip(s.skip(1));
        let b = s[0];
        let e = escape_spec(s);
        let tail = escape_spec(s.skip(1));
        assert(seq![b] + s.skip(1) =~= s);
        if needs_escape(b) {
            assert(e.skip(2) =~= tail);
            assert((b ^ 0x40u8) != ZDLE) by (bit_vector)
                requires
                    b == ZDLE || b == XON || b == XOFF || b == 0x98 || b == 0x91 || b == 0x93 || b
                        == 0x8d || b == 0x8f,
            ;
            assert(((b ^ 0x40u8) ^ 0x40u8) == b) by (bit_vector);
            assert(e[0] == ZDLE);
            assert(e[1] == b ^ 0x40u8);
        } else {
            assert(e.skip(1) =~= tail);
            assert(e[0] == b);
        }
    }
}

/// What a user's cancel sends: five `CAN` then eight backspaces.
pub open spec fn cancel_spec() -> Seq<u8> {
    seq![CAN, CAN, CAN, CAN, CAN, BACKSPACE, BACKSPACE, BACKSPACE, BACKSPACE, BACKSPACE, BACKSPACE, BACKSPACE, BACKSPACE]
}

/// The abort sequence that both peers take as an immediate cancel in any state.
pub fn cancel_sequence() -> (r: Vec<u8>)
    ensures
        r@ == cancel_spec(),
{
    let mut r: Vec<u8> = Vec::new();
    let mut i: usize = 0;
    while i < 5
        invariant
            i <= 5,
            r@ == Seq::new(i as nat, |k: int| CAN),
        decreases 5 - i,
    {
        r.push(CAN);
        i += 1;
        proof {
            assert(r@ =~= Seq::new(i as nat, |k: int| CAN));
        }
    }
    while i < 13
        invariant
            5 <= i <= 13,
            r@ == Seq::new(i as nat, |k: int| if k < 5 { CAN } else { BACKSPACE }),
        decreases 13 - i,
    {
        r.push(BACKSPACE);
        i += 1;
        proof {
            assert(r@ =~= Seq::new(i as nat, |k: int| if k < 5 { CAN } else { BACKSPACE }));
        }
    }
    proof {
        assert(r@ =~= cancel_spec());
    }
    r
}

/// A CRC-16 as it is sent: high byte first.
pub open spec fn be16(c: u16) -> Seq<u8> {
    seq![(c >> 8u16) as u8, (c & 0xff) as u8]
}

/// A CRC-32 as it is sent: low byte first.
pub open spec fn le32(c: u32) -> Seq<u8> {
    seq![(c & 0xff) as u8, ((c >> 8u32) & 0xff) as u8, ((c >> 16u32) & 0xff) as u8, (c >> 24u32) as u8]
}

/// The check of `s`: CRC-32 where `wide`, else CRC-16.
pub open spec fn check_bytes(s: Seq<u8>, wide: bool) -> Seq<u8> {
    if wide {
        le32(crc32_of(s))
    } else {
        be16(crc16_of(s))
    }
}

/// A data subpacket: the escaped data, `ZDLE end`, then the escaped check over the data
/// and the end byte.
pub open spec fn subpacket_spec(data: Seq<u8>, end: u8, wide: bool) -> Seq<u8> {
    escape_spec(data) + seq![ZDLE, end] + escape_spec(check_bytes(data.push(end), wide))
}

/// A binary header: `ZPAD ZDLE`, `ZBIN32` where `wide` else `ZBIN`, then the escaped header
/// bytes and check.
pub open spec fn bin_header_spec(h: Header, wide: bool) -> Seq<u8> {
    seq![ZPAD, ZDLE, if wide { ZBIN32 } else { ZBIN }] + escape_spec(
        header_bytes(h) + check_bytes(header_bytes(h), wide),
    )
}

fn check_of(s: &[u8], wide: bool) -> (r: Vec<u8>)
    ensures
        r@ == check_bytes(s@, wide),
{
    let mut r: Vec<u8> = Vec::new();
    if wide {
        let c = crc32(s);
        r.push((c & 0xff) as u8);
        r.push(((c >> 8u32) & 0xff) as u8);
        r.push(((c >> 16u32) & 0xff) as u8);
        r.push((c >> 24u32) as u8);
    } else {
        let c = crc16(s);
        r.push((c >> 8u16) as u8);
        r.push((c & 0xff) as u8);
    }
    proof {
        assert(r@ =~= check_bytes(s@, wide));
    }
    r
}

/// Encodes a data subpacket that ends with `end` (one of `ZCRCE`, `ZCRCG`, `ZCRCQ`,
/// `ZCRCW`), with a CRC-32 where `wide`, else a CRC-16.
pub fn encode_subpacket(data: &[u8], end: u8, wide: bool) -> (r: Vec<u8>)
    ensures
        r@ == subpacket_spec(data@, end, wide),
{
    let mut covered: Vec<u8> = Vec::new();
    covered.extend_from_slice(data);
    covered.push(end);
    proof {
        assert(covered@ =~= data@.push(end));
    }
    let check = check_of(covered.as_slice(), wide);
    let mut r = escape(data);
    r.push(ZDLE);
    r.push(end);
    let mut tail = escape(check.as_slice());
    r.append(&mut tail);
    proof {
        assert(r@ =~= subpacket_spec(data@, end, wide));
    }
    r
}

/// Encodes a header as a binary frame, with a CRC-32 where `wide`, else a CRC-16.
pub fn encode_bin_header(h: &Header, wide: bool) -> (r: Vec<u8>)
    ensures
        r@ == bin_header_spec(*h, wide),
{
    let mut bytes: Vec<u8> = Vec::new();
    bytes.push(h.kind.code());
    bytes.push(h.z0);
    bytes.push(h.z1);
    bytes.push(h.z2);
    bytes.push(h.z3);
    proof {
        assert(bytes@ =~= header_bytes(*h));
    }
    let mut check = check_of(bytes.as_slice(), wide);
    bytes.append(&mut check);
    let mut r: Vec<u8> = Vec::new();
    r.push(ZPAD);
    r.push(ZDLE);
    r.push(if wide { ZBIN32 } else { ZBIN });
    let mut body = escape(bytes.as_slice());
    r.append(&mut body);
    proof {
        assert(r@ =~= bin_header_spec(*h, wide));
    }
    r
}

/// The end bytes of a data subpacket.
pub open spec fn is_frame_end(c: u8) -> bool {
    c == ZCRCE || c == ZCRCG || c == ZCRCQ || c == ZCRCW
}

/// The data of a subpacket whose escaped bytes start at `i`, and where its `ZDLE end` pair
/// stands; `None` where the input ends first.
pub open spec fn scan_data(s: Seq<u8>, i: int) -> Option<(Seq<u8>, int)>
    decreases s.len() - i,
{
    if i < 0 || i >= s.len() {
        None
    } else if s[i] == ZDLE {
        if i + 1 >= s.len() {
            None
        } else if is_frame_end(s[i + 1]) {
            Some((Seq::empty(), i))
        } else {
            match scan_data(s, i + 2) {
                None => None,
                Some((d, p)) => Some((seq![s[i + 1] ^ 0x40u8] + d, p)),
            }
        }
    } else {
        match scan_data(s, i + 1) {
            None => None,
            Some((d, p)) => Some((seq![s[i]] + d, p)),
        }
    }
}

/// `n` unescaped bytes read from `i` on, and where the reading stopped.
pub open spec fn read_escaped(s: Seq<u8>, i: int, n: nat) -> Option<(Seq<u8>, int)>
    decreases n,
{
    if n == 0 {
        Some((Seq::empty(), i))
    } else if i < 0 || i >= s.len() {
        None
    } else if s[i] == ZDLE {
        if i + 1 >= s.len() {
            None
        } else {
            match read_escaped(s, i + 2, (n - 1) as nat) {
                None => None,
                Some((d, p)) => Some((seq![s[i + 1] ^ 0x40u8] + d, p)),
            }
        }
    } else {
        match read_escaped(s, i + 1, (n - 1) as nat) {
            None => None,
            Some((d, p)) => Some((seq![s[i]] + d, p)),
        }
    }
}

/// A received data subpacket.
pub struct Subpacket {
    pub data: Vec<u8>,
    /// The end byte: `ZCRCE`, `ZCRCG`, `ZCRCQ` or `ZCRCW`.
    pub end: u8,
    /// How many input bytes it took, check included.
    pub consumed: usize,
    /// The check matched the data and the end byte.
    pub crc_ok: bool,
}

/// What the subpacket at the start of `s` holds: data, end byte, length on the wire, and
/// whether its check (CRC-32 where `wide`, else CRC-16) is right; `None` where the input
/// ends before the subpacket does.
pub open spec fn parse_subpacket(s: Seq<u8>, wide: bool) -> Option<(Seq<u8>, u8, int, bool)> {
    match scan_data(s, 0) {
        None => None,
        Some((d, p)) => {
            let end = s[p + 1];
            match read_escaped(s, p + 2, if wide { 4 } else { 2 }) {
                None => None,
                Some((c, q)) => Some((d, end, q, c == check_bytes(d.push(end), wide))),
            }
        },
    }
}

fn read_escaped_exec(s: &[u8], i: usize, n: usize) -> (r: Option<(Vec<u8>, usize)>)
    requires
        i <= s@.len(),
    ensures
        match r {
            None => read_escaped(s@, i as int, n as nat).is_none(),
            Some((d, p)) => read_escaped(s@, i as int, n as nat) == Some((d@, p as int)),
        },
{
    let mut d: Vec<u8> = Vec::new();
    let mut j: usize = i;
    let mut k: usize = 0;
    while k < n
        invariant
            i <= j <= s@.len(),
            k <= n,
            prefixed_pair(d@, read_escaped(s@, j as int, (n - k) as nat)) == read_escaped(
                s@,
                i as int,
                n as nat,
            ),
        decreases n - k,
    {
        if j >= s.len() {
            return None;
        }
        let ghost before = d@;
        if s[j] == ZDLE {
            if j + 1 >= s.len() {
                return None;
            }
            d.push(s[j + 1] ^ 0x40);
            proof {
                match read_escaped(s@, j + 2, (n - k - 1) as nat) {
                    None => {},
                    Some((t, p)) => {
                        assert(before + (seq![s@[j + 1] ^ 0x40u8] + t) =~= d@ + t);
                    },
                }
            }
            j += 2;
        } else {
            d.push(s[j]);
            proof {
                match read_escaped(s@, j + 1, (n - k - 1) as nat) {
                    None => {},
                    Some((t, p)) => {
                        assert(before + (seq![s@[j as int]] + t) =~= d@ + t);
                    },
                }
            }
            j += 1;
        }
        k += 1;
    }
    proof {
        assert(d@ + Seq::<u8>::empty() =~= d@);
    }
    Some((d, j))
}

/// `o` with `p` put in front of the bytes it holds.
pub open spec fn prefixed_pair(p: Seq<u8>, o: Option<(Seq<u8>, int)>) -> Option<(Seq<u8>, int)> {
    match o {
        None => None,
        Some((t, q)) => Some((p + t, q)),
    }
}

/// Reads the data subpacket at the start of `s` and checks it.
pub fn decode_subpacket(s: &[u8], wide: bool) -> (r: Option<Subpacket>)
    ensures
        match r {
            None => parse_subpacket(s@, wide).is_none(),
            Some(sp) => parse_subpacket(s@, wide) == Some(
                (sp.data@, sp.end, sp.consumed as int, sp.crc_ok),
            ),
        },
{
    let mut d: Vec<u8> = Vec::new();
    let mut j: usize = 0;
    proof {
        assert(d@ + Seq::<u8>::empty() =~= d@);
        match scan_data(s@, 0) {
            None => {},
            Some((t, p)) => {
                assert(d@ + t =~= t);
            },
        }
    }
    loop
        invariant
            j <= s@.len(),
            prefixed_pair(d@, scan_data(s@, j as int)) == scan_data(s@, 0),
        ensures
            j + 1 < s@.len(),
            s@[j as int] == ZDLE,
            is_frame_end(s@[j + 1]),
            scan_data(s@, 0) == Some((d@, j as int)),
        decreases s@.len() - j,
    {
        if j >= s.len() {
            return None;
        }
        let ghost before = d@;
        if s[j] == ZDLE {
            if j + 1 >= s.len() {
                return None;
            }
            let c = s[j + 1];
            if c == ZCRCE || c == ZCRCG || c == ZCRCQ || c == ZCRCW {
                proof {
                    assert(before + Seq::<u8>::empty() =~= before);
                }
                break;
            }
            d.push(c ^ 0x40);
            proof {
                match scan_data(s@, j + 2) {
                    None => {},
                    Some((t, p)) => {
                        assert(before + (seq![c ^ 0x40u8] + t) =~= d@ + t);
                    },
                }
            }
            j += 2;
        } else {
            d.push(s[j]);
            proof {
                match scan_data(s@, j + 1) {
                    None => {},
                    Some((t, p)) => {
                        assert(before + (seq![s@[j as int]] + t) =~= d@ + t);
                    },
                }
            }
            j += 1;
        }
    }
    let len = s.len();
    proof {
        assert(j + 1 < len);
    }
    let end = s[j + 1];
    let n: usize = if wide { 4 } else { 2 };
    match read_escaped_exec(s, j + 2, n) {
        None => None,
        Some((check, q)) => {
            let mut covered: Vec<u8> = Vec::new();
            covered.extend_from_slice(d.as_slice());
            covered.push(end);
            proof {
                assert(covered@ =~= d@.push(end));
            }
            let expected = check_of(covered.as_slice(), wide);
            let crc_ok = bytes_equal(check.as_slice(), expected.as_slice());
            Some(Subpacket { data: d, end, consumed: q, crc_ok })
        },
    }
}

proof fn lemma_escaped_byte(b: u8)
    requires
        needs_escape(b),
    ensures
        !is_frame_end(b ^ 0x40u8),
        (b ^ 0x40u8) ^ 0x40u8 == b,
{
    assert(!is_frame_end(b ^ 0x40u8) && (b ^ 0x40u8) ^ 0x40u8 == b) by (bit_vector)
        requires
            b == 0x18u8 || b == 0x11u8 || b == 0x13u8 || b == 0x98u8 || b == 0x91u8 || b == 0x93u8
                || b == 0x8du8 || b == 0x8fu8,
    ;
}

proof fn lemma_scan_escaped(p: Seq<u8>, d: Seq<u8>, z: Seq<u8>)
    requires
        z.len() >= 2,
        z[0] == ZDLE,
        is_frame_end(z[1]),
    ensures
        scan_data(p + escape_spec(d) + z, p.len() as int) == Some((d, (p.len() + escape_spec(d).len()) as int)),
    decreases d.len(),
{
    let s = p + escape_spec(d) + z;
    if d.len() == 0 {
        assert(escape_spec(d) =~= Seq::<u8>::empty());
        assert(s[p.len() as int] == z[0]);
        assert(s[p.len() as int + 1] == z[1]);
        assert(d =~= Seq::<u8>::empty());
    } else {
        let b = d[0];
        let u = escape_unit(b);
        let z2 = p + u;
        lemma_scan_escaped(z2, d.skip(1), z);
        assert(escape_spec(d) == u + escape_spec(d.skip(1)));
        assert(z2 + escape_spec(d.skip(1)) + z =~= s);
        assert(seq![b] + d.skip(1) =~= d);
        if needs_escape(b) {
            lemma_escaped_byte(b);
            assert(s[p.len() as int] == ZDLE);
            assert(s[p.len() as int + 1] == b ^ 0x40u8);
        } else {
            assert(s[p.len() as int] == b);
        }
    }
}

proof fn lemma_read_escaped(p: Seq<u8>, c: Seq<u8>, z: Seq<u8>)
    ensures
        read_escaped(p + escape_spec(c) + z, p.len() as int, c.len()) == Some(
            (c, (p.len() + escape_spec(c).len()) as int),
        ),
    decreases c.len(),
{
    let s = p + escape_spec(c) + z;
    if c.len() == 0 {
        assert(escape_spec(c) =~= Seq::<u8>::empty());
        assert(c =~= Seq::<u8>::empty());
    } else {
        let b = c[0];
        let u = escape_unit(b);
        let z2 = p + u;
        lemma_read_escaped(z2, c.skip(1), z);
        assert(escape_spec(c) == u + escape_spec(c.skip(1)));
        assert(z2 + escape_spec(c.skip(1)) + z =~= s);
        assert(seq![b] + c.skip(1) =~= c);
        if needs_escape(b) {
            lemma_escaped_byte(b);
            assert(s[p.len() as int] == ZDLE);
            assert(s[p.len() as int + 1] == b ^ 0x40u8);
        } else {
            assert(s[p.len() as int] == b);
        }
    }
}

/// Reading back an encoded subpacket, whatever follows it, gives its data and end byte,
/// its length on the wire, and a good check.
pub proof fn lemma_subpacket_round_trip(data: Seq<u8>, end: u8, wide: bool, rest: Seq<u8>)
    requires
        is_frame_end(end),
    ensures
        parse_subpacket(subpacket_spec(data, end, wide) + rest, wide) == Some(
            (data, end, subpacket_spec(data, end, wide).len() as int, true),
        ),
{
    let e = escape_spec(data);
    let c = check_bytes(data.push(end), wide);
    let ec = escape_spec(c);
    let s = subpacket_spec(data, end, wide) + rest;
    let z = seq![ZDLE, end] + ec + rest;
    assert(s =~= Seq::<u8>::empty() + e + z);
    lemma_scan_escaped(Seq::<u8>::empty(), data, z);
    assert(s[e.len() as int + 1] == end);
    let p = e + seq![ZDLE, end];
    assert(s =~= p + ec + rest);
    lemma_read_escaped(p, c, rest);
    assert(c.len() == if wide { 4nat } else { 2nat });
}

/// What a received binary header holds: `ZPAD ZDLE` then `ZBIN` (CRC-16) or `ZBIN32`
/// (CRC-32), then the escaped type code, header bytes and check. `None` unless the frame is
/// complete, the type code is known and the check is right; bytes after it are not read.
pub open spec fn parse_bin_header(s: Seq<u8>) -> Option<Header> {
    if s.len() < 3 || s[0] != ZPAD || s[1] != ZDLE || (s[2] != ZBIN && s[2] != ZBIN32) {
        None
    } else {
        let wide = s[2] == ZBIN32;
        match read_escaped(s, 3, if wide { 9 } else { 7 }) {
            None => None,
            Some((b, _)) => match kind_of_code(b[0]) {
                None => None,
                Some(kind) => {
                    let h = Header { kind, z0: b[1], z1: b[2], z2: b[3], z3: b[4] };
                    if b.skip(5) == check_bytes(b.take(5), wide) {
                        Some(h)
                    } else {
                        None
                    }
                },
            },
        }
    }
}

/// Decodes a binary frame header.
pub fn decode_bin_header(s: &[u8]) -> (r: Option<Header>)
    ensures
        r == parse_bin_header(s@),
{
    if s.len() < 3 || s[0] != ZPAD || s[1] != ZDLE || (s[2] != ZBIN && s[2] != ZBIN32) {
        return None;
    }
    let wide = s[2] == ZBIN32;
    let n: usize = if wide { 9 } else { 7 };
    match read_escaped_exec(s, 3, n) {
        None => None,
        Some((b, _)) => {
            proof {
                lemma_read_len(s@, 3, n as nat);
            }
            match FrameKind::from_code(b[0]) {
                None => None,
                Some(kind) => {
                    let h = Header { kind, z0: b[1], z1: b[2], z2: b[3], z3: b[4] };
                    let head = slice_range(b.as_slice(), 0, 5);
                    let got = slice_range(b.as_slice(), 5, n);
                    let expected = check_of(head.as_slice(), wide);
                    proof {
                        assert(head@ =~= b@.take(5));
                        assert(got@ =~= b@.skip(5));
                    }
                    if bytes_equal(got.as_slice(), expected.as_slice()) {
                        Some(h)
                    } else {
                        None
                    }
                },
            }
        },
    }
}

proof fn lemma_read_len(s: Seq<u8>, i: int, n: nat)
    ensures
        match read_escaped(s, i, n) {
            Some((d, _)) => d.len() == n,
            None => true,
        },
    decreases n,
{
    if n > 0 && 0 <= i < s.len() {
        if s[i] == ZDLE {
            if i + 1 < s.len() {
                lemma_read_len(s, i + 2, (n - 1) as nat);
            }
        } else {
            lemma_read_len(s, i + 1, (n - 1) as nat);
        }
    }
}

/// Reading back a binary header gives the header that was encoded, whatever follows it.
pub proof fn lemma_bin_header_round_trip(h: Header, wide: bool, rest: Seq<u8>)
    ensures
        parse_bin_header(bin_header_spec(h, wide) + rest) == Some(h),
{
    let c = header_bytes(h) + check_bytes(header_bytes(h), wide);
    let head = seq![ZPAD, ZDLE, if wide { ZBIN32 } else { ZBIN }];
    let s = bin_header_spec(h, wide) + rest;
    assert(s =~= head + escape_spec(c) + rest);
    lemma_read_escaped(head, c, rest);
    assert(c.len() == if wide { 9nat } else { 7nat });
    assert(c.take(5) =~= header_bytes(h));
    assert(c.skip(5) =~= check_bytes(header_bytes(h), wide));
    lemma_kind_code_inverse(h.kind);
}

/// A frame header starts at `i`: `ZPAD ZDLE`, or `ZPAD ZPAD ZDLE`.
pub open spec fn frame_starts_at(s: Seq<u8>, i: int) -> bool {
    &&& 0 <= i
    &&& i + 1 < s.len()
    &&& s[i] == ZPAD
    &&& (s[i + 1] == ZDLE || (i + 2 < s.len() && s[i + 1] == ZPAD && s[i + 2] == ZDLE))
}

/// Where the first frame header in `s` starts, if one does.
pub fn find_frame(s: &[u8]) -> (r: Option<usize>)
    ensures
        match r {
            Some(i) => frame_starts_at(s@, i as int) && forall|j: int|
                0 <= j < i ==> !#[trigger] frame_starts_at(s@, j),
            None => forall|j: int| 0 <= j < s@.len() ==> !#[trigger] frame_starts_at(s@, j),
        },
{
    let mut i: usize = 0;
    while i < s.len()
        invariant
            i <= s@.len(),
            forall|j: int| 0 <= j < i ==> !#[trigger] frame_starts_at(s@, j),
        decreases s@.len() - i,
    {
        if s[i] == ZPAD && i + 1 < s.len() {
            if s[i + 1] == ZDLE {
                return Some(i);
            }
            if s[i + 1] == ZPAD && i + 2 < s.len() && s[i + 2] == ZDLE {
                return Some(i);
            }
        }
        i += 1;
    }
    None
}

/// How many bytes a hex header at the start of `s` takes up to its last hex digit; the
/// line end after it is not counted. `None` where `s` does not start like a hex frame or
/// is too short.
pub fn hex_header_len(s: &[u8]) -> (r: Option<usize>)
    ensures
        match r {
            Some(n) => hex_start(s@) > 0 && n == hex_start(s@) + 14 && n <= s@.len(),
            None => hex_start(s@) == 0 || s@.len() < hex_start(s@) + 14,
        },
{
    let n = s.len();
    let st: usize = if n >= 4 && s[0] == ZPAD && s[1] == ZPAD && s[2] == ZDLE && s[3] == ZHEX {
        4
    } else if n >= 3 && s[0] == ZPAD && s[1] == ZDLE && s[2] == ZHEX {
        3
    } else {
        0
    };
    if st == 0 || n < st + 14 {
        None
    } else {
        Some(st + 14)
    }
}

/// How many bytes a binary header at the start of `s` takes, check included. `None` where
/// `s` does not start like a binary frame or ends before the header does.
pub fn bin_header_len(s: &[u8]) -> (r: Option<usize>)
    ensures
        match r {
            Some(n) => s@.len() >= 3 && s@[0] == ZPAD && s@[1] == ZDLE && (s@[2] == ZBIN
                || s@[2] == ZBIN32) && match read_escaped(
                s@,
                3,
                if s@[2] == ZBIN32 { 9 } else { 7 },
            ) {
                Some((_, q)) => n == q,
                None => false,
            },
            None => !(s@.len() >= 3 && s@[0] == ZPAD && s@[1] == ZDLE && (s@[2] == ZBIN || s@[2]
                == ZBIN32)) || read_escaped(s@, 3, if s@[2] == ZBIN32 { 9 } else { 7 }).is_none(),
        },
{
    if s.len() < 3 || s[0] != ZPAD || s[1] != ZDLE || (s[2] != ZBIN && s[2] != ZBIN32) {
        return None;
    }
    let n: usize = if s[2] == ZBIN32 { 9 } else { 7 };
    match read_escaped_exec(s, 3, n) {
        None => None,
        Some((_, q)) => Some(q),
    }
}

proof fn lemma_scan_end(s: Seq<u8>, i: int)
    ensures
        match scan_data(s, i) {
            Some((_, p)) => i <= p && p + 1 < s.len(),
            None => true,
        },
    decreases s.len() - i,
{
    if 0 <= i < s.len() {
        if s[i] == ZDLE {
            if i + 1 < s.len() && !is_frame_end(s[i + 1]) {
                lemma_scan_end(s, i + 2);
            }
        } else {
            lemma_scan_end(s, i + 1);
        }
    }
}

/// What `read_escaped` reads lies within `s`.
pub proof fn lemma_read_end(s: Seq<u8>, i: int, n: nat)
    requires
        0 <= i <= s.len(),
    ensures
        match read_escaped(s, i, n) {
            Some((_, q)) => i <= q <= s.len(),
            None => true,
        },
    decreases n,
{
    if n > 0 && i < s.len() {
        if s[i] == ZDLE {
            if i + 1 < s.len() {
                lemma_read_end(s, i + 2, (n - 1) as nat);
            }
        } else {
            lemma_read_end(s, i + 1, (n - 1) as nat);
        }
    }
}

/// A subpacket read from `s` lies within `s`.
pub proof fn lemma_subpacket_fits(s: Seq<u8>, wide: bool)
    ensures
        match parse_subpacket(s, wide) {
            Some((_, _, q, _)) => 0 <= q <= s.len(),
            None => true,
        },
{
    lemma_scan_end(s, 0);
    match scan_data(s, 0) {
        Some((_, p)) => {
            lemma_read_end(s, p + 2, if wide { 4 } else { 2 });
        },
        None => {},
    }
}

} // verus!
