//! The ZMODEM receiver and sender state machines.

use vstd::prelude::*;

use crate::bytes::slice_range;
use crate::crc::{crc32, crc32_of};
use crate::storage::FileStorageHandler;
use crate::transfer::Retries;
use crate::ymodem::{block0_mtime, block0_name, block0_size, parse_block0, FileInfo};
use crate::zmodem::{
    at_offset, bin_header_len, decode_bin_header, decode_hex, decode_subpacket, find_frame,
    frame_starts_at, header_offset, hex_header_len, hex_start, lemma_at_offset, lemma_read_end,
    lemma_subpacket_fits, parse_bin_header, parse_hex_header, parse_subpacket, read_escaped,
    FrameKind, Header, Subpacket, ZBIN, ZBIN32, ZCRCE, ZCRCG, ZCRCQ, ZCRCW, ZDLE, ZHEX, ZPAD,
};

verus! {

/// ZF0 flags of our ZRINIT: full duplex, can overlap I/O, can take CRC-32.
pub const RINIT_FLAGS: u8 = 0x23;

pub open spec fn hdr(kind: FrameKind, z0: u8, z1: u8, z2: u8, z3: u8) -> Header {
    Header { kind, z0, z1, z2, z3 }
}

/// The receiver's ZRINIT.
pub open spec fn rinit() -> Header {
    hdr(FrameKind::RInit, 0, 0, 0, RINIT_FLAGS)
}

pub fn rinit_header() -> (r: Header)
    ensures
        r == rinit(),
{
    Header { kind: FrameKind::RInit, z0: 0, z1: 0, z2: 0, z3: RINIT_FLAGS }
}

/// Milliseconds the receiver waits for a header.
pub const HEADER_TIMEOUT_MS: u64 = 10_000;
/// Milliseconds the receiver waits for the next subpacket inside a data frame.
pub const DATA_TIMEOUT_MS: u64 = 5_000;

/// What a timeout leads to.
#[derive(Clone, Copy, Debug, PartialEq, Eq, Structural)]
pub enum ZrxTimeout {
    /// Send the last answer again.
    Resend,
    /// Give up: send this header (ZABORT).
    Abort(Header),
}

/// Where a ZMODEM receive stands.
#[derive(Clone, Copy, Debug, PartialEq, Eq, Structural)]
pub enum ZrxPhase {
    /// Waiting for the sender's ZRQINIT or a file.
    AwaitInit,
    /// Waiting for the next ZFILE or the ZFIN.
    AwaitFile,
    /// A ZFILE came; its name and size are due.
    AwaitFileInfo,
    /// Waiting for a ZDATA at the current offset, or the ZEOF.
    AwaitDataHeader,
    /// Inside a data frame: subpackets are coming.
    ReceivingData,
    Done,
    Aborted,
}

/// The receiving side of ZMODEM: decides the reply to each header and subpacket and keeps
/// the offset of the next byte due.
#[derive(Clone, Copy, Debug, PartialEq, Eq, Structural)]
pub struct ZmodemReceiver {
    pub phase: ZrxPhase,
    /// Bytes of the current file received so far.
    pub offset: u32,
    /// The size that the sender announced, where it announced one.
    pub file_size: Option<u32>,
}

/// The receiver and the store agree: while a file is being received, the store holds it
/// open with exactly `offset` bytes.
pub open spec fn in_sync(rx: ZmodemReceiver, open: bool, len: nat) -> bool {
    (rx.phase == ZrxPhase::AwaitDataHeader || rx.phase == ZrxPhase::ReceivingData) ==> (open
        && len == rx.offset)
}

/// The bytes received agree with the size the sender announced (or it announced none).
pub open spec fn size_matches(rx: ZmodemReceiver) -> bool {
    match rx.file_size {
        Some(n) => n == rx.offset,
        None => true,
    }
}

/// How the receiver answers a header: the next state and the header to send, if any.
pub open spec fn zrx_header(rx: ZmodemReceiver, h: Header) -> (ZmodemReceiver, Option<Header>) {
    let receiving = rx.phase == ZrxPhase::AwaitDataHeader || rx.phase == ZrxPhase::ReceivingData;
    match h.kind {
        FrameKind::RqInit => (ZmodemReceiver { phase: ZrxPhase::AwaitFile, ..rx }, Some(rinit())),
        FrameKind::SInit => (rx, Some(at_offset(FrameKind::Ack, 0))),
        FrameKind::File => (ZmodemReceiver { phase: ZrxPhase::AwaitFileInfo, ..rx }, None),
        FrameKind::Data => if !receiving {
            (rx, None)
        } else if header_offset(h) == rx.offset {
            (ZmodemReceiver { phase: ZrxPhase::ReceivingData, ..rx }, None)
        } else {
            (
                ZmodemReceiver { phase: ZrxPhase::AwaitDataHeader, ..rx },
                Some(at_offset(FrameKind::RPos, rx.offset)),
            )
        },
        FrameKind::Eof => if receiving && header_offset(h) == rx.offset {
            if size_matches(rx) {
                (ZmodemReceiver { phase: ZrxPhase::AwaitFile, ..rx }, Some(rinit()))
            } else {
                (ZmodemReceiver { phase: ZrxPhase::Aborted, ..rx }, Some(at_offset(FrameKind::Abort, 0)))
            }
        } else {
            (rx, None)
        },
        FrameKind::Fin => (ZmodemReceiver { phase: ZrxPhase::Done, ..rx }, Some(
            at_offset(FrameKind::Fin, 0),
        )),
        FrameKind::Abort | FrameKind::Can => (
            ZmodemReceiver { phase: ZrxPhase::Aborted, ..rx },
            None,
        ),
        _ => (rx, None),
    }
}

/// How the receiver answers a data subpacket of `len` bytes that ended with `end`: the next
/// state, the header to send, and whether the data is to be written.
pub open spec fn zrx_data(rx: ZmodemReceiver, len: nat, end: u8, crc_ok: bool) -> (
    ZmodemReceiver,
    Option<Header>,
    bool,
) {
    if rx.phase != ZrxPhase::ReceivingData {
        (rx, None, false)
    } else if !crc_ok {
        (
            ZmodemReceiver { phase: ZrxPhase::AwaitDataHeader, ..rx },
            Some(at_offset(FrameKind::RPos, rx.offset)),
            false,
        )
    } else if rx.offset + len > u32::MAX {
        (ZmodemReceiver { phase: ZrxPhase::Aborted, ..rx }, Some(at_offset(FrameKind::Abort, 0)), false)
    } else {
        let off = (rx.offset + len) as u32;
        let phase = if end == ZCRCE || end == ZCRCW {
            ZrxPhase::AwaitDataHeader
        } else {
            ZrxPhase::ReceivingData
        };
        let reply = if end == ZCRCQ || end == ZCRCW {
            Some(at_offset(FrameKind::Ack, off))
        } else {
            None
        };
        (ZmodemReceiver { phase, offset: off, ..rx }, reply, true)
    }
}

impl ZmodemReceiver {
    pub fn new() -> (r: Self)
        ensures
            r == (ZmodemReceiver { phase: ZrxPhase::AwaitInit, offset: 0, file_size: None }),
    {
        ZmodemReceiver { phase: ZrxPhase::AwaitInit, offset: 0, file_size: None }
    }

    /// What a receiver sends first, and again while the sender has not answered.
    pub fn start(&self) -> (r: Header)
        ensures
            r == rinit(),
    {
        rinit_header()
    }

    /// Takes in a header from the sender and returns the header to answer with, if any.
    pub fn on_header(&mut self, h: &Header) -> (r: Option<Header>)
        ensures
            (*final(self), r) == zrx_header(*old(self), *h),
    {
        let receiving = self.phase == ZrxPhase::AwaitDataHeader || self.phase
            == ZrxPhase::ReceivingData;
        match h.kind {
            FrameKind::RqInit => {
                self.phase = ZrxPhase::AwaitFile;
                Some(rinit_header())
            },
            FrameKind::SInit => Some(Header::with_offset(FrameKind::Ack, 0)),
            FrameKind::File => {
                self.phase = ZrxPhase::AwaitFileInfo;
                None
            },
            FrameKind::Data => {
                if !receiving {
                    None
                } else if h.offset() == self.offset {
                    self.phase = ZrxPhase::ReceivingData;
                    None
                } else {
                    self.phase = ZrxPhase::AwaitDataHeader;
                    Some(Header::with_offset(FrameKind::RPos, self.offset))
                }
            },
            FrameKind::Eof => {
                if receiving && h.offset() == self.offset {
                    let matches = match self.file_size {
                        Some(n) => n == self.offset,
                        None => true,
                    };
                    if matches {
                        self.phase = ZrxPhase::AwaitFile;
                        Some(rinit_header())
                    } else {
                        self.phase = ZrxPhase::Aborted;
                        Some(Header::with_offset(FrameKind::Abort, 0))
                    }
                } else {
                    None
                }
            },
            FrameKind::Fin => {
                self.phase = ZrxPhase::Done;
                Some(Header::with_offset(FrameKind::Fin, 0))
            },
            FrameKind::Abort | FrameKind::Can => {
                self.phase = ZrxPhase::Aborted;
                None
            },
            _ => None,
        }
    }

    /// The peer or the user cancelled: the receive ends at once, whatever its state.
    pub fn on_cancel(&mut self)
        ensures
            *final(self) == (ZmodemReceiver { phase: ZrxPhase::Aborted, ..*old(self) }),
    {
        self.phase = ZrxPhase::Aborted;
    }

    /// What the receiver answers a header that came damaged (bad check or unknown type).
    pub fn on_bad_header(&self) -> (r: Header)
        ensures
            r == at_offset(FrameKind::Nak, 0),
    {
        Header::with_offset(FrameKind::Nak, 0)
    }

    /// How long the receiver waits for the sender: 5 s inside a data frame, 10 s for a
    /// header.
    pub fn timeout_ms(&self) -> (r: u64)
        ensures
            r == (if self.phase == ZrxPhase::ReceivingData {
                DATA_TIMEOUT_MS
            } else {
                HEADER_TIMEOUT_MS
            }),
    {
        if self.phase == ZrxPhase::ReceivingData {
            DATA_TIMEOUT_MS
        } else {
            HEADER_TIMEOUT_MS
        }
    }

    /// Nothing came in time: the last answer goes out again while retries are left; when
    /// they are used up the receive is aborted with ZABORT.
    pub fn on_timeout(&mut self, retries: &mut Retries) -> (r: ZrxTimeout)
        ensures
            old(retries).count < old(retries).limit ==> r == ZrxTimeout::Resend && *final(self)
                == *old(self) && final(retries).count == old(retries).count + 1,
            old(retries).count >= old(retries).limit ==> r == ZrxTimeout::Abort(
                at_offset(FrameKind::Abort, 0),
            ) && *final(self) == (ZmodemReceiver { phase: ZrxPhase::Aborted, ..*old(self) }),
            final(retries).limit == old(retries).limit,
    {
        if retries.try_again() {
            ZrxTimeout::Resend
        } else {
            self.phase = ZrxPhase::Aborted;
            ZrxTimeout::Abort(Header::with_offset(FrameKind::Abort, 0))
        }
    }

    /// Takes in the name and size that follow a ZFILE. `existing` is what is already held
    /// of that file (empty for a new one): the file is opened with it and the receiver asks
    /// the sender to go on from its end with ZRPOS.
    pub fn on_file<S: FileStorageHandler>(
        &mut self,
        store: &mut S,
        name: &str,
        size: Option<u32>,
        existing: &[u8],
    ) -> (r: Header)
        requires
            existing@.len() <= u32::MAX,
            old(store).inv(),
        ensures
            final(store).inv(),
            final(store).stored(name@) == Some(existing@),
            forall|n: Seq<char>|
                n != name@ ==> #[trigger] final(store).stored(n) == old(store).stored(n),
            r == at_offset(FrameKind::RPos, existing@.len() as u32),
            final(self).phase == ZrxPhase::AwaitDataHeader,
            final(self).offset == existing@.len(),
            final(self).file_size == size,
            final(store).current_name() == Some(name@),
            final(store).current_content() == existing@,
            in_sync(*final(self), final(store).current_name().is_some(), final(store).current_content().len()),
    {
        let ghost before = *store;
        store.open_file(name, match size { Some(n) => n as usize, None => 0 });
        let ghost opened = *store;
        store.append(existing);
        proof {
            assert(Seq::<u8>::empty() + existing@ =~= existing@);
            assert forall|n: Seq<char>| n != name@ implies #[trigger] store.stored(n)
                == before.stored(n) by {
                assert(store.stored(n) == opened.stored(n));
                assert(opened.stored(n) == before.stored(n));
            }
        }
        self.phase = ZrxPhase::AwaitDataHeader;
        self.offset = existing.len() as u32;
        self.file_size = size;
        Header::with_offset(FrameKind::RPos, self.offset)
    }

    /// Takes in a data subpacket whose CRC was checked (`crc_ok`) and that ended with `end`:
    /// a good one in sequence is appended to the open file. Returns the header to answer
    /// with, if any.
    pub fn on_data<S: FileStorageHandler>(
        &mut self,
        store: &mut S,
        data: &[u8],
        end: u8,
        crc_ok: bool,
    ) -> (r: Option<Header>)
        requires
            in_sync(*old(self), old(store).current_name().is_some(), old(store).current_content().len()),
            old(store).inv(),
        ensures
            final(store).inv(),
            forall|n: Seq<char>|
                Some(n) != old(store).current_name() ==> #[trigger] final(store).stored(n) == old(
                    store,
                ).stored(n),

            ({
                let (next, reply, write) = zrx_data(*old(self), data@.len(), end, crc_ok);
                &&& *final(self) == next
                &&& r == reply
                &&& final(store).current_name() == old(store).current_name()
                &&& final(store).current_content() == (if write {
                    old(store).current_content() + data@
                } else {
                    old(store).current_content()
                })
            }),
            in_sync(*final(self), final(store).current_name().is_some(), final(store).current_content().len()),
    {
        if self.phase != ZrxPhase::ReceivingData {
            return None;
        }
        if !crc_ok {
            self.phase = ZrxPhase::AwaitDataHeader;
            return Some(Header::with_offset(FrameKind::RPos, self.offset));
        }
        if data.len() > (u32::MAX - self.offset) as usize {
            self.phase = ZrxPhase::Aborted;
            return Some(Header::with_offset(FrameKind::Abort, 0));
        }
        store.append(data);
        self.offset = self.offset + data.len() as u32;
        if end == ZCRCE || end == ZCRCW {
            self.phase = ZrxPhase::AwaitDataHeader;
        }
        if end == ZCRCQ || end == ZCRCW {
            Some(Header::with_offset(FrameKind::Ack, self.offset))
        } else {
            None
        }
    }
}

/// One piece of the inbound stream, as the receiver takes it.
pub enum ZrxUnit {
    /// A good header; the flag tells a CRC-32 binary frame, whose subpackets carry CRC-32.
    Header(Header, bool),
    /// A header whose check is wrong or whose type code is unknown.
    BadHeader,
    /// A data subpacket.
    Data(Subpacket),
}

/// A subpacket is due rather than a header.
pub open spec fn wants_data(phase: ZrxPhase) -> bool {
    phase == ZrxPhase::AwaitFileInfo || phase == ZrxPhase::ReceivingData
}

/// `s` starts like a binary header.
pub open spec fn bin_prefix(s: Seq<u8>) -> bool {
    s.len() >= 3 && s[0] == ZPAD && s[1] == ZDLE && (s[2] == ZBIN || s[2] == ZBIN32)
}

/// The unit for a parsed header.
pub open spec fn header_unit(h: Option<Header>, wide: bool) -> ZrxUnit {
    match h {
        Some(h) => ZrxUnit::Header(h, wide),
        None => ZrxUnit::BadHeader,
    }
}

/// Where a header is due, what the head of `s` gives: how many bytes to take off, and the
/// unit, if a whole one is there. Bytes before the first frame start are dropped (all but
/// the last two where no frame starts, as a frame may begin in them); a frame start that
/// is neither a hex nor a binary header loses its first byte.
pub open spec fn header_scan(s: Seq<u8>) -> (int, Option<ZrxUnit>) {
    if !frame_starts_at(s, 0) {
        if exists|i: int| 0 <= i < s.len() && frame_starts_at(s, i) {
            (choose|i: int| 0 <= i < s.len() && frame_starts_at(s, i) && forall|j: int|
                0 <= j < i ==> !frame_starts_at(s, j), None)
        } else {
            (if s.len() <= 2 { 0 } else { s.len() - 2 }, None)
        }
    } else if hex_start(s) > 0 {
        if s.len() >= hex_start(s) + 14 {
            (hex_start(s) + 14, Some(header_unit(parse_hex_header(s), false)))
        } else {
            (0, None)
        }
    } else if bin_prefix(s) {
        match read_escaped(s, 3, if s[2] == ZBIN32 { 9 } else { 7 }) {
            Some((_, q)) => (q, Some(header_unit(parse_bin_header(s), s[2] == ZBIN32))),
            None => (0, None),
        }
    } else if s.len() < 4 {
        (0, None)
    } else {
        (1, None)
    }
}

/// The next unit at the head of `buf` for a receiver in `phase` (`wide`: subpackets carry
/// CRC-32), and how many bytes to take off for it. `None` with 0 bytes taken where more
/// input is needed.
pub fn next_unit(buf: &[u8], phase: ZrxPhase, wide: bool) -> (r: (usize, Option<ZrxUnit>))
    ensures
        r.0 <= buf@.len(),
        wants_data(phase) ==> match parse_subpacket(buf@, wide) {
            None => r.0 == 0 && r.1.is_none(),
            Some((d, end, q, ok)) => r.0 == q && match r.1 {
                Some(ZrxUnit::Data(sp)) => sp.data@ == d && sp.end == end && sp.consumed == q
                    && sp.crc_ok == ok,
                _ => false,
            },
        },
        !wants_data(phase) ==> (r.0 as int, r.1) == header_scan(buf@),
{
    if phase == ZrxPhase::AwaitFileInfo || phase == ZrxPhase::ReceivingData {
        match decode_subpacket(buf, wide) {
            None => (0, None),
            Some(sp) => {
                proof {
                    lemma_subpacket_fits(buf@, wide);
                }
                let q = sp.consumed;
                (q, Some(ZrxUnit::Data(sp)))
            },
        }
    } else {
        let n = buf.len();
        let start0 = n >= 2 && buf[0] == ZPAD && (buf[1] == ZDLE || (n >= 3 && buf[1] == ZPAD
            && buf[2] == ZDLE));
        if !start0 {
            match find_frame(buf) {
                Some(i) => {
                    proof {
                        let c = choose|i: int| 0 <= i < buf@.len() && frame_starts_at(buf@, i)
                            && forall|j: int| 0 <= j < i ==> !frame_starts_at(buf@, j);
                        assert(c == i as int) by {
                            if c < i {
                                assert(!frame_starts_at(buf@, c));
                            } else if c > i {
                                assert(!frame_starts_at(buf@, i as int));
                            }
                        }
                    }
                    (i, None)
                },
                None => (if n <= 2 { 0 } else { n - 2 }, None),
            }
        } else if let Some(len) = hex_header_len(buf) {
            (len, Some(match decode_hex(buf) {
                Some(h) => ZrxUnit::Header(h, false),
                None => ZrxUnit::BadHeader,
            }))
        } else if n >= 3 && (buf[2] == ZHEX || (n >= 4 && buf[1] == ZPAD && buf[2] == ZDLE
            && buf[3] == ZHEX)) {
            (0, None)
        } else if let Some(len) = bin_header_len(buf) {
            proof {
                lemma_read_end(buf@, 3, if buf@[2] == ZBIN32 { 9 } else { 7 });
            }
            let wide32 = buf[2] == ZBIN32;
            (len, Some(match decode_bin_header(buf) {
                Some(h) => ZrxUnit::Header(h, wide32),
                None => ZrxUnit::BadHeader,
            }))
        } else if n >= 3 && buf[0] == ZPAD && buf[1] == ZDLE && (buf[2] == ZBIN || buf[2]
            == ZBIN32) {
            (0, None)
        } else if n < 4 {
            (0, None)
        } else {
            (1, None)
        }
    }
}

/// What the download did with one unit: the header to answer with, the file the sender
/// offers (its name and size come from the ZFILE subpacket), and whether a file was just
/// completed.
pub struct ZrxStep {
    pub reply: Option<Header>,
    pub offered: Option<FileInfo>,
    pub completed: bool,
}

/// A ZMODEM download: the receiver, whether subpackets carry CRC-32, and the retries left
/// on the current wait.
pub struct ZmodemDownload {
    pub rx: ZmodemReceiver,
    pub wide: bool,
    pub retries: Retries,
}

pub open spec fn receiving(phase: ZrxPhase) -> bool {
    phase == ZrxPhase::AwaitDataHeader || phase == ZrxPhase::ReceivingData
}

impl ZmodemDownload {
    /// A download that has not begun; each wait is tried again up to `max_retries` times.
    pub fn new(max_retries: u32) -> (r: Self)
        ensures
            r.rx == (ZmodemReceiver { phase: ZrxPhase::AwaitInit, offset: 0, file_size: None }),
            !r.wide,
            r.retries == (Retries { count: 0, limit: max_retries }),
    {
        ZmodemDownload { rx: ZmodemReceiver::new(), wide: false, retries: Retries::new(max_retries) }
    }

    /// The next unit at the head of `buf`, and the bytes it takes.
    pub fn next(&self, buf: &[u8]) -> (r: (usize, Option<ZrxUnit>))
        ensures
            r.0 <= buf@.len(),
            wants_data(self.rx.phase) ==> match parse_subpacket(buf@, self.wide) {
                None => r.0 == 0 && r.1.is_none(),
                Some((d, end, q, ok)) => r.0 == q && match r.1 {
                    Some(ZrxUnit::Data(sp)) => sp.data@ == d && sp.end == end && sp.consumed == q
                        && sp.crc_ok == ok,
                    _ => false,
                },
            },
            !wants_data(self.rx.phase) ==> (r.0 as int, r.1) == header_scan(buf@),
    {
        next_unit(buf, self.rx.phase, self.wide)
    }

    /// Takes one unit. Headers go to the receiver's table; a damaged one is answered with
    /// ZNAK. The ZFILE subpacket is offered to the caller, who opens the file with
    /// `accept_file`; data subpackets are written to the open file. Any unit counts as
    /// progress: the retries start over.
    pub fn take<S: FileStorageHandler>(&mut self, store: &mut S, unit: ZrxUnit) -> (r: ZrxStep)
        requires
            in_sync(old(self).rx, old(store).current_name().is_some(), old(store).current_content().len()),
            old(store).inv(),
        ensures
            final(store).inv(),
            in_sync(final(self).rx, final(store).current_name().is_some(), final(store).current_content().len()),
            final(self).retries == (Retries { count: 0, ..old(self).retries }),
            match unit {
                ZrxUnit::Header(h, w) => {
                    &&& (final(self).rx, r.reply) == zrx_header(old(self).rx, h)
                    &&& final(self).wide == w
                    &&& r.offered.is_none()
                    &&& r.completed == (receiving(old(self).rx.phase) && final(self).rx.phase
                        == ZrxPhase::AwaitFile)
                    &&& *final(store) == *old(store)
                },
                ZrxUnit::BadHeader => {
                    &&& r.reply == Some(at_offset(FrameKind::Nak, 0))
                    &&& final(self).rx == old(self).rx
                    &&& final(self).wide == old(self).wide
                    &&& r.offered.is_none()
                    &&& !r.completed
                    &&& *final(store) == *old(store)
                },
                ZrxUnit::Data(sp) => {
                    &&& final(self).wide == old(self).wide
                    &&& !r.completed
                    &&& if old(self).rx.phase == ZrxPhase::ReceivingData {
                        let (next, reply, write) = zrx_data(old(self).rx, sp.data@.len(), sp.end, sp.crc_ok);
                        &&& final(self).rx == next
                        &&& r.reply == reply
                        &&& r.offered.is_none()
                        &&& final(store).current_name() == old(store).current_name()
                        &&& final(store).current_content() == (if write {
                            old(store).current_content() + sp.data@
                        } else {
                            old(store).current_content()
                        })
                        &&& forall|n: Seq<char>|
                            Some(n) != old(store).current_name() ==> #[trigger] final(store).stored(n)
                                == old(store).stored(n)
                    } else if old(self).rx.phase == ZrxPhase::AwaitFileInfo {
                        &&& final(self).rx == old(self).rx
                        &&& *final(store) == *old(store)
                        &&& if sp.crc_ok && block0_name(sp.data@).len() > 0 {
                            &&& r.reply.is_none()
                            &&& match r.offered {
                                Some(info) => {
                                    &&& info.name@ == block0_name(sp.data@)
                                    &&& info.size == block0_size(sp.data@)
                                    &&& info.mtime == block0_mtime(sp.data@)
                                },
                                None => false,
                            }
                        } else {
                            r.reply == Some(at_offset(FrameKind::Nak, 0)) && r.offered.is_none()
                        }
                    } else {
                        &&& final(self).rx == old(self).rx
                        &&& r.reply.is_none()
                        &&& r.offered.is_none()
                        &&& *final(store) == *old(store)
                    }
                },
            },
    {
        self.retries.reset();
        match unit {
            ZrxUnit::Header(h, w) => {
                let was = self.rx.phase == ZrxPhase::AwaitDataHeader || self.rx.phase
                    == ZrxPhase::ReceivingData;
                let reply = self.rx.on_header(&h);
                self.wide = w;
                let completed = was && self.rx.phase == ZrxPhase::AwaitFile;
                ZrxStep { reply, offered: None, completed }
            },
            ZrxUnit::BadHeader => {
                ZrxStep { reply: Some(self.rx.on_bad_header()), offered: None, completed: false }
            },
            ZrxUnit::Data(sp) => {
                if self.rx.phase == ZrxPhase::ReceivingData {
                    let reply = self.rx.on_data(store, sp.data.as_slice(), sp.end, sp.crc_ok);
                    ZrxStep { reply, offered: None, completed: false }
                } else if self.rx.phase == ZrxPhase::AwaitFileInfo {
                    if !sp.crc_ok {
                        return ZrxStep { reply: Some(self.rx.on_bad_header()), offered: None, completed: false };
                    }
                    match parse_block0(sp.data.as_slice()) {
                        Some(info) => ZrxStep { reply: None, offered: Some(info), completed: false },
                        None => ZrxStep {
                            reply: Some(self.rx.on_bad_header()),
                            offered: None,
                            completed: false,
                        },
                    }
                } else {
                    ZrxStep { reply: None, offered: None, completed: false }
                }
            },
        }
    }

    /// Opens the offered file under `name`, with `existing` bytes already held, and
    /// returns the answer: ZRPOS at the end of `existing`. A size beyond 32 bits cannot be
    /// received: the download is aborted with ZABORT.
    pub fn accept_file<S: FileStorageHandler>(
        &mut self,
        store: &mut S,
        name: &str,
        size: Option<u64>,
        existing: &[u8],
    ) -> (r: Header)
        requires
            existing@.len() <= u32::MAX,
            old(store).inv(),
        ensures
            final(store).inv(),
            match size {
                Some(n) => n > u32::MAX,
                None => false,
            } ==> r == at_offset(FrameKind::Abort, 0) && final(self).rx.phase == ZrxPhase::Aborted
                && *final(store) == *old(store),
            match size {
                Some(n) => n <= u32::MAX,
                None => true,
            } ==> {
                &&& r == at_offset(FrameKind::RPos, existing@.len() as u32)
                &&& final(self).rx == (ZmodemReceiver {
                    phase: ZrxPhase::AwaitDataHeader,
                    offset: existing@.len() as u32,
                    file_size: match size {
                        Some(n) => Some(n as u32),
                        None => None,
                    },
                })
                &&& final(store).current_name() == Some(name@)
                &&& final(store).current_content() == existing@
                &&& final(store).stored(name@) == Some(existing@)
                &&& forall|n: Seq<char>|
                    n != name@ ==> #[trigger] final(store).stored(n) == old(store).stored(n)
            },
            in_sync(final(self).rx, final(store).current_name().is_some(), final(store).current_content().len()),
            final(self).wide == old(self).wide,
    {
        let size32: Option<u32> = match size {
            Some(n) => {
                if n > u32::MAX as u64 {
                    self.rx.phase = ZrxPhase::Aborted;
                    return Header::with_offset(FrameKind::Abort, 0);
                }
                Some(n as u32)
            },
            None => None,
        };
        self.rx.on_file(store, name, size32, existing)
    }

    /// Nothing came within the receiver's wait: answer again, or abort once the retries
    /// are used up.
    pub fn on_timeout(&mut self) -> (r: ZrxTimeout)
        ensures
            old(self).retries.count < old(self).retries.limit ==> r == ZrxTimeout::Resend
                && final(self).rx == old(self).rx && final(self).retries.count
                == old(self).retries.count + 1,
            old(self).retries.count >= old(self).retries.limit ==> r == ZrxTimeout::Abort(
                at_offset(FrameKind::Abort, 0),
            ) && final(self).rx == (ZmodemReceiver { phase: ZrxPhase::Aborted, ..old(self).rx }),
            final(self).retries.limit == old(self).retries.limit,
            final(self).wide == old(self).wide,
    {
        self.rx.on_timeout(&mut self.retries)
    }
}

/// The chunks one after another.
pub open spec fn concat(chunks: Seq<Seq<u8>>) -> Seq<u8>
    decreases chunks.len(),
{
    if chunks.len() == 0 {
        Seq::empty()
    } else {
        concat(chunks.drop_last()) + chunks.last()
    }
}

/// The receiver and its file after taking `chunks` as good subpackets that keep the frame
/// open (`ZCRCG`).
pub open spec fn take_chunks(rx: ZmodemReceiver, content: Seq<u8>, chunks: Seq<Seq<u8>>) -> (
    ZmodemReceiver,
    Seq<u8>,
)
    decreases chunks.len(),
{
    if chunks.len() == 0 {
        (rx, content)
    } else {
        let (r1, c1) = take_chunks(rx, content, chunks.drop_last());
        let (r2, _, write) = zrx_data(r1, chunks.last().len(), ZCRCG, true);
        (r2, if write { c1 + chunks.last() } else { c1 })
    }
}

/// A whole data frame: a receiver that holds the first `offset` bytes of the sender's file
/// `src` and takes the rest of it as good subpackets, in any cut into chunks, ends with
/// the file equal to `src` byte for byte, its offset at the file's end, ready for the ZEOF
/// at that offset; so the file's CRC-32 is the sender's.
pub proof fn lemma_frame_delivers_file(
    rx: ZmodemReceiver,
    content: Seq<u8>,
    src: Seq<u8>,
    chunks: Seq<Seq<u8>>,
)
    requires
        rx.phase == ZrxPhase::ReceivingData,
        rx.offset <= src.len() <= u32::MAX,
        content == src.take(rx.offset as int),
        concat(chunks) == src.skip(rx.offset as int),
    ensures
        take_chunks(rx, content, chunks).1 == src,
        take_chunks(rx, content, chunks).0.offset == src.len(),
        take_chunks(rx, content, chunks).0.phase == ZrxPhase::ReceivingData,
        crc32_of(take_chunks(rx, content, chunks).1) == crc32_of(src),
{
    lemma_prefix_delivered(rx, content, src, chunks);
    let (r, c) = take_chunks(rx, content, chunks);
    assert(concat(chunks).len() == src.len() - rx.offset);
    assert(src.take(src.len() as int) =~= src);
}

proof fn lemma_prefix_delivered(
    rx: ZmodemReceiver,
    content: Seq<u8>,
    src: Seq<u8>,
    chunks: Seq<Seq<u8>>,
)
    requires
        rx.phase == ZrxPhase::ReceivingData,
        rx.offset <= src.len() <= u32::MAX,
        content == src.take(rx.offset as int),
        rx.offset + concat(chunks).len() <= src.len(),
        concat(chunks) == src.subrange(rx.offset as int, rx.offset + concat(chunks).len()),
    ensures
        take_chunks(rx, content, chunks).0 == (ZmodemReceiver {
            offset: (rx.offset + concat(chunks).len()) as u32,
            ..rx
        }),
        take_chunks(rx, content, chunks).1 == src.take(rx.offset + concat(chunks).len()),
    decreases chunks.len(),
{
    if chunks.len() == 0 {
        assert(rx == (ZmodemReceiver { offset: (rx.offset + 0) as u32, ..rx }));
    } else {
        let pre = chunks.drop_last();
        let last = chunks.last();
        assert(concat(chunks) == concat(pre) + last);
        assert(concat(pre) =~= src.subrange(rx.offset as int, rx.offset + concat(pre).len())) by {
            assert forall|k: int| 0 <= k < concat(pre).len() implies concat(pre)[k] == src[rx.offset
                + k] by {
                assert(concat(chunks)[k] == concat(pre)[k]);
            }
        }
        lemma_prefix_delivered(rx, content, src, pre);
        let (r1, c1) = take_chunks(rx, content, pre);
        let off = rx.offset + concat(pre).len();
        assert(last =~= src.subrange(off, off + last.len())) by {
            assert forall|k: int| 0 <= k < last.len() implies last[k] == src[off + k] by {
                assert(concat(chunks)[concat(pre).len() + k] == last[k]);
            }
        }
        assert(c1 + last =~= src.take(off + last.len()));
    }
}

/// A receiver whose file is the first `offset` bytes of the sender's `src` keeps it so when
/// it takes a subpacket that holds the sender's bytes at that offset; and when it takes the
/// ZEOF at the sender's length, the file is the sender's file byte for byte.
pub proof fn lemma_receiver_keeps_prefix(
    rx: ZmodemReceiver,
    content: Seq<u8>,
    src: Seq<u8>,
    data: Seq<u8>,
    end: u8,
    crc_ok: bool,
)
    requires
        content == src.take(rx.offset as int),
        rx.offset <= src.len(),
        rx.offset + data.len() <= src.len(),
        data == src.subrange(rx.offset as int, rx.offset + data.len()),
    ensures
        ({
            let (next, _, write) = zrx_data(rx, data.len(), end, crc_ok);
            (if write { content + data } else { content }) == src.take(next.offset as int)
        }),
        ({
            let (next, reply) = zrx_header(rx, at_offset(FrameKind::Eof, src.len() as u32));
            src.len() <= u32::MAX && reply == Some(rinit()) && (rx.phase == ZrxPhase::AwaitDataHeader
                || rx.phase == ZrxPhase::ReceivingData) ==> content == src
        }),
{
    let (next, _, write) = zrx_data(rx, data.len(), end, crc_ok);
    if write {
        assert(content + data =~= src.take(next.offset as int));
    }
    if src.len() <= u32::MAX {
        lemma_at_offset(FrameKind::Eof, src.len() as u32);
        if rx.offset == src.len() {
            assert(src.take(rx.offset as int) =~= src);
        }
    }
}

/// The sender's answer to the receiver's ZCRC: a ZCRC that carries the CRC-32 of the
/// first `n` bytes of the file, `n` being the offset the request carries (0, or more than
/// the file holds, for all of it), low byte first.
pub open spec fn crc_answer(file: Seq<u8>, h: Header) -> Header {
    let n = header_offset(h);
    let region = if n == 0 || n > file.len() {
        file
    } else {
        file.take(n as int)
    };
    at_offset(FrameKind::Crc, crc32_of(region))
}

/// Answers a ZCRC request over `file`.
pub fn answer_crc(file: &[u8], h: &Header) -> (r: Header)
    ensures
        r == crc_answer(file@, *h),
{
    let n = h.offset() as usize;
    let c = if n == 0 || n > file.len() {
        crc32(file)
    } else {
        let region = slice_range(file, 0, n);
        proof {
            assert(region@ =~= file@.take(n as int));
        }
        crc32(region.as_slice())
    };
    Header::with_offset(FrameKind::Crc, c)
}

/// Where a ZMODEM send stands.
#[derive(Clone, Copy, Debug, PartialEq, Eq, Structural)]
pub enum ZtxPhase {
    /// Sending ZRQINIT, waiting for the receiver's ZRINIT.
    AwaitRInit,
    /// The file header went out; waiting for ZRPOS (or ZSKIP).
    AwaitFilePos,
    /// Sending data.
    Sending,
    /// ZEOF went out; waiting for ZRINIT.
    AwaitEofAck,
    /// ZFIN went out; waiting for the receiver's ZFIN.
    AwaitFin,
    Done,
    Aborted,
}

/// What the sender is to do next.
#[derive(Clone, Copy, Debug, PartialEq, Eq, Structural)]
pub enum ZtxAction {
    /// Send the ZFILE header and its subpacket.
    SendFile,
    /// Send a ZDATA header at this offset, then data from there.
    SendData(u32),
    /// Answer the receiver's ZCRC request (this header) with `answer_crc`.
    AnswerCrc(Header),
    /// Send ZFIN.
    SendFin,
    /// Send "OO": the session is over.
    Finish,
    /// Send the cancel sequence.
    Abort,
    /// Nothing to send.
    Wait,
}

/// The sending side of ZMODEM for one file: `offset` is where the next data comes from,
/// `acked` how far the receiver has acknowledged, `window` how many bytes may be in flight
/// without an acknowledgement.
#[derive(Clone, Copy, Debug, PartialEq, Eq, Structural)]
pub struct ZmodemSender {
    pub phase: ZtxPhase,
    pub offset: u32,
    pub acked: u32,
    pub file_len: u32,
    pub window: u32,
}

/// Data may go now: the window has room and the caller takes at least one byte.
pub open spec fn chunk_allowed(tx: ZmodemSender, max: u32) -> bool {
    tx.offset - tx.acked < tx.window && max > 0
}

/// How much goes next: the least of what is left of the file, `max`, and the room left in
/// the window.
pub open spec fn chunk_len(tx: ZmodemSender, max: u32) -> int {
    let left = tx.file_len - tx.offset;
    let room = tx.window - (tx.offset - tx.acked);
    let a = if left < max { left } else { max as int };
    if a < room {
        a
    } else {
        room
    }
}

/// The sender's order: nothing acknowledged beyond what was sent, nothing sent beyond the
/// file's end.
pub open spec fn tx_wf(tx: ZmodemSender) -> bool {
    tx.acked <= tx.offset <= tx.file_len && tx.window > 0
}

/// How the sender answers a header from the receiver.
pub open spec fn ztx_header(tx: ZmodemSender, h: Header) -> (ZmodemSender, ZtxAction) {
    let p = header_offset(h);
    match h.kind {
        FrameKind::RInit => if tx.phase == ZtxPhase::AwaitRInit {
            (ZmodemSender { phase: ZtxPhase::AwaitFilePos, ..tx }, ZtxAction::SendFile)
        } else if tx.phase == ZtxPhase::AwaitEofAck {
            (ZmodemSender { phase: ZtxPhase::AwaitFin, ..tx }, ZtxAction::SendFin)
        } else {
            (tx, ZtxAction::Wait)
        },
        FrameKind::RPos => if tx.phase == ZtxPhase::AwaitFilePos || tx.phase == ZtxPhase::Sending
            || tx.phase == ZtxPhase::AwaitEofAck {
            if p <= tx.file_len {
                (
                    ZmodemSender {
                        phase: ZtxPhase::Sending,
                        offset: p as u32,
                        acked: p as u32,
                        ..tx
                    },
                    ZtxAction::SendData(p as u32),
                )
            } else {
                (ZmodemSender { phase: ZtxPhase::Aborted, ..tx }, ZtxAction::Abort)
            }
        } else {
            (tx, ZtxAction::Wait)
        },
        FrameKind::Ack => if tx.phase == ZtxPhase::Sending && tx.acked <= p <= tx.offset {
            (ZmodemSender { acked: p as u32, ..tx }, ZtxAction::Wait)
        } else {
            (tx, ZtxAction::Wait)
        },
        FrameKind::Crc => if tx.phase == ZtxPhase::AwaitFilePos || tx.phase == ZtxPhase::Sending
            || tx.phase == ZtxPhase::AwaitEofAck {
            (tx, ZtxAction::AnswerCrc(h))
        } else {
            (tx, ZtxAction::Wait)
        },
        FrameKind::Skip => if tx.phase == ZtxPhase::AwaitFilePos || tx.phase == ZtxPhase::Sending
            || tx.phase == ZtxPhase::AwaitEofAck {
            (ZmodemSender { phase: ZtxPhase::AwaitFin, ..tx }, ZtxAction::SendFin)
        } else {
            (tx, ZtxAction::Wait)
        },
        FrameKind::Fin => if tx.phase == ZtxPhase::AwaitFin {
            (ZmodemSender { phase: ZtxPhase::Done, ..tx }, ZtxAction::Finish)
        } else {
            (tx, ZtxAction::Wait)
        },
        FrameKind::Abort | FrameKind::Can | FrameKind::FErr => (
            ZmodemSender { phase: ZtxPhase::Aborted, ..tx },
            ZtxAction::Abort,
        ),
        _ => (tx, ZtxAction::Wait),
    }
}

impl ZmodemSender {
    /// A sender for a file of `file_len` bytes with a window of `window` bytes.
    pub fn new(file_len: u32, window: u32) -> (r: Self)
        requires
            window > 0,
        ensures
            tx_wf(r),
            r == (ZmodemSender {
                phase: ZtxPhase::AwaitRInit,
                offset: 0,
                acked: 0,
                file_len,
                window,
            }),
    {
        ZmodemSender { phase: ZtxPhase::AwaitRInit, offset: 0, acked: 0, file_len, window }
    }

    /// The peer or the user cancelled: the send ends at once, whatever its state.
    pub fn on_cancel(&mut self)
        requires
            tx_wf(*old(self)),
        ensures
            tx_wf(*final(self)),
            *final(self) == (ZmodemSender { phase: ZtxPhase::Aborted, ..*old(self) }),
    {
        self.phase = ZtxPhase::Aborted;
    }

    /// Takes in a header from the receiver. A ZRPOS at or below the file's end restarts the
    /// data at its offset, whatever was sent before.
    pub fn on_header(&mut self, h: &Header) -> (r: ZtxAction)
        requires
            tx_wf(*old(self)),
        ensures
            tx_wf(*final(self)),
            (*final(self), r) == ztx_header(*old(self), *h),
    {
        let p = h.offset();
        match h.kind {
            FrameKind::RInit => {
                if self.phase == ZtxPhase::AwaitRInit {
                    self.phase = ZtxPhase::AwaitFilePos;
                    ZtxAction::SendFile
                } else if self.phase == ZtxPhase::AwaitEofAck {
                    self.phase = ZtxPhase::AwaitFin;
                    ZtxAction::SendFin
                } else {
                    ZtxAction::Wait
                }
            },
            FrameKind::RPos => {
                if self.phase == ZtxPhase::AwaitFilePos || self.phase == ZtxPhase::Sending
                    || self.phase == ZtxPhase::AwaitEofAck {
                    if p <= self.file_len {
                        self.phase = ZtxPhase::Sending;
                        self.offset = p;
                        self.acked = p;
                        ZtxAction::SendData(p)
                    } else {
                        self.phase = ZtxPhase::Aborted;
                        ZtxAction::Abort
                    }
                } else {
                    ZtxAction::Wait
                }
            },
            FrameKind::Ack => {
                if self.phase == ZtxPhase::Sending && self.acked <= p && p <= self.offset {
                    self.acked = p;
                }
                ZtxAction::Wait
            },
            FrameKind::Crc => {
                if self.phase == ZtxPhase::AwaitFilePos || self.phase == ZtxPhase::Sending
                    || self.phase == ZtxPhase::AwaitEofAck {
                    ZtxAction::AnswerCrc(*h)
                } else {
                    ZtxAction::Wait
                }
            },
            FrameKind::Skip => {
                if self.phase == ZtxPhase::AwaitFilePos || self.phase == ZtxPhase::Sending
                    || self.phase == ZtxPhase::AwaitEofAck {
                    self.phase = ZtxPhase::AwaitFin;
                    ZtxAction::SendFin
                } else {
                    ZtxAction::Wait
                }
            },
            FrameKind::Fin => {
                if self.phase == ZtxPhase::AwaitFin {
                    self.phase = ZtxPhase::Done;
                    ZtxAction::Finish
                } else {
                    ZtxAction::Wait
                }
            },
            FrameKind::Abort | FrameKind::Can | FrameKind::FErr => {
                self.phase = ZtxPhase::Aborted;
                ZtxAction::Abort
            },
            _ => ZtxAction::Wait,
        }
    }

    /// No acknowledgement came in time: data goes again from the last acknowledged offset.
    pub fn on_timeout(&mut self) -> (r: ZtxAction)
        requires
            tx_wf(*old(self)),
        ensures
            tx_wf(*final(self)),
            old(self).phase == ZtxPhase::Sending ==> r == ZtxAction::SendData(old(self).acked)
                && *final(self) == (ZmodemSender { offset: old(self).acked, ..*old(self) }),
            old(self).phase != ZtxPhase::Sending ==> r == ZtxAction::Wait
                && *final(self) == *old(self),
    {
        if self.phase == ZtxPhase::Sending {
            self.offset = self.acked;
            ZtxAction::SendData(self.acked)
        } else {
            ZtxAction::Wait
        }
    }

    /// The end byte for the subpacket just handed out by `next_chunk`: `ZCRCE` after the
    /// file's last byte (the frame ends, ZEOF follows), else `ZCRCQ` (the frame goes on
    /// and the receiver acknowledges, which moves the window).
    pub fn chunk_end(&self) -> (r: u8)
        ensures
            r == (if self.offset == self.file_len {
                ZCRCE
            } else {
                ZCRCQ
            }),
    {
        if self.offset == self.file_len {
            ZCRCE
        } else {
            ZCRCQ
        }
    }

    /// The next piece of data to send, as (start, length), at most `max` bytes and no more
    /// than the window allows. `None` where nothing may go now; at the file's end the
    /// sender moves on to ZEOF, whose offset is then `offset`.
    pub fn next_chunk(&mut self, max: u32) -> (r: Option<(u32, u32)>)
        requires
            tx_wf(*old(self)),
        ensures
            tx_wf(*final(self)),
            old(self).phase != ZtxPhase::Sending ==> r.is_none() && *final(self) == *old(self),
            old(self).phase == ZtxPhase::Sending && old(self).offset == old(self).file_len
                ==> r.is_none() && *final(self) == (ZmodemSender {
                phase: ZtxPhase::AwaitEofAck,
                ..*old(self)
            }),
            old(self).phase == ZtxPhase::Sending && old(self).offset < old(self).file_len && !(
            chunk_allowed(*old(self), max)) ==> r.is_none() && *final(self) == *old(self),
            old(self).phase == ZtxPhase::Sending && old(self).offset < old(self).file_len
                && chunk_allowed(*old(self), max) ==> {
                let len = chunk_len(*old(self), max);
                &&& r == Some((old(self).offset, len as u32))
                &&& len > 0
                &&& *final(self) == (ZmodemSender {
                    offset: (old(self).offset + len) as u32,
                    ..*old(self)
                })
                &&& final(self).offset - final(self).acked <= final(self).window
            },
    {
        if self.phase != ZtxPhase::Sending {
            return None;
        }
        if self.offset == self.file_len {
            self.phase = ZtxPhase::AwaitEofAck;
            return None;
        }
        let in_flight = self.offset - self.acked;
        if in_flight >= self.window || max == 0 {
            return None;
        }
        let mut len = self.file_len - self.offset;
        if len > max {
            len = max;
        }
        if len > self.window - in_flight {
            len = self.window - in_flight;
        }
        let start = self.offset;
        self.offset = self.offset + len;
        Some((start, len))
    }
}

/// A sender that has offered the file takes a ZRPOS at any offset up to the file's end,
/// zero or more, as the place to send from next, whatever it had sent before.
pub proof fn lemma_rpos_restarts(tx: ZmodemSender, p: u32)
    requires
        tx_wf(tx),
        tx.phase == ZtxPhase::AwaitFilePos || tx.phase == ZtxPhase::Sending || tx.phase
            == ZtxPhase::AwaitEofAck,
        p <= tx.file_len,
    ensures
        ztx_header(tx, at_offset(FrameKind::RPos, p)) == (
            ZmodemSender { phase: ZtxPhase::Sending, offset: p, acked: p, ..tx },
            ZtxAction::SendData(p),
        ),
{
    lemma_at_offset(FrameKind::RPos, p);
}

/// After a cancel neither side moves: the receiver writes no more data and answers no
/// data header, and the sender sends no more data, whatever comes.
pub proof fn lemma_cancelled_peers_stop(
    rx: ZmodemReceiver,
    tx: ZmodemSender,
    h: Header,
    len: nat,
    end: u8,
    crc_ok: bool,
)
    requires
        rx.phase == ZrxPhase::Aborted,
        tx.phase == ZtxPhase::Aborted,
    ensures
        !zrx_data(rx, len, end, crc_ok).2,
        zrx_data(rx, len, end, crc_ok).0 == rx,
        h.kind == FrameKind::Data ==> zrx_header(rx, h) == (rx, Option::<Header>::None),
        !(ztx_header(tx, h).1 is SendData),
        ztx_header(tx, h).0.phase == ZtxPhase::Aborted,
{
}

} // verus!
