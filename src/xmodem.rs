//! XMODEM and its variants (CRC, 1K, G): block layout, receiver and sender.

use vstd::prelude::*;

use crate::bytes::{bytes_equal, slice_range};
use crate::crc::{checksum, checksum_of, crc16, crc16_of};

verus! {

pub const SOH: u8 = 0x01;
pub const STX: u8 = 0x02;
pub const EOT: u8 = 0x04;
pub const ACK: u8 = 0x06;
pub const NAK: u8 = 0x15;
pub const CAN: u8 = 0x18;
/// The receiver's request for CRC-16 blocks.
pub const CRC_REQUEST: u8 = 0x43;
/// The receiver's request for streaming (`-G`) transfer.
pub const STREAM_REQUEST: u8 = 0x47;
/// The filler of a short last block.
pub const CPM_EOF: u8 = 0x1a;
/// How many times the receiver asks for CRC-16 before it falls back to the checksum.
pub const CRC_ATTEMPTS: u32 = 3;
/// Errors on one block after which the receiver gives up.
pub const MAX_ERRORS: u32 = 10;

/// The check that ends each block.
#[derive(Clone, Copy, Debug, PartialEq, Eq, Structural)]
pub enum CheckKind {
    /// One byte: the sum of the payload modulo 256.
    Checksum,
    /// Two bytes: CRC-16/XMODEM of the payload, high byte first.
    Crc16,
}

pub open spec fn check_len(c: CheckKind) -> int {
    match c {
        CheckKind::Checksum => 1,
        CheckKind::Crc16 => 2,
    }
}

/// The payload size that a start byte announces: 128 after `SOH`, 1024 after `STX`.
pub open spec fn payload_len(start: u8) -> int {
    if start == SOH {
        128
    } else if start == STX {
        1024
    } else {
        0
    }
}

/// The check bytes of a payload.
pub open spec fn check_spec(payload: Seq<u8>, c: CheckKind) -> Seq<u8> {
    match c {
        CheckKind::Checksum => seq![checksum_of(payload)],
        CheckKind::Crc16 => {
            let v = crc16_of(payload);
            seq![(v >> 8u16) as u8, (v & 0xff) as u8]
        },
    }
}

/// The payload of a block: the bytes after the three header bytes.
pub open spec fn payload_of(block: Seq<u8>) -> Seq<u8> {
    block.subrange(3, 3 + payload_len(block[0]))
}

/// A block whose start byte, block number pair, length and check are all right.
pub open spec fn block_valid(block: Seq<u8>, c: CheckKind) -> bool {
    &&& block.len() >= 3
    &&& (block[0] == SOH || block[0] == STX)
    &&& block[2] == 255 - block[1]
    &&& block.len() == 3 + payload_len(block[0]) + check_len(c)
    &&& block.subrange(3 + payload_len(block[0]), block.len() as int) == check_spec(
        payload_of(block),
        c,
    )
}

/// The block number that precedes `n`, counting modulo 256.
pub open spec fn prev_number(n: u8) -> u8 {
    if n == 0 {
        255
    } else {
        (n - 1) as u8
    }
}

/// The next block number, counting modulo 256.
pub open spec fn next_number(n: u8) -> u8 {
    if n == 255 {
        0
    } else {
        (n + 1) as u8
    }
}

/// Where a receive stands.
#[derive(Clone, Copy, Debug, PartialEq, Eq, Structural)]
pub enum RxPhase {
    Receiving,
    /// One `EOT` has been answered with `NAK`.
    EotSeen,
    Done,
    Aborted,
}

/// The receiving side of XMODEM and its variants (CRC, 1K, G).
#[derive(Clone, Copy, Debug, PartialEq, Eq, Structural)]
pub struct XmodemReceiver {
    pub check: CheckKind,
    /// `-G` variant: no acknowledgements, and any error aborts.
    pub streaming: bool,
    /// The number of the block that is due next.
    pub expected: u8,
    /// Errors on the block that is due.
    pub errors: u32,
    /// Handshake requests sent so far.
    pub requests: u32,
    pub phase: RxPhase,
}

/// The receiver after a block, what it sends back, and whether the block's payload is to be
/// written.
pub struct RxStep {
    pub next: XmodemReceiver,
    pub reply: Seq<u8>,
    pub write: bool,
}

/// A receiver that waits for block `first`.
pub open spec fn fresh_receiver(streaming: bool, first: u8) -> XmodemReceiver {
    XmodemReceiver {
        check: CheckKind::Crc16,
        streaming,
        expected: first,
        errors: 0,
        requests: 0,
        phase: RxPhase::Receiving,
    }
}

/// How the receiver answers a block.
pub open spec fn rx_block(rx: XmodemReceiver, block: Seq<u8>) -> RxStep {
    let ack = if rx.streaming { Seq::empty() } else { seq![ACK] };
    let abort = RxStep {
        next: XmodemReceiver { phase: RxPhase::Aborted, ..rx },
        reply: seq![CAN, CAN],
        write: false,
    };
    if rx.phase != RxPhase::Receiving {
        abort
    } else if !block_valid(block, rx.check) {
        if rx.streaming || rx.errors + 1 >= MAX_ERRORS {
            abort
        } else {
            RxStep {
                next: XmodemReceiver { errors: (rx.errors + 1) as u32, ..rx },
                reply: seq![NAK],
                write: false,
            }
        }
    } else if block[1] == rx.expected {
        RxStep {
            next: XmodemReceiver { expected: next_number(rx.expected), errors: 0, ..rx },
            reply: ack,
            write: true,
        }
    } else if block[1] == prev_number(rx.expected) {
        RxStep { next: rx, reply: ack, write: false }
    } else {
        abort
    }
}

/// The receiver after an `EOT`, and what it sends back.
pub open spec fn rx_eot(rx: XmodemReceiver) -> (XmodemReceiver, Seq<u8>) {
    match rx.phase {
        RxPhase::Receiving => (XmodemReceiver { phase: RxPhase::EotSeen, ..rx }, seq![NAK]),
        RxPhase::EotSeen => (XmodemReceiver { phase: RxPhase::Done, ..rx }, seq![ACK]),
        _ => (rx, Seq::empty()),
    }
}

fn check_exec(payload: &[u8], c: CheckKind) -> (r: Vec<u8>)
    ensures
        r@ == check_spec(payload@, c),
{
    let mut r: Vec<u8> = Vec::new();
    match c {
        CheckKind::Checksum => {
            r.push(checksum(payload));
        },
        CheckKind::Crc16 => {
            let v = crc16(payload);
            r.push((v >> 8u16) as u8);
            r.push((v & 0xff) as u8);
        },
    }
    proof {
        assert(r@ =~= check_spec(payload@, c));
    }
    r
}

/// Checks a received block: its start byte, the block number and its complement, its
/// length and its check.
pub fn is_valid_block(block: &[u8], c: CheckKind) -> (r: bool)
    ensures
        r == block_valid(block@, c),
{
    if block.len() < 3 {
        return false;
    }
    let start = block[0];
    if start != SOH && start != STX {
        return false;
    }
    if block[2] != 255 - block[1] {
        return false;
    }
    let n: usize = if start == SOH { 128 } else { 1024 };
    let cl: usize = match c {
        CheckKind::Checksum => 1,
        CheckKind::Crc16 => 2,
    };
    if block.len() != 3 + n + cl {
        return false;
    }
    let payload = slice_range(block, 3, 3 + n);
    let expected = check_exec(payload.as_slice(), c);
    let got = slice_range(block, 3 + n, block.len());
    bytes_equal(got.as_slice(), expected.as_slice())
}

/// Builds a block: start byte, number, complement, payload, check. The payload must be 128
/// or 1024 bytes long.
pub fn encode_block(number: u8, payload: &[u8], c: CheckKind) -> (r: Vec<u8>)
    requires
        payload@.len() == 128 || payload@.len() == 1024,
    ensures
        block_valid(r@, c),
        r@[1] == number,
        payload_of(r@) == payload@,
{
    let mut r: Vec<u8> = Vec::new();
    r.push(if payload.len() == 128 { SOH } else { STX });
    r.push(number);
    r.push(255 - number);
    r.extend_from_slice(payload);
    let mut check = check_exec(payload, c);
    r.append(&mut check);
    proof {
        assert(payload_of(r@) =~= payload@);
        assert(r@.subrange(3 + payload_len(r@[0]), r@.len() as int) =~= check_spec(payload@, c));
    }
    r
}

/// Pads the last piece of a file with `CPM_EOF` to `size` bytes.
pub fn pad_block(data: &[u8], size: usize) -> (r: Vec<u8>)
    requires
        data@.len() <= size,
    ensures
        r@.len() == size,
        r@.subrange(0, data@.len() as int) == data@,
        forall|k: int| data@.len() <= k < size ==> r@[k] == CPM_EOF,
{
    let mut r: Vec<u8> = Vec::new();
    r.extend_from_slice(data);
    while r.len() < size
        invariant
            data@.len() <= r@.len() <= size,
            r@.subrange(0, data@.len() as int) == data@,
            forall|k: int| data@.len() <= k < r@.len() ==> r@[k] == CPM_EOF,
        decreases size - r@.len(),
    {
        r.push(CPM_EOF);
        proof {
            assert(r@.subrange(0, data@.len() as int) =~= data@);
        }
    }
    proof {
        assert(r@.subrange(0, data@.len() as int) =~= data@);
    }
    r
}

/// `s` without its trailing `CPM_EOF` bytes.
pub open spec fn trimmed(s: Seq<u8>) -> Seq<u8>
    decreases s.len(),
{
    if s.len() > 0 && s.last() == CPM_EOF {
        trimmed(s.drop_last())
    } else {
        s
    }
}

/// The received file as it is kept: with `trim` (text mode; off by default) the padding
/// of the last block is cut off, else all is kept.
pub fn trim_padding(data: &[u8], trim: bool) -> (r: Vec<u8>)
    ensures
        r@ == (if trim {
            trimmed(data@)
        } else {
            data@
        }),
{
    let mut n: usize = data.len();
    proof {
        assert(data@.take(data@.len() as int) =~= data@);
    }
    if trim {
        while n > 0 && data[n - 1] == CPM_EOF
            invariant
                n <= data@.len(),
                trimmed(data@) == trimmed(data@.take(n as int)),
            decreases n,
        {
            proof {
                assert(data@.take(n as int).drop_last() =~= data@.take(n - 1));
            }
            n -= 1;
        }
        proof {
            assert(data@.take(data@.len() as int) =~= data@);
        }
    }
    let r = slice_range(data, 0, n);
    proof {
        assert(data@.subrange(0, n as int) =~= data@.take(n as int));
        assert(data@.take(data@.len() as int) =~= data@);
    }
    r
}

impl XmodemReceiver {
    /// A receiver that waits for block 1.
    pub fn new(streaming: bool) -> (r: Self)
        ensures
            r == (XmodemReceiver {
                check: CheckKind::Crc16,
                streaming,
                expected: 1,
                errors: 0,
                requests: 0,
                phase: RxPhase::Receiving,
            }),
    {
        XmodemReceiver {
            check: CheckKind::Crc16,
            streaming,
            expected: 1,
            errors: 0,
            requests: 0,
            phase: RxPhase::Receiving,
        }
    }

    /// A receiver that waits for block `first` (0 for a YMODEM header block).
    pub fn starting_at(streaming: bool, first: u8) -> (r: Self)
        ensures
            r == fresh_receiver(streaming, first),
    {
        XmodemReceiver {
            check: CheckKind::Crc16,
            streaming,
            expected: first,
            errors: 0,
            requests: 0,
            phase: RxPhase::Receiving,
        }
    }

    /// The handshake byte to send while no block has come: `G` when streaming, else `C`
    /// for the first three requests, then `NAK`, which also switches to the checksum.
    pub fn request(&mut self) -> (r: u8)
        ensures
            old(self).streaming ==> r == STREAM_REQUEST && final(self).check == old(self).check,
            !old(self).streaming && old(self).requests < CRC_ATTEMPTS ==> r == CRC_REQUEST
                && final(self).check == CheckKind::Crc16,
            !old(self).streaming && old(self).requests >= CRC_ATTEMPTS ==> r == NAK
                && final(self).check == CheckKind::Checksum,
            final(self).requests == (if old(self).requests < u32::MAX {
                old(self).requests + 1
            } else {
                old(self).requests as int
            }),
            final(self).streaming == old(self).streaming,
            final(self).expected == old(self).expected,
            final(self).errors == old(self).errors,
            final(self).phase == old(self).phase,
    {
        let n = self.requests;
        if self.requests < u32::MAX {
            self.requests = self.requests + 1;
        }
        if self.streaming {
            STREAM_REQUEST
        } else if n < CRC_ATTEMPTS {
            self.check = CheckKind::Crc16;
            CRC_REQUEST
        } else {
            self.check = CheckKind::Checksum;
            NAK
        }
    }

    /// Takes in one received block: returns the reply for the sender and the payload to
    /// write, if the block is the one that is due.
    pub fn on_block(&mut self, block: &[u8]) -> (r: (Vec<u8>, Option<Vec<u8>>))
        ensures
            ({
                let s = rx_block(*old(self), block@);
                &&& *final(self) == s.next
                &&& r.0@ == s.reply
                &&& match r.1 {
                    Some(p) => s.write && p@ == payload_of(block@),
                    None => !s.write,
                }
            }),
    {
        let ghost s = rx_block(*self, block@);
        let mut reply: Vec<u8> = Vec::new();
        if self.phase != RxPhase::Receiving {
            self.phase = RxPhase::Aborted;
            reply.push(CAN);
            reply.push(CAN);
            proof {
                assert(reply@ =~= s.reply);
            }
            return (reply, None);
        }
        if !is_valid_block(block, self.check) {
            if self.streaming || self.errors >= MAX_ERRORS - 1 {
                self.phase = RxPhase::Aborted;
                reply.push(CAN);
                reply.push(CAN);
            } else {
                self.errors = self.errors + 1;
                reply.push(NAK);
            }
            proof {
                assert(reply@ =~= s.reply);
            }
            return (reply, None);
        }
        if !self.streaming {
            reply.push(ACK);
        }
        let number = block[1];
        let prev: u8 = if self.expected == 0 { 255 } else { self.expected - 1 };
        if number == self.expected {
            self.expected = if self.expected == 255 { 0 } else { self.expected + 1 };
            self.errors = 0;
            let n: usize = if block[0] == SOH { 128 } else { 1024 };
            let payload = slice_range(block, 3, 3 + n);
            proof {
                assert(reply@ =~= s.reply);
            }
            (reply, Some(payload))
        } else if number == prev {
            proof {
                assert(reply@ =~= s.reply);
            }
            (reply, None)
        } else {
            self.phase = RxPhase::Aborted;
            let mut abort: Vec<u8> = Vec::new();
            abort.push(CAN);
            abort.push(CAN);
            proof {
                assert(abort@ =~= s.reply);
            }
            (abort, None)
        }
    }

    /// The peer cancelled: the receive ends at once, whatever its state.
    pub fn on_cancel(&mut self)
        ensures
            *final(self) == (XmodemReceiver { phase: RxPhase::Aborted, ..*old(self) }),
    {
        self.phase = RxPhase::Aborted;
    }

    /// Takes in an `EOT`: the first is answered with `NAK`, the second with `ACK`, which ends
    /// the transfer.
    pub fn on_eot(&mut self) -> (r: Vec<u8>)
        ensures
            (*final(self), r@) == rx_eot(*old(self)),
    {
        let mut r: Vec<u8> = Vec::new();
        match self.phase {
            RxPhase::Receiving => {
                self.phase = RxPhase::EotSeen;
                r.push(NAK);
            },
            RxPhase::EotSeen => {
                self.phase = RxPhase::Done;
                r.push(ACK);
            },
            _ => {},
        }
        proof {
            assert(r@ =~= rx_eot(*old(self)).1);
        }
        r
    }
}

/// Where a send stands.
#[derive(Clone, Copy, Debug, PartialEq, Eq, Structural)]
pub enum TxPhase {
    /// Waiting for the receiver's `C`, `NAK` or `G`.
    AwaitStart,
    /// Block `next` went out; waiting for its answer.
    AwaitAck,
    /// `EOT` went out; waiting for its answer.
    AwaitEotAck,
    Done,
    Aborted,
}

/// What the sender is to do next.
#[derive(Clone, Copy, Debug, PartialEq, Eq, Structural)]
pub enum TxAction {
    /// Send the block with this index (0 is the file's first).
    SendBlock(u64),
    /// Send every block from this index on, back to back (`-G`).
    StreamFrom(u64),
    SendEot,
    Finished,
    Abort,
    Wait,
}

/// The sending side of XMODEM for a file of `blocks` blocks.
#[derive(Clone, Copy, Debug, PartialEq, Eq, Structural)]
pub struct XmodemSender {
    pub phase: TxPhase,
    pub check: CheckKind,
    pub streaming: bool,
    pub blocks: u64,
    /// Index of the block in flight, or of the next to send.
    pub next: u64,
    /// `CAN` bytes in a row.
    pub cans: u32,
}

/// How the sender answers one byte from the receiver.
pub open spec fn tx_byte(tx: XmodemSender, b: u8) -> (XmodemSender, TxAction) {
    if b == CAN {
        if tx.cans >= 1 {
            (XmodemSender { phase: TxPhase::Aborted, cans: 2, ..tx }, TxAction::Abort)
        } else {
            (XmodemSender { cans: 1, ..tx }, TxAction::Wait)
        }
    } else {
        let t = XmodemSender { cans: 0, ..tx };
        match tx.phase {
            TxPhase::AwaitStart => if b == CRC_REQUEST || b == NAK || b == STREAM_REQUEST {
                let check = if b == NAK { CheckKind::Checksum } else { CheckKind::Crc16 };
                if tx.blocks == 0 {
                    (XmodemSender { phase: TxPhase::AwaitEotAck, check, ..t }, TxAction::SendEot)
                } else if b == STREAM_REQUEST {
                    (
                        XmodemSender { phase: TxPhase::AwaitEotAck, check, streaming: true, next: tx.blocks, ..t },
                        TxAction::StreamFrom(0),
                    )
                } else {
                    (XmodemSender { phase: TxPhase::AwaitAck, check, next: 0, ..t }, TxAction::SendBlock(0))
                }
            } else {
                (t, TxAction::Wait)
            },
            TxPhase::AwaitAck => if b == ACK {
                if tx.next + 1 >= tx.blocks {
                    (XmodemSender { phase: TxPhase::AwaitEotAck, next: tx.blocks, ..t }, TxAction::SendEot)
                } else {
                    (XmodemSender { next: (tx.next + 1) as u64, ..t }, TxAction::SendBlock((tx.next + 1) as u64))
                }
            } else if b == NAK {
                (t, TxAction::SendBlock(tx.next))
            } else {
                (t, TxAction::Wait)
            },
            TxPhase::AwaitEotAck => if b == ACK {
                (XmodemSender { phase: TxPhase::Done, ..t }, TxAction::Finished)
            } else if b == NAK {
                (t, TxAction::SendEot)
            } else {
                (t, TxAction::Wait)
            },
            _ => (t, TxAction::Wait),
        }
    }
}

impl XmodemSender {
    /// A sender for `blocks` blocks, waiting for the receiver to start.
    pub fn new(blocks: u64) -> (r: Self)
        ensures
            r == (XmodemSender {
                phase: TxPhase::AwaitStart,
                check: CheckKind::Crc16,
                streaming: false,
                blocks,
                next: 0,
                cans: 0,
            }),
    {
        XmodemSender {
            phase: TxPhase::AwaitStart,
            check: CheckKind::Crc16,
            streaming: false,
            blocks,
            next: 0,
            cans: 0,
        }
    }

    /// Takes in one byte from the receiver: `C`, `NAK` or `G` start the transfer (and pick
    /// its check), `ACK` moves on, `NAK` repeats, two `CAN` in a row abort.
    pub fn on_byte(&mut self, b: u8) -> (r: TxAction)
        ensures
            (*final(self), r) == tx_byte(*old(self), b),
    {
        if b == CAN {
            if self.cans >= 1 {
                self.phase = TxPhase::Aborted;
                self.cans = 2;
                return TxAction::Abort;
            } else {
                self.cans = 1;
                return TxAction::Wait;
            }
        }
        self.cans = 0;
        match self.phase {
            TxPhase::AwaitStart => {
                if b == CRC_REQUEST || b == NAK || b == STREAM_REQUEST {
                    self.check = if b == NAK { CheckKind::Checksum } else { CheckKind::Crc16 };
                    if self.blocks == 0 {
                        self.phase = TxPhase::AwaitEotAck;
                        TxAction::SendEot
                    } else if b == STREAM_REQUEST {
                        self.phase = TxPhase::AwaitEotAck;
                        self.streaming = true;
                        self.next = self.blocks;
                        TxAction::StreamFrom(0)
                    } else {
                        self.phase = TxPhase::AwaitAck;
                        self.next = 0;
                        TxAction::SendBlock(0)
                    }
                } else {
                    TxAction::Wait
                }
            },
            TxPhase::AwaitAck => {
                if b == ACK {
                    if self.next >= self.blocks || self.blocks - self.next <= 1 {
                        self.phase = TxPhase::AwaitEotAck;
                        self.next = self.blocks;
                        TxAction::SendEot
                    } else {
                        self.next = self.next + 1;
                        TxAction::SendBlock(self.next)
                    }
                } else if b == NAK {
                    TxAction::SendBlock(self.next)
                } else {
                    TxAction::Wait
                }
            },
            TxPhase::AwaitEotAck => {
                if b == ACK {
                    self.phase = TxPhase::Done;
                    TxAction::Finished
                } else if b == NAK {
                    TxAction::SendEot
                } else {
                    TxAction::Wait
                }
            },
            _ => TxAction::Wait,
        }
    }
}

/// Outside streaming, a receiver sends `ACK` for a block exactly when the block is valid
/// and is the one that is due or a repeat of the one before; it writes only the one that
/// is due, so a repeated block is acknowledged and not written twice.
pub proof fn lemma_ack_iff_valid(rx: XmodemReceiver, block: Seq<u8>)
    requires
        !rx.streaming,
        rx.phase == RxPhase::Receiving,
    ensures
        rx_block(rx, block).reply == seq![ACK] <==> (block_valid(block, rx.check) && (block[1]
            == rx.expected || block[1] == prev_number(rx.expected))),
        rx_block(rx, block).write <==> (block_valid(block, rx.check) && block[1] == rx.expected),
        block_valid(block, rx.check) && block[1] == prev_number(rx.expected) ==> rx_block(
            rx,
            block,
        ).next == rx,
{
    let s = rx_block(rx, block);
    if s.reply == seq![ACK] {
        assert(s.reply[0] == ACK);
        if !block_valid(block, rx.check) {
            if rx.errors + 1 >= MAX_ERRORS {
                assert(seq![CAN, CAN][0] == CAN);
            } else {
                assert(seq![NAK][0] == NAK);
            }
        } else if block[1] != rx.expected && block[1] != prev_number(rx.expected) {
            assert(seq![CAN, CAN][0] == CAN);
        }
    }
}

/// After a cancel, a receiver takes no more blocks: each is refused and none is written.
pub proof fn lemma_cancelled_receiver_stops(rx: XmodemReceiver, block: Seq<u8>)
    requires
        rx.phase == RxPhase::Aborted,
    ensures
        !rx_block(rx, block).write,
        rx_block(rx, block).next.phase == RxPhase::Aborted,
        rx_eot(rx).0 == rx,
{
}

} // verus!
