//! YMODEM: the block 0 file header and the batch receiver.

use vstd::prelude::*;

use crate::xmodem::{fresh_receiver, payload_of, rx_block, rx_eot, RxPhase, XmodemReceiver, CRC_REQUEST, STREAM_REQUEST};

verus! {

/// The value of the digits `s[i..j]` in base `base`.
pub open spec fn digits_value(s: Seq<u8>, i: int, j: int, base: nat) -> nat
    decreases j - i,
{
    if j <= i {
        0
    } else {
        digits_value(s, i, j - 1, base) * base + (s[j - 1] - 0x30) as nat
    }
}

/// `c` is a digit of base `base` (8 or 10).
pub open spec fn is_digit(c: u8, base: nat) -> bool {
    0x30 <= c && (c - 0x30) < base
}

/// The end of the run of digits that starts at `i`.
pub open spec fn run_end(s: Seq<u8>, i: int, base: nat) -> int
    decreases s.len() - i,
{
    if i < 0 || i >= s.len() || !is_digit(s[i], base) {
        i
    } else {
        run_end(s, i + 1, base)
    }
}

/// The index of the first zero byte from `i` on, or the length.
pub open spec fn zero_from(s: Seq<u8>, i: int) -> int
    decreases s.len() - i,
{
    if i < 0 || i >= s.len() || s[i] == 0 {
        i
    } else {
        zero_from(s, i + 1)
    }
}

/// What a YMODEM block 0 announces.
pub struct FileInfo {
    pub name: Vec<u8>,
    pub size: Option<u64>,
    /// Modification time, seconds since the epoch.
    pub mtime: Option<u64>,
}

/// The number written in the digits at `i`, if there are any and it fits in 64 bits.
pub open spec fn number_at(s: Seq<u8>, i: int, base: nat) -> Option<u64> {
    let e = run_end(s, i, base);
    if e == i || digits_value(s, i, e, base) > u64::MAX {
        None
    } else {
        Some(digits_value(s, i, e, base) as u64)
    }
}

/// Where the modification time starts: after the size's digits and one space.
pub open spec fn mtime_start(p: Seq<u8>) -> int {
    run_end(p, zero_from(p, 0) + 1, 10) + 1
}

/// Block 0 read as `name NUL size SP mtime ...`: `None` for the all-empty block that ends a
/// batch (its name is empty); else the name, the decimal size where digits follow the
/// name's NUL, and the octal time where digits follow the size and one space.
pub open spec fn block0_name(p: Seq<u8>) -> Seq<u8> {
    p.take(zero_from(p, 0))
}

pub open spec fn block0_size(p: Seq<u8>) -> Option<u64> {
    number_at(p, zero_from(p, 0) + 1, 10)
}

pub open spec fn block0_mtime(p: Seq<u8>) -> Option<u64> {
    let st = mtime_start(p);
    if block0_size(p).is_some() && st - 1 < p.len() && p[st - 1] == 0x20 {
        number_at(p, st, 8)
    } else {
        None
    }
}

/// Reads a number from the digits at `i`; the end of the run comes back too.
fn read_number(s: &[u8], i: usize, base: u64) -> (r: (Option<u64>, usize))
    requires
        i <= s@.len(),
        base == 8 || base == 10,
    ensures
        r.0 == number_at(s@, i as int, base as nat),
        r.1 == run_end(s@, i as int, base as nat),
{
    let mut j: usize = i;
    let mut v: u64 = 0;
    let mut fits = true;
    while j < s.len() && 0x30 <= s[j] && ((s[j] - 0x30) as u64) < base
        invariant
            i <= j <= s@.len(),
            base == 8 || base == 10,
            run_end(s@, i as int, base as nat) == run_end(s@, j as int, base as nat),
            fits ==> v == digits_value(s@, i as int, j as int, base as nat),
            !fits ==> digits_value(s@, i as int, j as int, base as nat) > u64::MAX,
        decreases s@.len() - j,
    {
        let d = (s[j] - 0x30) as u64;
        proof {
            let a = digits_value(s@, i as int, j as int, base as nat);
            assert(digits_value(s@, i as int, j + 1, base as nat) == a * base as nat + d);
            if !fits {
                assert(a * base as nat >= a) by (nonlinear_arith)
                    requires base >= 8;
            }
        }
        if fits {
            if v <= (u64::MAX - d) / base {
                proof {
                    let (vi, bi, di) = (v as int, base as int, d as int);
                    let m = 0xffff_ffff_ffff_ffffint;
                    assert(vi * bi + di <= m) by (nonlinear_arith)
                        requires vi <= (m - di) / bi, bi > 0, 0 <= di <= m, vi >= 0;
                }
                v = v * base + d;
            } else {
                proof {
                    let (vi, bi, di) = (v as int, base as int, d as int);
                    let m = 0xffff_ffff_ffff_ffffint;
                    assert(vi * bi + di > m) by (nonlinear_arith)
                        requires vi > (m - di) / bi, bi > 0, 0 <= di <= m;
                }
                fits = false;
            }
        }
        j += 1;
    }
    if j == i || !fits {
        (None, j)
    } else {
        (Some(v), j)
    }
}

/// Reads a YMODEM block 0 payload. `None` for the block that ends a batch: its name is
/// empty.
pub fn parse_block0(p: &[u8]) -> (r: Option<FileInfo>)
    ensures
        match r {
            None => block0_name(p@).len() == 0,
            Some(info) => {
                &&& block0_name(p@).len() > 0
                &&& info.name@ == block0_name(p@)
                &&& info.size == block0_size(p@)
                &&& info.mtime == block0_mtime(p@)
            },
        },
{
    let mut z: usize = 0;
    while z < p.len() && p[z] != 0
        invariant
            z <= p@.len(),
            zero_from(p@, 0) == zero_from(p@, z as int),
        decreases p@.len() - z,
    {
        z += 1;
    }
    proof {
        assert(zero_from(p@, z as int) == z);
    }
    if z == 0 {
        return None;
    }
    let mut name: Vec<u8> = Vec::new();
    let mut k: usize = 0;
    while k < z
        invariant
            k <= z <= p@.len(),
            name@ == p@.take(k as int),
        decreases z - k,
    {
        name.push(p[k]);
        k += 1;
        proof {
            assert(name@ =~= p@.take(k as int));
        }
    }
    if z >= p.len() {
        proof {
            assert(run_end(p@, z + 1, 10) == z + 1);
        }
        return Some(FileInfo { name, size: None, mtime: None });
    }
    let (size, e) = read_number(p, z + 1, 10);
    let mut mtime: Option<u64> = None;
    if size.is_some() && e < p.len() && p[e] == 0x20 {
        let (m, _) = read_number(p, e + 1, 8);
        mtime = m;
    }
    Some(FileInfo { name, size, mtime })
}

/// The decimal digits of `n`, most significant first.
pub open spec fn decimal(n: nat) -> Seq<u8>
    decreases n,
{
    if n < 10 {
        seq![(0x30 + n) as u8]
    } else {
        decimal(n / 10) + seq![(0x30 + n % 10) as u8]
    }
}

/// The octal digits of `n`, most significant first.
pub open spec fn octal(n: nat) -> Seq<u8>
    decreases n,
{
    if n < 8 {
        seq![(0x30 + n) as u8]
    } else {
        octal(n / 8) + seq![(0x30 + n % 8) as u8]
    }
}

fn append_digits(dst: &mut Vec<u8>, n: u64, base: u64)
    requires
        base == 8 || base == 10,
    ensures
        final(dst)@ == old(dst)@ + (if base == 10 {
            decimal(n as nat)
        } else {
            octal(n as nat)
        }),
    decreases n,
{
    if n >= base {
        append_digits(dst, n / base, base);
    }
    dst.push(0x30 + (n % base) as u8);
    proof {
        if base == 10 {
            assert(final(dst)@ =~= old(dst)@ + decimal(n as nat));
        } else {
            assert(final(dst)@ =~= old(dst)@ + octal(n as nat));
        }
    }
}

/// The block 0 payload of a file: `name NUL size SP mtime SP mode SP serial NUL` (size in
/// decimal, the others in octal), zero-padded to 128
/// bytes, or to 1024 where it does not fit in 128 (a name of up to 960 bytes always fits).
pub open spec fn block0_spec(name: Seq<u8>, size: u64, mtime: u64, mode: u64, serial: u64) -> Seq<u8> {
    let text = name + seq![0u8] + decimal(size as nat) + seq![0x20u8] + octal(mtime as nat) + seq![
        0x20u8,
    ] + octal(mode as nat) + seq![0x20u8] + octal(serial as nat) + seq![0u8];
    let n: int = if text.len() <= 128 {
        128
    } else if text.len() <= 1024 {
        1024
    } else {
        text.len() as int
    };
    text + Seq::new((n - text.len()) as nat, |i: int| 0u8)
}

/// Builds the block 0 payload of a file.
pub fn encode_block0(name: &[u8], size: u64, mtime: u64, mode: u64, serial: u64) -> (r: Vec<u8>)
    ensures
        r@ == block0_spec(name@, size, mtime, mode, serial),
{
    let mut r: Vec<u8> = Vec::new();
    r.extend_from_slice(name);
    r.push(0);
    append_digits(&mut r, size, 10);
    r.push(0x20);
    append_digits(&mut r, mtime, 8);
    r.push(0x20);
    append_digits(&mut r, mode, 8);
    r.push(0x20);
    append_digits(&mut r, serial, 8);
    r.push(0);
    let ghost text = r@;
    proof {
        assert(text =~= name@ + seq![0u8] + decimal(size as nat) + seq![0x20u8] + octal(
            mtime as nat,
        ) + seq![0x20u8] + octal(mode as nat) + seq![0x20u8] + octal(serial as nat) + seq![0u8]);
    }
    let n: usize = if r.len() <= 128 {
        128
    } else if r.len() <= 1024 {
        1024
    } else {
        r.len()
    };
    while r.len() < n
        invariant
            text.len() <= r@.len() <= n,
            r@ == text + Seq::new((r@.len() - text.len()) as nat, |i: int| 0u8),
        decreases n - r@.len(),
    {
        r.push(0);
        proof {
            assert(r@ =~= text + Seq::new((r@.len() - text.len()) as nat, |i: int| 0u8));
        }
    }
    r
}

/// The empty block 0 that a sender puts after its last file.
pub fn end_of_batch_block0() -> (r: Vec<u8>)
    ensures
        r@ == Seq::new(128, |i: int| 0u8),
        block0_name(r@).len() == 0,
{
    let mut r: Vec<u8> = Vec::new();
    while r.len() < 128
        invariant
            r@.len() <= 128,
            r@ == Seq::new(r@.len(), |i: int| 0u8),
        decreases 128 - r@.len(),
    {
        r.push(0);
        proof {
            assert(r@ =~= Seq::new(r@.len(), |i: int| 0u8));
        }
    }
    proof {
        assert(zero_from(r@, 0) == 0);
        assert(block0_name(r@) =~= Seq::<u8>::empty());
    }
    r
}

/// What a YMODEM block brought.
pub enum BatchEvent {
    /// Nothing to act on (a repeat, an error, an acknowledgement only).
    Nothing,
    /// A header block: a file begins.
    StartFile(FileInfo),
    /// Bytes of the current file, already cut to its announced size.
    Data(Vec<u8>),
    /// The empty header block: the batch is over.
    EndOfBatch,
}

/// The receiving side of YMODEM: a header block, then the file's blocks, then the next
/// header, until the empty header.
pub struct YmodemReceiver {
    pub xmodem: XmodemReceiver,
    /// A header block is due.
    pub in_header: bool,
    /// Bytes of the current file still to come, where its size was announced.
    pub remaining: Option<u64>,
    pub finished: bool,
}

/// The request byte for the next block 0 or the first data block.
pub open spec fn request_byte(streaming: bool) -> u8 {
    if streaming {
        STREAM_REQUEST
    } else {
        CRC_REQUEST
    }
}

/// `p` cut to what is left of the file.
pub open spec fn clip(p: Seq<u8>, remaining: Option<u64>) -> Seq<u8> {
    match remaining {
        Some(n) => if n < p.len() {
            p.take(n as int)
        } else {
            p
        },
        None => p,
    }
}

/// What is left of the file after a block of `n` bytes.
pub open spec fn remaining_after(remaining: Option<u64>, n: nat) -> Option<u64> {
    match remaining {
        Some(r) => if r < n {
            Some(0)
        } else {
            Some((r - n) as u64)
        },
        None => None,
    }
}

impl YmodemReceiver {
    pub fn new(streaming: bool) -> (r: Self)
        ensures
            r.xmodem == fresh_receiver(streaming, 0),
            r.in_header,
            !r.finished,
    {
        YmodemReceiver {
            xmodem: XmodemReceiver::starting_at(streaming, 0),
            in_header: true,
            remaining: None,
            finished: false,
        }
    }

    /// Takes in one block: returns the bytes to send back and what the block brought.
    /// A header block is acknowledged and followed by a new request; data is cut to the
    /// size the header announced.
    pub fn on_block(&mut self, block: &[u8]) -> (r: (Vec<u8>, BatchEvent))
        ensures
            ({
                let s = rx_block(old(self).xmodem, block@);
                &&& final(self).xmodem == s.next
                &&& !s.write ==> r.0@ == s.reply && r.1 is Nothing
                &&& s.write && old(self).in_header && block0_name(payload_of(block@)).len() == 0
                    ==> r.1 is EndOfBatch && final(self).finished && r.0@ == s.reply
                &&& s.write && old(self).in_header && block0_name(payload_of(block@)).len() > 0
                    ==> {
                    &&& !final(self).in_header
                    &&& final(self).remaining == block0_size(payload_of(block@))
                    &&& r.0@ == s.reply.push(request_byte(old(self).xmodem.streaming))
                    &&& match r.1 {
                        BatchEvent::StartFile(info) => {
                            &&& info.name@ == block0_name(payload_of(block@))
                            &&& info.size == block0_size(payload_of(block@))
                            &&& info.mtime == block0_mtime(payload_of(block@))
                        },
                        _ => false,
                    }
                }
                &&& s.write && !old(self).in_header ==> {
                    &&& r.0@ == s.reply
                    &&& final(self).remaining == remaining_after(
                        old(self).remaining,
                        payload_of(block@).len(),
                    )
                    &&& match r.1 {
                        BatchEvent::Data(d) => d@ == clip(payload_of(block@), old(self).remaining),
                        _ => false,
                    }
                }
            }),
    {
        let (mut reply, payload) = self.xmodem.on_block(block);
        match payload {
            None => (reply, BatchEvent::Nothing),
            Some(p) => {
                if self.in_header {
                    match parse_block0(p.as_slice()) {
                        None => {
                            self.finished = true;
                            (reply, BatchEvent::EndOfBatch)
                        },
                        Some(info) => {
                            self.in_header = false;
                            self.remaining = info.size;
                            reply.push(if self.xmodem.streaming { STREAM_REQUEST } else { CRC_REQUEST });
                            (reply, BatchEvent::StartFile(info))
                        },
                    }
                } else {
                    let ghost before = self.remaining;
                    let data = match self.remaining {
                        Some(n) => {
                            if n < p.len() as u64 {
                                let mut d: Vec<u8> = Vec::new();
                                let mut i: usize = 0;
                                while i < n as usize
                                    invariant
                                        i <= n <= p@.len(),
                                        d@ == p@.take(i as int),
                                    decreases n - i,
                                {
                                    d.push(p[i]);
                                    i += 1;
                                    proof {
                                        assert(d@ =~= p@.take(i as int));
                                    }
                                }
                                self.remaining = Some(0);
                                d
                            } else {
                                self.remaining = Some(n - p.len() as u64);
                                p
                            }
                        },
                        None => p,
                    };
                    (reply, BatchEvent::Data(data))
                }
            },
        }
    }

    /// Takes in an `EOT`. The second one ends the file: the receiver then waits for the next
    /// header block and asks for it.
    pub fn on_eot(&mut self) -> (r: Vec<u8>)
        ensures
            ({
                let (next, reply) = rx_eot(old(self).xmodem);
                &&& next.phase == RxPhase::Done ==> {
                    &&& final(self).in_header
                    &&& final(self).xmodem == fresh_receiver(
                        old(self).xmodem.streaming,
                        0,
                    )
                    &&& r@ == reply.push(request_byte(old(self).xmodem.streaming))
                }
                &&& next.phase != RxPhase::Done ==> final(self).xmodem == next && r@ == reply
            }),
    {
        let mut r = self.xmodem.on_eot();
        if self.xmodem.phase == RxPhase::Done {
            let streaming = self.xmodem.streaming;
            self.xmodem = XmodemReceiver::starting_at(streaming, 0);
            self.in_header = true;
            self.remaining = None;
            r.push(if streaming { STREAM_REQUEST } else { CRC_REQUEST });
        }
        r
    }
}

} // verus!
