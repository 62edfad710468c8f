//! The progress record of a transfer, shared with the user interface.

use vstd::prelude::*;

use crate::sniffer::Direction;
use crate::zmodem::{cancel_sequence, cancel_spec};

verus! {

/// The check that a transfer's blocks carry.
#[derive(Clone, Copy, Debug, PartialEq, Eq, Structural)]
pub enum CheckType {
    Checksum,
    Crc16,
    Crc32,
}

/// Why a transfer failed.
#[derive(Clone, Copy, Debug, PartialEq, Eq, Structural)]
pub enum TransferError {
    UserCancel,
    PeerCancel,
    RetriesExhausted,
    FileIo,
    /// The bytes written differ in number from the size that was announced.
    SizeMismatch,
}

/// How a transfer stands.
#[derive(Clone, Copy, Debug, PartialEq, Eq, Structural)]
pub enum TransferOutcome {
    Running,
    Finished,
    Failed(TransferError),
}

/// The progress record of a transfer, which the engine writes and the UI reads. Its
/// fields change only through the methods below, so the byte count of a file never goes
/// down.
pub struct TransferState {
    direction: Direction,
    protocol_name: String,
    /// Seconds since the epoch when the transfer started.
    start_time: u64,
    file_name: String,
    total_size: u64,
    bytes_transferred: u64,
    block_errors: u32,
    check_type: CheckType,
    /// Seconds since the epoch when a byte last came.
    last_rx_time: u64,
    /// Errors over all files.
    errors: u32,
    outcome: TransferOutcome,
}

/// What a progress record holds.
pub struct TransferView {
    pub direction: Direction,
    pub protocol_name: Seq<char>,
    pub start_time: u64,
    pub file_name: Seq<char>,
    pub total_size: u64,
    pub bytes_transferred: u64,
    pub block_errors: u32,
    pub check_type: CheckType,
    pub last_rx_time: u64,
    pub errors: u32,
    pub outcome: TransferOutcome,
}

impl View for TransferState {
    type V = TransferView;

    closed spec fn view(&self) -> TransferView {
        TransferView {
            direction: self.direction,
            protocol_name: self.protocol_name@,
            start_time: self.start_time,
            file_name: self.file_name@,
            total_size: self.total_size,
            bytes_transferred: self.bytes_transferred,
            block_errors: self.block_errors,
            check_type: self.check_type,
            last_rx_time: self.last_rx_time,
            errors: self.errors,
            outcome: self.outcome,
        }
    }
}

impl TransferState {
    pub fn bytes_transferred(&self) -> (r: u64)
        ensures
            r == self@.bytes_transferred,
    {
        self.bytes_transferred
    }

    pub fn outcome(&self) -> (r: TransferOutcome)
        ensures
            r == self@.outcome,
    {
        self.outcome
    }

    pub fn total_size(&self) -> (r: u64)
        ensures
            r == self@.total_size,
    {
        self.total_size
    }

    pub fn errors(&self) -> (r: u32)
        ensures
            r == self@.errors,
    {
        self.errors
    }

    pub fn block_errors(&self) -> (r: u32)
        ensures
            r == self@.block_errors,
    {
        self.block_errors
    }

    pub fn direction(&self) -> (r: Direction)
        ensures
            r == self@.direction,
    {
        self.direction
    }

    pub fn file_name(&self) -> (r: &String)
        ensures
            r@ == self@.file_name,
    {
        &self.file_name
    }

    pub fn protocol_name(&self) -> (r: &String)
        ensures
            r@ == self@.protocol_name,
    {
        &self.protocol_name
    }

    pub fn new(direction: Direction, protocol_name: String, start_time: u64) -> (r: Self)
        ensures
            r@.direction == direction,
            r@.protocol_name == protocol_name@,
            r@.start_time == start_time,
            r@.bytes_transferred == 0,
            r@.errors == 0,
            r@.outcome == TransferOutcome::Running,
    {
        TransferState {
            direction,
            protocol_name,
            start_time,
            file_name: String::new(),
            total_size: 0,
            bytes_transferred: 0,
            block_errors: 0,
            check_type: CheckType::Crc16,
            last_rx_time: start_time,
            errors: 0,
            outcome: TransferOutcome::Running,
        }
    }

    pub fn is_finished(&self) -> (r: bool)
        ensures
            r == (self@.outcome != TransferOutcome::Running),
    {
        !matches!(self.outcome, TransferOutcome::Running)
    }

    /// Starts the record of the next file: its progress starts at zero.
    pub fn start_file(&mut self, file_name: String, total_size: u64)
        ensures
            final(self)@.file_name == file_name@,
            final(self)@.total_size == total_size,
            final(self)@.bytes_transferred == 0,
            final(self)@.block_errors == 0,
            final(self)@.errors == old(self)@.errors,
            final(self)@.outcome == old(self)@.outcome,
            final(self)@.direction == old(self)@.direction,
            final(self)@.protocol_name == old(self)@.protocol_name,
            final(self)@.check_type == old(self)@.check_type,
            final(self)@.start_time == old(self)@.start_time,
    {
        self.file_name = file_name;
        self.total_size = total_size;
        self.bytes_transferred = 0;
        self.block_errors = 0;
    }

    /// Counts `n` more bytes of the current file; the count never goes down.
    pub fn add_bytes(&mut self, n: u64)
        ensures
            final(self)@.bytes_transferred == (if old(self)@.bytes_transferred + n <= u64::MAX {
                old(self)@.bytes_transferred + n
            } else {
                u64::MAX as int
            }),
            final(self)@.bytes_transferred >= old(self)@.bytes_transferred,
            final(self)@.file_name == old(self)@.file_name,
            final(self)@.errors == old(self)@.errors,
            final(self)@.outcome == old(self)@.outcome,
    {
        self.bytes_transferred = self.bytes_transferred.saturating_add(n);
    }

    /// Seconds still to go at `bps` bytes per second (at least 1 is assumed).
    pub fn seconds_left(&self, bps: u64) -> (r: u64)
        ensures
            r == (if self@.total_size >= self@.bytes_transferred {
                self@.total_size - self@.bytes_transferred
            } else {
                0
            }) / (if bps == 0 {
                1
            } else {
                bps as int
            }),
    {
        let left = self.total_size.saturating_sub(self.bytes_transferred);
        let rate = if bps == 0 { 1 } else { bps };
        left / rate
    }

    /// Counts one block error on the current file and one overall.
    pub fn add_error(&mut self)
        ensures
            final(self)@.block_errors == (if old(self)@.block_errors < u32::MAX {
                old(self)@.block_errors + 1
            } else {
                u32::MAX as int
            }),
            final(self)@.errors == (if old(self)@.errors < u32::MAX {
                old(self)@.errors + 1
            } else {
                u32::MAX as int
            }),
            final(self)@.bytes_transferred == old(self)@.bytes_transferred,
            final(self)@.outcome == old(self)@.outcome,
    {
        self.block_errors = self.block_errors.saturating_add(1);
        self.errors = self.errors.saturating_add(1);
    }

    /// Ends a running transfer with success; a finished or failed one stays as it is.
    pub fn finish(&mut self)
        ensures
            final(self)@.outcome == (if old(self)@.outcome == TransferOutcome::Running {
                TransferOutcome::Finished
            } else {
                old(self)@.outcome
            }),
            final(self)@.bytes_transferred == old(self)@.bytes_transferred,
    {
        if matches!(self.outcome, TransferOutcome::Running) {
            self.outcome = TransferOutcome::Finished;
        }
    }

    /// Ends a running transfer with an error; a finished or failed one stays as it is.
    pub fn fail(&mut self, e: TransferError)
        ensures
            final(self)@.outcome == (if old(self)@.outcome == TransferOutcome::Running {
                TransferOutcome::Failed(e)
            } else {
                old(self)@.outcome
            }),
            final(self)@.bytes_transferred == old(self)@.bytes_transferred,
    {
        if matches!(self.outcome, TransferOutcome::Running) {
            self.outcome = TransferOutcome::Failed(e);
        }
    }

    /// The user cancels: a running transfer fails with `UserCancel`, the progress is kept,
    /// and the abort sequence to send (five `CAN`, eight backspaces) is returned.
    pub fn cancel(&mut self) -> (r: Vec<u8>)
        ensures
            r@ == cancel_spec(),
            old(self)@.outcome == TransferOutcome::Running ==> final(self)@.outcome
                == TransferOutcome::Failed(TransferError::UserCancel),
            final(self)@.bytes_transferred == old(self)@.bytes_transferred,
    {
        self.fail(TransferError::UserCancel);
        cancel_sequence()
    }

    /// Ends the current file: a mismatch between the bytes written and the announced size
    /// fails the transfer.
    pub fn complete_file(&mut self, written: u64)
        ensures
            written != old(self)@.total_size && old(self)@.outcome == TransferOutcome::Running
                ==> final(self)@.outcome == TransferOutcome::Failed(
                TransferError::SizeMismatch,
            ),
            written != old(self)@.total_size && old(self)@.outcome != TransferOutcome::Running
                ==> final(self)@.outcome == old(self)@.outcome,
            written == old(self)@.total_size ==> final(self)@.outcome == old(self)@.outcome,
            final(self)@.bytes_transferred == old(self)@.bytes_transferred,
    {
        if written != self.total_size {
            self.fail(TransferError::SizeMismatch);
        }
    }
}

/// Counts the retransmissions of one frame or block; past the limit the transfer gives up.
#[derive(Clone, Copy, Debug, PartialEq, Eq, Structural)]
pub struct Retries {
    pub count: u32,
    pub limit: u32,
}

impl Retries {
    pub fn new(limit: u32) -> (r: Self)
        ensures
            r == (Retries { count: 0, limit }),
    {
        Retries { count: 0, limit }
    }

    /// A timeout or an error: true where one more try is allowed (and counted), false where
    /// the limit is reached.
    pub fn try_again(&mut self) -> (r: bool)
        ensures
            r == (old(self).count < old(self).limit),
            r ==> final(self).count == old(self).count + 1,
            !r ==> *final(self) == *old(self),
            final(self).limit == old(self).limit,
    {
        if self.count < self.limit {
            self.count = self.count + 1;
            true
        } else {
            false
        }
    }

    /// Progress was made: the count starts over.
    pub fn reset(&mut self)
        ensures
            final(self).count == 0,
            final(self).limit == old(self).limit,
    {
        self.count = 0;
    }
}

/// A span of seconds as hours, minutes and seconds, as a clock shows it.
pub fn clock_parts(secs: u64) -> (r: (u64, u64, u64))
    ensures
        r.0 == secs / 3600,
        r.1 == secs / 60 % 60,
        r.2 == secs % 60,
        r.0 * 3600 + r.1 * 60 + r.2 == secs,
{
    let minutes = secs / 60;
    let r = (minutes / 60, minutes % 60, secs % 60);
    proof {
        assert(secs / 60 / 60 == secs / 3600) by (nonlinear_arith);
        assert((secs / 60 / 60) * 3600 + (secs / 60 % 60) * 60 + secs % 60 == secs) by (nonlinear_arith);
    }
    r
}

} // verus!
