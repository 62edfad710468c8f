//! The protocol core of a terminal client for bulletin-board services: the Telnet option
//! engine, the inbound sniffers, the session arbiter, and the XMODEM, YMODEM and ZMODEM
//! transfer engines, each stated and proved against its contract.

use vstd::prelude::*;

pub mod bytes;
pub mod connection;
pub mod crc;
pub mod iemsi;
pub mod login;
pub mod options;
pub mod pacer;
pub mod screen;
pub mod session;
pub mod sniffer;
pub mod storage;
pub mod telnet;
pub mod transfer;
pub mod xmodem;
pub mod ymodem;
pub mod zmodem;
pub mod zsession;

verus! {

} // verus!
