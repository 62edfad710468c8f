//! The user's settings and the main window's modes.

use vstd::prelude::*;

verus! {

/// How the character grid is scaled to the window.
#[derive(Clone, Copy, Debug, PartialEq, Eq, Structural)]
pub enum Scaling {
    Nearest,
    Linear,
}

/// The filter drawn over the screen.
#[derive(Clone, Copy, Debug, PartialEq, Eq, Structural)]
pub enum PostProcessing {
    /// No filter.
    Off,
    CRT1,
}

/// The settings the user can change; persisted by the application.
#[derive(Clone, Debug)]
pub struct Options {
    pub scaling: Scaling,
    pub post_processing: PostProcessing,
    /// Seconds to wait for a connection.
    pub connect_timeout: u64,
    pub iemsi_autologin: bool,
    pub console_beep: bool,
    /// Where a capture of the inbound bytes goes; empty where none is set.
    pub capture_filename: String,
}

pub const DEFAULT_CONNECT_TIMEOUT: u64 = 10;

impl Options {
    /// The defaults: linear scaling, the CRT filter, ten seconds to connect, auto-login and
    /// beep on, no capture file.
    pub fn new() -> (r: Self)
        ensures
            r.scaling == Scaling::Linear,
            r.post_processing == PostProcessing::CRT1,
            r.connect_timeout == DEFAULT_CONNECT_TIMEOUT,
            r.iemsi_autologin,
            r.console_beep,
            r.capture_filename@ == Seq::<char>::empty(),
    {
        Options {
            scaling: Scaling::Linear,
            post_processing: PostProcessing::CRT1,
            connect_timeout: DEFAULT_CONNECT_TIMEOUT,
            iemsi_autologin: true,
            console_beep: true,
            capture_filename: String::new(),
        }
    }
}

/// What the main window shows.
#[derive(Clone, Copy, Debug, PartialEq, Eq, Structural)]
pub enum MainWindowMode {
    ShowTerminal,
    ShowPhonebook,
    ShowSettings(bool),
    SelectProtocol(bool),
    FileTransfer(bool),
    ShowCaptureDialog,
    ShowIEMSI,
}

/// What the terminal view remembers between input events.
#[derive(Clone, Copy, Debug, Default)]
pub struct DrawInfoState {
    pub button_pressed: bool,
    pub is_alt_pressed: bool,
}

} // verus!
