//! The session arbiter between the terminal and the transfer engines.

use vstd::prelude::*;

use crate::sniffer::{
    iemsi_request_marker, IemsiWatch, ends_with, zmodem_download_marker, zmodem_upload_marker, AutoTransferDetector, Direction,
};
use crate::telnet::{encode, escape_iac, lemma_filter_iac_free, no_iac, Frame, run, TelnetConfig, TelnetEngine, TelnetOut, TelnetView, idle, out, step};

verus! {

/// Who owns the connection's bytes.
#[derive(Clone, Copy, Debug, PartialEq, Eq, Structural)]
pub enum SessionMode {
    Terminal,
    Transfer(Direction),
    Settings,
}

/// The inbound filter of a connection over a byte string: the Telnet engine where there is
/// one, else the bytes as they are.
pub open spec fn filtered(t: Option<(TelnetConfig, TelnetView)>, s: Seq<u8>) -> TelnetOut {
    match t {
        Some((c, st)) => run(c, st, s),
        None => out(idle(), s, Seq::empty()),
    }
}

/// A transfer marker ends the stream `s`.
pub open spec fn marker_at_end(s: Seq<u8>) -> bool {
    ends_with(s, zmodem_download_marker()) || ends_with(s, zmodem_upload_marker())
}

/// A chunk without `IAC` passes the inbound filter unchanged and draws no reply, where
/// the Telnet engine (if there is one) stands between commands.
pub proof fn lemma_inbound_iac_free(t: Option<(TelnetConfig, TelnetView)>, s: Seq<u8>)
    requires
        no_iac(s),
        match t {
            Some((_, st)) => st.frame == Frame::Data,
            None => true,
        },
    ensures
        filtered(t, s).data == s,
        filtered(t, s).reply == Seq::<u8>::empty(),
{
    match t {
        Some((c, st)) => {
            lemma_filter_iac_free(c, st, s);
        },
        None => {},
    }
}

/// What the display parser asks for after a byte.
pub enum ParserAction {
    /// Nothing to do.
    Idle,
    /// Bytes to send to the host (an answer to a terminal query).
    SendBytes(Vec<u8>),
    /// A tune to play.
    PlayMusic(Vec<u8>),
    Beep,
    /// A line speed to emulate, in bits per second.
    SetBaudRate(u32),
}

/// What the terminal does about a parser action.
pub enum TerminalEffect {
    Nothing,
    Send(Vec<u8>),
    PlayMusic(Vec<u8>),
    Beep,
    SetBaudRate(u32),
}

/// Carries out the display parser's request: bytes go to the host, music is played, the
/// line speed changes, and a beep sounds only where the console beep is on.
pub fn action_effect(a: ParserAction, console_beep: bool) -> (r: TerminalEffect)
    ensures
        match a {
            ParserAction::Idle => r is Nothing,
            ParserAction::SendBytes(b) => match r {
                TerminalEffect::Send(s) => s@ == b@,
                _ => false,
            },
            ParserAction::PlayMusic(m) => match r {
                TerminalEffect::PlayMusic(t) => t@ == m@,
                _ => false,
            },
            ParserAction::Beep => if console_beep {
                r is Beep
            } else {
                r is Nothing
            },
            ParserAction::SetBaudRate(n) => r == TerminalEffect::SetBaudRate(n),
        },
{
    match a {
        ParserAction::Idle => TerminalEffect::Nothing,
        ParserAction::SendBytes(b) => TerminalEffect::Send(b),
        ParserAction::PlayMusic(m) => TerminalEffect::PlayMusic(m),
        ParserAction::Beep => if console_beep {
            TerminalEffect::Beep
        } else {
            TerminalEffect::Nothing
        },
        ParserAction::SetBaudRate(n) => TerminalEffect::SetBaudRate(n),
    }
}

/// The IEMSI query ends some stretch of `shown` followed by a non-empty start of `display`.
pub open spec fn iemsi_in(shown: Seq<u8>, display: Seq<u8>) -> bool {
    exists|j: int|
        0 < j <= display.len() && ends_with(shown + #[trigger] display.take(j), iemsi_request_marker())
}

/// What a chunk of inbound bytes gave.
pub struct Inbound {
    /// Bytes for the display parser.
    pub display: Vec<u8>,
    /// Bytes to send back to the host (Telnet negotiation).
    pub reply: Vec<u8>,
    /// The transfer that a marker started, if one did.
    pub start: Option<Direction>,
    /// How many input bytes were taken; the rest belongs to the transfer engine.
    pub consumed: usize,
    /// The IEMSI query has just come: the auto-login is to answer it.
    pub iemsi_request: bool,
}

/// The arbiter between terminal and transfer: in terminal mode it filters inbound bytes,
/// hands them to the display and watches them for transfer markers.
pub struct Session {
    mode: SessionMode,
    telnet: Option<TelnetEngine>,
    detector: AutoTransferDetector,
    iemsi: Option<IemsiWatch>,
}

impl Session {
    pub closed spec fn mode(&self) -> SessionMode {
        self.mode
    }

    /// The Telnet engine's settings and state, where the connection has one.
    pub closed spec fn telnet(&self) -> Option<(TelnetConfig, TelnetView)> {
        match self.telnet {
            Some(t) => Some((t.config(), t.state())),
            None => None,
        }
    }

    /// All the bytes that went to the display so far.
    pub closed spec fn shown(&self) -> Seq<u8> {
        self.detector.seen()
    }

    /// Auto-login watches for the IEMSI query.
    pub closed spec fn iemsi_enabled(&self) -> bool {
        self.iemsi.is_some()
    }

    /// The IEMSI query came in this session (and was reported).
    pub closed spec fn iemsi_answered(&self) -> bool {
        match self.iemsi {
            Some(w) => w.answered(),
            None => false,
        }
    }

    pub closed spec fn wf(&self) -> bool {
        &&& self.detector.wf()
        &&& match self.iemsi {
            Some(w) => w.wf() && w.seen() == self.detector.seen(),
            None => true,
        }
    }

    /// A session in terminal mode; `telnet` is the option engine of a Telnet connection,
    /// `iemsi_autologin` turns on the watch for the IEMSI query.
    pub fn new(telnet: Option<TelnetEngine>, iemsi_autologin: bool) -> (r: Self)
        ensures
            r.wf(),
            r.iemsi_enabled() == iemsi_autologin,
            !r.iemsi_answered(),
            r.mode() == SessionMode::Terminal,
            r.shown() == Seq::<u8>::empty(),
            r.telnet() == (match telnet {
                Some(t) => Some((t.config(), t.state())),
                None => None,
            }),
    {
        let iemsi = if iemsi_autologin { Some(IemsiWatch::new()) } else { None };
        Session { mode: SessionMode::Terminal, telnet, detector: AutoTransferDetector::new(), iemsi }
    }

    pub fn mode_exec(&self) -> (r: SessionMode)
        ensures
            r == self.mode(),
    {
        self.mode
    }

    /// The settings take over the screen: only from the terminal.
    pub fn enter_settings(&mut self) -> (r: bool)
        ensures
            r == (old(self).mode() == SessionMode::Terminal),
            r ==> final(self).mode() == SessionMode::Settings,
            !r ==> final(self).mode() == old(self).mode(),
            final(self).telnet() == old(self).telnet(),
            final(self).shown() == old(self).shown(),
            final(self).wf() == old(self).wf(),
            final(self).iemsi_enabled() == old(self).iemsi_enabled(),
            final(self).iemsi_answered() == old(self).iemsi_answered(),
    {
        if self.mode == SessionMode::Terminal {
            self.mode = SessionMode::Settings;
            true
        } else {
            false
        }
    }

    /// The settings or the transfer engine are done: control returns to the terminal.
    pub fn back_to_terminal(&mut self)
        ensures
            final(self).mode() == SessionMode::Terminal,
            final(self).telnet() == old(self).telnet(),
            final(self).shown() == old(self).shown(),
            final(self).wf() == old(self).wf(),
            final(self).iemsi_enabled() == old(self).iemsi_enabled(),
            final(self).iemsi_answered() == old(self).iemsi_answered(),
    {
        self.mode = SessionMode::Terminal;
    }

    /// Passes inbound bytes through the inbound filter only, for a transfer engine that owns
    /// the connection: nothing goes to the display or past the markers.
    pub fn filter_raw(&mut self, input: &[u8]) -> (r: (Vec<u8>, Vec<u8>))
        requires
            old(self).wf(),
        ensures
            final(self).wf(),
            ({
                let f = filtered(old(self).telnet(), input@);
                &&& r.0@ == f.data
                &&& r.1@ == f.reply
                &&& final(self).telnet() == (match old(self).telnet() {
                    Some((c, _)) => Some((c, f.state)),
                    None => None,
                })
            }),
            final(self).mode() == old(self).mode(),
            final(self).shown() == old(self).shown(),
            final(self).iemsi_enabled() == old(self).iemsi_enabled(),
            final(self).iemsi_answered() == old(self).iemsi_answered(),
    {
        match &mut self.telnet {
            Some(t) => t.filter(input),
            None => {
                let mut d: Vec<u8> = Vec::new();
                d.extend_from_slice(input);
                proof {
                    assert(d@ =~= input@);
                }
                (d, Vec::new())
            },
        }
    }

    /// Outbound bytes as they go on the wire: with `IAC` doubled over Telnet.
    pub fn encode_outbound(&self, data: &[u8]) -> (r: Vec<u8>)
        ensures
            r@ == (match self.telnet() {
                Some(_) => escape_iac(data@),
                None => data@,
            }),
    {
        match &self.telnet {
            Some(_) => encode(data),
            None => {
                let mut d: Vec<u8> = Vec::new();
                d.extend_from_slice(data);
                proof {
                    assert(d@ =~= data@);
                }
                d
            },
        }
    }

    /// Takes a chunk of inbound bytes. In terminal mode every byte goes through the inbound
    /// filter, and what comes out goes to the display and past the transfer markers; at a
    /// marker the session switches to the transfer and takes no more bytes. In any other
    /// mode nothing is taken.
    pub fn receive(&mut self, input: &[u8]) -> (r: Inbound)
        requires
            old(self).wf(),
        ensures
            final(self).wf(),
            r.consumed <= input@.len(),
            final(self).iemsi_enabled() == old(self).iemsi_enabled(),
            r.iemsi_request == (!old(self).iemsi_answered() && final(self).iemsi_answered()),
            final(self).iemsi_answered() == (old(self).iemsi_answered() || (old(self).iemsi_enabled()
                && iemsi_in(old(self).shown(), r.display@))),
            old(self).mode() != SessionMode::Terminal ==> {
                &&& r.consumed == 0
                &&& r.display@.len() == 0
                &&& r.reply@.len() == 0
                &&& r.start.is_none()
                &&& final(self).mode() == old(self).mode()
                &&& final(self).telnet() == old(self).telnet()
                &&& final(self).shown() == old(self).shown()
            },
            old(self).mode() == SessionMode::Terminal ==> {
                let f = filtered(old(self).telnet(), input@.take(r.consumed as int));
                &&& r.display@ == f.data
                &&& r.reply@ == f.reply
                &&& final(self).shown() == old(self).shown() + r.display@
                &&& final(self).telnet() == (match old(self).telnet() {
                    Some((c, _)) => Some((c, f.state)),
                    None => None,
                })
                &&& match r.start {
                    Some(d) => {
                        &&& final(self).mode() == SessionMode::Transfer(d)
                        &&& d == Direction::Download ==> ends_with(
                            final(self).shown(),
                            zmodem_download_marker(),
                        )
                        &&& d == Direction::Upload ==> ends_with(
                            final(self).shown(),
                            zmodem_upload_marker(),
                        )
                        &&& forall|j: int|
                            0 < j < r.display@.len() ==> !#[trigger] marker_at_end(
                                old(self).shown() + r.display@.take(j),
                            )
                    },
                    None => {
                        &&& r.consumed == input@.len()
                        &&& final(self).mode() == SessionMode::Terminal
                        &&& forall|j: int|
                            0 < j <= r.display@.len() ==> !#[trigger] marker_at_end(
                                old(self).shown() + r.display@.take(j),
                            )
                    },
                }
            },
    {
        let mut display: Vec<u8> = Vec::new();
        let mut reply: Vec<u8> = Vec::new();
        let mut start: Option<Direction> = None;
        if self.mode != SessionMode::Terminal {
            proof {
                assert(!iemsi_in(self.shown(), display@)) by {
                    assert forall|j: int| 0 < j <= display@.len() implies !ends_with(
                        self.shown() + #[trigger] display@.take(j), iemsi_request_marker()) by {}
                }
            }
            return Inbound { display, reply, start, consumed: 0, iemsi_request: false };
        }
        let ghost t0 = self.telnet();
        let ghost shown0 = self.shown();
        let ghost en0 = self.iemsi_enabled();
        let ghost ans0 = self.iemsi_answered();
        let mut iemsi_request = false;
        let mut i: usize = 0;
        proof {
            assert(input@.take(0) =~= Seq::<u8>::empty());
            assert(shown0 + display@ =~= shown0);
            match t0 {
                Some((c, st)) => {
                    assert(filtered(t0, input@.take(0)).data =~= display@);
                },
                None => {},
            }
        }
        while i < input.len() && start.is_none()
            invariant
                self.wf(),
                i <= input@.len(),
                ({
                    let f = filtered(t0, input@.take(i as int));
                    &&& display@ == f.data
                    &&& reply@ == f.reply
                    &&& self.telnet() == (match t0 {
                        Some((c, _)) => Some((c, f.state)),
                        None => None,
                    })
                }),
                self.shown() == shown0 + display@,
                self.iemsi_enabled() == en0,
                iemsi_request == (!ans0 && self.iemsi_answered()),
                self.iemsi_answered() == (ans0 || (en0 && iemsi_in(shown0, display@))),
                match start {
                    Some(d) => {
                        &&& self.mode() == SessionMode::Transfer(d)
                        &&& d == Direction::Download ==> ends_with(
                            self.shown(),
                            zmodem_download_marker(),
                        )
                        &&& d == Direction::Upload ==> ends_with(
                            self.shown(),
                            zmodem_upload_marker(),
                        )
                        &&& forall|j: int|
                            0 < j < display@.len() ==> !#[trigger] marker_at_end(
                                shown0 + display@.take(j),
                            )
                    },
                    None => {
                        &&& self.mode() == SessionMode::Terminal
                        &&& forall|j: int|
                            0 < j <= display@.len() ==> !#[trigger] marker_at_end(
                                shown0 + display@.take(j),
                            )
                    },
                },
            decreases input@.len() - i,
        {
            let b = input[i];
            let mut d: Vec<u8> = Vec::new();
            let ghost reply_before = reply@;
            let ghost display_before = display@;
            let ghost prev = filtered(t0, input@.take(i as int));
            proof {
                assert(input@.take(i + 1).drop_last() =~= input@.take(i as int));
                assert(input@.take(i + 1).last() == b);
            }
            match &mut self.telnet {
                Some(t) => {
                    t.feed(b, &mut d, &mut reply);
                },
                None => {
                    d.push(b);
                },
            }
            proof {
                let f = filtered(t0, input@.take(i + 1));
                match t0 {
                    Some((c, st)) => {
                        assert(d@ =~= step(c, prev.state, b).data);
                        assert(d@.len() <= 1);
                    },
                    None => {
                        assert(input@.take(i + 1) =~= input@.take(i as int).push(b));
                        assert(d@ =~= seq![b]);
                    },
                }
                assert(f.data == display_before + d@);
                assert(reply@ == f.reply);
            }
            i += 1;
            if d.len() == 1 {
                let c = d[0];
                display.push(c);
                let fired = self.detector.feed(c);
                proof {
                    assert(display@ =~= display_before + d@);
                    assert(display@.take(display_before.len() as int) =~= display_before);
                    assert(shown0 + display@ =~= shown0 + display_before + seq![c]);
                    assert forall|j: int| 0 < j < display@.len() implies !#[trigger] marker_at_end(
                        shown0 + display@.take(j),
                    ) by {
                        assert(display@.take(j) =~= display_before.take(j));
                    }
                    assert(display@.take(display@.len() as int) =~= display@);
                }
                let ghost ans_before = self.iemsi_answered();
                match &mut self.iemsi {
                    Some(w) => {
                        if w.feed(c) {
                            iemsi_request = true;
                        }
                    },
                    None => {},
                }
                proof {
                    assert forall|j: int| 0 < j <= display_before.len() implies #[trigger] display@.take(j)
                        == display_before.take(j) by {
                        assert(display@.take(j) =~= display_before.take(j));
                    }
                    if iemsi_in(shown0, display@) && !iemsi_in(shown0, display_before) {
                        let j = choose|j: int| 0 < j <= display@.len() && ends_with(
                            shown0 + #[trigger] display@.take(j), iemsi_request_marker());
                        if j < display@.len() {
                            assert(display@.take(j) == display_before.take(j));
                        }
                    }
                    if en0 && ends_with(shown0 + display@, iemsi_request_marker()) {
                        let j = display@.len() as int;
                        assert(ends_with(shown0 + display@.take(j), iemsi_request_marker()));
                    }
                    if iemsi_in(shown0, display_before) {
                        let j = choose|j: int| 0 < j <= display_before.len() && ends_with(
                            shown0 + #[trigger] display_before.take(j), iemsi_request_marker());
                        assert(display@.take(j) == display_before.take(j));
                    }
                }
                if let Some(dir) = fired {
                    self.mode = SessionMode::Transfer(dir);
                    start = Some(dir);
                }
            } else {
                proof {
                    assert(d@ =~= Seq::<u8>::empty());
                    assert(display_before + d@ =~= display_before);
                }
            }
        }
        Inbound { display, reply, start, consumed: i, iemsi_request }
    }
}

} // verus!
