//! The Telnet option engine: filters the host's bytes and answers its negotiation.

use vstd::prelude::*;

verus! {

pub const IAC: u8 = 255;
pub const DONT: u8 = 254;
pub const DO: u8 = 253;
pub const WONT: u8 = 252;
pub const WILL: u8 = 251;
pub const SB: u8 = 250;
pub const SE: u8 = 240;

pub const OPT_BINARY: u8 = 0;
pub const OPT_ECHO: u8 = 1;
pub const OPT_SGA: u8 = 3;
pub const OPT_TTYPE: u8 = 24;
pub const OPT_EOR: u8 = 25;
pub const OPT_NAWS: u8 = 31;

/// Subnegotiation code of TTYPE with which the server asks for our terminal name.
pub const TTYPE_SEND: u8 = 1;
/// Subnegotiation code of TTYPE with which we answer.
pub const TTYPE_IS: u8 = 0;

/// Where the option engine stands between two bytes.
#[derive(Clone, Copy, Debug, PartialEq, Eq, Structural)]
pub enum Frame {
    Data,
    Iac,
    Will,
    Wont,
    Do,
    Dont,
    /// After `IAC SB`, waiting for the option byte.
    SbOption,
    /// Inside a subnegotiation, buffering its bytes.
    Sb,
    /// Inside a subnegotiation, after an `IAC`.
    SbIac,
}

/// The settings that shape our replies.
pub struct TelnetConfig {
    pub width: u16,
    pub height: u16,
    pub terminal_name: Seq<u8>,
}

/// The engine's state: the frame, and the option and bytes of an open subnegotiation.
pub struct TelnetView {
    pub frame: Frame,
    pub sb_option: u8,
    pub sb_data: Seq<u8>,
}

/// What one or more input bytes produce: the state after them, the data bytes for the
/// display, and the negotiation bytes to send back to the host.
pub struct TelnetOut {
    pub state: TelnetView,
    pub data: Seq<u8>,
    pub reply: Seq<u8>,
}

/// A byte string as it goes on the wire: each `IAC` doubled.
pub open spec fn escape_iac(s: Seq<u8>) -> Seq<u8>
    decreases s.len(),
{
    if s.len() == 0 {
        Seq::empty()
    } else if s.last() == IAC {
        escape_iac(s.drop_last()) + seq![IAC, IAC]
    } else {
        escape_iac(s.drop_last()) + seq![s.last()]
    }
}

pub open spec fn no_iac(s: Seq<u8>) -> bool {
    forall|i: int| 0 <= i < s.len() ==> s[i] != IAC
}

/// The NAWS subnegotiation that announces a window of `w` columns and `h` rows.
pub open spec fn naws_spec(w: u16, h: u16) -> Seq<u8> {
    seq![IAC, SB, OPT_NAWS] + escape_iac(
        seq![(w >> 8u16) as u8, (w & 0xff) as u8, (h >> 8u16) as u8, (h & 0xff) as u8],
    ) + seq![IAC, SE]
}

/// Our answer to the host's `DO opt`.
pub open spec fn on_do(cfg: TelnetConfig, opt: u8) -> Seq<u8> {
    if opt == OPT_NAWS {
        seq![IAC, WILL, OPT_NAWS] + naws_spec(cfg.width, cfg.height)
    } else if opt == OPT_BINARY || opt == OPT_SGA || opt == OPT_TTYPE || opt == OPT_EOR {
        seq![IAC, WILL, opt]
    } else {
        seq![IAC, WONT, opt]
    }
}

/// Our answer to the host's `WILL opt`.
pub open spec fn on_will(opt: u8) -> Seq<u8> {
    if opt == OPT_BINARY || opt == OPT_ECHO || opt == OPT_SGA || opt == OPT_EOR {
        seq![IAC, DO, opt]
    } else {
        seq![IAC, DONT, opt]
    }
}

/// Our answer to a completed subnegotiation.
pub open spec fn on_sb(cfg: TelnetConfig, opt: u8, data: Seq<u8>) -> Seq<u8> {
    if opt == OPT_TTYPE && data.len() >= 1 && data[0] == TTYPE_SEND {
        seq![IAC, SB, OPT_TTYPE, TTYPE_IS] + escape_iac(cfg.terminal_name) + seq![IAC, SE]
    } else {
        Seq::empty()
    }
}

pub open spec fn at(frame: Frame, st: TelnetView) -> TelnetView {
    TelnetView { frame, ..st }
}

pub open spec fn idle() -> TelnetView {
    TelnetView { frame: Frame::Data, sb_option: 0, sb_data: Seq::empty() }
}

pub open spec fn out(state: TelnetView, data: Seq<u8>, reply: Seq<u8>) -> TelnetOut {
    TelnetOut { state, data, reply }
}

/// The transition table of the option engine: one input byte.
pub open spec fn step(cfg: TelnetConfig, st: TelnetView, b: u8) -> TelnetOut {
    let none = Seq::<u8>::empty();
    match st.frame {
        Frame::Data => if b == IAC {
            out(at(Frame::Iac, st), none, none)
        } else {
            out(st, seq![b], none)
        },
        Frame::Iac => if b == IAC {
            out(at(Frame::Data, st), seq![IAC], none)
        } else if b == WILL {
            out(at(Frame::Will, st), none, none)
        } else if b == WONT {
            out(at(Frame::Wont, st), none, none)
        } else if b == DO {
            out(at(Frame::Do, st), none, none)
        } else if b == DONT {
            out(at(Frame::Dont, st), none, none)
        } else if b == SB {
            out(at(Frame::SbOption, st), none, none)
        } else {
            out(at(Frame::Data, st), none, none)
        },
        Frame::Will => out(at(Frame::Data, st), none, on_will(b)),
        Frame::Do => out(at(Frame::Data, st), none, on_do(cfg, b)),
        Frame::Wont => out(at(Frame::Data, st), none, none),
        Frame::Dont => out(at(Frame::Data, st), none, none),
        Frame::SbOption => out(
            TelnetView { frame: Frame::Sb, sb_option: b, sb_data: Seq::empty() },
            none,
            none,
        ),
        Frame::Sb => if b == IAC {
            out(at(Frame::SbIac, st), none, none)
        } else {
            out(TelnetView { sb_data: st.sb_data.push(b), ..st }, none, none)
        },
        Frame::SbIac => if b == SE {
            out(idle(), none, on_sb(cfg, st.sb_option, st.sb_data))
        } else if b == IAC {
            out(TelnetView { frame: Frame::Sb, sb_data: st.sb_data.push(IAC), ..st }, none, none)
        } else {
            out(idle(), none, none)
        },
    }
}

/// The option engine over a byte string: the steps one after another, their data and
/// replies concatenated.
pub open spec fn run(cfg: TelnetConfig, st: TelnetView, s: Seq<u8>) -> TelnetOut
    decreases s.len(),
{
    if s.len() == 0 {
        out(st, Seq::empty(), Seq::empty())
    } else {
        let first = run(cfg, st, s.drop_last());
        let last = step(cfg, first.state, s.last());
        out(last.state, first.data + last.data, first.reply + last.reply)
    }
}

/// Running over two strings one after the other is running over their concatenation.
pub proof fn lemma_run_append(cfg: TelnetConfig, st: TelnetView, a: Seq<u8>, b: Seq<u8>)
    ensures
        ({
            let ra = run(cfg, st, a);
            let rb = run(cfg, ra.state, b);
            run(cfg, st, a + b) == out(rb.state, ra.data + rb.data, ra.reply + rb.reply)
        }),
    decreases b.len(),
{
    let ra = run(cfg, st, a);
    if b.len() == 0 {
        assert(a + b == a);
        assert(ra.data + Seq::<u8>::empty() == ra.data);
        assert(ra.reply + Seq::<u8>::empty() == ra.reply);
    } else {
        lemma_run_append(cfg, st, a, b.drop_last());
        assert((a + b).drop_last() == a + b.drop_last());
        assert((a + b).last() == b.last());
        let rb1 = run(cfg, ra.state, b.drop_last());
        let l = step(cfg, rb1.state, b.last());
        assert(ra.data + rb1.data + l.data == ra.data + (rb1.data + l.data));
        assert(ra.reply + rb1.reply + l.reply == ra.reply + (rb1.reply + l.reply));
    }
}

/// A byte string without `IAC` passes the filter unchanged, with no reply, from the data state.
pub proof fn lemma_filter_iac_free(cfg: TelnetConfig, st: TelnetView, s: Seq<u8>)
    requires
        st.frame == Frame::Data,
        no_iac(s),
    ensures
        run(cfg, st, s) == out(st, s, Seq::empty()),
    decreases s.len(),
{
    if s.len() > 0 {
        lemma_filter_iac_free(cfg, st, s.drop_last());
        assert(s[s.len() - 1] != IAC);
        assert(s.drop_last() + seq![s.last()] =~= s);
        assert(Seq::<u8>::empty() + Seq::<u8>::empty() =~= Seq::<u8>::empty());
    } else {
        assert(s =~= Seq::<u8>::empty());
    }
}

/// Filtering again what the filter gave back changes nothing, where what it gave back holds
/// no `IAC` byte (a doubled `IAC` comes out as a single one, which a second pass would read
/// as a command).
pub proof fn lemma_filter_idempotent(cfg: TelnetConfig, st: TelnetView, s: Seq<u8>)
    requires
        st.frame == Frame::Data,
        no_iac(run(cfg, st, s).data),
    ensures
        run(cfg, st, run(cfg, st, s).data).data == run(cfg, st, s).data,
        run(cfg, st, run(cfg, st, s).data).reply == Seq::<u8>::empty(),
{
    lemma_filter_iac_free(cfg, st, run(cfg, st, s).data);
}

/// Decoding what was encoded for the wire gives the same bytes back, with no reply,
/// from the data state.
pub proof fn lemma_filter_escape(cfg: TelnetConfig, st: TelnetView, s: Seq<u8>)
    requires
        st.frame == Frame::Data,
    ensures
        run(cfg, st, escape_iac(s)) == out(st, s, Seq::empty()),
    decreases s.len(),
{
    if s.len() > 0 {
        let p = s.drop_last();
        let b = s.last();
        lemma_filter_escape(cfg, st, p);
        let u = if b == IAC { seq![IAC, IAC] } else { seq![b] };
        assert(escape_iac(s) == escape_iac(p) + u);
        lemma_run_append(cfg, st, escape_iac(p), u);
        let none = Seq::<u8>::empty();
        assert(none + none =~= none);
        assert(none + seq![b] =~= seq![b]);
        assert(p + seq![b] =~= s);
        if b == IAC {
            assert(u.drop_last() =~= seq![IAC]);
            assert(seq![IAC].drop_last() =~= none);
            assert(run(cfg, st, none) == out(st, none, none));
            let r1 = run(cfg, st, seq![IAC]);
            assert(r1 == out(at(Frame::Iac, st), none, none));
            let r2 = run(cfg, st, u);
            assert(r2 == out(st, seq![IAC], none));
        } else {
            assert(u.drop_last() =~= none);
            assert(run(cfg, st, u) == out(st, seq![b], none));
        }
    } else {
        assert(s =~= Seq::<u8>::empty());
    }
}

/// Appends `src` to `dst` with each `IAC` doubled.
fn append_escaped(dst: &mut Vec<u8>, src: &[u8])
    ensures
        final(dst)@ == old(dst)@ + escape_iac(src@),
{
    let ghost start = dst@;
    let mut i: usize = 0;
    while i < src.len()
        invariant
            i <= src@.len(),
            dst@ == start + escape_iac(src@.subrange(0, i as int)),
        decreases src@.len() - i,
    {
        let b = src[i];
        proof {
            let next = src@.subrange(0, i as int + 1);
            assert(next.drop_last() =~= src@.subrange(0, i as int));
            assert(next.last() == b);
        }
        if b == IAC {
            dst.push(IAC);
            dst.push(IAC);
            proof {
                assert(dst@ =~= start + escape_iac(src@.subrange(0, i as int + 1)));
            }
        } else {
            dst.push(b);
            proof {
                assert(dst@ =~= start + escape_iac(src@.subrange(0, i as int + 1)));
            }
        }
        i += 1;
    }
    proof {
        assert(src@.subrange(0, src@.len() as int) =~= src@);
    }
}

/// Encodes data for the wire: each `IAC` byte doubled.
pub fn encode(s: &[u8]) -> (r: Vec<u8>)
    ensures
        r@ == escape_iac(s@),
{
    let mut r: Vec<u8> = Vec::new();
    append_escaped(&mut r, s);
    proof {
        assert(Seq::<u8>::empty() + escape_iac(s@) =~= escape_iac(s@));
    }
    r
}

/// The NAWS subnegotiation `IAC SB NAWS <width> <height> IAC SE`, both sizes as two bytes,
/// high byte first.
pub fn naws(width: u16, height: u16) -> (r: Vec<u8>)
    ensures
        r@ == naws_spec(width, height),
{
    let mut r: Vec<u8> = Vec::new();
    r.push(IAC);
    r.push(SB);
    r.push(OPT_NAWS);
    let size: [u8; 4] = [
        (width >> 8u16) as u8,
        (width & 0xff) as u8,
        (height >> 8u16) as u8,
        (height & 0xff) as u8,
    ];
    let ghost head = r@;
    append_escaped(&mut r, &size);
    r.push(IAC);
    r.push(SE);
    proof {
        assert(size@ =~= seq![
            (width >> 8u16) as u8,
            (width & 0xff) as u8,
            (height >> 8u16) as u8,
            (height & 0xff) as u8,
        ]);
        assert(head =~= seq![IAC, SB, OPT_NAWS]);
        assert(r@ =~= naws_spec(width, height));
    }
    r
}

/// The Telnet option engine of one connection: filters the host's bytes and answers its
/// negotiation.
pub struct TelnetEngine {
    frame: Frame,
    sb_option: u8,
    sb_data: Vec<u8>,
    width: u16,
    height: u16,
    terminal_name: Vec<u8>,
}

impl TelnetEngine {
    /// Where the engine stands.
    pub closed spec fn state(&self) -> TelnetView {
        TelnetView { frame: self.frame, sb_option: self.sb_option, sb_data: self.sb_data@ }
    }

    /// The window size and terminal name it announces.
    pub closed spec fn config(&self) -> TelnetConfig {
        TelnetConfig { width: self.width, height: self.height, terminal_name: self.terminal_name@ }
    }

    pub fn new(width: u16, height: u16, terminal_name: &[u8]) -> (r: Self)
        ensures
            r.state() == idle(),
            r.config() == (TelnetConfig { width, height, terminal_name: terminal_name@ }),
    {
        let mut name: Vec<u8> = Vec::new();
        let mut i: usize = 0;
        while i < terminal_name.len()
            invariant
                i <= terminal_name@.len(),
                name@ == terminal_name@.subrange(0, i as int),
            decreases terminal_name@.len() - i,
        {
            name.push(terminal_name[i]);
            i += 1;
            proof {
                assert(name@ =~= terminal_name@.subrange(0, i as int));
            }
        }
        proof {
            assert(name@ =~= terminal_name@);
        }
        let r = TelnetEngine {
            frame: Frame::Data,
            sb_option: 0,
            sb_data: Vec::new(),
            width,
            height,
            terminal_name: name,
        };
        proof {
            assert(r.state().sb_data =~= Seq::<u8>::empty());
        }
        r
    }

    /// Records a new window size and returns the NAWS message that announces it.
    pub fn set_window_size(&mut self, width: u16, height: u16) -> (r: Vec<u8>)
        ensures
            r@ == naws_spec(width, height),
            final(self).state() == old(self).state(),
            final(self).config() == (TelnetConfig { width, height, ..old(self).config() }),
    {
        self.width = width;
        self.height = height;
        naws(width, height)
    }

    fn do_reply(&self, opt: u8) -> (r: Vec<u8>)
        ensures
            r@ == on_do(self.config(), opt),
    {
        let mut r: Vec<u8> = Vec::new();
        r.push(IAC);
        if opt == OPT_NAWS {
            r.push(WILL);
            r.push(OPT_NAWS);
            let mut n = naws(self.width, self.height);
            r.append(&mut n);
        } else if opt == OPT_BINARY || opt == OPT_SGA || opt == OPT_TTYPE || opt == OPT_EOR {
            r.push(WILL);
            r.push(opt);
        } else {
            r.push(WONT);
            r.push(opt);
        }
        proof {
            assert(r@ =~= on_do(self.config(), opt));
        }
        r
    }

    fn will_reply(opt: u8) -> (r: Vec<u8>)
        ensures
            r@ == on_will(opt),
    {
        let mut r: Vec<u8> = Vec::new();
        r.push(IAC);
        if opt == OPT_BINARY || opt == OPT_ECHO || opt == OPT_SGA || opt == OPT_EOR {
            r.push(DO);
        } else {
            r.push(DONT);
        }
        r.push(opt);
        proof {
            assert(r@ =~= on_will(opt));
        }
        r
    }

    fn sb_reply(&self) -> (r: Vec<u8>)
        ensures
            r@ == on_sb(self.config(), self.sb_option, self.sb_data@),
    {
        let mut r: Vec<u8> = Vec::new();
        if self.sb_option == OPT_TTYPE && self.sb_data.len() >= 1 && self.sb_data[0] == TTYPE_SEND {
            r.push(IAC);
            r.push(SB);
            r.push(OPT_TTYPE);
            r.push(TTYPE_IS);
            let ghost head = r@;
            append_escaped(&mut r, self.terminal_name.as_slice());
            r.push(IAC);
            r.push(SE);
            proof {
                assert(head =~= seq![IAC, SB, OPT_TTYPE, TTYPE_IS]);
            }
        }
        proof {
            assert(r@ =~= on_sb(self.config(), self.sb_option, self.sb_data@));
        }
        r
    }

    fn reset(&mut self)
        ensures
            final(self).state() == idle(),
            final(self).config() == old(self).config(),
    {
        self.frame = Frame::Data;
        self.sb_option = 0;
        self.sb_data = Vec::new();
        proof {
            assert(self.state().sb_data =~= Seq::<u8>::empty());
        }
    }

    /// Takes in one byte from the host: appends what it yields for the display to `data`,
    /// and what must be sent back to `reply`.
    pub fn feed(&mut self, b: u8, data: &mut Vec<u8>, reply: &mut Vec<u8>)
        ensures
            ({
                let o = step(old(self).config(), old(self).state(), b);
                &&& final(self).state() == o.state
                &&& final(self).config() == old(self).config()
                &&& final(data)@ == old(data)@ + o.data
                &&& final(reply)@ == old(reply)@ + o.reply
            }),
    {
        let ghost o = step(self.config(), self.state(), b);
        let ghost d0 = data@;
        let ghost r0 = reply@;
        match self.frame {
            Frame::Data => {
                if b == IAC {
                    self.frame = Frame::Iac;
                } else {
                    data.push(b);
                }
            },
            Frame::Iac => {
                if b == IAC {
                    self.frame = Frame::Data;
                    data.push(IAC);
                } else if b == WILL {
                    self.frame = Frame::Will;
                } else if b == WONT {
                    self.frame = Frame::Wont;
                } else if b == DO {
                    self.frame = Frame::Do;
                } else if b == DONT {
                    self.frame = Frame::Dont;
                } else if b == SB {
                    self.frame = Frame::SbOption;
                } else {
                    self.frame = Frame::Data;
                }
            },
            Frame::Will => {
                self.frame = Frame::Data;
                let mut r = Self::will_reply(b);
                reply.append(&mut r);
            },
            Frame::Do => {
                self.frame = Frame::Data;
                let mut r = self.do_reply(b);
                reply.append(&mut r);
            },
            Frame::Wont | Frame::Dont => {
                self.frame = Frame::Data;
            },
            Frame::SbOption => {
                self.frame = Frame::Sb;
                self.sb_option = b;
                self.sb_data = Vec::new();
            },
            Frame::Sb => {
                if b == IAC {
                    self.frame = Frame::SbIac;
                } else {
                    self.sb_data.push(b);
                }
            },
            Frame::SbIac => {
                if b == SE {
                    let mut r = self.sb_reply();
                    reply.append(&mut r);
                    self.reset();
                } else if b == IAC {
                    self.frame = Frame::Sb;
                    self.sb_data.push(IAC);
                } else {
                    self.reset();
                }
            },
        }
        proof {
            assert(self.state() =~= o.state);
            assert(data@ =~= d0 + o.data);
            assert(reply@ =~= r0 + o.reply);
        }
    }

    /// Filters a chunk of bytes from the host: returns the data for the display and the
    /// negotiation replies for the host.
    pub fn filter(&mut self, input: &[u8]) -> (r: (Vec<u8>, Vec<u8>))
        ensures
            ({
                let o = run(old(self).config(), old(self).state(), input@);
                &&& final(self).state() == o.state
                &&& final(self).config() == old(self).config()
                &&& r.0@ == o.data
                &&& r.1@ == o.reply
            }),
    {
        let ghost cfg = self.config();
        let ghost st0 = self.state();
        let mut data: Vec<u8> = Vec::new();
        let mut reply: Vec<u8> = Vec::new();
        let mut i: usize = 0;
        while i < input.len()
            invariant
                i <= input@.len(),
                self.config() == cfg,
                ({
                    let o = run(cfg, st0, input@.subrange(0, i as int));
                    &&& self.state() == o.state
                    &&& data@ == o.data
                    &&& reply@ == o.reply
                }),
            decreases input@.len() - i,
        {
            proof {
                let next = input@.subrange(0, i as int + 1);
                assert(next.drop_last() =~= input@.subrange(0, i as int));
            }
            self.feed(input[i], &mut data, &mut reply);
            i += 1;
        }
        proof {
            assert(input@.subrange(0, input@.len() as int) =~= input@);
        }
        (data, reply)
    }
}

} // verus!
