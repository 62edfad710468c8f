//! Scripted auto-login: waits for host prompts and sends the answers, each wait with a
//! time limit.

use vstd::prelude::*;

use crate::sniffer::{ends_with, PatternWatch};

verus! {

/// One step of a login script.
pub enum LoginStep {
    /// Wait until the host has sent this text.
    WaitFor(Vec<u8>),
    /// Send this text; a masked one (a password) is echoed as stars.
    Send(Vec<u8>, bool),
}

/// A step as the contracts see it: `Some(text)` for a wait, `None` for a send.
pub open spec fn wait_text(s: LoginStep) -> Option<Seq<u8>> {
    match s {
        LoginStep::WaitFor(t) => Some(t@),
        LoginStep::Send(_, _) => None,
    }
}

/// A step that the script takes without waiting: a send, or a wait for the empty text.
pub open spec fn passes(s: LoginStep) -> bool {
    match s {
        LoginStep::WaitFor(t) => t@.len() == 0,
        LoginStep::Send(_, _) => true,
    }
}

/// The text of the sends from step `i` up to the next wait for a non-empty text, and the
/// index where they stop.
pub open spec fn sends_from(steps: Seq<LoginStep>, i: int) -> (Seq<u8>, int)
    decreases steps.len() - i,
{
    if i < 0 || i >= steps.len() {
        (Seq::empty(), i)
    } else {
        match steps[i] {
            LoginStep::WaitFor(t) => if t@.len() == 0 {
                sends_from(steps, i + 1)
            } else {
                (Seq::empty(), i)
            },
            LoginStep::Send(t, _) => {
                let (rest, j) = sends_from(steps, i + 1);
                (t@ + rest, j)
            },
        }
    }
}

proof fn lemma_sends_from(steps: Seq<LoginStep>, i: int)
    requires
        0 <= i,
    ensures
        i <= sends_from(steps, i).1,
        sends_from(steps, i).1 <= steps.len() || sends_from(steps, i).1 == i,
        sends_from(steps, i).1 < steps.len() ==> !passes(steps[sends_from(steps, i).1]),
    decreases steps.len() - i,
{
    if i < steps.len() {
        if passes(steps[i]) {
            lemma_sends_from(steps, i + 1);
        }
    }
}

/// An auto-login script: alternating waits for host text and texts to send, with a time
/// limit on each wait.
pub struct LoginScript {
    steps: Vec<LoginStep>,
    index: usize,
    watch: Option<PatternWatch>,
    waited_ms: u64,
    timeout_ms: u64,
    failed: bool,
}

impl LoginScript {
    pub closed spec fn steps(&self) -> Seq<LoginStep> {
        self.steps@
    }

    /// The index of the step that is due.
    pub closed spec fn index(&self) -> int {
        self.index as int
    }

    pub closed spec fn failed(&self) -> bool {
        self.failed
    }

    pub closed spec fn waited(&self) -> u64 {
        self.waited_ms
    }

    pub closed spec fn timeout(&self) -> u64 {
        self.timeout_ms
    }

    /// What the host sent since the wait that is due began.
    pub closed spec fn heard(&self) -> Seq<u8> {
        match self.watch {
            Some(w) => w.seen(),
            None => Seq::empty(),
        }
    }

    pub closed spec fn wf(&self) -> bool {
        &&& self.index <= self.steps@.len()
        &&& match self.watch {
            Some(w) => {
                &&& w.wf()
                &&& self.index < self.steps@.len()
                &&& wait_text(self.steps@[self.index as int]) == Some(w.pattern())
            },
            None => self.index >= self.steps@.len(),
        }
    }

    /// The script is over: every step was taken.
    pub open spec fn done(&self) -> bool {
        self.index() >= self.steps().len()
    }

    /// A script that has not started; each wait may last `timeout_ms` milliseconds. A wait
    /// for the empty text is over at once.
    pub fn new(steps: Vec<LoginStep>, timeout_ms: u64) -> (r: Self)
        ensures
            r.steps() == steps@,
            r.index() == 0,
            r.timeout() == timeout_ms,
            !r.failed(),
    {
        LoginScript { steps, index: 0, watch: None, waited_ms: 0, timeout_ms, failed: false }
    }

    /// Takes the sends from the due step on, up to the next wait, whose watch it arms.
    fn advance(&mut self) -> (r: Vec<u8>)
        requires
            old(self).index() <= old(self).steps().len(),
        ensures
            final(self).wf(),
            final(self).steps@ == old(self).steps@,
            (r@, final(self).index as int) == sends_from(old(self).steps@, old(self).index as int),
            final(self).heard() == Seq::<u8>::empty(),
            final(self).waited_ms == 0,
            final(self).timeout_ms == old(self).timeout_ms,
            final(self).failed == old(self).failed,
    {
        let mut out: Vec<u8> = Vec::new();
        let ghost start = self.index as int;
        proof {
            lemma_sends_from(self.steps@, start);
            assert(out@ + sends_from(self.steps@, start).0 =~= sends_from(self.steps@, start).0);
        }
        while self.index < self.steps.len() && passes_exec(&self.steps[self.index])
            invariant
                start <= self.index <= self.steps@.len(),
                self.steps@ == old(self).steps@,
                self.timeout_ms == old(self).timeout_ms,
                self.failed == old(self).failed,
                sends_from(self.steps@, start) == (
                    out@ + sends_from(self.steps@, self.index as int).0,
                    sends_from(self.steps@, self.index as int).1,
                ),
            decreases self.steps@.len() - self.index,
        {
            let ghost before = out@;
            match &self.steps[self.index] {
                LoginStep::Send(t, _) => {
                    out.extend_from_slice(t.as_slice());
                },
                LoginStep::WaitFor(_) => {},
            }
            proof {
                let i = self.index as int;
                let (rest, _) = sends_from(self.steps@, i + 1);
                assert(before + sends_from(self.steps@, i).0 =~= out@ + rest);
            }
            self.index = self.index + 1;
        }
        proof {
            assert(out@ + Seq::<u8>::empty() =~= out@);
        }
        self.waited_ms = 0;
        if self.index < self.steps.len() {
            match &self.steps[self.index] {
                LoginStep::WaitFor(t) => {
                    proof {
                        assert(wait_text(self.steps@[self.index as int]) == Some(t@));
                    }
                    self.watch = Some(PatternWatch::new(t.as_slice()));
                },
                LoginStep::Send(_, _) => {
                    self.watch = None;
                },
            }
        } else {
            self.watch = None;
        }
        out
    }

    /// Starts the script: returns what is to be sent before the first wait.
    pub fn start(&mut self) -> (r: Vec<u8>)
        requires
            old(self).index() == 0,
        ensures
            final(self).wf(),
            final(self).steps() == old(self).steps(),
            (r@, final(self).index()) == sends_from(old(self).steps(), 0),
            final(self).heard() == Seq::<u8>::empty(),
    {
        self.advance()
    }

    /// Takes in one byte from the host. Where it completes the text that the due wait
    /// looks for, the script moves past the wait and returns what is to be sent next.
    pub fn feed(&mut self, b: u8) -> (r: Vec<u8>)
        requires
            old(self).wf(),
        ensures
            final(self).wf(),
            final(self).steps() == old(self).steps(),
            old(self).failed() || old(self).done() || wait_text(old(self).steps()[old(self).index()]).is_none()
                ==> r@.len() == 0 && final(self).index() == old(self).index(),
            !old(self).failed() && !old(self).done() && wait_text(old(self).steps()[old(self).index()]).is_some() ==> {
                let heard = old(self).heard().push(b);
                let text = wait_text(old(self).steps()[old(self).index()]).unwrap();
                if ends_with(heard, text) {
                    (r@, final(self).index()) == sends_from(old(self).steps(), old(self).index() + 1)
                        && final(self).heard() == Seq::<u8>::empty()
                } else {
                    r@.len() == 0 && final(self).index() == old(self).index() && final(self).heard() == heard
                }
            },
    {
        if self.failed || self.index >= self.steps.len() {
            return Vec::new();
        }
        let mut hit = false;
        match &mut self.watch {
            Some(w) => {
                hit = w.feed(b);
            },
            None => {
                return Vec::new();
            },
        }
        if hit {
            self.index = self.index + 1;
            self.advance()
        } else {
            Vec::new()
        }
    }

    /// Counts `elapsed_ms` more milliseconds on the due wait; past the time limit the
    /// script fails. Returns whether it has failed.
    pub fn tick(&mut self, elapsed_ms: u64) -> (r: bool)
        requires
            old(self).wf(),
        ensures
            final(self).wf(),
            final(self).steps() == old(self).steps(),
            final(self).index() == old(self).index(),
            final(self).waited() == (if old(self).waited() + elapsed_ms > u64::MAX {
                u64::MAX as int
            } else {
                old(self).waited() + elapsed_ms
            }),
            r == final(self).failed(),
            final(self).failed() == (old(self).failed() || (!old(self).done()
                && final(self).waited() > old(self).timeout())),
    {
        self.waited_ms = self.waited_ms.saturating_add(elapsed_ms);
        if self.index < self.steps.len() && self.waited_ms > self.timeout_ms {
            self.failed = true;
        }
        self.failed
    }
}

fn passes_exec(s: &LoginStep) -> (r: bool)
    ensures
        r == passes(*s),
{
    match s {
        LoginStep::Send(_, _) => true,
        LoginStep::WaitFor(t) => t.len() == 0,
    }
}

/// What a manual login sends: the user name, the Enter key's bytes, the password, and
/// Enter again.
pub fn login_sequence(user: &[u8], password: &[u8], enter: &[u8]) -> (r: Vec<u8>)
    ensures
        r@ == user@ + enter@ + password@ + enter@,
{
    let mut r: Vec<u8> = Vec::new();
    r.extend_from_slice(user);
    r.extend_from_slice(enter);
    r.extend_from_slice(password);
    r.extend_from_slice(enter);
    proof {
        assert(r@ =~= user@ + enter@ + password@ + enter@);
    }
    r
}

/// What the user sees of a sent text: stars for a masked one.
pub fn echo_text(step: &LoginStep) -> (r: Vec<u8>)
    ensures
        match step {
            LoginStep::Send(t, masked) => if *masked {
                r@ == Seq::new(t@.len(), |i: int| 0x2au8)
            } else {
                r@ == t@
            },
            LoginStep::WaitFor(_) => r@.len() == 0,
        },
{
    let mut r: Vec<u8> = Vec::new();
    match step {
        LoginStep::Send(t, masked) => {
            if *masked {
                let mut i: usize = 0;
                while i < t.len()
                    invariant
                        i <= t@.len(),
                        r@ == Seq::new(i as nat, |k: int| 0x2au8),
                    decreases t@.len() - i,
                {
                    r.push(0x2a);
                    i += 1;
                    proof {
                        assert(r@ =~= Seq::new(i as nat, |k: int| 0x2au8));
                    }
                }
            } else {
                r.extend_from_slice(t.as_slice());
            }
        },
        LoginStep::WaitFor(_) => {},
    }
    r
}

} // verus!
