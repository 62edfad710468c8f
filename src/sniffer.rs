//! Watches the inbound stream for ZMODEM transfer markers and the IEMSI query.

use vstd::prelude::*;

use crate::bytes::bytes_equal;

verus! {

/// `s` ends with `p`.
pub open spec fn ends_with(s: Seq<u8>, p: Seq<u8>) -> bool {
    p.len() <= s.len() && s.subrange(s.len() - p.len(), s.len() as int) == p
}

/// The last `n` bytes of `s`, or all of it where it is shorter.
pub open spec fn last_n(s: Seq<u8>, n: nat) -> Seq<u8> {
    if s.len() <= n {
        s
    } else {
        s.subrange(s.len() - n, s.len() as int)
    }
}

/// ZMODEM's offer to send us a file: `**`, `ZDLE`, `B00`.
pub open spec fn zmodem_download_marker() -> Seq<u8> {
    seq![0x2a, 0x2a, 0x18, 0x42, 0x30, 0x30]
}

/// ZMODEM's request that we send a file: `**`, `ZDLE`, `B01`.
pub open spec fn zmodem_upload_marker() -> Seq<u8> {
    seq![0x2a, 0x2a, 0x18, 0x42, 0x30, 0x31]
}

/// The IEMSI server's query: `**EMSI_IRQ`.
pub open spec fn iemsi_request_marker() -> Seq<u8> {
    seq![0x2a, 0x2a, 0x45, 0x4d, 0x53, 0x49, 0x5f, 0x49, 0x52, 0x51]
}

/// Watches a byte stream for one pattern, holding no more of the stream than the pattern's
/// length.
pub struct PatternWatch {
    pattern: Vec<u8>,
    window: Vec<u8>,
    seen: Ghost<Seq<u8>>,
}

impl PatternWatch {
    pub closed spec fn pattern(&self) -> Seq<u8> {
        self.pattern@
    }

    /// All the bytes fed so far.
    pub closed spec fn seen(&self) -> Seq<u8> {
        self.seen@
    }

    pub closed spec fn wf(&self) -> bool {
        &&& self.pattern@.len() > 0
        &&& self.window@ == last_n(self.seen@, self.pattern@.len())
    }

    pub fn new(pattern: &[u8]) -> (r: Self)
        requires
            pattern@.len() > 0,
        ensures
            r.wf(),
            r.pattern() == pattern@,
            r.seen() == Seq::<u8>::empty(),
    {
        let mut p: Vec<u8> = Vec::new();
        p.extend_from_slice(pattern);
        PatternWatch { pattern: p, window: Vec::new(), seen: Ghost(Seq::empty()) }
    }

    /// Takes in one byte; true exactly when the stream seen so far ends with the pattern.
    pub fn feed(&mut self, b: u8) -> (r: bool)
        requires
            old(self).wf(),
        ensures
            final(self).wf(),
            final(self).pattern() == old(self).pattern(),
            final(self).seen() == old(self).seen().push(b),
            r == ends_with(final(self).seen(), final(self).pattern()),
    {
        let n = self.pattern.len();
        let ghost old_window = self.window@;
        let ghost seen = self.seen@.push(b);
        self.seen = Ghost(seen);
        let mut w: Vec<u8> = Vec::new();
        let start: usize = if self.window.len() >= n { self.window.len() - (n - 1) } else { 0 };
        let mut i: usize = start;
        while i < self.window.len()
            invariant
                start <= i <= self.window@.len(),
                w@ == self.window@.subrange(start as int, i as int),
            decreases self.window@.len() - i,
        {
            w.push(self.window[i]);
            i += 1;
            proof {
                assert(w@ =~= self.window@.subrange(start as int, i as int));
            }
        }
        w.push(b);
        self.window = w;
        proof {
            let lw = old_window.push(b);
            assert(self.window@ =~= last_n(lw, n as nat));
            assert(self.window@ =~= last_n(seen, n as nat)) by {
                let os = seen.drop_last();
                if os.len() <= n {
                    assert(old_window == os);
                    assert(lw =~= seen);
                } else {
                    assert(old_window == os.subrange(os.len() - n, os.len() as int));
                    assert(self.window@ =~= seen.subrange(seen.len() - n, seen.len() as int));
                }
            }
        }
        let r = self.window.len() == n && bytes_equal(self.window.as_slice(), self.pattern.as_slice());
        proof {
            if seen.len() >= n {
                let tail = seen.subrange(seen.len() - n, seen.len() as int);
                if seen.len() == n {
                    assert(tail =~= seen);
                }
                assert(self.window@ =~= tail);
            }
        }
        r
    }
}

/// The direction of a transfer, seen from this side.
#[derive(Clone, Copy, Debug, PartialEq, Eq, Structural)]
pub enum Direction {
    Download,
    Upload,
}

/// Watches the inbound stream for the markers with which a host starts a ZMODEM transfer.
pub struct AutoTransferDetector {
    download: PatternWatch,
    upload: PatternWatch,
}

impl AutoTransferDetector {
    pub closed spec fn seen(&self) -> Seq<u8> {
        self.download.seen()
    }

    pub closed spec fn wf(&self) -> bool {
        &&& self.download.wf()
        &&& self.upload.wf()
        &&& self.download.pattern() == zmodem_download_marker()
        &&& self.upload.pattern() == zmodem_upload_marker()
        &&& self.upload.seen() == self.download.seen()
    }

    pub fn new() -> (r: Self)
        ensures
            r.wf(),
            r.seen() == Seq::<u8>::empty(),
    {
        let d: [u8; 6] = [0x2a, 0x2a, 0x18, 0x42, 0x30, 0x30];
        let u: [u8; 6] = [0x2a, 0x2a, 0x18, 0x42, 0x30, 0x31];
        proof {
            assert(d@ =~= zmodem_download_marker());
            assert(u@ =~= zmodem_upload_marker());
        }
        AutoTransferDetector { download: PatternWatch::new(&d), upload: PatternWatch::new(&u) }
    }

    /// Takes in one inbound byte: the transfer to start where the stream now ends with one
    /// of the two markers. The stream itself is not changed.
    pub fn feed(&mut self, b: u8) -> (r: Option<Direction>)
        requires
            old(self).wf(),
        ensures
            final(self).wf(),
            final(self).seen() == old(self).seen().push(b),
            r == Some(Direction::Download) <==> ends_with(
                final(self).seen(),
                zmodem_download_marker(),
            ),
            r == Some(Direction::Upload) <==> ends_with(final(self).seen(), zmodem_upload_marker()),
            r.is_none() <==> !ends_with(final(self).seen(), zmodem_download_marker())
                && !ends_with(final(self).seen(), zmodem_upload_marker()),
    {
        let d = self.download.feed(b);
        let u = self.upload.feed(b);
        proof {
            if d && u {
                let s = self.seen();
                assert(s[s.len() - 1] == zmodem_download_marker()[5]);
                assert(s[s.len() - 1] == zmodem_upload_marker()[5]);
            }
        }
        if d {
            Some(Direction::Download)
        } else if u {
            Some(Direction::Upload)
        } else {
            None
        }
    }
}

/// Watches for the IEMSI server's query, and answers it once per session.
pub struct IemsiWatch {
    watch: PatternWatch,
    answered: bool,
}

impl IemsiWatch {
    pub closed spec fn seen(&self) -> Seq<u8> {
        self.watch.seen()
    }

    pub closed spec fn answered(&self) -> bool {
        self.answered
    }

    pub closed spec fn wf(&self) -> bool {
        &&& self.watch.wf()
        &&& self.watch.pattern() == iemsi_request_marker()
    }

    pub fn new() -> (r: Self)
        ensures
            r.wf(),
            r.seen() == Seq::<u8>::empty(),
            !r.answered(),
    {
        let p: [u8; 10] = [0x2a, 0x2a, 0x45, 0x4d, 0x53, 0x49, 0x5f, 0x49, 0x52, 0x51];
        proof {
            assert(p@ =~= iemsi_request_marker());
        }
        IemsiWatch { watch: PatternWatch::new(&p), answered: false }
    }

    /// Takes in one inbound byte: true where the query has just come and was not answered
    /// before in this session, which then counts as answered.
    pub fn feed(&mut self, b: u8) -> (r: bool)
        requires
            old(self).wf(),
        ensures
            final(self).wf(),
            final(self).seen() == old(self).seen().push(b),
            r == (!old(self).answered() && ends_with(final(self).seen(), iemsi_request_marker())),
            final(self).answered() == (old(self).answered() || r),
    {
        let hit = self.watch.feed(b);
        if hit && !self.answered {
            self.answered = true;
            true
        } else {
            false
        }
    }
}

} // verus!
