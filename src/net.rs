//! Dialling a resolved name: try each address in order, keep the first that
//! connects; when all fail, report the last failure, or that there was no
//! address at all.

use vstd::prelude::*;

use crate::config::SockAddr;
use crate::error::ErrorKind;

verus! {

/// Why a dial gave up.
#[derive(Clone, Copy, Debug, PartialEq, Eq, Structural)]
pub enum DialError {
    /// The name resolved to no address.
    NoAddr,
    /// The last address tried failed with this.
    Io(ErrorKind),
}

/// What the dialler asks for next.
#[derive(Clone, Debug)]
pub enum DialStep {
    /// Try to connect to this address, then report with `failed` or stop.
    Try(SockAddr),
    /// Every address failed.
    Fail(DialError),
}

/// The decisions of a dial over a resolved address list; the caller does the
/// connecting.
pub struct TcpConnect {
    addrs: Vec<SockAddr>,
    next: usize,
    last_err: Option<ErrorKind>,
}

impl TcpConnect {
    /// Addresses not tried yet.
    pub closed spec fn remaining(&self) -> Seq<SockAddr> {
        self.addrs@.skip(self.next as int)
    }

    /// The failure of the last address tried, if one was tried.
    pub closed spec fn last_error(&self) -> Option<ErrorKind> {
        self.last_err
    }

    pub closed spec fn wf(&self) -> bool {
        self.next <= self.addrs@.len()
    }

    pub fn new(addrs: Vec<SockAddr>) -> (r: TcpConnect)
        ensures
            r.wf(),
            r.remaining() == addrs@,
            r.last_error() is None,
    {
        let r = TcpConnect { addrs, next: 0, last_err: None };
        assert(r.addrs@.skip(0) =~= r.addrs@);
        r
    }

    /// The next address to try, or, when none is left, the last failure (or
    /// `NoAddr` when nothing was tried).
    pub fn next_step(&mut self) -> (r: DialStep)
        requires
            old(self).wf(),
        ensures
            final(self).wf(),
            final(self).last_error() == old(self).last_error(),
            old(self).remaining().len() > 0 ==> (r matches DialStep::Try(a) && a@ == old(self).remaining()[0]@)
                && final(self).remaining() == old(self).remaining().drop_first(),
            old(self).remaining().len() == 0 ==> final(self).remaining() == old(self).remaining() && match old(self).last_error() {
                Some(e) => r matches DialStep::Fail(DialError::Io(k)) && k == e,
                None => r matches DialStep::Fail(DialError::NoAddr),
            },
    {
        if self.next < self.addrs.len() {
            let a = self.addrs[self.next].clone_addr();
            self.next = self.next + 1;
            assert(self.addrs@.skip(self.next as int) =~= old(self).addrs@.skip(old(self).next as int).drop_first());
            DialStep::Try(a)
        } else {
            match self.last_err {
                Some(e) => DialStep::Fail(DialError::Io(e)),
                None => DialStep::Fail(DialError::NoAddr),
            }
        }
    }

    /// Records that the address last handed out failed with `err`.
    pub fn failed(&mut self, err: ErrorKind)
        requires
            old(self).wf(),
        ensures
            final(self).wf(),
            final(self).remaining() == old(self).remaining(),
            final(self).last_error() == Some(err),
    {
        self.last_err = Some(err);
    }
}

} // verus!
