//! The relay between a local socket and an SSH channel, used by tunnels and
//! jump hosts: bytes read on one side wait in order until the other side
//! takes them, and the relay ends once both sides have ended and nothing
//! waits.
use vstd::prelude::*;

use crate::error::AppError;

verus! {

/// What one read from a side gave.
#[derive(Debug)]
pub enum SideRead {
    /// These bytes arrived.
    Data(Vec<u8>),
    /// The side ended its stream.
    Eof,
    /// Nothing is available yet.
    WouldBlock,
    /// The read failed with this error text.
    Failed(String),
}

/// The state of a relay. Besides the bytes waiting for each side, it
/// records (for proofs only) everything read from and written to each side.
pub struct Pump {
    to_remote: Vec<u8>,
    to_local: Vec<u8>,
    local_eof: bool,
    remote_eof: bool,
    read_local: Ghost<Seq<u8>>,
    sent_remote: Ghost<Seq<u8>>,
    read_remote: Ghost<Seq<u8>>,
    sent_local: Ghost<Seq<u8>>,
}

impl Pump {
    /// Everything read so far from the local socket.
    pub closed spec fn received_local(&self) -> Seq<u8> {
        self.read_local@
    }

    /// Everything written so far to the channel.
    pub closed spec fn forwarded_remote(&self) -> Seq<u8> {
        self.sent_remote@
    }

    /// Everything read so far from the channel.
    pub closed spec fn received_remote(&self) -> Seq<u8> {
        self.read_remote@
    }

    /// Everything written so far to the local socket.
    pub closed spec fn forwarded_local(&self) -> Seq<u8> {
        self.sent_local@
    }

    /// The bytes waiting for the channel.
    pub closed spec fn waiting_remote(&self) -> Seq<u8> {
        self.to_remote@
    }

    /// The bytes waiting for the local socket.
    pub closed spec fn waiting_local(&self) -> Seq<u8> {
        self.to_local@
    }

    /// The local socket ended its stream.
    pub closed spec fn local_ended(&self) -> bool {
        self.local_eof
    }

    /// The channel ended its stream.
    pub closed spec fn remote_ended(&self) -> bool {
        self.remote_eof
    }

    /// Nothing is lost, reordered or made up: what was written to a side,
    /// followed by what waits for it, is exactly what was read from the other.
    pub closed spec fn wf(&self) -> bool {
        &&& self.sent_remote@ + self.to_remote@ == self.read_local@
        &&& self.sent_local@ + self.to_local@ == self.read_remote@
    }

    /// A relay that has read and written nothing.
    pub fn new() -> (p: Pump)
        ensures
            p.wf(),
            p.received_local() == Seq::<u8>::empty(),
            p.received_remote() == Seq::<u8>::empty(),
            p.forwarded_remote() == Seq::<u8>::empty(),
            p.forwarded_local() == Seq::<u8>::empty(),
            !p.local_ended(),
            !p.remote_ended(),
    {
        let p = Pump {
            to_remote: Vec::new(),
            to_local: Vec::new(),
            local_eof: false,
            remote_eof: false,
            read_local: Ghost(Seq::empty()),
            sent_remote: Ghost(Seq::empty()),
            read_remote: Ghost(Seq::empty()),
            sent_local: Ghost(Seq::empty()),
        };
        assert(p.sent_remote@ + p.to_remote@ =~= p.read_local@);
        assert(p.sent_local@ + p.to_local@ =~= p.read_remote@);
        p
    }

    /// The local socket is read while it has not ended.
    pub fn reads_local(&self) -> (r: bool)
        ensures
            r == !self.local_ended(),
    {
        !self.local_eof
    }

    /// The channel is read while it has not ended.
    pub fn reads_remote(&self) -> (r: bool)
        ensures
            r == !self.remote_ended(),
    {
        !self.remote_eof
    }

    /// Takes a read from the local socket: bytes wait for the channel; the
    /// end of the stream is recorded and the channel must be told (`true`);
    /// a failure ends the relay with a tunnel error.
    pub fn on_local_read(&mut self, read: SideRead) -> (r: Result<bool, AppError>)
        requires
            old(self).wf(),
        ensures
            final(self).wf(),
            final(self).received_remote() == old(self).received_remote(),
            final(self).forwarded_remote() == old(self).forwarded_remote(),
            final(self).forwarded_local() == old(self).forwarded_local(),
            final(self).remote_ended() == old(self).remote_ended(),
            match read {
                SideRead::Data(b) => r == Ok::<bool, AppError>(false) && final(self).received_local()
                    == old(self).received_local() + b@ && final(self).local_ended()
                    == old(self).local_ended(),
                SideRead::Eof => r == Ok::<bool, AppError>(true) && final(self).received_local()
                    == old(self).received_local() && final(self).local_ended(),
                SideRead::WouldBlock => r == Ok::<bool, AppError>(false) && final(self).received_local()
                    == old(self).received_local() && final(self).local_ended()
                    == old(self).local_ended(),
                SideRead::Failed(t) => r matches Err(e) && e.is("tunnel"@, t@),
            },
    {
        match read {
            SideRead::Data(b) => {
                let mut b = b;
                let ghost got = b@;
                self.to_remote.append(&mut b);
                proof {
                    self.read_local@ = self.read_local@ + got;
                    assert(self.sent_remote@ + self.to_remote@ =~= self.read_local@);
                }
                Ok(false)
            },
            SideRead::Eof => {
                self.local_eof = true;
                Ok(true)
            },
            SideRead::WouldBlock => Ok(false),
            SideRead::Failed(t) => Err(AppError::new("tunnel", t.as_str())),
        }
    }

    /// Takes a read from the channel: bytes wait for the local socket; the
    /// end of the stream is recorded; a failure ends the relay.
    pub fn on_remote_read(&mut self, read: SideRead) -> (r: Result<(), AppError>)
        requires
            old(self).wf(),
        ensures
            final(self).wf(),
            final(self).received_local() == old(self).received_local(),
            final(self).forwarded_remote() == old(self).forwarded_remote(),
            final(self).forwarded_local() == old(self).forwarded_local(),
            final(self).local_ended() == old(self).local_ended(),
            match read {
                SideRead::Data(b) => r is Ok && final(self).received_remote()
                    == old(self).received_remote() + b@ && final(self).remote_ended()
                    == old(self).remote_ended(),
                SideRead::Eof => r is Ok && final(self).received_remote()
                    == old(self).received_remote() && final(self).remote_ended(),
                SideRead::WouldBlock => r is Ok && final(self).received_remote()
                    == old(self).received_remote() && final(self).remote_ended()
                    == old(self).remote_ended(),
                SideRead::Failed(t) => r matches Err(e) && e.is("tunnel"@, t@),
            },
    {
        match read {
            SideRead::Data(b) => {
                let mut b = b;
                let ghost got = b@;
                self.to_local.append(&mut b);
                proof {
                    self.read_remote@ = self.read_remote@ + got;
                    assert(self.sent_local@ + self.to_local@ =~= self.read_remote@);
                }
                Ok(())
            },
            SideRead::Eof => {
                self.remote_eof = true;
                Ok(())
            },
            SideRead::WouldBlock => Ok(()),
            SideRead::Failed(t) => Err(AppError::new("tunnel", t.as_str())),
        }
    }

    /// The bytes waiting for the channel, oldest first.
    pub fn pending_remote(&self) -> (r: &[u8])
        ensures
            r@ == self.waiting_remote(),
    {
        self.to_remote.as_slice()
    }

    /// The bytes waiting for the local socket, oldest first.
    pub fn pending_local(&self) -> (r: &[u8])
        ensures
            r@ == self.waiting_local(),
    {
        self.to_local.as_slice()
    }

    /// The channel took the first `n` waiting bytes.
    pub fn on_remote_written(&mut self, n: usize)
        requires
            old(self).wf(),
            n <= old(self).waiting_remote().len(),
        ensures
            final(self).wf(),
            final(self).forwarded_remote() == old(self).forwarded_remote()
                + old(self).waiting_remote().take(n as int),
            final(self).waiting_remote() == old(self).waiting_remote().skip(n as int),
            final(self).received_local() == old(self).received_local(),
            final(self).received_remote() == old(self).received_remote(),
            final(self).forwarded_local() == old(self).forwarded_local(),
            final(self).local_ended() == old(self).local_ended(),
            final(self).remote_ended() == old(self).remote_ended(),
    {
        let ghost before = self.to_remote@;
        let rest = self.to_remote.split_off(n);
        proof {
            self.sent_remote@ = self.sent_remote@ + before.take(n as int);
        }
        self.to_remote = rest;
        assert(self.to_remote@ =~= before.skip(n as int));
        assert(self.sent_remote@ + self.to_remote@ =~= self.read_local@) by {
            assert(before =~= before.take(n as int) + before.skip(n as int));
        }
    }

    /// The local socket took the first `n` waiting bytes.
    pub fn on_local_written(&mut self, n: usize)
        requires
            old(self).wf(),
            n <= old(self).waiting_local().len(),
        ensures
            final(self).wf(),
            final(self).forwarded_local() == old(self).forwarded_local()
                + old(self).waiting_local().take(n as int),
            final(self).waiting_local() == old(self).waiting_local().skip(n as int),
            final(self).received_local() == old(self).received_local(),
            final(self).received_remote() == old(self).received_remote(),
            final(self).forwarded_remote() == old(self).forwarded_remote(),
            final(self).local_ended() == old(self).local_ended(),
            final(self).remote_ended() == old(self).remote_ended(),
    {
        let ghost before = self.to_local@;
        let rest = self.to_local.split_off(n);
        proof {
            self.sent_local@ = self.sent_local@ + before.take(n as int);
        }
        self.to_local = rest;
        assert(self.to_local@ =~= before.skip(n as int));
        assert(self.sent_local@ + self.to_local@ =~= self.read_remote@) by {
            assert(before =~= before.take(n as int) + before.skip(n as int));
        }
    }

    /// The relay is over once both sides have ended and nothing waits; by
    /// then each side has been given exactly what the other side sent.
    pub fn finished(&self) -> (r: bool)
        requires
            self.wf(),
        ensures
            r == (self.local_ended() && self.remote_ended() && self.waiting_remote().len() == 0
                && self.waiting_local().len() == 0),
            r ==> self.forwarded_remote() == self.received_local() && self.forwarded_local()
                == self.received_remote(),
    {
        let r = self.local_eof && self.remote_eof && self.to_remote.len() == 0 && self.to_local.len()
            == 0;
        if r {
            assert(self.sent_remote@ + self.to_remote@ =~= self.sent_remote@);
            assert(self.sent_local@ + self.to_local@ =~= self.sent_local@);
        }
        r
    }
}

/// Whatever has been forwarded to a side is, at every moment, a prefix of
/// what the other side sent: the relay never reorders or invents bytes.
pub proof fn law_relay_forwards_prefix(p: Pump)
    requires
        p.wf(),
    ensures
        p.forwarded_remote().len() <= p.received_local().len(),
        p.forwarded_remote() == p.received_local().take(p.forwarded_remote().len() as int),
        p.forwarded_local() == p.received_remote().take(p.forwarded_local().len() as int),
{
    assert(p.forwarded_remote() =~= p.received_local().take(p.forwarded_remote().len() as int));
    assert(p.forwarded_local() =~= p.received_remote().take(p.forwarded_local().len() as int));
}

} // verus!
