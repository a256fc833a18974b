//! Correlation of responses with requests on one connection.
use std::collections::VecDeque;
use vstd::prelude::*;

use crate::error::{checked, DcpError, DcpFault, Result};
use crate::interval::Interval;
use crate::protocol::Frame;

verus! {

/// Token after `current`; zero is reserved for frames without one.
pub open spec fn next_token(current: u32) -> u32 {
    if current == u32::MAX {
        1
    } else {
        (current + 1) as u32
    }
}

/// Source of request tokens.
#[derive(Debug)]
pub struct OpaqueSource {
    next: u32,
}

impl OpaqueSource {
    /// Token of the next request.
    pub closed spec fn upcoming(&self) -> u32 {
        self.next
    }

    #[verifier::type_invariant]
    closed spec fn nonzero(&self) -> bool {
        self.next != 0
    }

    /// Starts at one.
    pub fn new() -> (result: Self)
        ensures
            result.upcoming() == 1,
    {
        OpaqueSource { next: 1 }
    }

    /// Token for a request that has none.
    pub fn allocate_opaque(&mut self) -> (result: u32)
        ensures
            result == old(self).upcoming(),
            result != 0,
            final(self).upcoming() == next_token(old(self).upcoming()),
    {
        proof {
            use_type_invariant(&*self);
        }
        let opaque: u32 = self.next;
        let next: u32 = if opaque == u32::MAX {
            1
        } else {
            opaque + 1
        };
        self.next = next;
        opaque
    }
}

/// Token of a request that follows on a number of others.
pub open spec fn later_token(token: u32, requests: nat) -> u32
    decreases requests,
{
    if requests == 0 {
        token
    } else {
        next_token(later_token(token, (requests - 1) as nat))
    }
}

/// A token is never zero, and it does not come back before as many requests as
/// there are tokens.
pub proof fn tokens_are_fresh(token: u32, requests: nat)
    requires
        token != 0,
        requests < u32::MAX,
    ensures
        later_token(token, requests) != 0,
        later_token(token, requests) == if token + requests <= u32::MAX {
            token + requests
        } else {
            token + requests - u32::MAX
        },
        requests > 0 ==> later_token(token, requests) != token,
    decreases requests,
{
    if requests > 0 {
        tokens_are_fresh(token, (requests - 1) as nat);
    }
}

/// Outstanding request of a connection, and frames kept for later.
#[derive(Debug)]
pub struct FrameCorrelator {
    tokens: OpaqueSource,
    pending: VecDeque<Frame>,
}

impl FrameCorrelator {
    /// Token of the next request.
    pub closed spec fn upcoming(&self) -> u32 {
        self.tokens.upcoming()
    }

    /// Frames kept for later, oldest first.
    pub closed spec fn kept(&self) -> Seq<Frame> {
        self.pending@
    }

    /// No request sent, no frame kept.
    pub fn new() -> (result: Self)
        ensures
            result.upcoming() == 1,
            result.kept() == Seq::<Frame>::empty(),
    {
        let pending: VecDeque<Frame> = VecDeque::new();
        assert(pending@ =~= Seq::empty());
        FrameCorrelator { tokens: OpaqueSource::new(), pending }
    }

    /// Gives a request its token: its own, or a fresh one where it has none.
    pub fn prepare(&mut self, request: Frame) -> (result: Frame)
        ensures
            result == (Frame { opaque: result.opaque, ..request }),
            result.opaque != 0,
            if request.opaque == 0 {
                result.opaque == old(self).upcoming() && final(self).upcoming() == next_token(
                    old(self).upcoming(),
                )
            } else {
                result.opaque == request.opaque && final(self).upcoming() == old(self).upcoming()
            },
            final(self).kept() == old(self).kept(),
    {
        if request.opaque == 0 {
            let opaque: u32 = self.tokens.allocate_opaque();
            Frame { opaque, ..request }
        } else {
            request
        }
    }

    /// Takes an inbound frame while the response to `opaque` is awaited: hands
    /// that response back, and keeps any other frame for later.
    pub fn accept(&mut self, frame: Frame, opaque: u32) -> (result: Option<Frame>)
        ensures
            final(self).upcoming() == old(self).upcoming(),
            if frame.magic.responds() && frame.opaque == opaque {
                result == Some(frame) && final(self).kept() == old(self).kept()
            } else {
                result is None && final(self).kept() == old(self).kept().push(frame)
            },
    {
        if frame.magic.is_response() && frame.opaque == opaque {
            return Some(frame);
        }
        self.pending.push_back(frame);
        None
    }

    /// Oldest frame kept for later.
    pub fn take_pending(&mut self) -> (result: Option<Frame>)
        ensures
            final(self).upcoming() == old(self).upcoming(),
            match result {
                Some(frame) => old(self).kept().len() > 0 && frame == old(self).kept()[0]
                    && final(self).kept() == old(self).kept().drop_first(),
                None => old(self).kept().len() == 0 && final(self).kept() == old(self).kept(),
            },
    {
        let ghost before = self.pending@;
        let taken = self.pending.pop_front();
        assert(taken is Some ==> self.pending@ =~= before.drop_first());
        taken
    }
}

/// Frames kept over a sequence of inbound frames while a response is awaited.
pub open spec fn kept_over(frames: Seq<Frame>, opaque: u32) -> Seq<Frame> {
    frames.filter(|f: Frame| !(f.magic.responds() && f.opaque == opaque))
}

/// Waiting for a response loses no other frame and keeps their order: what is
/// kept after one more frame is what was kept before, followed by the frame
/// unless it is the response.
pub proof fn waiting_keeps_other_frames(frames: Seq<Frame>, frame: Frame, opaque: u32)
    ensures
        kept_over(frames.push(frame), opaque) == if frame.magic.responds() && frame.opaque
            == opaque {
            kept_over(frames, opaque)
        } else {
            kept_over(frames, opaque).push(frame)
        },
{
    reveal(Seq::filter);
    assert(frames.push(frame).drop_last() =~= frames);
}

/// Watch over the inbound side of a connection. Only inbound frames count:
/// nothing that is sent refreshes it.
#[derive(Debug)]
pub struct InboundWatch {
    last_inbound: Interval,
}

impl InboundWatch {
    /// Time of the last inbound frame.
    pub closed spec fn last(&self) -> Interval {
        self.last_inbound
    }

    /// Begins when the connection is established.
    pub fn new(now: Interval) -> (result: Self)
        ensures
            result.last() == now,
    {
        InboundWatch { last_inbound: now }
    }

    /// Takes an inbound frame into account.
    pub fn received(&mut self, now: Interval)
        ensures
            final(self).last() == now,
    {
        self.last_inbound = now;
    }

    /// Fails once nothing arrived for the given time.
    pub fn check(&self, now: &Interval, timeout: Interval, peer: &str) -> (result: Result<()>)
        ensures
            checked(
                result,
                if now.total_nanos() >= self.last().total_nanos() + timeout.total_nanos() {
                    Some(DcpFault::DeadConnection { peer: peer@, idle_for: timeout })
                } else {
                    None
                },
            ),
    {
        if now.reaches(&self.last_inbound, &timeout) {
            return Err(DcpError::DeadConnection { peer: peer.to_owned(), idle_for: timeout });
        }
        Ok(())
    }
}

} // verus!
