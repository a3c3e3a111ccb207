//! Keepalive driver state: tick interval clamping and consecutive-failure
//! tracking.  The timer and the actual sends run outside the library; each
//! tick's outcome is fed back in here, and the driver stops once the state
//! machine says the connection is dead.

use vstd::prelude::*;
use crate::wire::spec_len_field;
use crate::wire::spec_varint_field;
use crate::wire::spec_wire64_of_i64;
use crate::wire::wire64_of_i64;
use crate::wire::write_len_field;
use crate::wire::write_varint_field;

verus! {

/// Proto id of the keepalive heartbeat.
pub const PROTO_ID_KEEP_ALIVE: u32 = 1004;

/// Consecutive send failures after which the driver declares the socket
/// unusable and emits its terminal signal.
pub const KEEPALIVE_MAX_FAILURES: u32 = 3;

/// The heartbeat body: a message whose single sub-record carries the
/// current epoch-seconds in its first field.
pub open spec fn spec_keepalive_body(time: i64) -> Seq<u8> {
    spec_len_field(1, spec_varint_field(1, spec_wire64_of_i64(time)))
}

/// Build the heartbeat request body for the given epoch-seconds.  The
/// clock itself ticks outside the library.
pub fn encode_keepalive_request(time: i64) -> (r: Vec<u8>)
    ensures
        r@ == spec_keepalive_body(time),
{
    let mut inner: Vec<u8> = Vec::new();
    write_varint_field(&mut inner, 1, wire64_of_i64(time));
    let inner_len = inner.len();
    assert(inner@.len() == inner_len <= u64::MAX);
    let mut out: Vec<u8> = Vec::new();
    write_len_field(&mut out, 1, inner.as_slice());
    out
}

/// What the driver does after recording one tick's outcome.
#[derive(Debug, PartialEq, Eq, Structural)]
pub enum KeepaliveStep {
    /// Keep ticking.
    Continue,
    /// Emit the "keepalive dead" signal and exit.
    Terminate,
}

/// One transition of the failure tracker: a successful send resets the
/// count; a failed send increments it, and the driver terminates when the
/// count reaches `KEEPALIVE_MAX_FAILURES`.
pub open spec fn spec_keepalive_step(failures: u32, sent_ok: bool) -> (u32, KeepaliveStep) {
    if sent_ok {
        (0u32, KeepaliveStep::Continue)
    } else if failures + 1 >= KEEPALIVE_MAX_FAILURES {
        ((failures + 1) as u32, KeepaliveStep::Terminate)
    } else {
        ((failures + 1) as u32, KeepaliveStep::Continue)
    }
}

/// Failure tracker of a live keepalive driver.
pub struct KeepaliveState {
    pub consecutive_failures: u32,
}

impl KeepaliveState {
    /// A live driver has not yet reached the failure cap.
    pub open spec fn wf(self) -> bool {
        self.consecutive_failures < KEEPALIVE_MAX_FAILURES
    }

    pub fn new() -> (r: KeepaliveState)
        ensures
            r.consecutive_failures == 0,
            r.wf(),
    {
        KeepaliveState { consecutive_failures: 0 }
    }

    /// Record the outcome of one heartbeat send.
    pub fn record_send(&mut self, sent_ok: bool) -> (r: KeepaliveStep)
        requires
            old(self).wf(),
        ensures
            (final(self).consecutive_failures, r) == spec_keepalive_step(
                old(self).consecutive_failures,
                sent_ok,
            ),
            r is Continue ==> final(self).wf(),
            sent_ok ==> r is Continue && final(self).consecutive_failures == 0,
            !sent_ok ==> final(self).consecutive_failures == old(self).consecutive_failures + 1,
            !sent_ok ==> (r is Terminate <==> old(self).consecutive_failures + 1
                >= KEEPALIVE_MAX_FAILURES),
    {
        if sent_ok {
            self.consecutive_failures = 0;
            KeepaliveStep::Continue
        } else {
            self.consecutive_failures = self.consecutive_failures + 1;
            if self.consecutive_failures >= KEEPALIVE_MAX_FAILURES {
                KeepaliveStep::Terminate
            } else {
                KeepaliveStep::Continue
            }
        }
    }
}

/// From a fresh tracker, three consecutive send failures keep the driver
/// alive through the first two and terminate it on the third.
pub proof fn lemma_three_failures_terminate()
    ensures
        ({
            let (s1, r1) = spec_keepalive_step(0, false);
            let (s2, r2) = spec_keepalive_step(s1, false);
            let (s3, r3) = spec_keepalive_step(s2, false);
            r1 is Continue && r2 is Continue && r3 is Terminate
        }),
{
}

/// Whatever state a live driver is in, a run of three consecutive send
/// failures terminates it at or before the third.
pub proof fn lemma_failures_cascade(s0: u32)
    requires
        s0 < KEEPALIVE_MAX_FAILURES,
    ensures
        ({
            let (s1, r1) = spec_keepalive_step(s0, false);
            let (s2, r2) = spec_keepalive_step(s1, false);
            let (s3, r3) = spec_keepalive_step(s2, false);
            r1 is Terminate || r2 is Terminate || r3 is Terminate
        }),
{
}

/// Clamp the handshake's keepalive interval to at least one second.
pub fn clamp_interval_secs(secs: i32) -> (r: u64)
    ensures
        r == if secs < 1 {
            1u64
        } else {
            secs as u64
        },
        r >= 1,
{
    if secs < 1 {
        1
    } else {
        secs as u64
    }
}

} // verus!
