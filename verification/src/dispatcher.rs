//! Routing of inbound frames: responses to the pending slot registered
//! under their serial number, pushes to the subscribers of their proto_id.
//! A response match always wins and consumes its one-shot slot; a frame
//! never takes both paths.

use vstd::prelude::*;
use std::collections::HashMap;
use tokio::sync::mpsc;
use tokio::sync::oneshot;
use crate::codec::FutuMessage;

verus! {

broadcast use vstd::std_specs::hash::group_hash_axioms;

#[verifier::external_type_specification]
#[verifier::external_body]
#[verifier::reject_recursive_types(T)]
pub struct ExOneshotSender<T>(oneshot::Sender<T>);

#[verifier::external_type_specification]
#[verifier::external_body]
#[verifier::reject_recursive_types(T)]
pub struct ExOneshotReceiver<T>(oneshot::Receiver<T>);

#[verifier::external_type_specification]
#[verifier::external_body]
pub struct ExOneshotRecvError(oneshot::error::RecvError);

#[verifier::external_type_specification]
#[verifier::external_body]
#[verifier::reject_recursive_types(T)]
pub struct ExUnboundedSender<T>(mpsc::UnboundedSender<T>);

#[verifier::external_type_specification]
#[verifier::external_body]
#[verifier::reject_recursive_types(T)]
pub struct ExUnboundedReceiver<T>(mpsc::UnboundedReceiver<T>);

/// Relies on `tokio::sync::oneshot::channel`: creates a fresh one-shot
/// pair; what is sent on the sender is received once on the receiver.
#[verifier::external_body]
fn oneshot_frame_channel() -> (r: (oneshot::Sender<FutuMessage>, oneshot::Receiver<FutuMessage>)) {
    oneshot::channel()
}

/// Relies on `tokio::sync::oneshot::Sender::send`: consumes the slot and
/// delivers the frame if the receiving end still listens; the result says
/// only whether it did.
#[verifier::external_body]
fn oneshot_send_frame(tx: oneshot::Sender<FutuMessage>, msg: FutuMessage) -> (r: bool) {
    tx.send(msg).is_ok()
}

/// Relies on `tokio::sync::mpsc::unbounded_channel`: creates a fresh
/// unbounded pair for a push stream.
#[verifier::external_body]
fn push_channel() -> (r: (mpsc::UnboundedSender<FutuMessage>, mpsc::UnboundedReceiver<FutuMessage>)) {
    mpsc::unbounded_channel()
}

/// Relies on `tokio::sync::mpsc::UnboundedSender::send`: queues the frame
/// for the receiver unless it was dropped; the result says only whether it
/// was queued.
#[verifier::external_body]
fn push_send_frame(tx: &mpsc::UnboundedSender<FutuMessage>, msg: FutuMessage) -> (r: bool) {
    tx.send(msg).is_ok()
}

/// Relies on `tokio::sync::mpsc::UnboundedSender::is_closed`: whether the
/// receiving end has been dropped; the answer can change at any moment.
#[verifier::external_body]
fn push_is_closed(tx: &mpsc::UnboundedSender<FutuMessage>) -> (r: bool) {
    tx.is_closed()
}

/// An index map witnessing that `sub` is `s` with zero or more elements
/// left out: each element of `sub` stands in `s`, at strictly increasing
/// positions.
pub open spec fn subsequence_map<T>(f: Seq<int>, sub: Seq<T>, s: Seq<T>) -> bool {
    &&& f.len() == sub.len()
    &&& forall|i: int| 0 <= i < f.len() ==> 0 <= #[trigger] f[i] < s.len() && sub[i] == s[f[i]]
    &&& forall|i: int, j: int| 0 <= i < j < f.len() ==> f[i] < f[j]
}

/// `sub` holds some of `s`'s elements, in `s`'s order.
pub open spec fn is_in_order_subsequence<T>(sub: Seq<T>, s: Seq<T>) -> bool {
    exists|f: Seq<int>| subsequence_map(f, sub, s)
}

/// Which single action `dispatch` took for a frame.
#[derive(Debug, PartialEq, Eq, Structural)]
pub enum DispatchOutcome {
    /// Exactly one pending slot was resolved; no push stream saw the frame.
    Response,
    /// The frame went to the (possibly zero) live subscribers of its
    /// proto_id; no pending slot was touched.
    Push { delivered: usize },
    /// No pending slot and no subscriber list: the frame was dropped.
    Dropped,
}

/// Pending request slots keyed by serial number, and push streams keyed by
/// proto_id.
pub struct Dispatcher {
    pending: HashMap<u32, oneshot::Sender<FutuMessage>>,
    push_handlers: HashMap<u32, Vec<mpsc::UnboundedSender<FutuMessage>>>,
}

impl Dispatcher {
    /// The pending table: serial number to one-shot slot.
    pub closed spec fn pending(self) -> Map<u32, oneshot::Sender<FutuMessage>> {
        self.pending@
    }

    /// The push table: proto_id to its list of subscriber channels.
    pub closed spec fn push_map(self) -> Map<u32, Vec<mpsc::UnboundedSender<FutuMessage>>> {
        self.push_handlers@
    }

    pub fn new() -> (r: Dispatcher)
        ensures
            r.pending() == Map::<u32, oneshot::Sender<FutuMessage>>::empty(),
            r.push_map() == Map::<u32, Vec<mpsc::UnboundedSender<FutuMessage>>>::empty(),
    {
        Dispatcher { pending: HashMap::new(), push_handlers: HashMap::new() }
    }

    /// Register a pending request under `serial_no` and hand back the
    /// receiving end of its one-shot slot.  An older slot under the same
    /// serial is replaced.
    pub fn register_request(&mut self, serial_no: u32) -> (r: oneshot::Receiver<FutuMessage>)
        ensures
            final(self).pending().contains_key(serial_no),
            final(self).pending().remove(serial_no) == old(self).pending().remove(serial_no),
            final(self).push_map() == old(self).push_map(),
    {
        let (tx, rx) = oneshot_frame_channel();
        self.pending.insert(serial_no, tx);
        rx
    }

    /// Register one more push stream for `proto_id` and hand back its
    /// receiving end.  Existing subscribers of every proto_id stay as they
    /// are; the new channel is appended at the end of the list.
    pub fn register_push(&mut self, proto_id: u32) -> (r: mpsc::UnboundedReceiver<FutuMessage>)
        ensures
            final(self).pending() == old(self).pending(),
            final(self).push_map().contains_key(proto_id),
            final(self).push_map().remove(proto_id) == old(self).push_map().remove(proto_id),
            final(self).push_map()[proto_id]@.len() == if old(self).push_map().contains_key(
                proto_id,
            ) {
                old(self).push_map()[proto_id]@.len() + 1
            } else {
                1
            },
            old(self).push_map().contains_key(proto_id) ==> forall|i: int|
                0 <= i < old(self).push_map()[proto_id]@.len() ==> final(self).push_map()[
                    proto_id
                ]@[i] == old(self).push_map()[proto_id]@[i],
    {
        let (tx, rx) = push_channel();
        let mut senders = match self.push_handlers.remove(&proto_id) {
            Some(v) => v,
            None => Vec::new(),
        };
        senders.push(tx);
        self.push_handlers.insert(proto_id, senders);
        rx
    }

    /// Route one inbound frame.  A pending slot matched by serial number
    /// wins, is removed and resolved, and no push stream sees the frame —
    /// even when subscribers for its proto_id exist.  Otherwise an exact
    /// copy of the frame goes to each live subscriber of its proto_id,
    /// closed channels are pruned (the survivors are the old subscribers,
    /// in registration order), or the frame is dropped when there is no
    /// subscriber list.
    pub fn dispatch(&mut self, msg: FutuMessage) -> (r: DispatchOutcome)
        ensures
            old(self).pending().contains_key(msg.serial_no) ==> {
                &&& r is Response
                &&& final(self).pending() == old(self).pending().remove(msg.serial_no)
                &&& final(self).push_map() == old(self).push_map()
            },
            !old(self).pending().contains_key(msg.serial_no) ==> {
                &&& !(r is Response)
                &&& final(self).pending() == old(self).pending()
                &&& (r is Dropped <==> !old(self).push_map().contains_key(msg.proto_id))
                &&& final(self).push_map().dom() == old(self).push_map().dom()
                &&& final(self).push_map().remove(msg.proto_id) == old(self).push_map().remove(
                    msg.proto_id,
                )
                &&& (old(self).push_map().contains_key(msg.proto_id) ==> (r matches
                    DispatchOutcome::Push { delivered } && delivered <= old(self).push_map()[
                    msg.proto_id
                ]@.len() && is_in_order_subsequence(
                    final(self).push_map()[msg.proto_id]@,
                    old(self).push_map()[msg.proto_id]@,
                )))
            },
    {
        match self.pending.remove(&msg.serial_no) {
            Some(tx) => {
                // Resolve the waiting request; if the requester is gone
                // the frame is discarded with it.
                let _delivered = oneshot_send_frame(tx, msg);
                DispatchOutcome::Response
            },
            None => {
                match self.push_handlers.remove(&msg.proto_id) {
                    Some(mut senders) => {
                        let ghost orig = senders@;
                        let total = senders.len();
                        let mut retained: Vec<mpsc::UnboundedSender<FutuMessage>> = Vec::new();
                        let mut delivered: usize = 0;
                        let ghost mut idxs: Seq<int> = Seq::empty();
                        proof {
                            assert(orig.subrange(0, orig.len() as int) =~= orig);
                        }
                        while senders.len() > 0
                            invariant
                                total == orig.len(),
                                senders@ == orig.subrange(
                                    orig.len() - senders@.len(),
                                    orig.len() as int,
                                ),
                                retained@.len() + senders@.len() <= total,
                                delivered + senders@.len() <= total,
                                idxs.len() == retained@.len(),
                                forall|i: int|
                                    0 <= i < idxs.len() ==> 0 <= #[trigger] idxs[i] < orig.len()
                                        - senders@.len() && retained@[i] == orig[idxs[i]],
                                forall|i: int, j: int| 0 <= i < j < idxs.len() ==> idxs[i]
                                    < idxs[j],
                            decreases senders@.len(),
                        {
                            let ghost k = orig.len() - senders@.len();
                            let s = senders.remove(0);
                            proof {
                                assert(senders@ =~= orig.subrange(k + 1, orig.len() as int));
                                assert(s == orig[k]);
                            }
                            if !push_is_closed(&s) {
                                let queued = push_send_frame(&s, msg.duplicate());
                                retained.push(s);
                                proof {
                                    idxs = idxs.push(k);
                                }
                                if queued {
                                    delivered = delivered + 1;
                                }
                            }
                        }
                        let outcome = DispatchOutcome::Push { delivered };
                        proof {
                            assert(subsequence_map(idxs, retained@, orig));
                            assert(is_in_order_subsequence(retained@, orig));
                        }
                        self.push_handlers.insert(msg.proto_id, retained);
                        proof {
                            assert(self.push_handlers@.dom() =~= old(self).push_handlers@.dom());
                            assert(self.push_handlers@.remove(msg.proto_id) =~= old(
                                self,
                            ).push_handlers@.remove(msg.proto_id));
                        }
                        outcome
                    },
                    None => {
                        // No waiter and no subscriber list: drop the frame.
                        DispatchOutcome::Dropped
                    },
                }
            },
        }
    }

    /// Drop every pending one-shot slot; their awaiters observe a closed
    /// channel (a disconnect) instead of hanging.  Push streams stay.
    pub fn clear_pending(&mut self)
        ensures
            final(self).pending() == Map::<u32, oneshot::Sender<FutuMessage>>::empty(),
            final(self).push_map() == old(self).push_map(),
    {
        self.pending = HashMap::new();
    }
}

impl Default for Dispatcher {
    fn default() -> (r: Dispatcher)
        ensures
            r.pending() == Map::<u32, oneshot::Sender<FutuMessage>>::empty(),
            r.push_map() == Map::<u32, Vec<mpsc::UnboundedSender<FutuMessage>>>::empty(),
    {
        Dispatcher::new()
    }
}

} // verus!
