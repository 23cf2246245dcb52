use vstd::prelude::*;

use crate::ephemeral::{online_after, EphemeralMutation, LivenessMutation, MutableEphemeral};
use crate::friend::{ForwardedRequest, FriendMutation, ResponseOp};
use crate::mutual_credit::PendingRequest;
use crate::state::{apply_funder_mutation, FunderModel, FunderMutation, FunderState};
use crate::types::{FriendStatus, PublicKey, Uid};

verus! {

/// What the sender should do for one friend once the event is handled.
#[derive(Clone, Copy, Debug, PartialEq, Eq, Structural)]
pub struct FriendSendCommands {
    /// Try to send what is queued for the friend.
    pub try_send: bool,
    /// Send the last outgoing move-token again.
    pub resend_outgoing: bool,
    /// The friend asked for the token.
    pub remote_wants_token: bool,
}

/// Send commands per friend. A later entry for a key replaces the earlier.
#[derive(Debug)]
pub struct SendCommands {
    pub send_commands: Vec<(PublicKey, FriendSendCommands)>,
}

pub open spec fn commands_lookup(s: Seq<(PublicKey, FriendSendCommands)>, pk: PublicKey) -> Option<FriendSendCommands>
    decreases s.len(),
{
    if s.len() == 0 {
        None
    } else if s.last().0 == pk {
        Some(s.last().1)
    } else {
        commands_lookup(s.drop_last(), pk)
    }
}

pub open spec fn with_try_send(o: Option<FriendSendCommands>) -> FriendSendCommands {
    match o {
        Some(c) => FriendSendCommands { try_send: true, ..c },
        None => FriendSendCommands { try_send: true, resend_outgoing: false, remote_wants_token: false },
    }
}

pub open spec fn with_resend_outgoing(o: Option<FriendSendCommands>) -> FriendSendCommands {
    match o {
        Some(c) => FriendSendCommands { resend_outgoing: true, ..c },
        None => FriendSendCommands { try_send: false, resend_outgoing: true, remote_wants_token: false },
    }
}

pub open spec fn with_remote_wants_token(o: Option<FriendSendCommands>) -> FriendSendCommands {
    match o {
        Some(c) => FriendSendCommands { remote_wants_token: true, ..c },
        None => FriendSendCommands { try_send: false, resend_outgoing: false, remote_wants_token: true },
    }
}

impl SendCommands {
    pub open spec fn lookup(&self, pk: PublicKey) -> Option<FriendSendCommands> {
        commands_lookup(self.send_commands@, pk)
    }

    pub fn new() -> (r: SendCommands)
        ensures
            forall|pk: PublicKey| #[trigger] r.lookup(pk) is None,
    {
        SendCommands { send_commands: Vec::new() }
    }

    pub fn get(&self, pk: PublicKey) -> (r: Option<FriendSendCommands>)
        ensures
            r == self.lookup(pk),
    {
        let mut i: usize = self.send_commands.len();
        proof {
            assert(self.send_commands@.take(i as int) =~= self.send_commands@);
        }
        while i > 0
            invariant
                0 <= i <= self.send_commands.len(),
                self.lookup(pk) == commands_lookup(self.send_commands@.take(i as int), pk),
            decreases i,
        {
            proof {
                assert(self.send_commands@.take(i as int).drop_last() =~= self.send_commands@.take(i - 1));
            }
            if self.send_commands[i - 1].0 == pk {
                return Some(self.send_commands[i - 1].1);
            }
            i -= 1;
        }
        None
    }

    proof fn lemma_push(&self, s1: Seq<(PublicKey, FriendSendCommands)>, pk: PublicKey, c: FriendSendCommands)
        requires
            s1 == self.send_commands@.push((pk, c)),
        ensures
            commands_lookup(s1, pk) == Some(c),
            forall|k: PublicKey| k != pk ==> #[trigger] commands_lookup(s1, k) == self.lookup(k),
    {
        assert(s1.drop_last() =~= self.send_commands@);
    }

    pub fn set_try_send(&mut self, pk: PublicKey)
        ensures
            final(self).lookup(pk) == Some(with_try_send(old(self).lookup(pk))),
            forall|k: PublicKey| k != pk ==> #[trigger] final(self).lookup(k) == old(self).lookup(k),
    {
        let c = match self.get(pk) {
            Some(c) => FriendSendCommands { try_send: true, ..c },
            None => FriendSendCommands { try_send: true, resend_outgoing: false, remote_wants_token: false },
        };
        proof {
            self.lemma_push(self.send_commands@.push((pk, c)), pk, c);
        }
        self.send_commands.push((pk, c));
    }

    pub fn set_resend_outgoing(&mut self, pk: PublicKey)
        ensures
            final(self).lookup(pk) == Some(with_resend_outgoing(old(self).lookup(pk))),
            forall|k: PublicKey| k != pk ==> #[trigger] final(self).lookup(k) == old(self).lookup(k),
    {
        let c = match self.get(pk) {
            Some(c) => FriendSendCommands { resend_outgoing: true, ..c },
            None => FriendSendCommands { try_send: false, resend_outgoing: true, remote_wants_token: false },
        };
        proof {
            self.lemma_push(self.send_commands@.push((pk, c)), pk, c);
        }
        self.send_commands.push((pk, c));
    }

    pub fn set_remote_wants_token(&mut self, pk: PublicKey)
        ensures
            final(self).lookup(pk) == Some(with_remote_wants_token(old(self).lookup(pk))),
            forall|k: PublicKey| k != pk ==> #[trigger] final(self).lookup(k) == old(self).lookup(k),
    {
        let c = match self.get(pk) {
            Some(c) => FriendSendCommands { remote_wants_token: true, ..c },
            None => FriendSendCommands { try_send: false, resend_outgoing: false, remote_wants_token: true },
        };
        proof {
            self.lemma_push(self.send_commands@.push((pk, c)), pk, c);
        }
        self.send_commands.push((pk, c));
    }
}

/// The state after a sequence of mutations, applied in order.
pub open spec fn apply_funder_mutations(s: FunderModel, ms: Seq<FunderMutation>) -> FunderModel
    decreases ms.len(),
{
    if ms.len() == 0 {
        s
    } else {
        apply_funder_mutation(apply_funder_mutations(s, ms.drop_last()), ms.last())
    }
}

pub proof fn lemma_apply_concat(s: FunderModel, a: Seq<FunderMutation>, b: Seq<FunderMutation>)
    ensures
        apply_funder_mutations(s, a + b) == apply_funder_mutations(apply_funder_mutations(s, a), b),
    decreases b.len(),
{
    if b.len() == 0 {
        assert(a + b =~= a);
    } else {
        assert((a + b).drop_last() =~= a + b.drop_last());
        lemma_apply_concat(s, a, b.drop_last());
    }
}

/// `post` is `pre` after further mutations: it keeps `pre`'s mutations as a
/// prefix, and its state is `pre`'s state with the new ones applied.
pub open spec fn extends_with(pre: MutableFunderState, post: MutableFunderState) -> bool {
    &&& post.mutations@.len() >= pre.mutations@.len()
    &&& post.mutations@.take(pre.mutations@.len() as int) == pre.mutations@
    &&& post.state@ == apply_funder_mutations(pre.state@, post.mutations@.skip(pre.mutations@.len() as int))
}

pub proof fn lemma_extends_refl(a: MutableFunderState)
    ensures
        extends_with(a, a),
{
    assert(a.mutations@.take(a.mutations@.len() as int) =~= a.mutations@);
    assert(a.mutations@.skip(a.mutations@.len() as int) =~= Seq::<FunderMutation>::empty());
}

pub proof fn lemma_extends_trans(a: MutableFunderState, b: MutableFunderState, c: MutableFunderState)
    requires
        extends_with(a, b),
        extends_with(b, c),
    ensures
        extends_with(a, c),
{
    let na = a.mutations@.len() as int;
    let nb = b.mutations@.len() as int;
    assert(c.mutations@.take(na) =~= c.mutations@.take(nb).take(na));
    assert(c.mutations@.skip(na) =~= b.mutations@.skip(na) + c.mutations@.skip(nb));
    lemma_apply_concat(a.state@, b.mutations@.skip(na), c.mutations@.skip(nb));
}

/// No mutation changes the local key.
pub proof fn lemma_local_key_kept(s: FunderModel, ms: Seq<FunderMutation>)
    ensures
        apply_funder_mutations(s, ms).local_public_key == s.local_public_key,
        apply_funder_mutations(s, ms).num_ready_receipts == s.num_ready_receipts,
    decreases ms.len(),
{
    if ms.len() > 0 {
        lemma_local_key_kept(s, ms.drop_last());
    }
}

/// Persisted state together with the mutations applied to it.
#[derive(Debug)]
pub struct MutableFunderState {
    pub state: FunderState,
    pub mutations: Vec<FunderMutation>,
}

impl MutableFunderState {
    pub fn new(state: FunderState) -> (r: MutableFunderState)
        ensures
            r.state == state,
            r.mutations@.len() == 0,
    {
        MutableFunderState { state, mutations: Vec::new() }
    }

    pub fn state(&self) -> (r: &FunderState)
        ensures
            *r == self.state,
    {
        &self.state
    }

    pub fn mutate(&mut self, m: FunderMutation)
        requires
            old(self).state.wf(),
            m.wf(),
        ensures
            final(self).state.wf(),
            final(self).state@ == apply_funder_mutation(old(self).state@, m),
            final(self).mutations@ == old(self).mutations@.push(m),
            extends_with(*old(self), *final(self)),
    {
        self.state.mutate(&m);
        self.mutations.push(m);
        proof {
            let n = old(self).mutations@.len() as int;
            assert(self.mutations@.take(n) =~= old(self).mutations@);
            assert(self.mutations@.skip(n) =~= seq![m]);
            assert(seq![m].drop_last() =~= Seq::<FunderMutation>::empty());
            assert(apply_funder_mutations(old(self).state@, seq![m].drop_last()) == old(self).state@);
            assert(seq![m].last() == m);
            assert(apply_funder_mutations(old(self).state@, seq![m]) == apply_funder_mutation(old(self).state@, m));
        }
    }

    /// The mutations that were applied, and the resulting state.
    pub fn done(self) -> (r: (Vec<FunderMutation>, FunderState))
        ensures
            r.0@ == self.mutations@,
            r.1 == self.state,
    {
        (self.mutations, self.state)
    }
}

#[derive(Clone, Copy, Debug, PartialEq, Eq, Structural)]
pub enum ResponseSendFundsResult {
    Success,
    Failure,
}

#[derive(Clone, Copy, Debug, PartialEq, Eq, Structural)]
pub struct ResponseReceived {
    pub request_id: Uid,
    pub result: ResponseSendFundsResult,
}

/// A report to the local application.
#[derive(Clone, Copy, Debug, PartialEq, Eq, Structural)]
pub enum FunderOutgoingControl {
    ResponseReceived(ResponseReceived),
}

#[derive(Clone, Copy, Debug, PartialEq, Eq, Structural)]
pub enum IncomingLivenessMessage {
    Online(PublicKey),
    Offline(PublicKey),
}

#[derive(Clone, Copy, Debug, PartialEq, Eq, Structural)]
pub enum HandleLivenessError {
    FriendDoesNotExist,
    FriendIsDisabled,
    FriendAlreadyOnline,
    FriendAlreadyOffline,
}

pub open spec fn cancel_failure(r: ForwardedRequest) -> FunderMutation {
    FunderMutation::FriendMutation(
        (r.origin, FriendMutation::PushBackPendingResponse(ResponseOp::Failure(r.request.request_id))),
    )
}

/// For each forwarded request whose origin is still a friend, a failure
/// answer queued back to that origin. A request whose origin is no longer a
/// friend has no way back and is dropped with the queue: removing a friend
/// removes every channel through which an answer could reach it.
pub open spec fn cancel_request_mutations(s: FunderModel, reqs: Seq<ForwardedRequest>) -> Seq<FunderMutation>
    decreases reqs.len(),
{
    if reqs.len() == 0 {
        Seq::empty()
    } else {
        let prev = cancel_request_mutations(s, reqs.drop_last());
        if s.friends.contains_key(reqs.last().origin) {
            prev.push(cancel_failure(reqs.last()))
        } else {
            prev
        }
    }
}

/// The mutations that cancel everything waiting to go through a friend:
/// failures back to the origins of the requests waiting to go through it,
/// then its three queues emptied.
pub open spec fn cancel_mutations(s: FunderModel, pk: PublicKey) -> Seq<FunderMutation> {
    cancel_request_mutations(s, s.friends[pk].pending_requests) + seq![
        FunderMutation::FriendMutation((pk, FriendMutation::ClearPendingRequests)),
        FunderMutation::FriendMutation((pk, FriendMutation::ClearPendingUserRequests)),
        FunderMutation::FriendMutation((pk, FriendMutation::ClearPendingResponses)),
    ]
}

pub open spec fn user_request_failure(r: PendingRequest) -> FunderOutgoingControl {
    FunderOutgoingControl::ResponseReceived(
        ResponseReceived { request_id: r.request_id, result: ResponseSendFundsResult::Failure },
    )
}

/// Whether some forwarded request came from `k`, which is still a friend.
pub open spec fn is_cancel_target(s: FunderModel, reqs: Seq<ForwardedRequest>, k: PublicKey) -> bool {
    s.friends.contains_key(k) && exists|j: int| 0 <= j < reqs.len() && #[trigger] reqs[j].origin == k
}

pub open spec fn liveness_error(
    s: FunderModel,
    online: Set<PublicKey>,
    msg: IncomingLivenessMessage,
) -> Option<HandleLivenessError> {
    let pk = match msg {
        IncomingLivenessMessage::Online(pk) => pk,
        IncomingLivenessMessage::Offline(pk) => pk,
    };
    if !s.friends.contains_key(pk) {
        Some(HandleLivenessError::FriendDoesNotExist)
    } else if s.friends[pk].status == FriendStatus::Disabled {
        Some(HandleLivenessError::FriendIsDisabled)
    } else {
        match msg {
            IncomingLivenessMessage::Online(_) => if online.contains(pk) {
                Some(HandleLivenessError::FriendAlreadyOnline)
            } else {
                None
            },
            IncomingLivenessMessage::Offline(_) => if !online.contains(pk) {
                Some(HandleLivenessError::FriendAlreadyOffline)
            } else {
                None
            },
        }
    }
}

proof fn lemma_cancel_keeps_friends(s: FunderModel, reqs: Seq<ForwardedRequest>)
    ensures
        apply_funder_mutations(s, cancel_request_mutations(s, reqs)).friends.dom() == s.friends.dom(),
        apply_funder_mutations(s, cancel_request_mutations(s, reqs)).local_public_key == s.local_public_key,
    decreases reqs.len(),
{
    if reqs.len() > 0 {
        lemma_cancel_keeps_friends(s, reqs.drop_last());
        let prev = cancel_request_mutations(s, reqs.drop_last());
        if s.friends.contains_key(reqs.last().origin) {
            let ms = prev.push(cancel_failure(reqs.last()));
            assert(ms.drop_last() =~= prev);
            let t = apply_funder_mutations(s, prev);
            assert(apply_funder_mutation(t, cancel_failure(reqs.last())).friends.dom() =~= t.friends.dom());
        }
    }
}

/// Taking a friend offline leaves it a friend with its pending-response,
/// pending-request and pending-user-request queues all empty, and keeps the
/// set of friends.
pub proof fn lemma_offline_empties_queues(s: FunderModel, pk: PublicKey)
    requires
        s.friends.contains_key(pk),
    ensures
        apply_funder_mutations(s, cancel_mutations(s, pk)).friends.dom() == s.friends.dom(),
        apply_funder_mutations(s, cancel_mutations(s, pk)).friends[pk].pending_requests.len() == 0,
        apply_funder_mutations(s, cancel_mutations(s, pk)).friends[pk].pending_user_requests.len() == 0,
        apply_funder_mutations(s, cancel_mutations(s, pk)).friends[pk].pending_responses.len() == 0,
{
    let a = cancel_request_mutations(s, s.friends[pk].pending_requests);
    let ms = cancel_mutations(s, pk);
    lemma_cancel_keeps_friends(s, s.friends[pk].pending_requests);
    assert(ms.drop_last().drop_last().drop_last() =~= a);
    assert(ms.drop_last().drop_last().last() == ms[a.len() as int]);
    let t0 = apply_funder_mutations(s, a);
    let t1 = apply_funder_mutations(s, ms.drop_last().drop_last());
    let t2 = apply_funder_mutations(s, ms.drop_last());
    let t3 = apply_funder_mutations(s, ms);
    assert(t0.friends.contains_key(pk));
    assert(t1.friends.dom() =~= t0.friends.dom());
    assert(t2.friends.dom() =~= t1.friends.dom());
    assert(t3.friends.dom() =~= t2.friends.dom());
}

pub open spec fn failures_of(reqs: Seq<PendingRequest>) -> Seq<FunderOutgoingControl> {
    reqs.map_values(|r: PendingRequest| user_request_failure(r))
}

/// Queues a failure back to the origin of each request that waits to be
/// forwarded through `pk`, and asks the sender to try each such origin.
fn cancel_pending_requests(
    m_state: &mut MutableFunderState,
    send_commands: &mut SendCommands,
    reqs: &Vec<ForwardedRequest>,
)
    requires
        old(m_state).state.wf(),
    ensures
        final(m_state).state.wf(),
        final(m_state).mutations@ == old(m_state).mutations@ + cancel_request_mutations(old(m_state).state@, reqs@),
        final(m_state).state@ == apply_funder_mutations(
            old(m_state).state@,
            cancel_request_mutations(old(m_state).state@, reqs@),
        ),
        forall|k: PublicKey| #[trigger] final(send_commands).lookup(k) == if is_cancel_target(old(m_state).state@, reqs@, k) {
            Some(with_try_send(old(send_commands).lookup(k)))
        } else {
            old(send_commands).lookup(k)
        },
{
    let ghost s0 = m_state.state@;
    let ghost muts0 = m_state.mutations@;
    let ghost sc0 = *send_commands;
    let mut j: usize = 0;
    proof {
        assert(reqs@.take(0) =~= Seq::<ForwardedRequest>::empty());
        assert(muts0 + Seq::<FunderMutation>::empty() =~= muts0);
        assert forall|k: PublicKey| !is_cancel_target(s0, reqs@.take(0), k) by {}
    }
    while j < reqs.len()
        invariant
            0 <= j <= reqs.len(),
            s0 == old(m_state).state@,
            muts0 == old(m_state).mutations@,
            sc0 == *old(send_commands),
            m_state.state.wf(),
            m_state.state@.friends.dom() == s0.friends.dom(),
            m_state.state@ == apply_funder_mutations(s0, cancel_request_mutations(s0, reqs@.take(j as int))),
            m_state.mutations@ == muts0 + cancel_request_mutations(s0, reqs@.take(j as int)),
            forall|k: PublicKey| #[trigger] send_commands.lookup(k) == if is_cancel_target(s0, reqs@.take(j as int), k) {
                Some(with_try_send(sc0.lookup(k)))
            } else {
                sc0.lookup(k)
            },
        decreases reqs.len() - j,
    {
        let r = reqs[j];
        let ghost prev = cancel_request_mutations(s0, reqs@.take(j as int));
        let ghost t = reqs@.take(j as int + 1);
        proof {
            assert(t.drop_last() =~= reqs@.take(j as int));
            assert(t.last() == r);
        }
        let ghost sc1 = *send_commands;
        if m_state.state.find_friend(r.origin).is_some() {
            let m = FunderMutation::FriendMutation(
                (r.origin, FriendMutation::PushBackPendingResponse(ResponseOp::Failure(r.request.request_id))),
            );
            let ghost before = m_state.state@;
            m_state.mutate(m);
            send_commands.set_try_send(r.origin);
            proof {
                assert(m == cancel_failure(r));
                assert(prev.push(m).drop_last() =~= prev);
                assert(m_state.state@.friends.dom() =~= before.friends.dom());
                assert(muts0 + prev.push(m) =~= (muts0 + prev).push(m));
                assert forall|k: PublicKey| #[trigger] send_commands.lookup(k) == if is_cancel_target(s0, t, k) {
                    Some(with_try_send(sc0.lookup(k)))
                } else {
                    sc0.lookup(k)
                } by {
                    if k != r.origin {
                        if is_cancel_target(s0, t, k) {
                            let w = choose|w: int| 0 <= w < t.len() && #[trigger] t[w].origin == k;
                            assert(w < j);
                            assert(reqs@.take(j as int)[w].origin == k);
                        }
                        if is_cancel_target(s0, reqs@.take(j as int), k) {
                            let w = choose|w: int| 0 <= w < j && #[trigger] reqs@.take(j as int)[w].origin == k;
                            assert(t[w].origin == k);
                        }
                    } else {
                        assert(t[j as int].origin == k);
                    }
                }
            }
        } else {
            proof {
                assert forall|k: PublicKey| #[trigger] send_commands.lookup(k) == if is_cancel_target(s0, t, k) {
                    Some(with_try_send(sc0.lookup(k)))
                } else {
                    sc0.lookup(k)
                } by {
                    if is_cancel_target(s0, t, k) {
                        let w = choose|w: int| 0 <= w < t.len() && #[trigger] t[w].origin == k;
                        if w == j {
                            assert(s0.friends.contains_key(r.origin));
                        }
                        assert(reqs@.take(j as int)[w].origin == k);
                    }
                    if is_cancel_target(s0, reqs@.take(j as int), k) {
                        let w = choose|w: int| 0 <= w < j && #[trigger] reqs@.take(j as int)[w].origin == k;
                        assert(t[w].origin == k);
                    }
                }
            }
        }
        j += 1;
    }
    proof {
        assert(reqs@.take(reqs@.len() as int) =~= reqs@);
    }
}

/// Reports each request of the local user as failed, in order.
fn cancel_pending_user_requests(outgoing_control: &mut Vec<FunderOutgoingControl>, reqs: &Vec<PendingRequest>)
    ensures
        final(outgoing_control)@ == old(outgoing_control)@ + failures_of(reqs@),
{
    let ghost o0 = outgoing_control@;
    let mut j: usize = 0;
    proof {
        assert(o0 + failures_of(reqs@.take(0)) =~= o0);
    }
    while j < reqs.len()
        invariant
            0 <= j <= reqs.len(),
            o0 == old(outgoing_control)@,
            outgoing_control@ == o0 + failures_of(reqs@.take(j as int)),
        decreases reqs.len() - j,
    {
        let r = reqs[j];
        outgoing_control.push(
            FunderOutgoingControl::ResponseReceived(
                ResponseReceived { request_id: r.request_id, result: ResponseSendFundsResult::Failure },
            ),
        );
        proof {
            assert(failures_of(reqs@.take(j as int + 1)) =~= failures_of(reqs@.take(j as int)).push(user_request_failure(r)));
            assert(outgoing_control@ =~= o0 + failures_of(reqs@.take(j as int + 1)));
        }
        j += 1;
    }
    proof {
        assert(reqs@.take(reqs@.len() as int) =~= reqs@);
    }
}

/// Cancels everything that waits to go through the friend `pk`: each
/// request waiting to be forwarded is failed back to its origin, each
/// request of the local user is reported failed, and the friend's queues
/// are emptied.
pub fn cancel_friend(
    m_state: &mut MutableFunderState,
    send_commands: &mut SendCommands,
    outgoing_control: &mut Vec<FunderOutgoingControl>,
    friend_public_key: PublicKey,
)
    requires
        old(m_state).state.wf(),
        old(m_state).state@.friends.contains_key(friend_public_key),
    ensures
        final(m_state).state.wf(),
        final(m_state).mutations@ == old(m_state).mutations@ + cancel_mutations(old(m_state).state@, friend_public_key),
        final(m_state).state@ == apply_funder_mutations(old(m_state).state@, cancel_mutations(old(m_state).state@, friend_public_key)),
        extends_with(*old(m_state), *final(m_state)),
        final(outgoing_control)@ == old(outgoing_control)@ + failures_of(old(m_state).state@.friends[friend_public_key].pending_user_requests),
        forall|k: PublicKey| #[trigger] final(send_commands).lookup(k) == if is_cancel_target(
            old(m_state).state@,
            old(m_state).state@.friends[friend_public_key].pending_requests,
            k,
        ) {
            Some(with_try_send(old(send_commands).lookup(k)))
        } else {
            old(send_commands).lookup(k)
        },
{
    let i = match m_state.state.find_friend(friend_public_key) {
        Some(i) => i,
        None => return,
    };
    let ghost s0 = m_state.state@;
    let ghost muts0 = m_state.mutations@;
    let pending_requests = m_state.state.friends[i].1.pending_requests.clone();
    let pending_user_requests = m_state.state.friends[i].1.pending_user_requests.clone();
    proof {
        assert(pending_requests@ =~= s0.friends[friend_public_key].pending_requests);
        assert(pending_user_requests@ =~= s0.friends[friend_public_key].pending_user_requests);
    }
    cancel_pending_requests(m_state, send_commands, &pending_requests);
    let ghost a = cancel_request_mutations(s0, pending_requests@);
    proof {
        lemma_cancel_keeps_friends(s0, pending_requests@);
    }
    let c1 = FunderMutation::FriendMutation((friend_public_key, FriendMutation::ClearPendingRequests));
    let c2 = FunderMutation::FriendMutation((friend_public_key, FriendMutation::ClearPendingUserRequests));
    let c3 = FunderMutation::FriendMutation((friend_public_key, FriendMutation::ClearPendingResponses));
    let ghost g1 = c1;
    let ghost g2 = c2;
    let ghost g3 = c3;
    let ghost ms1 = a.push(g1);
    let ghost ms2 = ms1.push(g2);
    let ghost ms3 = ms2.push(g3);
    proof {
        assert(ms1.drop_last() =~= a);
        assert(ms2.drop_last() =~= ms1);
        assert(ms3.drop_last() =~= ms2);
    }
    m_state.mutate(c1);
    proof {
        assert(m_state.state@ == apply_funder_mutations(s0, ms1));
    }
    m_state.mutate(c2);
    proof {
        assert(m_state.state@ == apply_funder_mutations(s0, ms2));
    }
    m_state.mutate(c3);
    proof {
        assert(m_state.state@ == apply_funder_mutations(s0, ms3));
        assert(ms3 =~= cancel_mutations(s0, friend_public_key));
        assert(m_state.mutations@ =~= muts0 + ms3);
    }
    cancel_pending_user_requests(outgoing_control, &pending_user_requests);
    proof {
        let n = muts0.len() as int;
        assert(m_state.mutations@.take(n) =~= muts0);
        assert(m_state.mutations@.skip(n) =~= cancel_mutations(s0, friend_public_key));
    }
}

/// Applies a liveness notice. `Online` marks the friend online and asks for
/// its last outgoing move-token to be sent again; `Offline` marks it offline
/// and cancels everything that waits to go through it. Nothing changes when
/// an error is returned.
pub fn handle_liveness_message(
    m_state: &mut MutableFunderState,
    m_ephemeral: &mut MutableEphemeral,
    send_commands: &mut SendCommands,
    outgoing_control: &mut Vec<FunderOutgoingControl>,
    liveness_message: IncomingLivenessMessage,
) -> (r: Result<(), HandleLivenessError>)
    requires
        old(m_state).state.wf(),
        old(m_ephemeral).ephemeral.wf(),
    ensures
        final(m_state).state.wf(),
        final(m_ephemeral).ephemeral.wf(),
        match liveness_error(old(m_state).state@, old(m_ephemeral).ephemeral.liveness.online(), liveness_message) {
            Some(e) => {
                &&& r == Err::<(), HandleLivenessError>(e)
                &&& *final(m_state) == *old(m_state)
                &&& *final(m_ephemeral) == *old(m_ephemeral)
                &&& *final(send_commands) == *old(send_commands)
                &&& *final(outgoing_control) == *old(outgoing_control)
            },
            None => {
                &&& r is Ok
                &&& final(m_ephemeral).mutations@ == old(m_ephemeral).mutations@.push(
                    match liveness_message {
                        IncomingLivenessMessage::Online(pk) => EphemeralMutation::LivenessMutation(LivenessMutation::SetOnline(pk)),
                        IncomingLivenessMessage::Offline(pk) => EphemeralMutation::LivenessMutation(LivenessMutation::SetOffline(pk)),
                    },
                )
                &&& final(m_ephemeral).ephemeral.liveness.online() == online_after(
                    old(m_ephemeral).ephemeral.liveness.online(),
                    final(m_ephemeral).mutations@.last(),
                )
                &&& match liveness_message {
                    IncomingLivenessMessage::Online(pk) => {
                        &&& *final(m_state) == *old(m_state)
                        &&& *final(outgoing_control) == *old(outgoing_control)
                        &&& final(send_commands).lookup(pk) == Some(with_resend_outgoing(old(send_commands).lookup(pk)))
                        &&& forall|k: PublicKey| k != pk ==> #[trigger] final(send_commands).lookup(k) == old(send_commands).lookup(k)
                    },
                    IncomingLivenessMessage::Offline(pk) => {
                        &&& final(m_state).mutations@ == old(m_state).mutations@ + cancel_mutations(old(m_state).state@, pk)
                        &&& final(m_state).state@ == apply_funder_mutations(old(m_state).state@, cancel_mutations(old(m_state).state@, pk))
                        &&& final(outgoing_control)@ == old(outgoing_control)@
                            + failures_of(old(m_state).state@.friends[pk].pending_user_requests)
                        &&& forall|k: PublicKey| #[trigger] final(send_commands).lookup(k) == if is_cancel_target(
                            old(m_state).state@,
                            old(m_state).state@.friends[pk].pending_requests,
                            k,
                        ) {
                            Some(with_try_send(old(send_commands).lookup(k)))
                        } else {
                            old(send_commands).lookup(k)
                        }
                    },
                }
            },
        },
{
    match liveness_message {
        IncomingLivenessMessage::Online(friend_public_key) => {
            let friend = match m_state.state().get_friend(friend_public_key) {
                Some(friend) => friend,
                None => return Err(HandleLivenessError::FriendDoesNotExist),
            };
            if friend.status == FriendStatus::Disabled {
                return Err(HandleLivenessError::FriendIsDisabled);
            }
            if m_ephemeral.ephemeral().liveness.is_online(friend_public_key) {
                return Err(HandleLivenessError::FriendAlreadyOnline);
            }
            send_commands.set_resend_outgoing(friend_public_key);
            let liveness_mutation = LivenessMutation::SetOnline(friend_public_key);
            m_ephemeral.mutate(EphemeralMutation::LivenessMutation(liveness_mutation));
        },
        IncomingLivenessMessage::Offline(friend_public_key) => {
            let i = match m_state.state().find_friend(friend_public_key) {
                Some(i) => i,
                None => return Err(HandleLivenessError::FriendDoesNotExist),
            };
            if m_state.state.friends[i].1.status == FriendStatus::Disabled {
                return Err(HandleLivenessError::FriendIsDisabled);
            }
            if !m_ephemeral.ephemeral().liveness.is_online(friend_public_key) {
                return Err(HandleLivenessError::FriendAlreadyOffline);
            }
            let liveness_mutation = LivenessMutation::SetOffline(friend_public_key);
            m_ephemeral.mutate(EphemeralMutation::LivenessMutation(liveness_mutation));

            // Cancel all messages pending for this friend:
            cancel_friend(m_state, send_commands, outgoing_control, friend_public_key);
        },
    };
    Ok(())
}

} // verus!
