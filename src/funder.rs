use vstd::prelude::*;

use crate::ephemeral::{Ephemeral, MutableEphemeral};
use crate::friend::{set_channel, ChannelInconsistent, ForwardedRequest, ChannelModel, ChannelStatus, FriendModel, FriendMutation, FriendState, ResponseOp};
use crate::report::ChannelStatusReport;
use crate::handler::{
    cancel_friend, extends_with, handle_liveness_message, lemma_extends_refl, lemma_extends_trans, liveness_error,
    with_try_send, with_remote_wants_token, apply_funder_mutations, cancel_mutations, failures_of, FunderOutgoingControl, HandleLivenessError,
    IncomingLivenessMessage,
    MutableFunderState, SendCommands, FriendSendCommands,
};
use crate::mutual_credit::{apply_batch_spec, FriendTcOp, McModel, MutualCredit, PendingRequest};
use crate::state::{apply_funder_mutation, AddFriend, FunderModel, FunderMutation, FunderState};
use crate::token_channel::{accepts, accepted_move_token, fresh_tc_model, is_duplicate, sent_move_token, TcModel, MoveTokenModel, MoveTokenRequest, ReceiveOutcome, TcDirection, TokenChannel};
use crate::types::{FriendStatus, PublicKey, RequestsStatus, Uid};

verus! {

#[derive(Debug)]
pub struct SetFriendStatus {
    pub friend_public_key: PublicKey,
    pub status: FriendStatus,
}

#[derive(Debug)]
pub struct SetFriendRemoteMaxDebt {
    pub friend_public_key: PublicKey,
    pub remote_max_debt: u128,
}

#[derive(Debug)]
pub struct SetRequestsStatus {
    pub friend_public_key: PublicKey,
    pub status: RequestsStatus,
}

/// Accepts the friend's reset terms for an inconsistent channel.
#[derive(Debug)]
pub struct ResetFriendChannel {
    pub friend_public_key: PublicKey,
}

/// A payment of the local user along `route`, which starts at our key and
/// continues with the friend that carries it.
#[derive(Debug)]
pub struct UserRequestSendFunds {
    pub request_id: Uid,
    pub route: Vec<PublicKey>,
    pub dest_payment: u128,
}

/// A command of a local application.
#[derive(Debug)]
pub enum IncomingControlMessage {
    AddFriend(AddFriend),
    RemoveFriend(PublicKey),
    SetFriendStatus(SetFriendStatus),
    SetRequestsStatus(SetRequestsStatus),
    SetFriendRemoteMaxDebt(SetFriendRemoteMaxDebt),
    RequestSendFunds(UserRequestSendFunds),
    ResetFriendChannel(ResetFriendChannel),
}

/// A message between two friends.
#[derive(Debug)]
pub enum FriendMessage {
    MoveTokenRequest(MoveTokenRequest),
    /// The sender found the channel inconsistent; these are its reset terms.
    InconsistencyError(ChannelInconsistent),
}

#[derive(Debug)]
pub enum IncomingCommMessage {
    Liveness(IncomingLivenessMessage),
    Friend((PublicKey, FriendMessage)),
}

/// An event for the handler.
#[derive(Debug)]
pub enum FunderIncoming {
    Init,
    Control(IncomingControlMessage),
    Comm(IncomingCommMessage),
}

#[derive(Debug)]
pub enum FunderOutgoingComm {
    FriendMessage((PublicKey, FriendMessage)),
}

#[derive(Clone, Copy, Debug, PartialEq, Eq, Structural)]
pub enum HandleControlError {
    FriendAlreadyExists,
    FriendDoesNotExist,
    FriendIsDisabled,
    InvalidRoute,
    /// The channel is consistent, or the friend sent no usable reset terms.
    NoResetTerms,
}

#[derive(Clone, Copy, Debug, PartialEq, Eq, Structural)]
pub enum HandleFriendError {
    FriendDoesNotExist,
    FriendIsDisabled,
}

#[derive(Clone, Copy, Debug, PartialEq, Eq, Structural)]
pub enum FunderHandlerError {
    HandleControlError(HandleControlError),
    HandleLivenessError(HandleLivenessError),
    HandleFriendError(HandleFriendError),
}

pub open spec fn control_target(msg: IncomingControlMessage) -> PublicKey {
    match msg {
        IncomingControlMessage::AddFriend(a) => a.friend_public_key,
        IncomingControlMessage::RemoveFriend(pk) => pk,
        IncomingControlMessage::SetFriendStatus(x) => x.friend_public_key,
        IncomingControlMessage::SetRequestsStatus(x) => x.friend_public_key,
        IncomingControlMessage::SetFriendRemoteMaxDebt(x) => x.friend_public_key,
        IncomingControlMessage::RequestSendFunds(u) => u.route@[1],
        IncomingControlMessage::ResetFriendChannel(x) => x.friend_public_key,
    }
}

/// The state with the channel of `pk` replaced.
pub open spec fn set_friend_channel(s: FunderModel, pk: PublicKey, c: ChannelModel) -> FunderModel {
    FunderModel { friends: s.friends.insert(pk, set_channel(s.friends[pk], c)), ..s }
}

/// The reset epoch recorded by an inconsistent channel.
pub open spec fn reset_counter(c: ChannelModel) -> u64 {
    match c {
        ChannelModel::Inconsistent(ci) => ci.inconsistency_counter,
        ChannelModel::Consistent(tc) => tc.inconsistency_counter,
    }
}

/// The balance that the friend offers to reset at, as we see it.
pub open spec fn offered_reset_balance(c: ChannelStatusReport) -> Option<i128> {
    match c {
        ChannelStatusReport::Inconsistent(ci) => match ci.opt_remote_reset_balance {
            Some(b) => if b != i128::MIN {
                Some((-b) as i128)
            } else {
                None
            },
            None => None,
        },
        ChannelStatusReport::Consistent(_) => None,
    }
}

pub open spec fn control_error(s: FunderModel, msg: IncomingControlMessage) -> Option<HandleControlError> {
    match msg {
        IncomingControlMessage::AddFriend(a) => if s.friends.contains_key(a.friend_public_key) {
            Some(HandleControlError::FriendAlreadyExists)
        } else {
            None
        },
        IncomingControlMessage::ResetFriendChannel(x) => if !s.friends.contains_key(x.friend_public_key) {
            Some(HandleControlError::FriendDoesNotExist)
        } else if offered_reset_balance(s.friends[x.friend_public_key].channel) is None {
            Some(HandleControlError::NoResetTerms)
        } else {
            None
        },
        IncomingControlMessage::RequestSendFunds(u) => if u.route@.len() < 2 || u.route@[0] != s.local_public_key {
            Some(HandleControlError::InvalidRoute)
        } else if !s.friends.contains_key(u.route@[1]) {
            Some(HandleControlError::FriendDoesNotExist)
        } else if s.friends[u.route@[1]].status == FriendStatus::Disabled {
            Some(HandleControlError::FriendIsDisabled)
        } else {
            None
        },
        _ => if !s.friends.contains_key(control_target(msg)) {
            Some(HandleControlError::FriendDoesNotExist)
        } else {
            None
        },
    }
}

/// The state mutation that a valid command makes; a reset is handled on
/// its own.
pub open spec fn control_mutation(msg: IncomingControlMessage) -> Option<FunderMutation> {
    match msg {
        IncomingControlMessage::AddFriend(a) => Some(FunderMutation::AddFriend(a)),
        IncomingControlMessage::RemoveFriend(pk) => Some(FunderMutation::RemoveFriend(pk)),
        IncomingControlMessage::SetFriendStatus(x) => Some(
            FunderMutation::FriendMutation((x.friend_public_key, FriendMutation::SetStatus(x.status))),
        ),
        IncomingControlMessage::SetRequestsStatus(x) => Some(
            FunderMutation::FriendMutation(
                (x.friend_public_key, FriendMutation::SetWantedLocalRequestsStatus(x.status)),
            ),
        ),
        IncomingControlMessage::SetFriendRemoteMaxDebt(x) => Some(
            FunderMutation::FriendMutation(
                (x.friend_public_key, FriendMutation::SetWantedRemoteMaxDebt(x.remote_max_debt)),
            ),
        ),
        IncomingControlMessage::RequestSendFunds(u) => Some(
            FunderMutation::FriendMutation(
                (
                    u.route@[1],
                    FriendMutation::PushBackPendingUserRequest(
                        PendingRequest { request_id: u.request_id, dest_payment: u.dest_payment },
                    ),
                ),
            ),
        ),
        IncomingControlMessage::ResetFriendChannel(_) => None,
    }
}

/// Commands after which the sender should try the friend concerned.
pub open spec fn control_tries_send(msg: IncomingControlMessage) -> bool {
    match msg {
        IncomingControlMessage::SetRequestsStatus(_) => true,
        IncomingControlMessage::SetFriendRemoteMaxDebt(_) => true,
        IncomingControlMessage::RequestSendFunds(_) => true,
        _ => false,
    }
}

pub open spec fn friend_error(s: FunderModel, pk: PublicKey) -> Option<HandleFriendError> {
    if !s.friends.contains_key(pk) {
        Some(HandleFriendError::FriendDoesNotExist)
    } else if s.friends[pk].status == FriendStatus::Disabled {
        Some(HandleFriendError::FriendIsDisabled)
    } else {
        None
    }
}

/// Configuration operations that the channel still lacks: a new maximum
/// debt for the friend, then our requests status.
pub open spec fn config_ops(wanted_debt: u128, wanted_status: RequestsStatus, mc: McModel) -> Seq<FriendTcOp> {
    (if wanted_debt as int != mc.remote_max_debt {
        seq![FriendTcOp::SetRemoteMaxDebt(wanted_debt)]
    } else {
        Seq::empty()
    }) + (if wanted_status != mc.local_requests_status {
        seq![
            if wanted_status == RequestsStatus::Open {
                FriendTcOp::EnableRequests
            } else {
                FriendTcOp::DisableRequests
            },
        ]
    } else {
        Seq::empty()
    })
}

fn pending_config_ops(wanted_debt: u128, wanted_status: RequestsStatus, mc: &MutualCredit) -> (r: Vec<FriendTcOp>)
    ensures
        r@ == config_ops(wanted_debt, wanted_status, mc@),
{
    let mut ops: Vec<FriendTcOp> = Vec::new();
    if wanted_debt != mc.balance.remote_max_debt {
        ops.push(FriendTcOp::SetRemoteMaxDebt(wanted_debt));
    }
    if wanted_status != mc.requests_status.local {
        if wanted_status == RequestsStatus::Open {
            ops.push(FriendTcOp::EnableRequests);
        } else {
            ops.push(FriendTcOp::DisableRequests);
        }
    }
    proof {
        assert(ops@ =~= config_ops(wanted_debt, wanted_status, mc@));
    }
    ops
}

/// A move-token that waits to be sent again to `pk`: the friend is enabled
/// and holds the token, which we handed it with that move-token.
pub open spec fn resend_pending(s: FunderModel, pk: PublicKey) -> Option<MoveTokenModel> {
    if s.friends.contains_key(pk) && s.friends[pk].status == FriendStatus::Enabled {
        s.friends[pk].resend
    } else {
        None
    }
}

/// The friend `pk` is the same in `a` and `b`.
pub open spec fn untouched_at(a: FunderModel, b: FunderModel, pk: PublicKey) -> bool {
    &&& b.friends.contains_key(pk) == a.friends.contains_key(pk)
    &&& a.friends.contains_key(pk) ==> b.friends[pk] == a.friends[pk]
}

/// The friends `keys[from..]` are the same in `a` and `b`.
pub open spec fn untouched_from(a: FunderModel, b: FunderModel, keys: Seq<PublicKey>, from: int) -> bool {
    forall|x: int| from <= x < keys.len() ==> #[trigger] untouched_at(a, b, keys[x])
}

/// `b` differs from `a` at most in the friend `pk`.
pub open spec fn touches_only(a: FunderModel, b: FunderModel, pk: PublicKey) -> bool {
    forall|k: PublicKey|
        k != pk ==> (#[trigger] b.friends.contains_key(k) == a.friends.contains_key(k)) && (a.friends.contains_key(k)
            ==> b.friends[k] == a.friends[k])
}

pub open spec fn is_move_token_request_to(c: FunderOutgoingComm, pk: PublicKey, mt: MoveTokenModel) -> bool {
    match c {
        FunderOutgoingComm::FriendMessage((k, FriendMessage::MoveTokenRequest(mtr))) => k == pk
            && mtr.friend_move_token@ == mt,
        _ => false,
    }
}

/// Some message of `comms` is a move-token request to `pk` carrying `mt`.
pub open spec fn sent_to(comms: Seq<FunderOutgoingComm>, pk: PublicKey, mt: MoveTokenModel) -> bool {
    exists|j: int| 0 <= j < comms.len() && #[trigger] is_move_token_request_to(comms[j], pk, mt)
}

fn handle_control_message(
    m_state: &mut MutableFunderState,
    send_commands: &mut SendCommands,
    outgoing_comms: &mut Vec<FunderOutgoingComm>,
    msg: IncomingControlMessage,
) -> (r: Result<(), HandleControlError>)
    requires
        old(m_state).state.wf(),
    ensures
        final(m_state).state.wf(),
        match control_error(old(m_state).state@, msg) {
            Some(e) => r == Err::<(), HandleControlError>(e) && *final(m_state) == *old(m_state)
                && *final(send_commands) == *old(send_commands) && *final(outgoing_comms) == *old(outgoing_comms),
            None => {
                &&& r is Ok
                &&& extends_with(*old(m_state), *final(m_state))
                &&& match control_mutation(msg) {
                    Some(cm) => {
                        &&& final(m_state).mutations@ == old(m_state).mutations@.push(cm)
                        &&& final(m_state).state@ == apply_funder_mutation(old(m_state).state@, cm)
                        &&& *final(outgoing_comms) == *old(outgoing_comms)
                    },
                    None => {
                        // A reset: a fresh channel at the friend's terms, and our
                        // matching terms sent back.
                        &&& final(m_state).state@ == set_friend_channel(
                            old(m_state).state@,
                            control_target(msg),
                            ChannelModel::Consistent(
                                fresh_tc_model(
                                    old(m_state).state@.local_public_key,
                                    control_target(msg),
                                    offered_reset_balance(old(m_state).state@.friends[control_target(msg)].channel).unwrap(),
                                    reset_counter(old(m_state).state@.friends[control_target(msg)].channel_model),
                                ),
                            ),
                        )
                        &&& final(outgoing_comms)@.len() == old(outgoing_comms)@.len() + 1
                    },
                }
                &&& if control_tries_send(msg) {
                    &&& final(send_commands).lookup(control_target(msg)) == Some(
                        with_try_send(old(send_commands).lookup(control_target(msg))),
                    )
                    &&& forall|k: PublicKey| k != control_target(msg) ==> #[trigger] final(send_commands).lookup(k)
                        == old(send_commands).lookup(k)
                } else {
                    *final(send_commands) == *old(send_commands)
                }
            },
        },
{
    match msg {
        IncomingControlMessage::ResetFriendChannel(reset) => {
            let pk = reset.friend_public_key;
            let i = match m_state.state.find_friend(pk) {
                Some(i) => i,
                None => return Err(HandleControlError::FriendDoesNotExist),
            };
            let ci = match &m_state.state.friends[i].1.channel_status {
                ChannelStatus::Inconsistent(ci) => *ci,
                ChannelStatus::Consistent(_) => return Err(HandleControlError::NoResetTerms),
            };
            let remote_balance = match ci.opt_remote_reset_balance {
                Some(b) => b,
                None => return Err(HandleControlError::NoResetTerms),
            };
            if remote_balance == i128::MIN {
                return Err(HandleControlError::NoResetTerms);
            }
            let balance = -remote_balance;
            let tc = TokenChannel::new_reset(m_state.state.local_public_key, pk, balance, ci.inconsistency_counter);
            let ghost s0 = m_state.state@;
            m_state.mutate(FunderMutation::SetChannelStatus((pk, ChannelStatus::Consistent(tc))));

            let terms = ChannelInconsistent {
                local_reset_balance: balance,
                opt_remote_reset_balance: Some(remote_balance),
                inconsistency_counter: ci.inconsistency_counter,
            };
            outgoing_comms.push(FunderOutgoingComm::FriendMessage((pk, FriendMessage::InconsistencyError(terms))));
            return Ok(());
        },
        IncomingControlMessage::AddFriend(add_friend) => {
            if m_state.state.find_friend(add_friend.friend_public_key).is_some() {
                return Err(HandleControlError::FriendAlreadyExists);
            }
            m_state.mutate(FunderMutation::AddFriend(add_friend));
        },
        IncomingControlMessage::RemoveFriend(pk) => {
            // The friend's queues go with it. Requests that it forwarded and
            // that wait at other friends stay queued there.
            if m_state.state.find_friend(pk).is_none() {
                return Err(HandleControlError::FriendDoesNotExist);
            }
            m_state.mutate(FunderMutation::RemoveFriend(pk));
        },
        IncomingControlMessage::SetFriendStatus(set_friend_status) => {
            let pk = set_friend_status.friend_public_key;
            if m_state.state.find_friend(pk).is_none() {
                return Err(HandleControlError::FriendDoesNotExist);
            }
            m_state.mutate(FunderMutation::FriendMutation((pk, FriendMutation::SetStatus(set_friend_status.status))));
        },
        IncomingControlMessage::SetRequestsStatus(set_status) => {
            let pk = set_status.friend_public_key;
            if m_state.state.find_friend(pk).is_none() {
                return Err(HandleControlError::FriendDoesNotExist);
            }
            m_state.mutate(
                FunderMutation::FriendMutation((pk, FriendMutation::SetWantedLocalRequestsStatus(set_status.status))),
            );
            send_commands.set_try_send(pk);
        },
        IncomingControlMessage::RequestSendFunds(user_request) => {
            if user_request.route.len() < 2 || user_request.route[0] != m_state.state.local_public_key {
                return Err(HandleControlError::InvalidRoute);
            }
            let pk = user_request.route[1];
            match m_state.state.get_friend(pk) {
                None => return Err(HandleControlError::FriendDoesNotExist),
                Some(friend) => if friend.status == FriendStatus::Disabled {
                    return Err(HandleControlError::FriendIsDisabled);
                },
            }
            let request = PendingRequest { request_id: user_request.request_id, dest_payment: user_request.dest_payment };
            m_state.mutate(FunderMutation::FriendMutation((pk, FriendMutation::PushBackPendingUserRequest(request))));
            send_commands.set_try_send(pk);
        },
        IncomingControlMessage::SetFriendRemoteMaxDebt(set_debt) => {
            let pk = set_debt.friend_public_key;
            if m_state.state.find_friend(pk).is_none() {
                return Err(HandleControlError::FriendDoesNotExist);
            }
            m_state.mutate(
                FunderMutation::FriendMutation((pk, FriendMutation::SetWantedRemoteMaxDebt(set_debt.remote_max_debt))),
            );
            send_commands.set_try_send(pk);
        },
    }
    Ok(())
}

/// The reset terms of a channel that becomes inconsistent: its current
/// balance, in the next reset epoch.
pub open spec fn refused_terms(tc: TcModel, opt_remote_reset_balance: Option<i128>) -> ChannelInconsistent {
    ChannelInconsistent {
        local_reset_balance: tc.balance.balance,
        opt_remote_reset_balance,
        inconsistency_counter: if tc.inconsistency_counter < u64::MAX {
            (tc.inconsistency_counter + 1) as u64
        } else {
            tc.inconsistency_counter
        },
    }
}

/// After both sides' terms are known: a fresh channel when they mirror each
/// other, else the inconsistent channel with both terms recorded.
pub open spec fn reset_or_record(
    local_pk: PublicKey,
    pk: PublicKey,
    terms: ChannelInconsistent,
    remote: ChannelInconsistent,
) -> ChannelModel {
    if terms.local_reset_balance as int == -(remote.local_reset_balance as int) {
        ChannelModel::Consistent(
            fresh_tc_model(
                local_pk,
                pk,
                terms.local_reset_balance,
                if terms.inconsistency_counter >= remote.inconsistency_counter {
                    terms.inconsistency_counter
                } else {
                    remote.inconsistency_counter
                },
            ),
        )
    } else {
        ChannelModel::Inconsistent(terms)
    }
}

pub open spec fn is_inconsistency_to(c: FunderOutgoingComm, pk: PublicKey, terms: ChannelInconsistent) -> bool {
    match c {
        FunderOutgoingComm::FriendMessage((k, FriendMessage::InconsistencyError(t))) => k == pk && t == terms,
        _ => false,
    }
}

/// The state once everything that waits to go through `pk` is cancelled.
pub open spec fn cancelled_state(s: FunderModel, pk: PublicKey) -> FunderModel {
    apply_funder_mutations(s, cancel_mutations(s, pk))
}

/// What a message of the enabled friend `pk` does: the state `t` after it,
/// the messages `sent` back and the failures reported to the application.
pub open spec fn friend_message_effect(
    s: FunderModel,
    pk: PublicKey,
    msg: FriendMessage,
    t: FunderModel,
    sent: Seq<FunderOutgoingComm>,
    failed: Seq<FunderOutgoingControl>,
) -> bool {
    match msg {
        FriendMessage::MoveTokenRequest(mtr) => match s.friends[pk].channel_model {
            ChannelModel::Inconsistent(_) => t == s && sent.len() == 0 && failed.len() == 0,
            ChannelModel::Consistent(tc) => {
                let mt = mtr.friend_move_token@;
                if is_duplicate(tc, mt) {
                    t == s && sent.len() == 0 && failed.len() == 0
                } else if accepts(tc, mt) {
                    &&& exists|post: TcModel|
                        accepted_move_token(tc, mt, post) && t == #[trigger] set_friend_channel(
                            s,
                            pk,
                            ChannelModel::Consistent(post),
                        )
                    &&& sent.len() == 0
                    &&& failed.len() == 0
                } else {
                    let terms = refused_terms(tc, None);
                    let s1 = set_friend_channel(s, pk, ChannelModel::Inconsistent(terms));
                    &&& t == cancelled_state(s1, pk)
                    &&& sent.len() == 1
                    &&& is_inconsistency_to(sent[0], pk, terms)
                    &&& failed == failures_of(s1.friends[pk].pending_user_requests)
                }
            },
        },
        FriendMessage::InconsistencyError(rt) => match s.friends[pk].channel_model {
            ChannelModel::Consistent(tc) => {
                let terms = refused_terms(tc, Some(rt.local_reset_balance));
                &&& t == set_friend_channel(
                    cancelled_state(s, pk),
                    pk,
                    reset_or_record(s.local_public_key, pk, terms, rt),
                )
                &&& sent.len() == 1
                &&& is_inconsistency_to(sent[0], pk, terms)
                &&& failed == failures_of(s.friends[pk].pending_user_requests)
            },
            ChannelModel::Inconsistent(ci) => {
                let terms = ChannelInconsistent { opt_remote_reset_balance: Some(rt.local_reset_balance), ..ci };
                &&& t == set_friend_channel(s, pk, reset_or_record(s.local_public_key, pk, terms, rt))
                &&& sent.len() == 0
                &&& failed.len() == 0
            },
        },
    }
}

/// The send commands for `pk` after a move-token that was a duplicate or
/// was accepted: try to send after a new one, and mark the token wanted
/// when the friend asks for it.
pub open spec fn move_token_commands(
    tc: TcModel,
    mt: MoveTokenModel,
    token_wanted: bool,
    prev: Option<FriendSendCommands>,
) -> Option<FriendSendCommands> {
    let a = if is_duplicate(tc, mt) {
        prev
    } else {
        Some(with_try_send(prev))
    };
    if token_wanted {
        Some(with_remote_wants_token(a))
    } else {
        a
    }
}

/// A friend's message had its effect, and the messages it sent back open
/// `comms`.
pub open spec fn message_then_sent(
    s: FunderModel,
    pk: PublicKey,
    msg: FriendMessage,
    comms: Seq<FunderOutgoingComm>,
    failed: Seq<FunderOutgoingControl>,
) -> bool {
    exists|mid: FunderModel, sent: Seq<FunderOutgoingComm>|
        #![trigger friend_message_effect(s, pk, msg, mid, sent, failed)]
        friend_message_effect(s, pk, msg, mid, sent, failed) && comms.len() >= sent.len() && comms.take(sent.len() as int)
            == sent
}

/// A move-token that was a duplicate or was accepted had its effect, and
/// the sender then did for `pk` what the resulting commands ask.
pub open spec fn move_token_then_sent(
    s: FunderModel,
    pk: PublicKey,
    msg: FriendMessage,
    tc: TcModel,
    mt: MoveTokenModel,
    token_wanted: bool,
    online: Set<PublicKey>,
    t: FunderModel,
    comms: Seq<FunderOutgoingComm>,
) -> bool {
    exists|mid: FunderModel|
        #![trigger friend_message_effect(s, pk, msg, mid, Seq::empty(), Seq::empty())]
        friend_message_effect(s, pk, msg, mid, Seq::empty(), Seq::empty()) && match move_token_commands(
            tc,
            mt,
            token_wanted,
            None,
        ) {
            Some(c) => send_effect(mid, online, pk, c, t, comms),
            None => t == mid && comms.len() == 0,
        }
}

/// The reset terms of a channel that has just become inconsistent.
fn inconsistent_terms(tc: &TokenChannel, opt_remote_reset_balance: Option<i128>) -> (r: ChannelInconsistent)
    ensures
        r == refused_terms(tc@, opt_remote_reset_balance),
{
    let inconsistency_counter = if tc.inconsistency_counter < u64::MAX {
        tc.inconsistency_counter + 1
    } else {
        tc.inconsistency_counter
    };
    ChannelInconsistent { local_reset_balance: tc.balance(), opt_remote_reset_balance, inconsistency_counter }
}

/// Two sides agree on a reset when each offers the mirror of the other's
/// balance.
fn terms_agree(local_reset_balance: i128, remote_reset_balance: i128) -> (r: bool)
    ensures
        r == (local_reset_balance as int == -(remote_reset_balance as int)),
{
    remote_reset_balance != i128::MIN && local_reset_balance == -remote_reset_balance
}

/// Applies a message of a friend. A move-token goes through the token
/// channel; one that the channel refuses makes it inconsistent, and our
/// reset terms go back. Reset terms of the friend are recorded, and once
/// both sides' terms agree the channel starts again from them.
fn handle_friend_message(
    m_state: &mut MutableFunderState,
    send_commands: &mut SendCommands,
    outgoing_comms: &mut Vec<FunderOutgoingComm>,
    outgoing_control: &mut Vec<FunderOutgoingControl>,
    remote_public_key: PublicKey,
    friend_message: FriendMessage,
) -> (r: Result<(), HandleFriendError>)
    requires
        old(m_state).state.wf(),
    ensures
        final(m_state).state.wf(),
        match friend_error(old(m_state).state@, remote_public_key) {
            Some(e) => r == Err::<(), HandleFriendError>(e) && *final(m_state) == *old(m_state)
                && *final(send_commands) == *old(send_commands) && *final(outgoing_comms) == *old(outgoing_comms)
                && *final(outgoing_control) == *old(outgoing_control),
            None => {
                &&& r is Ok
                &&& extends_with(*old(m_state), *final(m_state))
                &&& final(outgoing_comms)@.len() >= old(outgoing_comms)@.len()
                &&& final(outgoing_comms)@.take(old(outgoing_comms)@.len() as int) == old(outgoing_comms)@
                &&& final(outgoing_control)@.len() >= old(outgoing_control)@.len()
                &&& final(outgoing_control)@.take(old(outgoing_control)@.len() as int) == old(outgoing_control)@
                &&& friend_message_effect(
                    old(m_state).state@,
                    remote_public_key,
                    friend_message,
                    final(m_state).state@,
                    final(outgoing_comms)@.skip(old(outgoing_comms)@.len() as int),
                    final(outgoing_control)@.skip(old(outgoing_control)@.len() as int),
                )
                &&& match friend_message {
                    FriendMessage::MoveTokenRequest(mtr) => match old(m_state).state@.friends[remote_public_key].channel_model {
                        ChannelModel::Consistent(tc) => (is_duplicate(tc, mtr.friend_move_token@) || accepts(
                            tc,
                            mtr.friend_move_token@,
                        )) ==> {
                            &&& final(send_commands).lookup(remote_public_key) == move_token_commands(
                                tc,
                                mtr.friend_move_token@,
                                mtr.token_wanted,
                                old(send_commands).lookup(remote_public_key),
                            )
                            &&& forall|k: PublicKey| k != remote_public_key ==> #[trigger] final(send_commands).lookup(k)
                                == old(send_commands).lookup(k)
                        },
                        ChannelModel::Inconsistent(_) => *final(send_commands) == *old(send_commands),
                    },
                    _ => true,
                }
            },
        },
{
    let ghost m0 = *m_state;
    let ghost s0 = m_state.state@;
    let ghost c0 = outgoing_comms@;
    let ghost k0 = outgoing_control@;
    let ghost msg = friend_message;
    proof {
        lemma_extends_refl(*m_state);
    }
    let i = match m_state.state.find_friend(remote_public_key) {
        Some(i) => i,
        None => return Err(HandleFriendError::FriendDoesNotExist),
    };
    if m_state.state.friends[i].1.status == FriendStatus::Disabled {
        return Err(HandleFriendError::FriendIsDisabled);
    }
    proof {
        assert(m_state.state.friends@[i as int].1.wf());
        assert(c0.take(c0.len() as int) =~= c0);
        assert(k0.take(k0.len() as int) =~= k0);
        assert(c0.skip(c0.len() as int) =~= Seq::<FunderOutgoingComm>::empty());
        assert(k0.skip(k0.len() as int) =~= Seq::<FunderOutgoingControl>::empty());
        crate::handler::lemma_local_key_kept(s0, cancel_mutations(s0, remote_public_key));
        crate::handler::lemma_offline_empties_queues(s0, remote_public_key);
    }
    let opt_tc = match &m_state.state.friends[i].1.channel_status {
        ChannelStatus::Consistent(tc) => Some(tc.duplicate()),
        ChannelStatus::Inconsistent(_) => None,
    };
    let opt_ci = match &m_state.state.friends[i].1.channel_status {
        ChannelStatus::Consistent(_) => None,
        ChannelStatus::Inconsistent(ci) => Some(*ci),
    };
    match friend_message {
        FriendMessage::MoveTokenRequest(move_token_request) => {
            let mut tc = match opt_tc {
                Some(tc) => tc,
                None => return Ok(()),
            };
            let ghost tc0 = tc@;
            proof {
                assert(s0.friends[remote_public_key].channel_model == ChannelModel::Consistent(tc0));
            }
            match tc.receive_move_token(&move_token_request.friend_move_token) {
                Ok(ReceiveOutcome::Accepted) => {
                    let ghost tc1 = tc@;
                    m_state.mutate(FunderMutation::SetChannelStatus((remote_public_key, ChannelStatus::Consistent(tc))));
                    proof {
                        assert(m_state.state@ == set_friend_channel(s0, remote_public_key, ChannelModel::Consistent(tc1)));
                        assert(accepted_move_token(tc0, move_token_request.friend_move_token@, tc1));
                    }
                    send_commands.set_try_send(remote_public_key);
                    if move_token_request.token_wanted {
                        send_commands.set_remote_wants_token(remote_public_key);
                    }
                },
                Ok(ReceiveOutcome::Duplicate) => {
                    if move_token_request.token_wanted {
                        send_commands.set_remote_wants_token(remote_public_key);
                    }
                },
                Err(_) => {
                    let terms = inconsistent_terms(&tc, None);
                    let ghost m1 = *m_state;
                    m_state.mutate(
                        FunderMutation::SetChannelStatus((remote_public_key, ChannelStatus::Inconsistent(terms))),
                    );
                    let ghost m2 = *m_state;
                    proof {
                        lemma_extends_trans(m0, m1, m2);
                        assert(m_state.state@.friends.contains_key(remote_public_key));
                    }
                    cancel_friend(m_state, send_commands, outgoing_control, remote_public_key);
                    proof {
                        lemma_extends_trans(m0, m2, *m_state);
                    }
                    outgoing_comms.push(
                        FunderOutgoingComm::FriendMessage((remote_public_key, FriendMessage::InconsistencyError(terms))),
                    );
                    proof {
                        assert(outgoing_comms@.take(c0.len() as int) =~= c0);
                        assert(outgoing_control@.take(k0.len() as int) =~= k0);
                        assert(outgoing_control@.skip(k0.len() as int) =~= failures_of(
                            m2.state@.friends[remote_public_key].pending_user_requests,
                        ));
                        assert(m2.state@ == set_friend_channel(s0, remote_public_key, ChannelModel::Inconsistent(terms)));
                    }
                },
            }
        },
        FriendMessage::InconsistencyError(remote_terms) => {
            // Our terms: those recorded, or the current balance of a channel
            // that becomes inconsistent now, answered with them.
            let (terms, answer) = match opt_tc {
                Some(tc) => (inconsistent_terms(&tc, Some(remote_terms.local_reset_balance)), true),
                None => match opt_ci {
                    Some(ci) => (
                        ChannelInconsistent { opt_remote_reset_balance: Some(remote_terms.local_reset_balance), ..ci },
                        false,
                    ),
                    None => return Ok(()),
                },
            };
            let ghost m1 = *m_state;
            if answer {
                // The channel is no longer consistent: cancel what waits for it.
                cancel_friend(m_state, send_commands, outgoing_control, remote_public_key);
                proof {
                    lemma_extends_trans(m0, m1, *m_state);
                }
            }
            let ghost m2 = *m_state;
            if terms_agree(terms.local_reset_balance, remote_terms.local_reset_balance) {
                let inconsistency_counter = if terms.inconsistency_counter >= remote_terms.inconsistency_counter {
                    terms.inconsistency_counter
                } else {
                    remote_terms.inconsistency_counter
                };
                let tc = TokenChannel::new_reset(
                    m_state.state.local_public_key,
                    remote_public_key,
                    terms.local_reset_balance,
                    inconsistency_counter,
                );
                m_state.mutate(FunderMutation::SetChannelStatus((remote_public_key, ChannelStatus::Consistent(tc))));
            } else {
                m_state.mutate(FunderMutation::SetChannelStatus((remote_public_key, ChannelStatus::Inconsistent(terms))));
            }
            proof {
                lemma_extends_trans(m0, m2, *m_state);
            }
            if answer {
                outgoing_comms.push(
                    FunderOutgoingComm::FriendMessage((remote_public_key, FriendMessage::InconsistencyError(terms))),
                );
            }
            proof {
                assert(outgoing_comms@.take(c0.len() as int) =~= c0);
                assert(outgoing_control@.take(k0.len() as int) =~= k0);
                if answer {
                    assert(outgoing_control@.skip(k0.len() as int) =~= failures_of(
                        s0.friends[remote_public_key].pending_user_requests,
                    ));
                }
                assert(m2.state@.friends.contains_key(remote_public_key));
                assert(m2.state@.local_public_key == s0.local_public_key);
            }
        },
    }
    proof {
        assert(outgoing_comms@.take(c0.len() as int) =~= c0);
        assert(outgoing_control@.take(k0.len() as int) =~= k0);
    }
    Ok(())
}

pub open spec fn response_op(r: ResponseOp) -> FriendTcOp {
    match r {
        ResponseOp::Response(id) => FriendTcOp::ResponseSendFunds(id),
        ResponseOp::Failure(id) => FriendTcOp::FailureSendFunds(id),
    }
}

pub open spec fn responses_ops(s: Seq<ResponseOp>) -> Seq<FriendTcOp> {
    s.map_values(|r: ResponseOp| response_op(r))
}

pub open spec fn forwarded_ops(s: Seq<ForwardedRequest>) -> Seq<FriendTcOp> {
    s.map_values(|r: ForwardedRequest| FriendTcOp::RequestSendFunds(r.request))
}

pub open spec fn user_ops(s: Seq<PendingRequest>) -> Seq<FriendTcOp> {
    s.map_values(|r: PendingRequest| FriendTcOp::RequestSendFunds(r))
}

/// The operations for what waits in a friend's queues: answers to its
/// requests, then forwarded requests, then requests of the local user.
pub open spec fn queued_ops_of(f: FriendModel) -> Seq<FriendTcOp> {
    responses_ops(f.pending_responses) + forwarded_ops(f.pending_requests) + user_ops(f.pending_user_requests)
}

/// The mutations that empty the three queues of `pk`.
pub open spec fn clear_mutations(pk: PublicKey) -> Seq<FunderMutation> {
    seq![
        FunderMutation::FriendMutation((pk, FriendMutation::ClearPendingResponses)),
        FunderMutation::FriendMutation((pk, FriendMutation::ClearPendingRequests)),
        FunderMutation::FriendMutation((pk, FriendMutation::ClearPendingUserRequests)),
    ]
}

pub open spec fn is_request_to(c: FunderOutgoingComm, pk: PublicKey, mt: MoveTokenModel, token_wanted: bool) -> bool {
    match c {
        FunderOutgoingComm::FriendMessage((k, FriendMessage::MoveTokenRequest(mtr))) => k == pk
            && mtr.friend_move_token@ == mt && mtr.token_wanted == token_wanted,
        _ => false,
    }
}

/// What the sender does for `pk`: the state `t` after it and the messages
/// `sent`. Nothing happens unless the friend is enabled, online and its
/// channel consistent. Holding the token, a move-token goes out when
/// operations wait, the friend wants the token, or a resend is asked: the
/// missing configuration operations and the queued ones (the queues are then
/// emptied), or, if the ledger refuses that batch, the configuration
/// operations alone, asking the token back when queued ones remain. Not
/// holding it, the last move-token goes out again, asking for the token when
/// operations wait.
pub open spec fn send_effect(
    s: FunderModel,
    online: Set<PublicKey>,
    pk: PublicKey,
    cmds: FriendSendCommands,
    t: FunderModel,
    sent: Seq<FunderOutgoingComm>,
) -> bool {
    if !s.friends.contains_key(pk) || s.friends[pk].status == FriendStatus::Disabled || !online.contains(pk) {
        t == s && sent.len() == 0
    } else {
        match s.friends[pk].channel_model {
            ChannelModel::Inconsistent(_) => t == s && sent.len() == 0,
            ChannelModel::Consistent(tc) => {
                let f = s.friends[pk];
                let config = config_ops(f.wanted_remote_max_debt, f.wanted_local_requests_status, tc.mutual_credit);
                let queued = queued_ops_of(f);
                let all = config + queued;
                if tc.direction == TcDirection::Outgoing {
                    if !(all.len() > 0 || cmds.remote_wants_token || cmds.resend_outgoing) {
                        t == s && sent.len() == 0
                    } else if tc.move_token_counter < u64::MAX && apply_batch_spec(tc.mutual_credit, all, false) is Ok {
                        exists|post: TcModel, mt: MoveTokenModel|
                            #![trigger sent_move_token(tc, all, post, mt)]
                            sent_move_token(tc, all, post, mt) && sent.len() == 1 && is_request_to(sent[0], pk, mt, false)
                                && t == (if queued.len() > 0 {
                                apply_funder_mutations(
                                    set_friend_channel(s, pk, ChannelModel::Consistent(post)),
                                    clear_mutations(pk),
                                )
                            } else {
                                set_friend_channel(s, pk, ChannelModel::Consistent(post))
                            })
                    } else if tc.move_token_counter < u64::MAX && apply_batch_spec(tc.mutual_credit, config, false) is Ok {
                        exists|post: TcModel, mt: MoveTokenModel|
                            #![trigger sent_move_token(tc, config, post, mt)]
                            sent_move_token(tc, config, post, mt) && sent.len() == 1 && is_request_to(
                                sent[0],
                                pk,
                                mt,
                                queued.len() > 0,
                            ) && t == set_friend_channel(s, pk, ChannelModel::Consistent(post))
                    } else {
                        t == s && sent.len() == 0
                    }
                } else if (all.len() > 0 || cmds.resend_outgoing) && tc.opt_last_sent is Some {
                    t == s && sent.len() == 1 && is_request_to(sent[0], pk, tc.opt_last_sent.unwrap(), all.len() > 0)
                } else {
                    t == s && sent.len() == 0
                }
            },
        }
    }
}

fn queued_ops(friend: &FriendState) -> (r: Vec<FriendTcOp>)
    ensures
        r@ == queued_ops_of(friend@),
{
    let mut ops: Vec<FriendTcOp> = Vec::new();
    let mut j: usize = 0;
    while j < friend.pending_responses.len()
        invariant
            0 <= j <= friend.pending_responses.len(),
            ops@ == responses_ops(friend.pending_responses@.take(j as int)),
        decreases friend.pending_responses.len() - j,
    {
        proof {
            assert(responses_ops(friend.pending_responses@.take(j as int + 1)) =~= responses_ops(
                friend.pending_responses@.take(j as int),
            ).push(response_op(friend.pending_responses@[j as int])));
        }
        match friend.pending_responses[j] {
            ResponseOp::Response(id) => ops.push(FriendTcOp::ResponseSendFunds(id)),
            ResponseOp::Failure(id) => ops.push(FriendTcOp::FailureSendFunds(id)),
        }
        j += 1;
    }
    proof {
        assert(friend.pending_responses@.take(j as int) =~= friend.pending_responses@);
    }
    let ghost a = ops@;
    let mut j: usize = 0;
    while j < friend.pending_requests.len()
        invariant
            0 <= j <= friend.pending_requests.len(),
            ops@ == a + forwarded_ops(friend.pending_requests@.take(j as int)),
        decreases friend.pending_requests.len() - j,
    {
        proof {
            assert(forwarded_ops(friend.pending_requests@.take(j as int + 1)) =~= forwarded_ops(
                friend.pending_requests@.take(j as int),
            ).push(FriendTcOp::RequestSendFunds(friend.pending_requests@[j as int].request)));
        }
        ops.push(FriendTcOp::RequestSendFunds(friend.pending_requests[j].request));
        proof {
            assert(ops@ =~= a + forwarded_ops(friend.pending_requests@.take(j as int + 1)));
        }
        j += 1;
    }
    proof {
        assert(friend.pending_requests@.take(j as int) =~= friend.pending_requests@);
    }
    let ghost b = ops@;
    let mut j: usize = 0;
    while j < friend.pending_user_requests.len()
        invariant
            0 <= j <= friend.pending_user_requests.len(),
            ops@ == b + user_ops(friend.pending_user_requests@.take(j as int)),
        decreases friend.pending_user_requests.len() - j,
    {
        proof {
            assert(user_ops(friend.pending_user_requests@.take(j as int + 1)) =~= user_ops(
                friend.pending_user_requests@.take(j as int),
            ).push(FriendTcOp::RequestSendFunds(friend.pending_user_requests@[j as int])));
        }
        ops.push(FriendTcOp::RequestSendFunds(friend.pending_user_requests[j]));
        proof {
            assert(ops@ =~= b + user_ops(friend.pending_user_requests@.take(j as int + 1)));
        }
        j += 1;
    }
    proof {
        assert(friend.pending_user_requests@.take(j as int) =~= friend.pending_user_requests@);
        assert(ops@ =~= queued_ops_of(friend@));
    }
    ops
}

/// Empties the three queues of a friend, whose content went out.
fn clear_queues(m_state: &mut MutableFunderState, pk: PublicKey)
    requires
        old(m_state).state.wf(),
    ensures
        final(m_state).state.wf(),
        extends_with(*old(m_state), *final(m_state)),
        touches_only(old(m_state).state@, final(m_state).state@, pk),
        final(m_state).state@ == apply_funder_mutations(old(m_state).state@, clear_mutations(pk)),
{
    let ghost m0 = *m_state;
    let ghost ms = clear_mutations(pk);
    m_state.mutate(FunderMutation::FriendMutation((pk, FriendMutation::ClearPendingResponses)));
    let ghost m1 = *m_state;
    m_state.mutate(FunderMutation::FriendMutation((pk, FriendMutation::ClearPendingRequests)));
    let ghost m2 = *m_state;
    m_state.mutate(FunderMutation::FriendMutation((pk, FriendMutation::ClearPendingUserRequests)));
    proof {
        lemma_extends_trans(m0, m1, m2);
        lemma_extends_trans(m0, m2, *m_state);
        let e = Seq::<FunderMutation>::empty();
        let ms1 = e.push(ms[0]);
        let ms2 = ms1.push(ms[1]);
        assert(ms1.drop_last() =~= e);
        assert(ms2.drop_last() =~= ms1);
        assert(ms2.push(ms[2]) =~= ms);
        assert(ms.drop_last() =~= ms2);
        assert(apply_funder_mutations(m0.state@, e) == m0.state@);
        assert(apply_funder_mutations(m0.state@, ms1) == m1.state@);
        assert(apply_funder_mutations(m0.state@, ms2) == m2.state@);
    }
}

/// Sends to one friend what its send commands ask for; `send_effect` says
/// exactly what.
fn send_friend(
    m_state: &mut MutableFunderState,
    ephemeral: &Ephemeral,
    pk: PublicKey,
    cmds: FriendSendCommands,
    outgoing_comms: &mut Vec<FunderOutgoingComm>,
)
    requires
        old(m_state).state.wf(),
    ensures
        final(m_state).state.wf(),
        extends_with(*old(m_state), *final(m_state)),
        touches_only(old(m_state).state@, final(m_state).state@, pk),
        final(outgoing_comms)@.len() >= old(outgoing_comms)@.len(),
        final(outgoing_comms)@.take(old(outgoing_comms)@.len() as int) == old(outgoing_comms)@,
        send_effect(
            old(m_state).state@,
            ephemeral.liveness.online(),
            pk,
            cmds,
            final(m_state).state@,
            final(outgoing_comms)@.skip(old(outgoing_comms)@.len() as int),
        ),
        cmds.resend_outgoing && ephemeral.liveness.online().contains(pk) && resend_pending(old(m_state).state@, pk) is Some
            ==> final(outgoing_comms)@.len() == old(outgoing_comms)@.len() + 1 && is_move_token_request_to(
            final(outgoing_comms)@.last(),
            pk,
            resend_pending(old(m_state).state@, pk).unwrap(),
        ),
{
    let ghost m0 = *m_state;
    let ghost s0 = m_state.state@;
    let ghost c0 = outgoing_comms@;
    proof {
        lemma_extends_refl(*m_state);
        assert(c0.take(c0.len() as int) =~= c0);
        assert(c0.skip(c0.len() as int) =~= Seq::<FunderOutgoingComm>::empty());
    }
    let i = match m_state.state.find_friend(pk) {
        Some(i) => i,
        None => return,
    };
    proof {
        assert(m_state.state.friends@[i as int].1.wf());
    }
    if m_state.state.friends[i].1.status == FriendStatus::Disabled {
        return;
    }
    if !ephemeral.liveness.is_online(pk) {
        return;
    }
    let mut tc = match &m_state.state.friends[i].1.channel_status {
        ChannelStatus::Consistent(tc) => tc.duplicate(),
        ChannelStatus::Inconsistent(_) => return,
    };
    let ghost tcm = tc@;
    let config = pending_config_ops(
        m_state.state.friends[i].1.wanted_remote_max_debt,
        m_state.state.friends[i].1.wanted_local_requests_status,
        &tc.mutual_credit,
    );
    let mut ops = config.clone();
    let mut queued = queued_ops(&m_state.state.friends[i].1);
    let has_queued = queued.len() > 0;
    proof {
        assert(ops@ =~= config@);
    }
    ops.append(&mut queued);
    let ghost all = ops@;
    proof {
        assert(s0.friends[pk].channel_model == ChannelModel::Consistent(tcm));
    }
    if tc.is_outgoing() {
        if ops.len() > 0 || cmds.remote_wants_token || cmds.resend_outgoing {
            let mut tc_all = tc.duplicate();
            match tc_all.send_move_token(ops) {
                Ok(move_token) => {
                    let ghost post = tc_all@;
                    let ghost mtm = move_token@;
                    m_state.mutate(FunderMutation::SetChannelStatus((pk, ChannelStatus::Consistent(tc_all))));
                    let ghost m1 = *m_state;
                    proof {
                        assert(m1.state@ == set_friend_channel(s0, pk, ChannelModel::Consistent(post)));
                        assert(sent_move_token(tcm, all, post, mtm));
                    }
                    if has_queued {
                        clear_queues(m_state, pk);
                        proof {
                            lemma_extends_trans(m0, m1, *m_state);
                        }
                    }
                    let request = MoveTokenRequest { friend_move_token: move_token, token_wanted: false };
                    outgoing_comms.push(FunderOutgoingComm::FriendMessage((pk, FriendMessage::MoveTokenRequest(request))));
                    proof {
                        assert(outgoing_comms@.take(c0.len() as int) =~= c0);
                        assert(outgoing_comms@.skip(c0.len() as int).len() == 1);
                        assert(is_request_to(outgoing_comms@.skip(c0.len() as int)[0], pk, mtm, false));
                    }
                },
                Err(_) => {
                    match tc.send_move_token(config) {
                        Ok(move_token) => {
                            let ghost post = tc@;
                            let ghost mtm = move_token@;
                            m_state.mutate(FunderMutation::SetChannelStatus((pk, ChannelStatus::Consistent(tc))));
                            proof {
                                assert(m_state.state@ == set_friend_channel(s0, pk, ChannelModel::Consistent(post)));
                                assert(sent_move_token(tcm, config@, post, mtm));
                            }
                            let request = MoveTokenRequest { friend_move_token: move_token, token_wanted: has_queued };
                            outgoing_comms.push(
                                FunderOutgoingComm::FriendMessage((pk, FriendMessage::MoveTokenRequest(request))),
                            );
                            proof {
                                assert(outgoing_comms@.take(c0.len() as int) =~= c0);
                                assert(outgoing_comms@.skip(c0.len() as int).len() == 1);
                                assert(is_request_to(outgoing_comms@.skip(c0.len() as int)[0], pk, mtm, has_queued));
                            }
                        },
                        Err(_) => {},
                    }
                },
            }
        }
    } else {
        let token_wanted = ops.len() > 0;
        if token_wanted || cmds.resend_outgoing {
            match &tc.opt_last_sent {
                Some(move_token) => {
                    let request = MoveTokenRequest { friend_move_token: move_token.duplicate(), token_wanted };
                    outgoing_comms.push(FunderOutgoingComm::FriendMessage((pk, FriendMessage::MoveTokenRequest(request))));
                    proof {
                        assert(outgoing_comms@.take(c0.len() as int) =~= c0);
                        assert(outgoing_comms@.skip(c0.len() as int).len() == 1);
                        assert(outgoing_comms@.skip(c0.len() as int)[0] == outgoing_comms@.last());
                    }
                },
                None => {},
            }
        }
    }
}

/// The send commands concern the friend `pk` alone.
pub open spec fn only_commands_for(sc: SendCommands, pk: PublicKey) -> bool {
    forall|k: PublicKey| k != pk ==> #[trigger] sc.lookup(k) is None
}

/// Runs the sender for every friend that has send commands.
fn send_all(
    m_state: &mut MutableFunderState,
    ephemeral: &Ephemeral,
    send_commands: &SendCommands,
    outgoing_comms: &mut Vec<FunderOutgoingComm>,
)
    requires
        old(m_state).state.wf(),
    ensures
        final(m_state).state.wf(),
        extends_with(*old(m_state), *final(m_state)),
        final(outgoing_comms)@.len() >= old(outgoing_comms)@.len(),
        final(outgoing_comms)@.take(old(outgoing_comms)@.len() as int) == old(outgoing_comms)@,
        forall|pk: PublicKey|
            #![trigger resend_pending(old(m_state).state@, pk)]
            send_commands.lookup(pk) is Some && send_commands.lookup(pk).unwrap().resend_outgoing
                && ephemeral.liveness.online().contains(pk) && resend_pending(old(m_state).state@, pk) is Some
                ==> exists|j: int|
                old(outgoing_comms)@.len() <= j < final(outgoing_comms)@.len() && #[trigger] is_move_token_request_to(
                    final(outgoing_comms)@[j],
                    pk,
                    resend_pending(old(m_state).state@, pk).unwrap(),
                ),
        forall|pk: PublicKey|
            #![trigger only_commands_for(*send_commands, pk)]
            only_commands_for(*send_commands, pk) ==> final(outgoing_comms)@.take(old(outgoing_comms)@.len() as int)
                == old(outgoing_comms)@ && match send_commands.lookup(pk) {
                Some(c) => send_effect(
                    old(m_state).state@,
                    ephemeral.liveness.online(),
                    pk,
                    c,
                    final(m_state).state@,
                    final(outgoing_comms)@.skip(old(outgoing_comms)@.len() as int),
                ),
                None => final(m_state).state@ == old(m_state).state@ && final(outgoing_comms)@ == old(outgoing_comms)@,
            },
{
    let ghost s0 = m_state.state@;
    let ghost c0 = outgoing_comms@;
    let mut keys: Vec<PublicKey> = Vec::new();
    let mut j: usize = 0;
    while j < m_state.state.friends.len()
        invariant
            0 <= j <= m_state.state.friends.len(),
            keys@.len() == j,
            forall|x: int| 0 <= x < j ==> #[trigger] keys@[x] == m_state.state.friends@[x].0,
        decreases m_state.state.friends.len() - j,
    {
        keys.push(m_state.state.friends[j].0);
        j += 1;
    }
    proof {
        lemma_extends_refl(*m_state);
        // Every friend's key is among `keys`, once.
        assert forall|pk: PublicKey| s0.friends.contains_key(pk) implies exists|x: int|
            0 <= x < keys@.len() && #[trigger] keys@[x] == pk by {
            if forall|x: int| 0 <= x < m_state.state.friends@.len() ==> #[trigger] m_state.state.friends@[x].0 != pk {
                crate::state::lemma_map_not_contains(m_state.state.friends@, pk);
            }
            let x = choose|x: int| 0 <= x < m_state.state.friends@.len() && #[trigger] m_state.state.friends@[x].0 == pk;
            assert(keys@[x] == pk);
        }
        assert forall|x: int, y: int| 0 <= x < keys@.len() && 0 <= y < keys@.len() && #[trigger] keys@[x]
            == #[trigger] keys@[y] implies x == y by {
            assert(m_state.state.friends@[x].0 == m_state.state.friends@[y].0);
        }
    }
    let ghost m0 = *m_state;
    proof {
        assert(c0.take(c0.len() as int) =~= c0);
    }
    let mut k: usize = 0;
    while k < keys.len()
        invariant
            0 <= k <= keys.len(),
            m_state.state.wf(),
            extends_with(m0, *m_state),
            m0 == *old(m_state),
            s0 == m0.state@,
            c0 == old(outgoing_comms)@,
            outgoing_comms@.len() >= c0.len(),
            outgoing_comms@.take(c0.len() as int) == c0,
            forall|pk: PublicKey| s0.friends.contains_key(pk) ==> exists|x: int|
                0 <= x < keys@.len() && #[trigger] keys@[x] == pk,
            forall|x: int, y: int| 0 <= x < keys@.len() && 0 <= y < keys@.len() && #[trigger] keys@[x]
                == #[trigger] keys@[y] ==> x == y,
            // Friends not reached yet are as they were.
            untouched_from(s0, m_state.state@, keys@, k as int),
            // With commands for one friend only: nothing happened before it
            // was reached, and exactly its sending effect after.
            forall|pk: PublicKey|
                #![trigger only_commands_for(*send_commands, pk)]
                only_commands_for(*send_commands, pk) ==> outgoing_comms@.take(c0.len() as int) == c0 && if (exists|x: int|
                    0 <= x < k && #[trigger] keys@[x] == pk) && send_commands.lookup(pk) is Some {
                    send_effect(
                        s0,
                        ephemeral.liveness.online(),
                        pk,
                        send_commands.lookup(pk).unwrap(),
                        m_state.state@,
                        outgoing_comms@.skip(c0.len() as int),
                    )
                } else {
                    m_state.state@ == s0 && outgoing_comms@ == c0
                },
            // Friends reached got their move-token again.
            forall|x: int|
                #![trigger keys@[x]]
                0 <= x < k && send_commands.lookup(keys@[x]) is Some && send_commands.lookup(keys@[x]).unwrap().resend_outgoing
                    && ephemeral.liveness.online().contains(keys@[x]) && resend_pending(s0, keys@[x]) is Some
                    ==> exists|j: int|
                    c0.len() <= j < outgoing_comms@.len() && #[trigger] is_move_token_request_to(
                        outgoing_comms@[j],
                        keys@[x],
                        resend_pending(s0, keys@[x]).unwrap(),
                    ),
        decreases keys.len() - k,
    {
        let pk = keys[k];
        let ghost before = *m_state;
        let ghost cb = outgoing_comms@;
        let ghost kk = pk;
        proof {
            assert(keys@[k as int] == pk);
            assert(untouched_at(s0, m_state.state@, keys@[k as int]));
            assert(resend_pending(before.state@, pk) == resend_pending(s0, pk));
        }
        match send_commands.get(pk) {
            Some(cmds) => {
                send_friend(m_state, ephemeral, pk, cmds, outgoing_comms);
                proof {
                    lemma_extends_trans(m0, before, *m_state);
                }
            },
            None => {
                proof {
                    assert(outgoing_comms@.take(cb.len() as int) =~= cb);
                }
            },
        }
        proof {
            let ca = outgoing_comms@;
            assert(ca.take(c0.len() as int) =~= ca.take(cb.len() as int).take(c0.len() as int));
            assert forall|x: int|
                #![trigger keys@[x]]
                0 <= x < k + 1 && send_commands.lookup(keys@[x]) is Some && send_commands.lookup(keys@[x]).unwrap().resend_outgoing
                    && ephemeral.liveness.online().contains(keys@[x]) && resend_pending(s0, keys@[x]) is Some
                    implies exists|j: int|
                    c0.len() <= j < ca.len() && #[trigger] is_move_token_request_to(
                        ca[j],
                        keys@[x],
                        resend_pending(s0, keys@[x]).unwrap(),
                    ) by {
                if x < k {
                    let j = choose|j: int|
                        c0.len() <= j < cb.len() && #[trigger] is_move_token_request_to(
                            cb[j],
                            keys@[x],
                            resend_pending(s0, keys@[x]).unwrap(),
                        );
                    assert(ca.take(cb.len() as int)[j] == ca[j]);
                } else {
                    assert(is_move_token_request_to(ca[ca.len() - 1], pk, resend_pending(s0, pk).unwrap()));
                }
            }
            assert forall|q: PublicKey| #[trigger] only_commands_for(*send_commands, q) implies outgoing_comms@.take(
                c0.len() as int,
            ) == c0 && if (exists|x: int| 0 <= x < k + 1 && #[trigger] keys@[x] == q) && send_commands.lookup(q) is Some {
                send_effect(
                    s0,
                    ephemeral.liveness.online(),
                    q,
                    send_commands.lookup(q).unwrap(),
                    m_state.state@,
                    outgoing_comms@.skip(c0.len() as int),
                )
            } else {
                m_state.state@ == s0 && outgoing_comms@ == c0
            } by {
                assert(keys@[k as int] == kk);
                if send_commands.lookup(kk) is Some {
                    if q == kk {
                        assert(!(exists|x: int| 0 <= x < k && #[trigger] keys@[x] == q)) by {
                            if exists|x: int| 0 <= x < k && #[trigger] keys@[x] == q {
                                let x = choose|x: int| 0 <= x < k && #[trigger] keys@[x] == q;
                                assert(keys@[x] == keys@[k as int]);
                            }
                        }
                        assert(before.state@ == s0 && cb == c0);
                        assert(cb.take(cb.len() as int) =~= cb);
                    } else {
                        assert(send_commands.lookup(kk) is None);
                    }
                } else {
                    assert(outgoing_comms@ == cb);
                    assert(m_state.state@ == before.state@);
                    if (exists|x: int| 0 <= x < k + 1 && #[trigger] keys@[x] == q) && send_commands.lookup(q) is Some {
                        let x = choose|x: int| 0 <= x < k + 1 && #[trigger] keys@[x] == q;
                        assert(x < k);
                        assert(exists|x: int| 0 <= x < k && #[trigger] keys@[x] == q);
                    }
                    if (exists|x: int| 0 <= x < k && #[trigger] keys@[x] == q) {
                        let x = choose|x: int| 0 <= x < k && #[trigger] keys@[x] == q;
                        assert(0 <= x < k + 1 && keys@[x] == q);
                    }
                }
            }
            assert forall|x: int| k + 1 <= x < keys@.len() implies #[trigger] untouched_at(
                s0,
                m_state.state@,
                keys@[x],
            ) by {
                assert(keys@[x] != keys@[k as int]);
                assert(untouched_at(s0, before.state@, keys@[x]));
            }
            assert(untouched_from(s0, m_state.state@, keys@, k + 1));
        }
        k += 1;
    }
    proof {
        assert forall|pk: PublicKey|
            #![trigger resend_pending(s0, pk)]
            send_commands.lookup(pk) is Some && send_commands.lookup(pk).unwrap().resend_outgoing
                && ephemeral.liveness.online().contains(pk) && resend_pending(s0, pk) is Some
                implies exists|j: int|
                c0.len() <= j < outgoing_comms@.len() && #[trigger] is_move_token_request_to(
                    outgoing_comms@[j],
                    pk,
                    resend_pending(s0, pk).unwrap(),
                ) by {
            let x = choose|x: int| 0 <= x < keys@.len() && #[trigger] keys@[x] == pk;
            assert(keys@[x] == pk);
        }
        assert forall|pk: PublicKey| #[trigger] only_commands_for(*send_commands, pk) implies outgoing_comms@.take(
            c0.len() as int,
        ) == c0 && match send_commands.lookup(pk) {
            Some(c) => send_effect(
                s0,
                ephemeral.liveness.online(),
                pk,
                c,
                m_state.state@,
                outgoing_comms@.skip(c0.len() as int),
            ),
            None => m_state.state@ == s0 && outgoing_comms@ == c0,
        } by {
            if send_commands.lookup(pk) is Some && !(exists|x: int| 0 <= x < k && #[trigger] keys@[x] == pk) {
                if s0.friends.contains_key(pk) {
                    let x = choose|x: int| 0 <= x < keys@.len() && #[trigger] keys@[x] == pk;
                    assert(0 <= x < k && keys@[x] == pk);
                }
                assert(outgoing_comms@.skip(c0.len() as int) =~= Seq::<FunderOutgoingComm>::empty());
            }
        }
    }
}

/// Handles one event: validates it, applies its state and ephemeral
/// mutations, then sends to friends what the event made ready. On error
/// nothing changes.
pub fn funder_handle_message(
    m_state: &mut MutableFunderState,
    m_ephemeral: &mut MutableEphemeral,
    funder_incoming: FunderIncoming,
) -> (r: Result<(Vec<FunderOutgoingComm>, Vec<FunderOutgoingControl>), FunderHandlerError>)
    requires
        old(m_state).state.wf(),
        old(m_ephemeral).ephemeral.wf(),
    ensures
        final(m_state).state.wf(),
        final(m_ephemeral).ephemeral.wf(),
        r is Ok ==> extends_with(*old(m_state), *final(m_state)),
        r is Err ==> *final(m_state) == *old(m_state) && *final(m_ephemeral) == *old(m_ephemeral),
        match funder_incoming {
            FunderIncoming::Init => r is Ok && *final(m_ephemeral) == *old(m_ephemeral),
            FunderIncoming::Control(msg) => *final(m_ephemeral) == *old(m_ephemeral) && match control_error(
                old(m_state).state@,
                msg,
            ) {
                Some(e) => r == Err::<(Vec<FunderOutgoingComm>, Vec<FunderOutgoingControl>), FunderHandlerError>(
                    FunderHandlerError::HandleControlError(e),
                ),
                None => {
                    &&& r is Ok
                    &&& if control_tries_send(msg) {
                        send_effect(
                            apply_funder_mutation(old(m_state).state@, control_mutation(msg).unwrap()),
                            old(m_ephemeral).ephemeral.liveness.online(),
                            control_target(msg),
                            FriendSendCommands { try_send: true, resend_outgoing: false, remote_wants_token: false },
                            final(m_state).state@,
                            r.unwrap().0@,
                        )
                    } else if control_mutation(msg) is Some {
                        final(m_state).state@ == apply_funder_mutation(old(m_state).state@, control_mutation(msg).unwrap())
                            && r.unwrap().0@.len() == 0
                    } else {
                        true
                    }
                    &&& final(m_state).mutations@.len() > old(m_state).mutations@.len()
                    &&& control_mutation(msg) is Some ==> final(m_state).mutations@[old(m_state).mutations@.len() as int]
                        == control_mutation(msg).unwrap()
                },
            },
            FunderIncoming::Comm(IncomingCommMessage::Liveness(l)) => match liveness_error(
                old(m_state).state@,
                old(m_ephemeral).ephemeral.liveness.online(),
                l,
            ) {
                Some(e) => r == Err::<(Vec<FunderOutgoingComm>, Vec<FunderOutgoingControl>), FunderHandlerError>(
                    FunderHandlerError::HandleLivenessError(e),
                ),
                None => {
                    &&& r is Ok
                    &&& final(m_ephemeral).ephemeral.liveness.online() == match l {
                        IncomingLivenessMessage::Online(pk) => old(m_ephemeral).ephemeral.liveness.online().insert(pk),
                        IncomingLivenessMessage::Offline(pk) => old(m_ephemeral).ephemeral.liveness.online().remove(pk),
                    }
                    &&& match l {
                        IncomingLivenessMessage::Online(pk) => {
                            &&& resend_pending(old(m_state).state@, pk) is Some ==> sent_to(
                                r.unwrap().0@,
                                pk,
                                resend_pending(old(m_state).state@, pk).unwrap(),
                            )
                            &&& send_effect(
                                old(m_state).state@,
                                old(m_ephemeral).ephemeral.liveness.online().insert(pk),
                                pk,
                                FriendSendCommands { try_send: false, resend_outgoing: true, remote_wants_token: false },
                                final(m_state).state@,
                                r.unwrap().0@,
                            )
                        },
                        IncomingLivenessMessage::Offline(pk) => {
                            &&& final(m_state).mutations@.len() >= old(m_state).mutations@.len()
                                + cancel_mutations(old(m_state).state@, pk).len()
                            &&& final(m_state).mutations@.take(
                                (old(m_state).mutations@.len() + cancel_mutations(old(m_state).state@, pk).len()) as int,
                            ) == old(m_state).mutations@ + cancel_mutations(old(m_state).state@, pk)
                            &&& r.unwrap().1@ == failures_of(old(m_state).state@.friends[pk].pending_user_requests)
                        },
                    }
                },
            },
            FunderIncoming::Comm(IncomingCommMessage::Friend((pk, msg))) => *final(m_ephemeral) == *old(m_ephemeral)
                && match friend_error(old(m_state).state@, pk) {
                Some(e) => r == Err::<(Vec<FunderOutgoingComm>, Vec<FunderOutgoingControl>), FunderHandlerError>(
                    FunderHandlerError::HandleFriendError(e),
                ),
                None => {
                    &&& r is Ok
                    // The message's own effect, then what the sender does.
                    &&& message_then_sent(old(m_state).state@, pk, msg, r.unwrap().0@, r.unwrap().1@)
                    &&& match msg {
                        FriendMessage::MoveTokenRequest(mtr) => match old(m_state).state@.friends[pk].channel_model {
                            ChannelModel::Consistent(tc) => (is_duplicate(tc, mtr.friend_move_token@) || accepts(
                                tc,
                                mtr.friend_move_token@,
                            )) ==> move_token_then_sent(
                                old(m_state).state@,
                                pk,
                                msg,
                                tc,
                                mtr.friend_move_token@,
                                mtr.token_wanted,
                                old(m_ephemeral).ephemeral.liveness.online(),
                                final(m_state).state@,
                                r.unwrap().0@,
                            ),
                            ChannelModel::Inconsistent(_) => final(m_state).state@ == old(m_state).state@
                                && r.unwrap().0@.len() == 0,
                        },
                        _ => true,
                    }
                },
            },
        },
{
    let mut send_commands = SendCommands::new();
    let mut outgoing_control: Vec<FunderOutgoingControl> = Vec::new();
    let mut outgoing_comms: Vec<FunderOutgoingComm> = Vec::new();
    let ghost m0 = *m_state;
    let ghost e0 = m_ephemeral.ephemeral;
    let ghost event = funder_incoming;
    proof {
        lemma_extends_refl(*m_state);
    }
    match funder_incoming {
        FunderIncoming::Init => {},
        FunderIncoming::Control(msg) => {
            match handle_control_message(m_state, &mut send_commands, &mut outgoing_comms, msg) {
                Ok(_) => {},
                Err(e) => return Err(FunderHandlerError::HandleControlError(e)),
            }
        },
        FunderIncoming::Comm(IncomingCommMessage::Liveness(l)) => {
            match handle_liveness_message(m_state, m_ephemeral, &mut send_commands, &mut outgoing_control, l) {
                Ok(_) => {
                    proof {
                        match l {
                            IncomingLivenessMessage::Online(_) => {},
                            IncomingLivenessMessage::Offline(pk) => {
                                let n = m0.mutations@.len() as int;
                                assert(m_state.mutations@.take(n) =~= m0.mutations@);
                                assert(m_state.mutations@.skip(n) =~= crate::handler::cancel_mutations(m0.state@, pk));
                            },
                        }
                    }
                },
                Err(e) => return Err(FunderHandlerError::HandleLivenessError(e)),
            }
        },
        FunderIncoming::Comm(IncomingCommMessage::Friend((pk, friend_message))) => {
            match handle_friend_message(
                m_state,
                &mut send_commands,
                &mut outgoing_comms,
                &mut outgoing_control,
                pk,
                friend_message,
            ) {
                Ok(_) => {},
                Err(e) => return Err(FunderHandlerError::HandleFriendError(e)),
            }
        },
    }
    let ghost m1 = *m_state;
    let ghost sc1 = send_commands;
    let ghost c1 = outgoing_comms@;
    let ghost k1 = outgoing_control@;
    send_all(m_state, m_ephemeral.ephemeral(), &send_commands, &mut outgoing_comms);
    proof {
        lemma_extends_trans(m0, m1, *m_state);
        if m1.mutations@.len() > m0.mutations@.len() {
            let n = m0.mutations@.len() as int;
            assert(m_state.mutations@.take(m1.mutations@.len() as int)[n] == m_state.mutations@[n]);
        }
        match event {
            FunderIncoming::Comm(IncomingCommMessage::Liveness(IncomingLivenessMessage::Offline(pk))) => {
                if liveness_error(m0.state@, e0.liveness.online(), IncomingLivenessMessage::Offline(pk)) is None {
                    let n = m1.mutations@.len() as int;
                    assert(m_state.mutations@.take(n) == m1.mutations@);
                    assert(k1 =~= Seq::<FunderOutgoingControl>::empty() + failures_of(
                        m0.state@.friends[pk].pending_user_requests,
                    ));
                }
            },
            FunderIncoming::Control(msg) => {
                if control_tries_send(msg) {
                    assert(only_commands_for(sc1, control_target(msg)));
                } else if control_mutation(msg) is Some {
                    assert(only_commands_for(sc1, 0));
                }
            },
            FunderIncoming::Comm(IncomingCommMessage::Friend((pk, msg))) => {
                if friend_error(m0.state@, pk) is None {
                    assert(c1.skip(0) =~= c1);
                    assert(k1.skip(0) =~= k1);
                    assert(outgoing_comms@.take(c1.len() as int) == c1);
                    match msg {
                        FriendMessage::MoveTokenRequest(mtr) => match m0.state@.friends[pk].channel_model {
                            ChannelModel::Consistent(tc) => {
                                if is_duplicate(tc, mtr.friend_move_token@) || accepts(tc, mtr.friend_move_token@) {
                                    assert(c1 =~= Seq::<FunderOutgoingComm>::empty());
                                    assert(k1 =~= Seq::<FunderOutgoingControl>::empty());
                                    assert(only_commands_for(sc1, pk));
                                    assert(friend_message_effect(m0.state@, pk, msg, m1.state@, Seq::empty(), Seq::empty()));
                                }
                            },
                            ChannelModel::Inconsistent(_) => {
                                assert(only_commands_for(sc1, pk));
                            },
                        },
                        _ => {},
                    }
                }
            },
            FunderIncoming::Comm(IncomingCommMessage::Liveness(IncomingLivenessMessage::Online(pk))) => {
                assert(only_commands_for(sc1, pk));
                assert(send_commands.lookup(pk).unwrap().resend_outgoing);
                assert(m_ephemeral.ephemeral.liveness.online().contains(pk));
                if resend_pending(m1.state@, pk) is Some {
                    let j = choose|j: int|
                        0 <= j < outgoing_comms@.len() && #[trigger] is_move_token_request_to(
                            outgoing_comms@[j],
                            pk,
                            resend_pending(m1.state@, pk).unwrap(),
                        );
                    assert(sent_to(outgoing_comms@, pk, resend_pending(m0.state@, pk).unwrap()));
                }
            },
            _ => {},
        }
    }
    let result = (outgoing_comms, outgoing_control);
    proof {
        match event {
            FunderIncoming::Comm(IncomingCommMessage::Friend((pk, msg))) => {
                if friend_error(m0.state@, pk) is None {
                    assert(result.1@ == k1);
                    assert(friend_message_effect(m0.state@, pk, msg, m1.state@, c1, result.1@));
                    assert(result.0@.take(c1.len() as int) == c1);
                }
            },
            _ => {},
        }
    }
    Ok(result)
}

} // verus!
