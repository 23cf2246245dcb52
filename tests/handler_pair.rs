use offst_funder::ephemeral::{Ephemeral, MutableEphemeral};
use offst_funder::funder::{
    funder_handle_message, FriendMessage, FunderHandlerError, FunderIncoming, FunderOutgoingComm,
    HandleControlError, HandleFriendError, IncomingCommMessage, IncomingControlMessage, SetFriendRemoteMaxDebt,
    ResetFriendChannel, SetFriendStatus, SetRequestsStatus, UserRequestSendFunds,
};
use offst_funder::handler::{FunderOutgoingControl, IncomingLivenessMessage, MutableFunderState};
use offst_funder::mutual_credit::{FriendTcOp, PendingRequest};
use offst_funder::state::{AddFriend, FunderState};
use offst_funder::friend::ChannelStatus;
use offst_funder::types::{FriendStatus, PublicKey, RequestsStatus};

/// Applies an incoming funder message, updating state and ephemeral
/// accordingly.
fn apply_funder_incoming(
    funder_incoming: FunderIncoming,
    state: &mut FunderState,
    ephemeral: &mut Ephemeral,
) -> Result<(Vec<FunderOutgoingComm>, Vec<FunderOutgoingControl>), FunderHandlerError> {
    let mut m_state = MutableFunderState::new(std::mem::replace(state, FunderState::new(0)));
    let mut m_ephemeral = MutableEphemeral::new(std::mem::replace(ephemeral, Ephemeral::new()));
    let res = funder_handle_message(&mut m_state, &mut m_ephemeral, funder_incoming);
    let (_mutations, new_state) = m_state.done();
    let (_ephemeral_mutations, new_ephemeral) = m_ephemeral.done();
    *state = new_state;
    *ephemeral = new_ephemeral;
    res
}

fn add_friend(pk: PublicKey, address: u32) -> FunderIncoming {
    FunderIncoming::Control(IncomingControlMessage::AddFriend(AddFriend {
        friend_public_key: pk,
        address,
        name: String::new(),
        balance: 0,
    }))
}

fn enable_friend(pk: PublicKey) -> FunderIncoming {
    FunderIncoming::Control(IncomingControlMessage::SetFriendStatus(SetFriendStatus {
        friend_public_key: pk,
        status: FriendStatus::Enabled,
    }))
}

fn online(pk: PublicKey) -> FunderIncoming {
    FunderIncoming::Comm(IncomingCommMessage::Liveness(IncomingLivenessMessage::Online(pk)))
}

fn single_request_to(outgoing_comms: Vec<FunderOutgoingComm>, expected: PublicKey, token_wanted: Option<bool>) -> FriendMessage {
    assert_eq!(outgoing_comms.len(), 1);
    let comm = outgoing_comms.into_iter().next().unwrap();
    match comm {
        FunderOutgoingComm::FriendMessage((pk, friend_message)) => {
            assert_eq!(pk, expected);
            if let FriendMessage::MoveTokenRequest(move_token_request) = &friend_message {
                if let Some(wanted) = token_wanted {
                    assert_eq!(move_token_request.token_wanted, wanted);
                }
            } else {
                unreachable!();
            }
            friend_message
        },
    }
}

#[test]
fn test_handler_pair_basic() {
    // pk1 is the lower key, so node1 is the first sender:
    let pk1: PublicKey = 100;
    let pk2: PublicKey = 200;

    let mut state1 = FunderState::new(pk1);
    let mut ephemeral1 = Ephemeral::new();
    let mut state2 = FunderState::new(pk2);
    let mut ephemeral2 = Ephemeral::new();

    // Initialize 1 and 2:
    apply_funder_incoming(FunderIncoming::Init, &mut state1, &mut ephemeral1).unwrap();
    apply_funder_incoming(FunderIncoming::Init, &mut state2, &mut ephemeral2).unwrap();

    // Node1: Add friend 2, enable it:
    apply_funder_incoming(add_friend(pk2, 22u32), &mut state1, &mut ephemeral1).unwrap();
    apply_funder_incoming(enable_friend(pk2), &mut state1, &mut ephemeral1).unwrap();

    // Node2: Add friend 1, enable it:
    apply_funder_incoming(add_friend(pk1, 11u32), &mut state2, &mut ephemeral2).unwrap();
    apply_funder_incoming(enable_friend(pk1), &mut state2, &mut ephemeral2).unwrap();

    // Node1: Notify that Node2 is alive. Node1 resends its outgoing message.
    let (outgoing_comms, _outgoing_control) =
        apply_funder_incoming(online(pk2), &mut state1, &mut ephemeral1).unwrap();
    let friend_message = single_request_to(outgoing_comms, pk2, Some(false));
    if let FriendMessage::MoveTokenRequest(move_token_request) = &friend_message {
        let friend_move_token = &move_token_request.friend_move_token;
        assert_eq!(friend_move_token.move_token_counter, 0);
        assert_eq!(friend_move_token.inconsistency_counter, 0);
        assert_eq!(friend_move_token.balance, 0);
    }

    // Node2: Notify that Node1 is alive
    apply_funder_incoming(online(pk1), &mut state2, &mut ephemeral2).unwrap();

    // Node2: Receive friend_message from Node1:
    let incoming = FunderIncoming::Comm(IncomingCommMessage::Friend((pk1, friend_message)));
    apply_funder_incoming(incoming, &mut state2, &mut ephemeral2).unwrap();

    // Node1 receives control message to set remote max debt:
    let set_friend_remote_max_debt = SetFriendRemoteMaxDebt { friend_public_key: pk2, remote_max_debt: 100 };
    let incoming = FunderIncoming::Control(IncomingControlMessage::SetFriendRemoteMaxDebt(set_friend_remote_max_debt));
    let (outgoing_comms, _outgoing_control) = apply_funder_incoming(incoming, &mut state1, &mut ephemeral1).unwrap();
    // Node1 wants to obtain the token, so it resends the last outgoing move token with
    // token_wanted = true:
    let friend_message = single_request_to(outgoing_comms, pk2, Some(true));

    // Node2: Receive friend_message (request for token) from Node1:
    let incoming = FunderIncoming::Comm(IncomingCommMessage::Friend((pk1, friend_message)));
    let (outgoing_comms, _outgoing_control) = apply_funder_incoming(incoming, &mut state2, &mut ephemeral2).unwrap();
    let friend_message = single_request_to(outgoing_comms, pk1, None);

    // Node1: Receive friend_message from Node2:
    let incoming = FunderIncoming::Comm(IncomingCommMessage::Friend((pk2, friend_message)));
    let (outgoing_comms, _outgoing_control) = apply_funder_incoming(incoming, &mut state1, &mut ephemeral1).unwrap();

    // Now that Node1 has the token, it will now send the SetRemoteMaxDebt message to Node2:
    let friend_message = single_request_to(outgoing_comms, pk2, Some(false));
    if let FriendMessage::MoveTokenRequest(move_token_request) = &friend_message {
        assert_eq!(move_token_request.friend_move_token.operations, vec![FriendTcOp::SetRemoteMaxDebt(100)]);
    }

    // Node2: Receive friend_message from Node1:
    let incoming = FunderIncoming::Comm(IncomingCommMessage::Friend((pk1, friend_message)));
    let (_outgoing_comms, _outgoing_control) = apply_funder_incoming(incoming, &mut state2, &mut ephemeral2).unwrap();

    // Node2 now may owe node1 up to 100:
    let friend = state2.get_friend(pk1).unwrap();
    match &friend.channel_status {
        ChannelStatus::Consistent(tc) => {
            assert_eq!(tc.mutual_credit.balance.local_max_debt, 100);
            assert!(tc.is_outgoing());
        },
        _ => unreachable!(),
    }
}

#[test]
fn handler_reports_command_and_message_errors() {
    let mut state = FunderState::new(1);
    let mut ephemeral = Ephemeral::new();
    let r = apply_funder_incoming(enable_friend(2), &mut state, &mut ephemeral);
    assert!(matches!(r, Err(FunderHandlerError::HandleControlError(HandleControlError::FriendDoesNotExist))));
    apply_funder_incoming(add_friend(2, 5), &mut state, &mut ephemeral).unwrap();
    let r = apply_funder_incoming(add_friend(2, 5), &mut state, &mut ephemeral);
    assert!(matches!(r, Err(FunderHandlerError::HandleControlError(HandleControlError::FriendAlreadyExists))));

    let inconsistency = offst_funder::friend::ChannelInconsistent {
        local_reset_balance: 0,
        opt_remote_reset_balance: None,
        inconsistency_counter: 1,
    };
    let incoming = FunderIncoming::Comm(IncomingCommMessage::Friend((2, FriendMessage::InconsistencyError(inconsistency))));
    let r = apply_funder_incoming(incoming, &mut state, &mut ephemeral);
    assert!(matches!(r, Err(FunderHandlerError::HandleFriendError(HandleFriendError::FriendIsDisabled))));
    let incoming = FunderIncoming::Comm(IncomingCommMessage::Friend((3, FriendMessage::InconsistencyError(inconsistency))));
    let r = apply_funder_incoming(incoming, &mut state, &mut ephemeral);
    assert!(matches!(r, Err(FunderHandlerError::HandleFriendError(HandleFriendError::FriendDoesNotExist))));

    // An enabled friend that reports an inconsistency at terms we do not
    // share drives the channel there, and our terms go back.
    apply_funder_incoming(enable_friend(2), &mut state, &mut ephemeral).unwrap();
    let reset_control = |pk: PublicKey| {
        FunderIncoming::Control(IncomingControlMessage::ResetFriendChannel(ResetFriendChannel { friend_public_key: pk }))
    };
    let r = apply_funder_incoming(reset_control(2), &mut state, &mut ephemeral);
    assert!(matches!(r, Err(FunderHandlerError::HandleControlError(HandleControlError::NoResetTerms))));
    let disagreeing = offst_funder::friend::ChannelInconsistent { local_reset_balance: 5, ..inconsistency };
    let incoming = FunderIncoming::Comm(IncomingCommMessage::Friend((2, FriendMessage::InconsistencyError(disagreeing))));
    let (comms, _) = apply_funder_incoming(incoming, &mut state, &mut ephemeral).unwrap();
    assert_eq!(comms.len(), 1);
    match &state.get_friend(2).unwrap().channel_status {
        ChannelStatus::Inconsistent(ci) => {
            assert_eq!(ci.local_reset_balance, 0);
            assert_eq!(ci.opt_remote_reset_balance, Some(5));
            assert_eq!(ci.inconsistency_counter, 1);
        },
        _ => unreachable!(),
    }

    // Accepting the friend's terms resets the channel at their mirror.
    let (comms, _) = apply_funder_incoming(reset_control(2), &mut state, &mut ephemeral).unwrap();
    assert_eq!(comms.len(), 1);
    match &comms[0] {
        FunderOutgoingComm::FriendMessage((pk, FriendMessage::InconsistencyError(terms))) => {
            assert_eq!(*pk, 2);
            assert_eq!(terms.local_reset_balance, -5);
        },
        _ => unreachable!(),
    }
    match &state.get_friend(2).unwrap().channel_status {
        ChannelStatus::Consistent(tc) => {
            assert_eq!(tc.balance(), -5);
            assert_eq!(tc.move_token_counter, 0);
            assert_eq!(tc.inconsistency_counter, 1);
        },
        _ => unreachable!(),
    }
}

#[test]
fn agreeing_reset_terms_restore_the_channel() {
    let mut state = FunderState::new(1);
    let mut ephemeral = Ephemeral::new();
    apply_funder_incoming(add_friend(2, 5), &mut state, &mut ephemeral).unwrap();
    apply_funder_incoming(enable_friend(2), &mut state, &mut ephemeral).unwrap();
    let terms = offst_funder::friend::ChannelInconsistent {
        local_reset_balance: 0,
        opt_remote_reset_balance: None,
        inconsistency_counter: 1,
    };
    let incoming = FunderIncoming::Comm(IncomingCommMessage::Friend((2, FriendMessage::InconsistencyError(terms))));
    let (comms, _) = apply_funder_incoming(incoming, &mut state, &mut ephemeral).unwrap();
    // Our terms go back, and the channel starts again at the agreed balance.
    assert_eq!(comms.len(), 1);
    match &state.get_friend(2).unwrap().channel_status {
        ChannelStatus::Consistent(tc) => {
            assert_eq!(tc.balance(), 0);
            assert_eq!(tc.move_token_counter, 0);
            assert_eq!(tc.inconsistency_counter, 1);
            assert!(tc.is_outgoing());
        },
        _ => unreachable!(),
    }
}

/// Delivers each message to its node, back and forth, until no node has
/// anything more to send.
fn settle(
    pk1: PublicKey,
    node1: &mut (FunderState, Ephemeral),
    pk2: PublicKey,
    node2: &mut (FunderState, Ephemeral),
    mut from1: Vec<FunderOutgoingComm>,
    mut from2: Vec<FunderOutgoingComm>,
) {
    let mut rounds = 0;
    while !from1.is_empty() || !from2.is_empty() {
        rounds += 1;
        assert!(rounds < 20);
        let mut next1 = Vec::new();
        let mut next2 = Vec::new();
        for comm in from1.drain(..) {
            let FunderOutgoingComm::FriendMessage((to, message)) = comm;
            assert_eq!(to, pk2);
            let incoming = FunderIncoming::Comm(IncomingCommMessage::Friend((pk1, message)));
            let (comms, _) = apply_funder_incoming(incoming, &mut node2.0, &mut node2.1).unwrap();
            next2.extend(comms);
        }
        for comm in from2.drain(..) {
            let FunderOutgoingComm::FriendMessage((to, message)) = comm;
            assert_eq!(to, pk1);
            let incoming = FunderIncoming::Comm(IncomingCommMessage::Friend((pk2, message)));
            let (comms, _) = apply_funder_incoming(incoming, &mut node1.0, &mut node1.1).unwrap();
            next1.extend(comms);
        }
        from1 = next1;
        from2 = next2;
    }
}

#[test]
fn handler_pair_sends_user_request() {
    let pk1: PublicKey = 100;
    let pk2: PublicKey = 200;
    let mut node1 = (FunderState::new(pk1), Ephemeral::new());
    let mut node2 = (FunderState::new(pk2), Ephemeral::new());
    apply_funder_incoming(add_friend(pk2, 22u32), &mut node1.0, &mut node1.1).unwrap();
    apply_funder_incoming(enable_friend(pk2), &mut node1.0, &mut node1.1).unwrap();
    apply_funder_incoming(add_friend(pk1, 11u32), &mut node2.0, &mut node2.1).unwrap();
    apply_funder_incoming(enable_friend(pk1), &mut node2.0, &mut node2.1).unwrap();
    let (from1, _) = apply_funder_incoming(online(pk2), &mut node1.0, &mut node1.1).unwrap();
    let (from2, _) = apply_funder_incoming(online(pk1), &mut node2.0, &mut node2.1).unwrap();
    settle(pk1, &mut node1, pk2, &mut node2, from1, from2);

    // Node2 lets node1 owe it up to 50 and accepts its requests.
    let incoming = FunderIncoming::Control(IncomingControlMessage::SetFriendRemoteMaxDebt(SetFriendRemoteMaxDebt {
        friend_public_key: pk1,
        remote_max_debt: 50,
    }));
    let (from2, _) = apply_funder_incoming(incoming, &mut node2.0, &mut node2.1).unwrap();
    settle(pk1, &mut node1, pk2, &mut node2, Vec::new(), from2);
    let incoming = FunderIncoming::Control(IncomingControlMessage::SetRequestsStatus(SetRequestsStatus {
        friend_public_key: pk1,
        status: RequestsStatus::Open,
    }));
    let (from2, _) = apply_funder_incoming(incoming, &mut node2.0, &mut node2.1).unwrap();
    settle(pk1, &mut node1, pk2, &mut node2, Vec::new(), from2);

    // Node1 sends 20 through node2.
    let incoming = FunderIncoming::Control(IncomingControlMessage::RequestSendFunds(UserRequestSendFunds {
        request_id: 7,
        route: vec![pk1, pk2],
        dest_payment: 20,
    }));
    let (from1, _) = apply_funder_incoming(incoming, &mut node1.0, &mut node1.1).unwrap();
    settle(pk1, &mut node1, pk2, &mut node2, from1, Vec::new());

    let friend2 = node1.0.get_friend(pk2).unwrap();
    assert!(friend2.pending_user_requests.is_empty());
    match &friend2.channel_status {
        ChannelStatus::Consistent(tc) => {
            assert_eq!(tc.mutual_credit.balance.local_max_debt, 50);
            assert_eq!(tc.mutual_credit.balance.local_pending_debt, 20);
            assert_eq!(tc.mutual_credit.local_pending_requests, vec![PendingRequest { request_id: 7, dest_payment: 20 }]);
        },
        _ => unreachable!(),
    }
    let friend1 = node2.0.get_friend(pk1).unwrap();
    match &friend1.channel_status {
        ChannelStatus::Consistent(tc) => {
            assert_eq!(tc.mutual_credit.remote_pending_requests, vec![PendingRequest { request_id: 7, dest_payment: 20 }]);
            assert_eq!(tc.mutual_credit.balance.balance, 0);
        },
        _ => unreachable!(),
    }

    // A route that does not start with our key, and a disabled first hop.
    let incoming = FunderIncoming::Control(IncomingControlMessage::RequestSendFunds(UserRequestSendFunds {
        request_id: 8,
        route: vec![pk2, pk1],
        dest_payment: 1,
    }));
    let r = apply_funder_incoming(incoming, &mut node1.0, &mut node1.1);
    assert!(matches!(r, Err(FunderHandlerError::HandleControlError(HandleControlError::InvalidRoute))));
    let disable = FunderIncoming::Control(IncomingControlMessage::SetFriendStatus(SetFriendStatus {
        friend_public_key: pk2,
        status: FriendStatus::Disabled,
    }));
    apply_funder_incoming(disable, &mut node1.0, &mut node1.1).unwrap();
    let incoming = FunderIncoming::Control(IncomingControlMessage::RequestSendFunds(UserRequestSendFunds {
        request_id: 9,
        route: vec![pk1, pk2],
        dest_payment: 1,
    }));
    let r = apply_funder_incoming(incoming, &mut node1.0, &mut node1.1);
    assert!(matches!(r, Err(FunderHandlerError::HandleControlError(HandleControlError::FriendIsDisabled))));
}

#[test]
fn inconsistent_channel_cancels_user_requests() {
    let mut state = FunderState::new(1);
    let mut ephemeral = Ephemeral::new();
    apply_funder_incoming(add_friend(2, 5), &mut state, &mut ephemeral).unwrap();
    apply_funder_incoming(enable_friend(2), &mut state, &mut ephemeral).unwrap();
    let incoming = FunderIncoming::Control(IncomingControlMessage::RequestSendFunds(UserRequestSendFunds {
        request_id: 42,
        route: vec![1, 2],
        dest_payment: 3,
    }));
    apply_funder_incoming(incoming, &mut state, &mut ephemeral).unwrap();
    assert_eq!(state.get_friend(2).unwrap().pending_user_requests.len(), 1);

    // A move-token whose counter does not fit the channel.
    let bad = offst_funder::token_channel::MoveToken {
        operations: vec![],
        move_token_counter: 5,
        inconsistency_counter: 0,
        balance: 0,
    };
    let message = FriendMessage::MoveTokenRequest(offst_funder::token_channel::MoveTokenRequest {
        friend_move_token: bad,
        token_wanted: false,
    });
    let incoming = FunderIncoming::Comm(IncomingCommMessage::Friend((2, message)));
    let (comms, control) = apply_funder_incoming(incoming, &mut state, &mut ephemeral).unwrap();
    assert_eq!(comms.len(), 1);
    assert!(matches!(&comms[0], FunderOutgoingComm::FriendMessage((2, FriendMessage::InconsistencyError(_)))));
    assert_eq!(control.len(), 1);
    match control[0] {
        FunderOutgoingControl::ResponseReceived(r) => {
            assert_eq!(r.request_id, 42);
            assert_eq!(r.result, offst_funder::handler::ResponseSendFundsResult::Failure);
        },
    }
    let friend = state.get_friend(2).unwrap();
    assert!(friend.pending_user_requests.is_empty());
    assert!(matches!(friend.channel_status, ChannelStatus::Inconsistent(_)));
}
