use offst_funder::ephemeral::Ephemeral;
use offst_funder::friend::{ChannelStatus, ForwardedRequest, FriendMutation, ResponseOp};
use offst_funder::handler::{
    handle_liveness_message, FunderOutgoingControl, HandleLivenessError, IncomingLivenessMessage,
    MutableFunderState, ResponseSendFundsResult, SendCommands,
};
use offst_funder::ephemeral::MutableEphemeral;
use offst_funder::mutual_credit::PendingRequest;
use offst_funder::state::{AddFriend, FunderMutation, FunderState};
use offst_funder::types::{FriendStatus, PublicKey};

fn state_with_friend(local_pk: PublicKey, remote_pk: PublicKey, status: FriendStatus) -> FunderState {
    let mut state = FunderState::new(local_pk);
    let add_friend = AddFriend {
        friend_public_key: remote_pk,
        address: 3u32,
        name: "remote_pk".into(),
        balance: 0i128,
    };
    state.mutate(&FunderMutation::AddFriend(add_friend));
    state.mutate(&FunderMutation::FriendMutation((remote_pk, FriendMutation::SetStatus(status))));
    state
}

#[test]
fn test_handle_liveness_basic() {
    let local_pk: PublicKey = 1337;
    let remote_pk: PublicKey = 4242;
    let state = state_with_friend(local_pk, remote_pk, FriendStatus::Enabled);

    // Make sure that our side of the token channel is outgoing:
    let friend = state.get_friend(remote_pk).unwrap();
    let token_channel = match &friend.channel_status {
        ChannelStatus::Consistent(token_channel) => token_channel,
        _ => unreachable!(),
    };
    assert!(token_channel.is_outgoing());

    let ephemeral = Ephemeral::new();

    let mut m_state = MutableFunderState::new(state);
    let mut m_ephemeral = MutableEphemeral::new(ephemeral);
    let mut send_commands = SendCommands::new();
    let mut outgoing_control = Vec::new();
    let liveness_message = IncomingLivenessMessage::Online(remote_pk);

    // Remote side got online:
    handle_liveness_message(&mut m_state, &mut m_ephemeral, &mut send_commands, &mut outgoing_control, liveness_message)
        .unwrap();

    let (funder_mutations, _final_state) = m_state.done();
    let (ephemeral_mutations, final_ephemeral_state) = m_ephemeral.done();

    assert!(outgoing_control.is_empty());
    assert!(funder_mutations.is_empty());
    assert_eq!(ephemeral_mutations.len(), 1);
    assert!(final_ephemeral_state.liveness.is_online(remote_pk));

    // We expect that the local side will send the remote side a message:
    let friend_send_commands = send_commands.get(remote_pk).unwrap();
    assert!(friend_send_commands.resend_outgoing);
}

fn go(
    m_state: &mut MutableFunderState,
    m_ephemeral: &mut MutableEphemeral,
    send_commands: &mut SendCommands,
    outgoing_control: &mut Vec<FunderOutgoingControl>,
    msg: IncomingLivenessMessage,
) -> Result<(), HandleLivenessError> {
    handle_liveness_message(m_state, m_ephemeral, send_commands, outgoing_control, msg)
}

#[test]
fn liveness_online_twice_is_an_error_without_change() {
    let state = state_with_friend(1, 2, FriendStatus::Enabled);
    let mut m_state = MutableFunderState::new(state);
    let mut m_ephemeral = MutableEphemeral::new(Ephemeral::new());
    let mut send_commands = SendCommands::new();
    let mut control = Vec::new();
    go(&mut m_state, &mut m_ephemeral, &mut send_commands, &mut control, IncomingLivenessMessage::Online(2)).unwrap();
    let r = go(&mut m_state, &mut m_ephemeral, &mut send_commands, &mut control, IncomingLivenessMessage::Online(2));
    assert_eq!(r, Err(HandleLivenessError::FriendAlreadyOnline));
    let (mutations, _) = m_state.done();
    assert!(mutations.is_empty());
    let (ephemeral_mutations, _) = m_ephemeral.done();
    assert_eq!(ephemeral_mutations.len(), 1);
}

#[test]
fn liveness_errors_for_unknown_disabled_and_offline_friends() {
    let state = state_with_friend(1, 2, FriendStatus::Disabled);
    let mut m_state = MutableFunderState::new(state);
    let mut m_ephemeral = MutableEphemeral::new(Ephemeral::new());
    let mut send_commands = SendCommands::new();
    let mut control = Vec::new();
    let r = go(&mut m_state, &mut m_ephemeral, &mut send_commands, &mut control, IncomingLivenessMessage::Online(9));
    assert_eq!(r, Err(HandleLivenessError::FriendDoesNotExist));
    let r = go(&mut m_state, &mut m_ephemeral, &mut send_commands, &mut control, IncomingLivenessMessage::Online(2));
    assert_eq!(r, Err(HandleLivenessError::FriendIsDisabled));

    let state = state_with_friend(1, 2, FriendStatus::Enabled);
    let mut m_state = MutableFunderState::new(state);
    let r = go(&mut m_state, &mut m_ephemeral, &mut send_commands, &mut control, IncomingLivenessMessage::Offline(2));
    assert_eq!(r, Err(HandleLivenessError::FriendAlreadyOffline));
    assert!(send_commands.get(2).is_none());
}

#[test]
fn liveness_offline_cancels_everything_pending() {
    // Friend 2 forwards through friend 3; the local user also sends through 3.
    let mut state = state_with_friend(1, 2, FriendStatus::Enabled);
    state.mutate(&FunderMutation::AddFriend(AddFriend {
        friend_public_key: 3,
        address: 7,
        name: "three".into(),
        balance: 0,
    }));
    state.mutate(&FunderMutation::FriendMutation((3, FriendMutation::SetStatus(FriendStatus::Enabled))));
    let forwarded = ForwardedRequest { request: PendingRequest { request_id: 10, dest_payment: 5 }, origin: 2 };
    state.mutate(&FunderMutation::FriendMutation((3, FriendMutation::PushBackPendingRequest(forwarded))));
    let user = PendingRequest { request_id: 11, dest_payment: 6 };
    state.mutate(&FunderMutation::FriendMutation((3, FriendMutation::PushBackPendingUserRequest(user))));
    state.mutate(&FunderMutation::FriendMutation((3, FriendMutation::PushBackPendingResponse(ResponseOp::Response(4)))));

    let mut m_state = MutableFunderState::new(state);
    let mut m_ephemeral = MutableEphemeral::new(Ephemeral::new());
    let mut send_commands = SendCommands::new();
    let mut control = Vec::new();
    go(&mut m_state, &mut m_ephemeral, &mut send_commands, &mut control, IncomingLivenessMessage::Online(3)).unwrap();
    go(&mut m_state, &mut m_ephemeral, &mut send_commands, &mut control, IncomingLivenessMessage::Offline(3)).unwrap();

    let (mutations, state) = m_state.done();
    assert_eq!(mutations.len(), 4);
    let three = state.get_friend(3).unwrap();
    assert!(three.pending_requests.is_empty());
    assert!(three.pending_user_requests.is_empty());
    assert!(three.pending_responses.is_empty());
    let two = state.get_friend(2).unwrap();
    assert_eq!(two.pending_responses, vec![ResponseOp::Failure(10)]);
    assert_eq!(control.len(), 1);
    match control[0] {
        FunderOutgoingControl::ResponseReceived(r) => {
            assert_eq!(r.request_id, 11);
            assert_eq!(r.result, ResponseSendFundsResult::Failure);
        },
    }
    assert!(send_commands.get(2).unwrap().try_send);
    let (_, ephemeral) = m_ephemeral.done();
    assert!(!ephemeral.liveness.is_online(3));

    // Offline again: a no-op error.
    let mut m_state = MutableFunderState::new(state);
    let mut m_ephemeral = MutableEphemeral::new(ephemeral);
    let r = go(&mut m_state, &mut m_ephemeral, &mut send_commands, &mut control, IncomingLivenessMessage::Offline(3));
    assert_eq!(r, Err(HandleLivenessError::FriendAlreadyOffline));
    assert_eq!(control.len(), 1);
}
