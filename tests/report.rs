use offst_funder::friend::FriendMutation;
use offst_funder::report::{
    create_report, funder_mutation_to_report_mutations, ChannelStatusReport, DirectionReport, FunderReport,
};
use offst_funder::state::{AddFriend, FunderMutation, FunderState};
use offst_funder::types::{FriendStatus, PublicKey};

fn same_reports(a: &FunderReport, b: &FunderReport, keys: &[PublicKey]) {
    assert_eq!(a.friends.len(), b.friends.len());
    assert_eq!(a.num_ready_receipts, b.num_ready_receipts);
    assert_eq!(a.local_public_key, b.local_public_key);
    for k in keys {
        assert_eq!(a.friends.get(k), b.friends.get(k));
    }
}

#[test]
fn report_replay_matches_fold() {
    let mut state = FunderState::new(1);
    let mut report = create_report(&state);
    let mutations = vec![
        FunderMutation::AddFriend(AddFriend { friend_public_key: 2, address: 22, name: "two".into(), balance: 0 }),
        FunderMutation::FriendMutation((2, FriendMutation::SetStatus(FriendStatus::Enabled))),
        FunderMutation::FriendMutation((2, FriendMutation::SetWantedRemoteMaxDebt(100))),
    ];
    for mutation in &mutations {
        state.mutate(mutation);
        for report_mutation in funder_mutation_to_report_mutations(&state, mutation) {
            report.mutate(&report_mutation).unwrap();
        }
    }
    let folded = create_report(&state);
    same_reports(&folded, &report, &[2]);
    // The same stream replayed at once.
    let mut replayed = create_report(&FunderState::new(1));
    let mut fresh = FunderState::new(1);
    let mut stream = Vec::new();
    for mutation in &mutations {
        fresh.mutate(mutation);
        stream.extend(funder_mutation_to_report_mutations(&fresh, mutation));
    }
    replayed.mutate_all(&stream);
    same_reports(&folded, &replayed, &[2]);
    let again = create_report(&state);
    same_reports(&folded, &again, &[2]);

    let friend = folded.friends.get(&2).unwrap();
    assert_eq!(friend.remote_address, 22);
    assert_eq!(friend.name, "two");
    assert_eq!(friend.status, FriendStatus::Enabled);
    assert_eq!(friend.wanted_remote_max_debt, 100);
    assert_eq!(friend.num_pending_requests, 0);
    match friend.channel_status {
        ChannelStatusReport::Consistent(tc) => {
            assert_eq!(tc.direction, DirectionReport::Outgoing);
            assert_eq!(tc.mutual_credit.balance.balance, 0);
        },
        _ => unreachable!(),
    }
}

#[test]
fn report_replay_handles_removal_and_counts() {
    let mut state = FunderState::new(5);
    let mut report = create_report(&state);
    let mutations = vec![
        FunderMutation::AddFriend(AddFriend { friend_public_key: 2, address: 1, name: "a".into(), balance: -4 }),
        FunderMutation::AddFriend(AddFriend { friend_public_key: 9, address: 2, name: "b".into(), balance: 7 }),
        FunderMutation::FriendMutation((
            9,
            FriendMutation::PushBackPendingResponse(offst_funder::friend::ResponseOp::Failure(3)),
        )),
        FunderMutation::RemoveFriend(2),
    ];
    for mutation in &mutations {
        state.mutate(mutation);
        for report_mutation in funder_mutation_to_report_mutations(&state, mutation) {
            report.mutate(&report_mutation).unwrap();
        }
    }
    let folded = create_report(&state);
    same_reports(&folded, &report, &[2, 9]);
    // Removing a friend that is gone is refused and changes nothing.
    assert!(report.mutate(&offst_funder::report::FunderReportMutation::RemoveFriend(2)).is_err());
    same_reports(&folded, &report, &[2, 9]);
    assert!(folded.friends.get(&2).is_none());
    let nine = folded.friends.get(&9).unwrap();
    assert_eq!(nine.num_pending_responses, 1);
    match nine.channel_status {
        ChannelStatusReport::Consistent(tc) => {
            // The lower key holds the token first.
            assert_eq!(tc.direction, DirectionReport::Outgoing);
            assert_eq!(tc.mutual_credit.balance.balance, 7);
        },
        _ => unreachable!(),
    }
}
