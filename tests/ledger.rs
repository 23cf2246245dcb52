use offst_funder::mutual_credit::{FriendTcOp, McError, MutualCredit, PendingRequest};
use offst_funder::token_channel::{MoveToken, ReceiveOutcome, TcDirection, TcError, TokenChannel};
use offst_funder::types::RequestsStatus;

fn req(id: u64, amount: u128) -> FriendTcOp {
    FriendTcOp::RequestSendFunds(PendingRequest { request_id: id, dest_payment: amount })
}

/// A ledger where we accept requests and the remote side may owe us 100.
fn open_ledger() -> MutualCredit {
    let mut mc = MutualCredit::new(0);
    mc.apply_batch(&vec![FriendTcOp::EnableRequests, FriendTcOp::SetRemoteMaxDebt(100)], false).unwrap();
    mc.apply_batch(&vec![FriendTcOp::EnableRequests, FriendTcOp::SetRemoteMaxDebt(50)], true).unwrap();
    mc
}

#[test]
fn batch_balance_is_the_sum_of_completed_payments() {
    let mut mc = open_ledger();
    // The remote side asks us to carry three payments.
    mc.apply_batch(&vec![req(1, 30), req(2, 20), req(3, 40)], true).unwrap();
    assert_eq!(mc.balance.remote_pending_debt, 90);
    // We complete two and fail one: the remote side now owes us 70.
    mc.apply_batch(
        &vec![FriendTcOp::ResponseSendFunds(1), FriendTcOp::FailureSendFunds(2), FriendTcOp::ResponseSendFunds(3)],
        false,
    ).unwrap();
    assert_eq!(mc.balance.balance, 70);
    assert_eq!(mc.balance.remote_pending_debt, 0);
    assert!(mc.remote_pending_requests.is_empty());
    assert!(mc.balance.balance <= mc.balance.remote_max_debt as i128);

    // Our own request, completed by the remote side, moves the balance back.
    mc.apply_batch(&vec![req(9, 25)], false).unwrap();
    mc.apply_batch(&vec![FriendTcOp::ResponseSendFunds(9)], true).unwrap();
    assert_eq!(mc.balance.balance, 45);
}

#[test]
fn batch_is_all_or_nothing() {
    let mut mc = open_ledger();
    let r = mc.apply_batch(&vec![req(1, 30), req(2, 80)], true);
    assert_eq!(r, Err(McError::InsufficientCredit));
    assert!(mc.remote_pending_requests.is_empty());
    assert_eq!(mc.balance.remote_pending_debt, 0);
}

#[test]
fn ledger_error_variants() {
    let mut mc = MutualCredit::new(0);
    assert_eq!(mc.apply_op(req(1, 1), true), Err(McError::RequestsDisabled));
    let mut mc = open_ledger();
    mc.apply_op(req(1, 10), true).unwrap();
    assert_eq!(mc.apply_op(req(1, 10), true), Err(McError::RequestAlreadyExists));
    assert_eq!(mc.apply_op(FriendTcOp::ResponseSendFunds(7), false), Err(McError::RequestDoesNotExist));
    assert_eq!(mc.apply_op(FriendTcOp::FailureSendFunds(7), true), Err(McError::RequestDoesNotExist));
    // Lowering the limit below what is committed is refused.
    assert_eq!(mc.apply_op(FriendTcOp::SetRemoteMaxDebt(5), false), Err(McError::MaxDebtBelowCommitted));
    assert_eq!(mc.balance.remote_max_debt, 100);
    mc.apply_op(FriendTcOp::SetRemoteMaxDebt(10), false).unwrap();
    assert_eq!(mc.balance.remote_max_debt, 10);
    // The largest balance cannot grow further.
    let mut mc = MutualCredit::new(i128::MAX);
    mc.apply_op(FriendTcOp::SetRemoteMaxDebt(u128::MAX), false).unwrap();
    mc.apply_op(FriendTcOp::EnableRequests, false).unwrap();
    mc.apply_op(req(5, 1), true).unwrap();
    assert_eq!(mc.apply_op(FriendTcOp::ResponseSendFunds(5), false), Err(McError::BalanceOverflow));
    assert_eq!(mc.balance.balance, i128::MAX);
}

#[test]
fn requests_status_follows_its_issuer() {
    let mut mc = MutualCredit::new(0);
    mc.apply_op(FriendTcOp::EnableRequests, true).unwrap();
    assert_eq!(mc.requests_status.remote, RequestsStatus::Open);
    assert_eq!(mc.requests_status.local, RequestsStatus::Closed);
    mc.apply_op(FriendTcOp::DisableRequests, true).unwrap();
    assert_eq!(mc.requests_status.remote, RequestsStatus::Closed);
}

#[test]
fn token_alternates_between_the_sides() {
    let mut a = TokenChannel::new(1, 2, 0);
    let mut b = TokenChannel::new(2, 1, 0);
    assert_eq!(a.direction, TcDirection::Outgoing);
    assert_eq!(b.direction, TcDirection::Incoming);
    assert!(matches!(b.send_move_token(vec![]), Err(TcError::NotHoldingToken)));

    let mt = a.send_move_token(vec![FriendTcOp::SetRemoteMaxDebt(10)]).unwrap();
    assert_eq!(mt.move_token_counter, 0);
    assert_eq!(a.direction, TcDirection::Incoming);
    assert_eq!(a.move_token_counter, 1);
    assert!(matches!(a.send_move_token(vec![]), Err(TcError::NotHoldingToken)));

    assert_eq!(b.receive_move_token(&mt), Ok(ReceiveOutcome::Accepted));
    assert_eq!(b.direction, TcDirection::Outgoing);
    assert_eq!(b.move_token_counter, 1);
    assert_eq!(b.mutual_credit.balance.local_max_debt, 10);
    // The same move-token again is recognised.
    assert_eq!(b.receive_move_token(&mt), Ok(ReceiveOutcome::Duplicate));
    assert_eq!(b.move_token_counter, 1);

    let mt2 = b.send_move_token(vec![]).unwrap();
    assert_eq!(mt2.move_token_counter, 1);
    assert_eq!(a.receive_move_token(&mt2), Ok(ReceiveOutcome::Accepted));
    assert_eq!(a.direction, TcDirection::Outgoing);
    assert_eq!(a.move_token_counter, 2);
}

#[test]
fn token_mismatches_are_refused() {
    let mut b = TokenChannel::new(2, 1, 0);
    let wrong_counter = MoveToken { operations: vec![], move_token_counter: 5, inconsistency_counter: 0, balance: 0 };
    assert_eq!(b.receive_move_token(&wrong_counter), Err(TcError::TokenMismatch));
    let wrong_balance = MoveToken { operations: vec![], move_token_counter: 0, inconsistency_counter: 0, balance: 3 };
    assert_eq!(b.receive_move_token(&wrong_balance), Err(TcError::BalanceMismatch));
    let bad_batch = MoveToken {
        operations: vec![FriendTcOp::ResponseSendFunds(1)],
        move_token_counter: 0,
        inconsistency_counter: 0,
        balance: 0,
    };
    assert_eq!(
        b.receive_move_token(&bad_batch),
        Err(TcError::InvalidOperationBatch(McError::RequestDoesNotExist))
    );
    assert_eq!(b.direction, TcDirection::Incoming);
    assert_eq!(b.move_token_counter, 0);
}
