use vstd::prelude::*;

use crate::types::{RequestsStatus, Uid};

verus! {

/// A funds request that was sent along a channel and not yet answered.
#[derive(Clone, Copy, Debug, PartialEq, Eq, Structural)]
pub struct PendingRequest {
    pub request_id: Uid,
    pub dest_payment: u128,
}

/// Balance of a channel. A positive `balance` is what the remote side owes
/// us; a negative one is what we owe the remote side.
#[derive(Clone, Copy, Debug, PartialEq, Eq, Structural)]
pub struct McBalance {
    pub balance: i128,
    /// How much we may owe the remote side.
    pub local_max_debt: u128,
    /// How much the remote side may owe us.
    pub remote_max_debt: u128,
    /// Sum of the payments of our requests that are not answered yet.
    pub local_pending_debt: u128,
    /// Sum of the payments of the remote side's requests not answered yet.
    pub remote_pending_debt: u128,
}

/// For each side, whether it accepts new funds requests.
#[derive(Clone, Copy, Debug, PartialEq, Eq, Structural)]
pub struct McRequestsStatus {
    pub local: RequestsStatus,
    pub remote: RequestsStatus,
}

/// One operation of a move-token batch. Each is issued by the side that
/// sends the batch.
#[derive(Clone, Copy, Debug, PartialEq, Eq, Structural)]
pub enum FriendTcOp {
    /// The sender starts accepting requests.
    EnableRequests,
    /// The sender stops accepting requests.
    DisableRequests,
    /// The sender sets how much its peer may owe it.
    SetRemoteMaxDebt(u128),
    /// The sender asks its peer to carry a payment.
    RequestSendFunds(PendingRequest),
    /// The sender completes a request of its peer: the peer pays.
    ResponseSendFunds(Uid),
    /// The sender fails a request of its peer: nothing is paid.
    FailureSendFunds(Uid),
}

#[derive(Clone, Copy, Debug, PartialEq, Eq, Structural)]
pub enum McError {
    RequestsDisabled,
    RequestAlreadyExists,
    InsufficientCredit,
    RequestDoesNotExist,
    BalanceOverflow,
    MaxDebtBelowCommitted,
}

/// The mutual-credit ledger of one channel.
#[derive(Debug)]
pub struct MutualCredit {
    pub balance: McBalance,
    pub requests_status: McRequestsStatus,
    pub local_pending_requests: Vec<PendingRequest>,
    pub remote_pending_requests: Vec<PendingRequest>,
}

/// Mathematical model of a ledger.
pub struct McModel {
    pub balance: int,
    pub local_max_debt: int,
    pub remote_max_debt: int,
    pub local_requests_status: RequestsStatus,
    pub remote_requests_status: RequestsStatus,
    pub local_pending: Seq<PendingRequest>,
    pub remote_pending: Seq<PendingRequest>,
}

impl View for MutualCredit {
    type V = McModel;

    open spec fn view(&self) -> McModel {
        McModel {
            balance: self.balance.balance as int,
            local_max_debt: self.balance.local_max_debt as int,
            remote_max_debt: self.balance.remote_max_debt as int,
            local_requests_status: self.requests_status.local,
            remote_requests_status: self.requests_status.remote,
            local_pending: self.local_pending_requests@,
            remote_pending: self.remote_pending_requests@,
        }
    }
}

/// The balance record that a well-formed ledger with model `m` stores.
pub open spec fn balance_record(m: McModel) -> McBalance {
    McBalance {
        balance: m.balance as i128,
        local_max_debt: m.local_max_debt as u128,
        remote_max_debt: m.remote_max_debt as u128,
        local_pending_debt: pending_sum(m.local_pending) as u128,
        remote_pending_debt: pending_sum(m.remote_pending) as u128,
    }
}

/// The requests status that a ledger with model `m` stores.
pub open spec fn status_record(m: McModel) -> McRequestsStatus {
    McRequestsStatus { local: m.local_requests_status, remote: m.remote_requests_status }
}

/// The balance record of a fresh ledger.
pub open spec fn new_mc_balance(balance: i128) -> McBalance {
    McBalance {
        balance,
        local_max_debt: (if balance < 0 { -balance } else { 0 }) as u128,
        remote_max_debt: (if balance > 0 { balance as int } else { 0 }) as u128,
        local_pending_debt: 0,
        remote_pending_debt: 0,
    }
}

/// A fresh ledger: the given balance, maximum debts that just cover it, no pending requests, and
/// requests closed on both sides.
pub open spec fn new_mc_model(balance: int) -> McModel {
    McModel {
        balance,
        local_max_debt: if balance < 0 { -balance } else { 0 },
        remote_max_debt: if balance > 0 { balance } else { 0 },
        local_requests_status: RequestsStatus::Closed,
        remote_requests_status: RequestsStatus::Closed,
        local_pending: Seq::empty(),
        remote_pending: Seq::empty(),
    }
}

pub open spec fn pending_sum(s: Seq<PendingRequest>) -> int
    decreases s.len(),
{
    if s.len() == 0 {
        0
    } else {
        pending_sum(s.drop_last()) + s.last().dest_payment as int
    }
}

pub open spec fn has_request(s: Seq<PendingRequest>, id: Uid) -> bool {
    exists|i: int| 0 <= i < s.len() && #[trigger] s[i].request_id == id
}

pub open spec fn request_index(s: Seq<PendingRequest>, id: Uid) -> int {
    choose|i: int| 0 <= i < s.len() && #[trigger] s[i].request_id == id
}

pub open spec fn ids_unique(s: Seq<PendingRequest>) -> bool {
    forall|i: int, j: int|
        0 <= i < s.len() && 0 <= j < s.len() && #[trigger] s[i].request_id
            == #[trigger] s[j].request_id ==> i == j
}

pub open spec fn fits_i128(x: int) -> bool {
    i128::MIN <= x <= i128::MAX
}

impl McModel {
    /// What the remote side owes us, counting its unanswered requests.
    pub open spec fn remote_committed(self) -> int {
        self.balance + pending_sum(self.remote_pending)
    }

    /// What we owe the remote side, counting our unanswered requests.
    pub open spec fn local_committed(self) -> int {
        -self.balance + pending_sum(self.local_pending)
    }

    /// Neither side's debt, with its pending requests, exceeds its maximum.
    pub open spec fn within_limits(self) -> bool {
        &&& self.remote_committed() <= self.remote_max_debt
        &&& self.local_committed() <= self.local_max_debt
    }

    pub open spec fn set_status(self, incoming: bool, status: RequestsStatus) -> McModel {
        if incoming {
            McModel { remote_requests_status: status, ..self }
        } else {
            McModel { local_requests_status: status, ..self }
        }
    }
}

/// The effect of one operation on a ledger. `incoming` tells that the remote
/// side issued it; otherwise we did.
pub open spec fn apply_op_spec(m: McModel, op: FriendTcOp, incoming: bool) -> Result<McModel, McError> {
    match op {
        FriendTcOp::EnableRequests => Ok(m.set_status(incoming, RequestsStatus::Open)),
        FriendTcOp::DisableRequests => Ok(m.set_status(incoming, RequestsStatus::Closed)),
        FriendTcOp::SetRemoteMaxDebt(x) => {
            if incoming {
                if (x as int) < m.local_max_debt && (x as int) < m.local_committed() {
                    Err(McError::MaxDebtBelowCommitted)
                } else {
                    Ok(McModel { local_max_debt: x as int, ..m })
                }
            } else {
                if (x as int) < m.remote_max_debt && (x as int) < m.remote_committed() {
                    Err(McError::MaxDebtBelowCommitted)
                } else {
                    Ok(McModel { remote_max_debt: x as int, ..m })
                }
            }
        },
        FriendTcOp::RequestSendFunds(r) => {
            if incoming {
                if m.local_requests_status == RequestsStatus::Closed {
                    Err(McError::RequestsDisabled)
                } else if has_request(m.remote_pending, r.request_id) {
                    Err(McError::RequestAlreadyExists)
                } else if m.remote_committed() + r.dest_payment > m.remote_max_debt
                    || pending_sum(m.remote_pending) + r.dest_payment > u128::MAX {
                    Err(McError::InsufficientCredit)
                } else {
                    Ok(McModel { remote_pending: m.remote_pending.push(r), ..m })
                }
            } else {
                if m.remote_requests_status == RequestsStatus::Closed {
                    Err(McError::RequestsDisabled)
                } else if has_request(m.local_pending, r.request_id) {
                    Err(McError::RequestAlreadyExists)
                } else if m.local_committed() + r.dest_payment > m.local_max_debt
                    || pending_sum(m.local_pending) + r.dest_payment > u128::MAX {
                    Err(McError::InsufficientCredit)
                } else {
                    Ok(McModel { local_pending: m.local_pending.push(r), ..m })
                }
            }
        },
        FriendTcOp::ResponseSendFunds(id) => {
            if incoming {
                if !has_request(m.local_pending, id) {
                    Err(McError::RequestDoesNotExist)
                } else {
                    let i = request_index(m.local_pending, id);
                    let nb = m.balance - m.local_pending[i].dest_payment;
                    if !fits_i128(nb) {
                        Err(McError::BalanceOverflow)
                    } else {
                        Ok(McModel { balance: nb, local_pending: m.local_pending.remove(i), ..m })
                    }
                }
            } else {
                if !has_request(m.remote_pending, id) {
                    Err(McError::RequestDoesNotExist)
                } else {
                    let i = request_index(m.remote_pending, id);
                    let nb = m.balance + m.remote_pending[i].dest_payment;
                    if !fits_i128(nb) {
                        Err(McError::BalanceOverflow)
                    } else {
                        Ok(McModel { balance: nb, remote_pending: m.remote_pending.remove(i), ..m })
                    }
                }
            }
        },
        FriendTcOp::FailureSendFunds(id) => {
            if incoming {
                if !has_request(m.local_pending, id) {
                    Err(McError::RequestDoesNotExist)
                } else {
                    Ok(McModel { local_pending: m.local_pending.remove(request_index(m.local_pending, id)), ..m })
                }
            } else {
                if !has_request(m.remote_pending, id) {
                    Err(McError::RequestDoesNotExist)
                } else {
                    Ok(McModel { remote_pending: m.remote_pending.remove(request_index(m.remote_pending, id)), ..m })
                }
            }
        },
    }
}

/// The effect of a batch: its operations in order, or the first error.
pub open spec fn apply_batch_spec(m: McModel, ops: Seq<FriendTcOp>, incoming: bool) -> Result<McModel, McError>
    decreases ops.len(),
{
    if ops.len() == 0 {
        Ok(m)
    } else {
        match apply_batch_spec(m, ops.drop_last(), incoming) {
            Ok(m2) => apply_op_spec(m2, ops.last(), incoming),
            Err(e) => Err(e),
        }
    }
}

/// The change of balance that one operation makes on a ledger.
pub open spec fn op_balance_delta(m: McModel, op: FriendTcOp, incoming: bool) -> int {
    match op {
        FriendTcOp::ResponseSendFunds(id) => {
            if incoming {
                -(m.local_pending[request_index(m.local_pending, id)].dest_payment as int)
            } else {
                m.remote_pending[request_index(m.remote_pending, id)].dest_payment as int
            }
        },
        _ => 0,
    }
}

/// Signed sum of the payments that a batch completes: each response adds
/// the amount of the request it answers, in the direction of the debt it
/// settles; requests and failures add nothing.
pub open spec fn batch_balance_delta(m: McModel, ops: Seq<FriendTcOp>, incoming: bool) -> int
    decreases ops.len(),
{
    if ops.len() == 0 {
        0
    } else {
        match apply_batch_spec(m, ops.drop_last(), incoming) {
            Ok(m2) => batch_balance_delta(m, ops.drop_last(), incoming) + op_balance_delta(m2, ops.last(), incoming),
            Err(_) => batch_balance_delta(m, ops.drop_last(), incoming),
        }
    }
}

pub proof fn lemma_pending_sum_push(s: Seq<PendingRequest>, r: PendingRequest)
    ensures
        pending_sum(s.push(r)) == pending_sum(s) + r.dest_payment,
{
    assert(s.push(r).drop_last() =~= s);
}

pub proof fn lemma_pending_sum_nonneg(s: Seq<PendingRequest>)
    ensures
        pending_sum(s) >= 0,
    decreases s.len(),
{
    if s.len() > 0 {
        lemma_pending_sum_nonneg(s.drop_last());
    }
}

pub proof fn lemma_pending_sum_remove(s: Seq<PendingRequest>, i: int)
    requires
        0 <= i < s.len(),
    ensures
        pending_sum(s.remove(i)) == pending_sum(s) - s[i].dest_payment,
    decreases s.len(),
{
    if i == s.len() - 1 {
        assert(s.remove(i) =~= s.drop_last());
    } else {
        lemma_pending_sum_remove(s.drop_last(), i);
        assert(s.remove(i).drop_last() =~= s.drop_last().remove(i));
    }
}

pub proof fn lemma_unique_push(s: Seq<PendingRequest>, r: PendingRequest)
    requires
        ids_unique(s),
        !has_request(s, r.request_id),
    ensures
        ids_unique(s.push(r)),
{
    let t = s.push(r);
    assert forall|i: int, j: int|
        0 <= i < t.len() && 0 <= j < t.len() && #[trigger] t[i].request_id
            == #[trigger] t[j].request_id implies i == j by {
        if i < s.len() && j == s.len() {
            assert(s[i].request_id == r.request_id);
        } else if j < s.len() && i == s.len() {
            assert(s[j].request_id == r.request_id);
        } else if i < s.len() && j < s.len() {
            assert(s[i].request_id == s[j].request_id);
        }
    }
}

pub proof fn lemma_unique_remove(s: Seq<PendingRequest>, k: int)
    requires
        ids_unique(s),
        0 <= k < s.len(),
    ensures
        ids_unique(s.remove(k)),
{
    let t = s.remove(k);
    assert forall|i: int, j: int|
        0 <= i < t.len() && 0 <= j < t.len() && #[trigger] t[i].request_id
            == #[trigger] t[j].request_id implies i == j by {
        let i2 = if i < k { i } else { i + 1 };
        let j2 = if j < k { j } else { j + 1 };
        assert(t[i] == s[i2]);
        assert(t[j] == s[j2]);
        assert(s[i2].request_id == s[j2].request_id);
    }
}

/// Absolute value of a signed integer, as an unsigned one.
fn magnitude(x: i128) -> (r: u128)
    ensures
        r as int == if x >= 0 { x as int } else { -x },
{
    if x >= 0 {
        x as u128
    } else {
        ((-(x + 1)) as u128) + 1
    }
}

/// Tells whether `debt + pending + amount <= max`, where `debt` is
/// `balance` or its negation.
fn debt_fits(balance: i128, negate: bool, pending: u128, amount: u128, max: u128) -> (r: bool)
    ensures
        r == ((if negate { -balance } else { balance as int }) + pending + amount <= max),
{
    let mag = magnitude(balance);
    let nonneg = if negate { balance <= 0 } else { balance >= 0 };
    if nonneg {
        match mag.checked_add(pending) {
            None => false,
            Some(s) => match s.checked_add(amount) {
                None => false,
                Some(t) => t <= max,
            },
        }
    } else if pending >= mag {
        match (pending - mag).checked_add(amount) {
            None => false,
            Some(t) => t <= max,
        }
    } else {
        let gap = mag - pending;
        if amount <= max {
            true
        } else {
            amount - max <= gap
        }
    }
}

/// Finds the position of the request with the given id.
fn find_request(v: &Vec<PendingRequest>, id: Uid) -> (r: Option<usize>)
    requires
        ids_unique(v@),
    ensures
        r.is_some() == has_request(v@, id),
        r.is_some() ==> r.unwrap() as int == request_index(v@, id),
{
    let mut i: usize = 0;
    while i < v.len()
        invariant
            0 <= i <= v.len(),
            ids_unique(v@),
            forall|j: int| 0 <= j < i ==> #[trigger] v@[j].request_id != id,
        decreases v.len() - i,
    {
        if v[i].request_id == id {
            proof {
                assert(v@[i as int].request_id == id);
                assert(has_request(v@, id));
                let k = request_index(v@, id);
                assert(0 <= k < v@.len() && v@[k].request_id == id);
                assert(v@[k].request_id == v@[i as int].request_id);
                assert(k == i as int);
            }
            return Some(i);
        }
        i += 1;
    }
    None
}

/// Applying a prefix of a batch that fails makes the whole batch fail the
/// same way.
proof fn lemma_batch_err_extends(m: McModel, ops: Seq<FriendTcOp>, k: int, incoming: bool)
    requires
        0 <= k <= ops.len(),
        apply_batch_spec(m, ops.take(k), incoming) is Err,
    ensures
        apply_batch_spec(m, ops, incoming) == apply_batch_spec(m, ops.take(k), incoming),
    decreases ops.len(),
{
    if k == ops.len() {
        assert(ops.take(k) =~= ops);
    } else {
        assert(ops.drop_last().take(k) =~= ops.take(k));
        lemma_batch_err_extends(m, ops.drop_last(), k, incoming);
    }
}

/// One operation that succeeds moves the balance by its delta and keeps
/// both debts within their maximums.
proof fn lemma_op_balance(m: McModel, op: FriendTcOp, incoming: bool)
    requires
        m.within_limits(),
        ids_unique(m.local_pending),
        ids_unique(m.remote_pending),
        apply_op_spec(m, op, incoming) is Ok,
    ensures
        apply_op_spec(m, op, incoming).get_Ok_0().within_limits(),
        ids_unique(apply_op_spec(m, op, incoming).get_Ok_0().local_pending),
        ids_unique(apply_op_spec(m, op, incoming).get_Ok_0().remote_pending),
        apply_op_spec(m, op, incoming).get_Ok_0().balance == m.balance + op_balance_delta(m, op, incoming),
{
    match op {
        FriendTcOp::RequestSendFunds(r) => {
            lemma_pending_sum_push(m.remote_pending, r);
            lemma_pending_sum_push(m.local_pending, r);
            if incoming {
                lemma_unique_push(m.remote_pending, r);
            } else {
                lemma_unique_push(m.local_pending, r);
            }
        },
        FriendTcOp::ResponseSendFunds(id) => {
            if incoming {
                let i = request_index(m.local_pending, id);
                lemma_pending_sum_remove(m.local_pending, i);
                lemma_unique_remove(m.local_pending, i);
            } else {
                let i = request_index(m.remote_pending, id);
                lemma_pending_sum_remove(m.remote_pending, i);
                lemma_unique_remove(m.remote_pending, i);
            }
        },
        FriendTcOp::FailureSendFunds(id) => {
            if incoming {
                let i = request_index(m.local_pending, id);
                lemma_pending_sum_remove(m.local_pending, i);
                lemma_unique_remove(m.local_pending, i);
            } else {
                let i = request_index(m.remote_pending, id);
                lemma_pending_sum_remove(m.remote_pending, i);
                lemma_unique_remove(m.remote_pending, i);
            }
        },
        _ => {},
    }
}

/// A batch that is accepted changes the balance by exactly the signed sum
/// of the payments that its responses complete (requests and failures move
/// nothing), and neither side's debt then exceeds its configured maximum.
pub proof fn lemma_batch_balance(m: McModel, ops: Seq<FriendTcOp>, incoming: bool)
    requires
        m.within_limits(),
        ids_unique(m.local_pending),
        ids_unique(m.remote_pending),
        apply_batch_spec(m, ops, incoming) is Ok,
    ensures
        apply_batch_spec(m, ops, incoming).get_Ok_0().balance == m.balance + batch_balance_delta(m, ops, incoming),
        apply_batch_spec(m, ops, incoming).get_Ok_0().within_limits(),
        ids_unique(apply_batch_spec(m, ops, incoming).get_Ok_0().local_pending),
        ids_unique(apply_batch_spec(m, ops, incoming).get_Ok_0().remote_pending),
    decreases ops.len(),
{
    if ops.len() > 0 {
        lemma_batch_balance(m, ops.drop_last(), incoming);
        let m2 = apply_batch_spec(m, ops.drop_last(), incoming).get_Ok_0();
        lemma_op_balance(m2, ops.last(), incoming);
    }
}

impl MutualCredit {
    /// Stored pending debts are the sums of the pending requests, and no
    /// request id occurs twice on a side.
    pub open spec fn wf(&self) -> bool {
        &&& self.shape_wf()
        &&& self@.within_limits()
    }

    /// The stored records agree with the pending requests.
    pub open spec fn shape_wf(&self) -> bool {
        &&& ids_unique(self.local_pending_requests@)
        &&& ids_unique(self.remote_pending_requests@)
        &&& self.balance.local_pending_debt as int == pending_sum(self.local_pending_requests@)
        &&& self.balance.remote_pending_debt as int == pending_sum(self.remote_pending_requests@)
    }

    pub proof fn lemma_records(&self)
        requires
            self.wf(),
        ensures
            self.balance == balance_record(self@),
            self.requests_status == status_record(self@),
    {
    }

    /// A ledger with the given balance, no limits, no pending requests, and
    /// requests closed on both sides.
    pub fn new(balance: i128) -> (r: MutualCredit)
        ensures
            r.wf(),
            r@ == new_mc_model(balance as int),
            r.balance == new_mc_balance(balance),
            r.requests_status == (McRequestsStatus { local: RequestsStatus::Closed, remote: RequestsStatus::Closed }),
    {
        let local_max_debt: u128 = if balance < 0 { magnitude(balance) } else { 0 };
        let remote_max_debt: u128 = if balance > 0 { balance as u128 } else { 0 };
        let r = MutualCredit {
            balance: McBalance {
                balance,
                local_max_debt,
                remote_max_debt,
                local_pending_debt: 0,
                remote_pending_debt: 0,
            },
            requests_status: McRequestsStatus {
                local: RequestsStatus::Closed,
                remote: RequestsStatus::Closed,
            },
            local_pending_requests: Vec::new(),
            remote_pending_requests: Vec::new(),
        };
        proof {
            assert(r.local_pending_requests@ =~= Seq::empty());
            assert(r.remote_pending_requests@ =~= Seq::empty());
        }
        r
    }

    /// An independent copy of the ledger.
    pub fn duplicate(&self) -> (r: MutualCredit)
        ensures
            r@ == self@,
            r.balance == self.balance,
            r.requests_status == self.requests_status,
            r.wf() == self.wf(),
    {
        let local = self.local_pending_requests.clone();
        let remote = self.remote_pending_requests.clone();
        proof {
            assert(local@ =~= self.local_pending_requests@);
            assert(remote@ =~= self.remote_pending_requests@);
        }
        MutualCredit {
            balance: self.balance,
            requests_status: self.requests_status,
            local_pending_requests: local,
            remote_pending_requests: remote,
        }
    }

    /// Applies one operation; `incoming` tells that the remote side issued
    /// it. On error the ledger is unchanged. Both debts stay within their
    /// maximums.
    pub fn apply_op(&mut self, op: FriendTcOp, incoming: bool) -> (r: Result<(), McError>)
        requires
            old(self).wf(),
        ensures
            final(self).wf(),
            match r {
                Ok(_) => apply_op_spec(old(self)@, op, incoming) == Ok::<McModel, McError>(final(self)@),
                Err(e) => apply_op_spec(old(self)@, op, incoming) == Err::<McModel, McError>(e)
                    && *final(self) == *old(self),
            },
    {
        let r = self.apply_op_exact(op, incoming);
        proof {
            if r is Ok {
                lemma_op_balance(old(self)@, op, incoming);
            }
        }
        r
    }

    /// Applies one operation, keeping the stored records in step.
    fn apply_op_exact(&mut self, op: FriendTcOp, incoming: bool) -> (r: Result<(), McError>)
        requires
            old(self).shape_wf(),
        ensures
            final(self).shape_wf(),
            match r {
                Ok(_) => apply_op_spec(old(self)@, op, incoming) == Ok::<McModel, McError>(final(self)@),
                Err(e) => apply_op_spec(old(self)@, op, incoming) == Err::<McModel, McError>(e)
                    && *final(self) == *old(self),
            },
    {
        match op {
            FriendTcOp::EnableRequests => {
                if incoming {
                    self.requests_status.remote = RequestsStatus::Open;
                } else {
                    self.requests_status.local = RequestsStatus::Open;
                }
                Ok(())
            },
            FriendTcOp::DisableRequests => {
                if incoming {
                    self.requests_status.remote = RequestsStatus::Closed;
                } else {
                    self.requests_status.local = RequestsStatus::Closed;
                }
                Ok(())
            },
            FriendTcOp::SetRemoteMaxDebt(x) => {
                if incoming {
                    if x < self.balance.local_max_debt
                        && !debt_fits(self.balance.balance, true, self.balance.local_pending_debt, 0, x) {
                        return Err(McError::MaxDebtBelowCommitted);
                    }
                    self.balance.local_max_debt = x;
                } else {
                    if x < self.balance.remote_max_debt
                        && !debt_fits(self.balance.balance, false, self.balance.remote_pending_debt, 0, x) {
                        return Err(McError::MaxDebtBelowCommitted);
                    }
                    self.balance.remote_max_debt = x;
                }
                Ok(())
            },
            FriendTcOp::RequestSendFunds(req) => {
                if incoming {
                    if self.requests_status.local == RequestsStatus::Closed {
                        return Err(McError::RequestsDisabled);
                    }
                    if find_request(&self.remote_pending_requests, req.request_id).is_some() {
                        return Err(McError::RequestAlreadyExists);
                    }
                    if !debt_fits(self.balance.balance, false, self.balance.remote_pending_debt,
                        req.dest_payment, self.balance.remote_max_debt) {
                        return Err(McError::InsufficientCredit);
                    }
                    match self.balance.remote_pending_debt.checked_add(req.dest_payment) {
                        None => Err(McError::InsufficientCredit),
                        Some(t) => {
                            proof {
                                lemma_pending_sum_push(self.remote_pending_requests@, req);
                                lemma_unique_push(self.remote_pending_requests@, req);
                            }
                            self.remote_pending_requests.push(req);
                            self.balance.remote_pending_debt = t;
                            Ok(())
                        },
                    }
                } else {
                    if self.requests_status.remote == RequestsStatus::Closed {
                        return Err(McError::RequestsDisabled);
                    }
                    if find_request(&self.local_pending_requests, req.request_id).is_some() {
                        return Err(McError::RequestAlreadyExists);
                    }
                    if !debt_fits(self.balance.balance, true, self.balance.local_pending_debt,
                        req.dest_payment, self.balance.local_max_debt) {
                        return Err(McError::InsufficientCredit);
                    }
                    match self.balance.local_pending_debt.checked_add(req.dest_payment) {
                        None => Err(McError::InsufficientCredit),
                        Some(t) => {
                            proof {
                                lemma_pending_sum_push(self.local_pending_requests@, req);
                                lemma_unique_push(self.local_pending_requests@, req);
                            }
                            self.local_pending_requests.push(req);
                            self.balance.local_pending_debt = t;
                            Ok(())
                        },
                    }
                }
            },
            FriendTcOp::ResponseSendFunds(id) => {
                if incoming {
                    match find_request(&self.local_pending_requests, id) {
                        None => Err(McError::RequestDoesNotExist),
                        Some(i) => {
                            let amount = self.local_pending_requests[i].dest_payment;
                            match self.balance.balance.checked_sub_unsigned(amount) {
                                None => Err(McError::BalanceOverflow),
                                Some(nb) => {
                                    proof {
                                        lemma_pending_sum_remove(self.local_pending_requests@, i as int);
                                        lemma_pending_sum_nonneg(self.local_pending_requests@.remove(i as int));
                                        lemma_unique_remove(self.local_pending_requests@, i as int);
                                    }
                                    self.local_pending_requests.remove(i);
                                    self.balance.balance = nb;
                                    self.balance.local_pending_debt = self.balance.local_pending_debt - amount;
                                    Ok(())
                                },
                            }
                        },
                    }
                } else {
                    match find_request(&self.remote_pending_requests, id) {
                        None => Err(McError::RequestDoesNotExist),
                        Some(i) => {
                            let amount = self.remote_pending_requests[i].dest_payment;
                            match self.balance.balance.checked_add_unsigned(amount) {
                                None => Err(McError::BalanceOverflow),
                                Some(nb) => {
                                    proof {
                                        lemma_pending_sum_remove(self.remote_pending_requests@, i as int);
                                        lemma_pending_sum_nonneg(self.remote_pending_requests@.remove(i as int));
                                        lemma_unique_remove(self.remote_pending_requests@, i as int);
                                    }
                                    self.remote_pending_requests.remove(i);
                                    self.balance.balance = nb;
                                    self.balance.remote_pending_debt = self.balance.remote_pending_debt - amount;
                                    Ok(())
                                },
                            }
                        },
                    }
                }
            },
            FriendTcOp::FailureSendFunds(id) => {
                if incoming {
                    match find_request(&self.local_pending_requests, id) {
                        None => Err(McError::RequestDoesNotExist),
                        Some(i) => {
                            let amount = self.local_pending_requests[i].dest_payment;
                            proof {
                                lemma_pending_sum_remove(self.local_pending_requests@, i as int);
                                lemma_pending_sum_nonneg(self.local_pending_requests@.remove(i as int));
                                lemma_unique_remove(self.local_pending_requests@, i as int);
                            }
                            self.local_pending_requests.remove(i);
                            self.balance.local_pending_debt = self.balance.local_pending_debt - amount;
                            Ok(())
                        },
                    }
                } else {
                    match find_request(&self.remote_pending_requests, id) {
                        None => Err(McError::RequestDoesNotExist),
                        Some(i) => {
                            let amount = self.remote_pending_requests[i].dest_payment;
                            proof {
                                lemma_pending_sum_remove(self.remote_pending_requests@, i as int);
                                lemma_pending_sum_nonneg(self.remote_pending_requests@.remove(i as int));
                                lemma_unique_remove(self.remote_pending_requests@, i as int);
                            }
                            self.remote_pending_requests.remove(i);
                            self.balance.remote_pending_debt = self.balance.remote_pending_debt - amount;
                            Ok(())
                        },
                    }
                }
            },
        }
    }

    /// Applies a batch of operations in order, all or nothing: on error the
    /// ledger is unchanged.
    pub fn apply_batch(&mut self, ops: &Vec<FriendTcOp>, incoming: bool) -> (r: Result<(), McError>)
        requires
            old(self).wf(),
        ensures
            final(self).wf(),
            match r {
                Ok(_) => apply_batch_spec(old(self)@, ops@, incoming) == Ok::<McModel, McError>(final(self)@),
                Err(e) => apply_batch_spec(old(self)@, ops@, incoming) == Err::<McModel, McError>(e)
                    && *final(self) == *old(self),
            },
    {
        let mut work = self.duplicate();
        let mut i: usize = 0;
        proof {
            assert(ops@.take(0) =~= Seq::<FriendTcOp>::empty());
        }
        while i < ops.len()
            invariant
                0 <= i <= ops.len(),
                work.wf(),
                self.wf(),
                *self == *old(self),
                apply_batch_spec(self@, ops@.take(i as int), incoming) == Ok::<McModel, McError>(work@),
            decreases ops.len() - i,
        {
            proof {
                assert(ops@.take(i as int + 1).drop_last() =~= ops@.take(i as int));
                assert(ops@.take(i as int + 1).last() == ops@[i as int]);
            }
            match work.apply_op(ops[i], incoming) {
                Ok(_) => {},
                Err(e) => {
                    proof {
                        lemma_batch_err_extends(self@, ops@, i as int + 1, incoming);
                    }
                    return Err(e);
                },
            }
            i += 1;
        }
        proof {
            assert(ops@.take(ops.len() as int) =~= ops@);
        }
        *self = work;
        Ok(())
    }
}

} // verus!
