use vstd::prelude::*;

use crate::mutual_credit::{apply_batch_spec, new_mc_model, FriendTcOp, McBalance, McError, McModel, McRequestsStatus, MutualCredit};
use crate::mutual_credit::{balance_record, new_mc_balance, status_record};
use crate::types::{PublicKey, RequestsStatus};

verus! {

/// Who holds the token: `Outgoing` means that we hold it and may send the
/// next move-token; `Incoming` means that the remote side holds it.
#[derive(Clone, Copy, Debug, PartialEq, Eq, Structural)]
pub enum TcDirection {
    Incoming,
    Outgoing,
}

/// A batch of operations that also hands the token over.
#[derive(Debug)]
pub struct MoveToken {
    pub operations: Vec<FriendTcOp>,
    pub move_token_counter: u64,
    pub inconsistency_counter: u64,
    /// The balance as the sender sees it after the batch.
    pub balance: i128,
}

pub struct MoveTokenModel {
    pub operations: Seq<FriendTcOp>,
    pub move_token_counter: u64,
    pub inconsistency_counter: u64,
    pub balance: i128,
}

impl View for MoveToken {
    type V = MoveTokenModel;

    open spec fn view(&self) -> MoveTokenModel {
        MoveTokenModel {
            operations: self.operations@,
            move_token_counter: self.move_token_counter,
            inconsistency_counter: self.inconsistency_counter,
            balance: self.balance,
        }
    }
}

impl MoveToken {
    pub fn duplicate(&self) -> (r: MoveToken)
        ensures
            r@ == self@,
    {
        let operations = self.operations.clone();
        proof {
            assert(operations@ =~= self.operations@);
        }
        MoveToken {
            operations,
            move_token_counter: self.move_token_counter,
            inconsistency_counter: self.inconsistency_counter,
            balance: self.balance,
        }
    }
}

/// A move-token together with a flag that asks for the token back.
#[derive(Debug)]
pub struct MoveTokenRequest {
    pub friend_move_token: MoveToken,
    pub token_wanted: bool,
}

#[derive(Clone, Copy, Debug, PartialEq, Eq, Structural)]
pub enum TcError {
    /// We do not hold the token, so we may not send.
    NotHoldingToken,
    /// The move-token counter cannot grow any further.
    CounterOverflow,
    /// An operation of the batch was refused; nothing was applied.
    InvalidOperationBatch(McError),
    /// The sender's balance is not the mirror of ours after the batch.
    BalanceMismatch,
    /// The counters of the move-token do not fit the channel.
    TokenMismatch,
}

/// What an incoming move-token did to the channel.
#[derive(Clone, Copy, Debug, PartialEq, Eq, Structural)]
pub enum ReceiveOutcome {
    /// A new batch was applied and we now hold the token.
    Accepted,
    /// The move-token was one that we had already accepted.
    Duplicate,
}

/// The token channel with one friend.
#[derive(Debug)]
pub struct TokenChannel {
    pub direction: TcDirection,
    /// Counter of the next move-token to be sent or received.
    pub move_token_counter: u64,
    /// Number of resets that the channel went through.
    pub inconsistency_counter: u64,
    pub mutual_credit: MutualCredit,
    /// The last move-token that we sent, kept while the remote side holds
    /// the token so that it can be sent again.
    pub opt_last_sent: Option<MoveToken>,
}

/// Mathematical model of a token channel.
pub struct TcModel {
    pub direction: TcDirection,
    pub move_token_counter: u64,
    pub inconsistency_counter: u64,
    pub mutual_credit: McModel,
    /// The ledger's stored balance record and requests status.
    pub balance: McBalance,
    pub requests_status: McRequestsStatus,
    pub opt_last_sent: Option<MoveTokenModel>,
}

impl View for TokenChannel {
    type V = TcModel;

    open spec fn view(&self) -> TcModel {
        TcModel {
            direction: self.direction,
            move_token_counter: self.move_token_counter,
            inconsistency_counter: self.inconsistency_counter,
            mutual_credit: self.mutual_credit@,
            balance: self.mutual_credit.balance,
            requests_status: self.mutual_credit.requests_status,
            opt_last_sent: match self.opt_last_sent {
                Some(mt) => Some(mt@),
                None => None,
            },
        }
    }
}

/// A fresh channel at `balance` in the reset epoch `inconsistency_counter`.
pub open spec fn fresh_tc_model(local_pk: PublicKey, remote_pk: PublicKey, balance: i128, inconsistency_counter: u64) -> TcModel {
    TcModel {
        direction: initial_direction(local_pk, remote_pk),
        move_token_counter: 0,
        inconsistency_counter,
        mutual_credit: new_mc_model(balance as int),
        balance: new_mc_balance(balance),
        requests_status: McRequestsStatus { local: RequestsStatus::Closed, remote: RequestsStatus::Closed },
        opt_last_sent: None,
    }
}

/// The side with the lower key holds the token first.
pub open spec fn initial_direction(local_pk: PublicKey, remote_pk: PublicKey) -> TcDirection {
    if local_pk < remote_pk {
        TcDirection::Outgoing
    } else {
        TcDirection::Incoming
    }
}

/// `post` is `pre` after sending `ops` in the move-token `mt`.
pub open spec fn sent_move_token(pre: TcModel, ops: Seq<FriendTcOp>, post: TcModel, mt: MoveTokenModel) -> bool {
    &&& pre.direction == TcDirection::Outgoing
    &&& pre.move_token_counter < u64::MAX
    &&& apply_batch_spec(pre.mutual_credit, ops, false) == Ok::<McModel, McError>(post.mutual_credit)
    &&& post.direction == TcDirection::Incoming
    &&& post.move_token_counter == pre.move_token_counter + 1
    &&& post.inconsistency_counter == pre.inconsistency_counter
    &&& mt.operations == ops
    &&& mt.move_token_counter == pre.move_token_counter
    &&& mt.inconsistency_counter == pre.inconsistency_counter
    &&& mt.balance == post.balance.balance
    &&& post.balance == balance_record(post.mutual_credit)
    &&& post.requests_status == status_record(post.mutual_credit)
    &&& post.opt_last_sent == Some(mt)
}

/// `post` is `pre` after accepting the new move-token `mt`.
pub open spec fn accepted_move_token(pre: TcModel, mt: MoveTokenModel, post: TcModel) -> bool {
    &&& pre.direction == TcDirection::Incoming
    &&& mt.move_token_counter == pre.move_token_counter
    &&& mt.inconsistency_counter == pre.inconsistency_counter
    &&& pre.move_token_counter < u64::MAX
    &&& apply_batch_spec(pre.mutual_credit, mt.operations, true) == Ok::<McModel, McError>(post.mutual_credit)
    &&& mt.balance as int == -(post.mutual_credit.balance)
    &&& post.direction == TcDirection::Outgoing
    &&& post.move_token_counter == pre.move_token_counter + 1
    &&& post.inconsistency_counter == pre.inconsistency_counter
    &&& post.balance == balance_record(post.mutual_credit)
    &&& post.requests_status == status_record(post.mutual_credit)
    &&& post.opt_last_sent is None
}

/// `pre` accepts `mt` as a new move-token: the remote side holds the token,
/// the counters fit, the batch applies, and the sender's balance mirrors
/// ours after it.
pub open spec fn accepts(pre: TcModel, mt: MoveTokenModel) -> bool {
    &&& pre.direction == TcDirection::Incoming
    &&& mt.move_token_counter == pre.move_token_counter
    &&& mt.inconsistency_counter == pre.inconsistency_counter
    &&& pre.move_token_counter < u64::MAX
    &&& apply_batch_spec(pre.mutual_credit, mt.operations, true) is Ok
    &&& mt.balance as int == -(apply_batch_spec(pre.mutual_credit, mt.operations, true).get_Ok_0().balance)
}

/// `mt` is the move-token that `pre` accepted last.
pub open spec fn is_duplicate(pre: TcModel, mt: MoveTokenModel) -> bool {
    &&& pre.direction == TcDirection::Outgoing
    &&& mt.inconsistency_counter == pre.inconsistency_counter
    &&& mt.move_token_counter + 1 == pre.move_token_counter
}

/// Token possession alternates strictly. After a side sends a move-token it
/// does not hold the token, cannot send again, and gets the token back only
/// by accepting a move-token from its peer; each accepted batch raises the
/// move-token counter.
pub proof fn lemma_token_alternates(
    pre: TcModel,
    ops: Seq<FriendTcOp>,
    mid: TcModel,
    mt: MoveTokenModel,
    mt2: MoveTokenModel,
    post: TcModel,
)
    requires
        sent_move_token(pre, ops, mid, mt),
    ensures
        mid.direction == TcDirection::Incoming,
        mid.move_token_counter > pre.move_token_counter,
        forall|ops2: Seq<FriendTcOp>, any: TcModel, mt3: MoveTokenModel|
            !#[trigger] sent_move_token(mid, ops2, any, mt3),
        !is_duplicate(mid, mt2),
        accepted_move_token(mid, mt2, post) ==> post.direction == TcDirection::Outgoing
            && post.move_token_counter > mid.move_token_counter,
{
}

impl TokenChannel {
    pub open spec fn wf(&self) -> bool {
        self.mutual_credit.wf()
    }

    pub fn new(local_pk: PublicKey, remote_pk: PublicKey, balance: i128) -> (r: TokenChannel)
        ensures
            r.wf(),
            r@ == fresh_tc_model(local_pk, remote_pk, balance, 0),
    {
        let direction = if local_pk < remote_pk {
            TcDirection::Outgoing
        } else {
            TcDirection::Incoming
        };
        TokenChannel {
            direction,
            move_token_counter: 0,
            inconsistency_counter: 0,
            mutual_credit: MutualCredit::new(balance),
            opt_last_sent: None,
        }
    }

    /// An independent copy of the channel.
    pub fn duplicate(&self) -> (r: TokenChannel)
        ensures
            r@ == self@,
            r.wf() == self.wf(),
    {
        let opt_last_sent = match &self.opt_last_sent {
            Some(mt) => Some(mt.duplicate()),
            None => None,
        };
        TokenChannel {
            direction: self.direction,
            move_token_counter: self.move_token_counter,
            inconsistency_counter: self.inconsistency_counter,
            mutual_credit: self.mutual_credit.duplicate(),
            opt_last_sent,
        }
    }

    /// A fresh channel after a reset agreed at `balance`: counters zeroed,
    /// the reset epoch recorded.
    pub fn new_reset(local_pk: PublicKey, remote_pk: PublicKey, balance: i128, inconsistency_counter: u64) -> (r: TokenChannel)
        ensures
            r.wf(),
            r@ == fresh_tc_model(local_pk, remote_pk, balance, inconsistency_counter),
    {
        let mut r = TokenChannel::new(local_pk, remote_pk, balance);
        r.inconsistency_counter = inconsistency_counter;
        r
    }

    pub fn is_outgoing(&self) -> (r: bool)
        ensures
            r == (self.direction == TcDirection::Outgoing),
    {
        self.direction == TcDirection::Outgoing
    }

    pub fn balance(&self) -> (r: i128)
        ensures
            r == self.mutual_credit.balance.balance,
    {
        self.mutual_credit.balance.balance
    }

    /// Sends `ops` in a new move-token, which hands the token to the remote
    /// side. On error the channel is unchanged.
    pub fn send_move_token(&mut self, ops: Vec<FriendTcOp>) -> (r: Result<MoveToken, TcError>)
        requires
            old(self).wf(),
        ensures
            final(self).wf(),
            match r {
                Ok(mt) => sent_move_token(old(self)@, ops@, final(self)@, mt@),
                Err(e) => *final(self) == *old(self) && e == (
                    if old(self).direction != TcDirection::Outgoing {
                        TcError::NotHoldingToken
                    } else if old(self).move_token_counter == u64::MAX {
                        TcError::CounterOverflow
                    } else {
                        TcError::InvalidOperationBatch(
                            apply_batch_spec(old(self).mutual_credit@, ops@, false).get_Err_0(),
                        )
                    }),
            },
            r is Err <==> (old(self).direction != TcDirection::Outgoing
                || old(self).move_token_counter == u64::MAX
                || apply_batch_spec(old(self).mutual_credit@, ops@, false) is Err),
    {
        if self.direction != TcDirection::Outgoing {
            return Err(TcError::NotHoldingToken);
        }
        if self.move_token_counter == u64::MAX {
            return Err(TcError::CounterOverflow);
        }
        match self.mutual_credit.apply_batch(&ops, false) {
            Err(e) => Err(TcError::InvalidOperationBatch(e)),
            Ok(_) => {
                let mt = MoveToken {
                    operations: ops,
                    move_token_counter: self.move_token_counter,
                    inconsistency_counter: self.inconsistency_counter,
                    balance: self.mutual_credit.balance.balance,
                };
                self.opt_last_sent = Some(mt.duplicate());
                self.direction = TcDirection::Incoming;
                self.move_token_counter = self.move_token_counter + 1;
                proof {
                    self.mutual_credit.lemma_records();
                }
                Ok(mt)
            },
        }
    }

    /// Takes in a move-token from the remote side. A new one is applied as a
    /// whole and gives us the token; the one accepted last is recognised and
    /// changes nothing. On error the channel is unchanged.
    pub fn receive_move_token(&mut self, mt: &MoveToken) -> (r: Result<ReceiveOutcome, TcError>)
        requires
            old(self).wf(),
        ensures
            final(self).wf(),
            match r {
                Ok(ReceiveOutcome::Accepted) => accepted_move_token(old(self)@, mt@, final(self)@),
                Ok(ReceiveOutcome::Duplicate) => is_duplicate(old(self)@, mt@) && *final(self) == *old(self),
                Err(e) => *final(self) == *old(self) && e == (
                    if mt.inconsistency_counter != old(self).inconsistency_counter
                        || old(self).direction == TcDirection::Outgoing
                        || mt.move_token_counter != old(self).move_token_counter
                        || old(self).move_token_counter == u64::MAX {
                        TcError::TokenMismatch
                    } else if apply_batch_spec(old(self).mutual_credit@, mt@.operations, true) is Err {
                        TcError::InvalidOperationBatch(
                            apply_batch_spec(old(self).mutual_credit@, mt@.operations, true).get_Err_0(),
                        )
                    } else {
                        TcError::BalanceMismatch
                    }),
            },
            r == Ok::<ReceiveOutcome, TcError>(ReceiveOutcome::Duplicate) <==> is_duplicate(old(self)@, mt@),
            r is Err <==> !is_duplicate(old(self)@, mt@) && !accepts(old(self)@, mt@),
            r == Ok::<ReceiveOutcome, TcError>(ReceiveOutcome::Accepted) <==> accepts(old(self)@, mt@),
    {
        if mt.inconsistency_counter != self.inconsistency_counter {
            return Err(TcError::TokenMismatch);
        }
        if self.direction == TcDirection::Outgoing {
            if self.move_token_counter > 0 && mt.move_token_counter == self.move_token_counter - 1 {
                return Ok(ReceiveOutcome::Duplicate);
            }
            return Err(TcError::TokenMismatch);
        }
        if mt.move_token_counter != self.move_token_counter || self.move_token_counter == u64::MAX {
            return Err(TcError::TokenMismatch);
        }
        let mut mc = self.mutual_credit.duplicate();
        match mc.apply_batch(&mt.operations, true) {
            Err(e) => Err(TcError::InvalidOperationBatch(e)),
            Ok(_) => {
                let ours = mc.balance.balance;
                if ours == i128::MIN || mt.balance != -ours {
                    return Err(TcError::BalanceMismatch);
                }
                self.mutual_credit = mc;
                self.direction = TcDirection::Outgoing;
                self.move_token_counter = self.move_token_counter + 1;
                self.opt_last_sent = None;
                proof {
                    self.mutual_credit.lemma_records();
                }
                Ok(ReceiveOutcome::Accepted)
            },
        }
    }
}

} // verus!
