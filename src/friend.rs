use vstd::prelude::*;

use crate::mutual_credit::{McBalance, McRequestsStatus, PendingRequest};
use crate::report::{create_tc_report, ChannelStatusReport, DirectionReport, McReport, TcReport};
use crate::token_channel::{fresh_tc_model, initial_direction, MoveTokenModel, TcDirection, TcModel, TokenChannel};
use crate::types::{FriendStatus, PublicKey, RequestsStatus, Uid};

verus! {

/// A channel whose two sides disagree. Each side offers the balance at
/// which it would reset the channel.
#[derive(Clone, Copy, Debug, PartialEq, Eq, Structural)]
pub struct ChannelInconsistent {
    pub local_reset_balance: i128,
    pub opt_remote_reset_balance: Option<i128>,
    pub inconsistency_counter: u64,
}

#[derive(Debug)]
pub enum ChannelStatus {
    Consistent(TokenChannel),
    Inconsistent(ChannelInconsistent),
}

/// An answer waiting to be sent to a friend, for a request it sent us.
#[derive(Clone, Copy, Debug, PartialEq, Eq, Structural)]
pub enum ResponseOp {
    Response(Uid),
    Failure(Uid),
}

/// A request that a friend (`origin`) sent us, waiting to be forwarded.
#[derive(Clone, Copy, Debug, PartialEq, Eq, Structural)]
pub struct ForwardedRequest {
    pub request: PendingRequest,
    pub origin: PublicKey,
}

#[derive(Debug)]
pub struct FriendState {
    pub remote_address: u32,
    pub name: String,
    pub channel_status: ChannelStatus,
    pub wanted_remote_max_debt: u128,
    pub wanted_local_requests_status: RequestsStatus,
    /// Answers to send to this friend.
    pub pending_responses: Vec<ResponseOp>,
    /// Requests of other friends to forward to this friend.
    pub pending_requests: Vec<ForwardedRequest>,
    pub status: FriendStatus,
    /// Requests of the local user to send through this friend.
    pub pending_user_requests: Vec<PendingRequest>,
}

/// Mathematical model of a channel status.
pub enum ChannelModel {
    Consistent(TcModel),
    Inconsistent(ChannelInconsistent),
}

/// Mathematical model of a friend: its channel, the report view of it, and
/// its queues.
pub struct FriendModel {
    pub remote_address: u32,
    pub name: Seq<char>,
    pub channel: ChannelStatusReport,
    pub wanted_remote_max_debt: u128,
    pub wanted_local_requests_status: RequestsStatus,
    pub pending_responses: Seq<ResponseOp>,
    pub pending_requests: Seq<ForwardedRequest>,
    pub status: FriendStatus,
    pub pending_user_requests: Seq<PendingRequest>,
    /// The move-token that we would send again: the one we sent last, while
    /// the friend holds the token.
    pub resend: Option<MoveTokenModel>,
    pub channel_model: ChannelModel,
}

#[derive(Clone, Copy, Debug, PartialEq, Eq, Structural)]
pub enum FriendMutation {
    SetStatus(FriendStatus),
    SetWantedRemoteMaxDebt(u128),
    SetWantedLocalRequestsStatus(RequestsStatus),
    PushBackPendingResponse(ResponseOp),
    PushBackPendingRequest(ForwardedRequest),
    PushBackPendingUserRequest(PendingRequest),
    ClearPendingResponses,
    ClearPendingRequests,
    ClearPendingUserRequests,
}

pub open spec fn direction_report(d: TcDirection) -> DirectionReport {
    match d {
        TcDirection::Incoming => DirectionReport::Incoming,
        TcDirection::Outgoing => DirectionReport::Outgoing,
    }
}

pub open spec fn channel_model(c: ChannelStatus) -> ChannelModel {
    match c {
        ChannelStatus::Inconsistent(ci) => ChannelModel::Inconsistent(ci),
        ChannelStatus::Consistent(tc) => ChannelModel::Consistent(tc@),
    }
}

pub open spec fn model_report(c: ChannelModel) -> ChannelStatusReport {
    match c {
        ChannelModel::Inconsistent(ci) => ChannelStatusReport::Inconsistent(ci),
        ChannelModel::Consistent(tc) => ChannelStatusReport::Consistent(
            TcReport {
                direction: direction_report(tc.direction),
                mutual_credit: McReport { balance: tc.balance, requests_status: tc.requests_status },
            },
        ),
    }
}

pub open spec fn model_resend(c: ChannelModel) -> Option<MoveTokenModel> {
    match c {
        ChannelModel::Consistent(tc) => if tc.direction == TcDirection::Incoming && tc.opt_last_sent is Some {
            tc.opt_last_sent
        } else {
            None
        },
        ChannelModel::Inconsistent(_) => None,
    }
}

pub open spec fn channel_report(c: ChannelStatus) -> ChannelStatusReport {
    model_report(channel_model(c))
}

pub open spec fn channel_resend(c: ChannelStatus) -> Option<MoveTokenModel> {
    model_resend(channel_model(c))
}

/// The friend with its channel replaced.
pub open spec fn set_channel(f: FriendModel, c: ChannelModel) -> FriendModel {
    FriendModel { channel: model_report(c), resend: model_resend(c), channel_model: c, ..f }
}

/// The report view of a fresh channel with the given balance.
pub open spec fn new_channel_report(local_pk: PublicKey, remote_pk: PublicKey, balance: i128) -> ChannelStatusReport {
    model_report(ChannelModel::Consistent(fresh_tc_model(local_pk, remote_pk, balance, 0)))
}

/// A friend as it is added: disabled, no limits wanted, empty queues.
pub open spec fn new_friend_model(
    local_pk: PublicKey,
    remote_pk: PublicKey,
    remote_address: u32,
    name: Seq<char>,
    balance: i128,
) -> FriendModel {
    FriendModel {
        remote_address,
        name,
        channel: new_channel_report(local_pk, remote_pk, balance),
        wanted_remote_max_debt: 0,
        wanted_local_requests_status: RequestsStatus::Closed,
        pending_responses: Seq::empty(),
        pending_requests: Seq::empty(),
        status: FriendStatus::Disabled,
        pending_user_requests: Seq::empty(),
        resend: None,
        channel_model: ChannelModel::Consistent(fresh_tc_model(local_pk, remote_pk, balance, 0)),
    }
}

pub open spec fn apply_friend_mutation(f: FriendModel, m: FriendMutation) -> FriendModel {
    match m {
        FriendMutation::SetStatus(s) => FriendModel { status: s, ..f },
        FriendMutation::SetWantedRemoteMaxDebt(d) => FriendModel { wanted_remote_max_debt: d, ..f },
        FriendMutation::SetWantedLocalRequestsStatus(s) => FriendModel { wanted_local_requests_status: s, ..f },
        FriendMutation::PushBackPendingResponse(r) => FriendModel { pending_responses: f.pending_responses.push(r), ..f },
        FriendMutation::PushBackPendingRequest(r) => FriendModel { pending_requests: f.pending_requests.push(r), ..f },
        FriendMutation::PushBackPendingUserRequest(r) => FriendModel { pending_user_requests: f.pending_user_requests.push(r), ..f },
        FriendMutation::ClearPendingResponses => FriendModel { pending_responses: Seq::empty(), ..f },
        FriendMutation::ClearPendingRequests => FriendModel { pending_requests: Seq::empty(), ..f },
        FriendMutation::ClearPendingUserRequests => FriendModel { pending_user_requests: Seq::empty(), ..f },
    }
}

impl View for FriendState {
    type V = FriendModel;

    open spec fn view(&self) -> FriendModel {
        FriendModel {
            remote_address: self.remote_address,
            name: self.name@,
            channel: channel_report(self.channel_status),
            wanted_remote_max_debt: self.wanted_remote_max_debt,
            wanted_local_requests_status: self.wanted_local_requests_status,
            pending_responses: self.pending_responses@,
            pending_requests: self.pending_requests@,
            status: self.status,
            pending_user_requests: self.pending_user_requests@,
            resend: channel_resend(self.channel_status),
            channel_model: channel_model(self.channel_status),
        }
    }
}

impl ChannelStatus {
    pub open spec fn wf(&self) -> bool {
        match self {
            ChannelStatus::Consistent(tc) => tc.wf(),
            ChannelStatus::Inconsistent(_) => true,
        }
    }

    /// An independent copy of the channel status.
    pub fn duplicate(&self) -> (r: ChannelStatus)
        ensures
            channel_model(r) == channel_model(*self),
            r.wf() == self.wf(),
    {
        match self {
            ChannelStatus::Inconsistent(ci) => ChannelStatus::Inconsistent(*ci),
            ChannelStatus::Consistent(tc) => ChannelStatus::Consistent(tc.duplicate()),
        }
    }

    pub fn report(&self) -> (r: ChannelStatusReport)
        ensures
            r == channel_report(*self),
    {
        match self {
            ChannelStatus::Inconsistent(ci) => ChannelStatusReport::Inconsistent(*ci),
            ChannelStatus::Consistent(tc) => {
                let direction = match tc.direction {
                    TcDirection::Incoming => DirectionReport::Incoming,
                    TcDirection::Outgoing => DirectionReport::Outgoing,
                };
                ChannelStatusReport::Consistent(
                    TcReport { direction, mutual_credit: create_tc_report(&tc.mutual_credit) },
                )
            },
        }
    }
}

impl FriendState {
    pub open spec fn wf(&self) -> bool {
        self.channel_status.wf()
    }

    pub fn new(local_pk: PublicKey, remote_pk: PublicKey, remote_address: u32, name: String, balance: i128) -> (r: FriendState)
        ensures
            r.wf(),
            r@ == new_friend_model(local_pk, remote_pk, remote_address, name@, balance),
    {
        let r = FriendState {
            remote_address,
            name,
            channel_status: ChannelStatus::Consistent(TokenChannel::new(local_pk, remote_pk, balance)),
            wanted_remote_max_debt: 0,
            wanted_local_requests_status: RequestsStatus::Closed,
            pending_responses: Vec::new(),
            pending_requests: Vec::new(),
            status: FriendStatus::Disabled,
            pending_user_requests: Vec::new(),
        };
        proof {
            assert(r.pending_responses@ =~= Seq::empty());
            assert(r.pending_requests@ =~= Seq::empty());
            assert(r.pending_user_requests@ =~= Seq::empty());
            assert(r@ =~= new_friend_model(local_pk, remote_pk, remote_address, name@, balance));
        }
        r
    }

    pub fn mutate(&mut self, m: &FriendMutation)
        requires
            old(self).wf(),
        ensures
            final(self).wf(),
            final(self)@ == apply_friend_mutation(old(self)@, *m),
            final(self).channel_status == old(self).channel_status,
    {
        match *m {
            FriendMutation::SetStatus(s) => self.status = s,
            FriendMutation::SetWantedRemoteMaxDebt(d) => self.wanted_remote_max_debt = d,
            FriendMutation::SetWantedLocalRequestsStatus(s) => self.wanted_local_requests_status = s,
            FriendMutation::PushBackPendingResponse(r) => self.pending_responses.push(r),
            FriendMutation::PushBackPendingRequest(r) => self.pending_requests.push(r),
            FriendMutation::PushBackPendingUserRequest(r) => self.pending_user_requests.push(r),
            FriendMutation::ClearPendingResponses => self.pending_responses = Vec::new(),
            FriendMutation::ClearPendingRequests => self.pending_requests = Vec::new(),
            FriendMutation::ClearPendingUserRequests => self.pending_user_requests = Vec::new(),
        }
        proof {
            assert(final(self)@ =~= apply_friend_mutation(old(self)@, *m));
        }
    }
}

} // verus!
