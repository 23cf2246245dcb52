use vstd::prelude::*;

use im::hashmap::HashMap as ImHashMap;

use crate::friend::{channel_report, new_friend_model, ChannelInconsistent, FriendModel, FriendState};
use crate::mutual_credit::{McBalance, McRequestsStatus, MutualCredit};
use crate::state::{apply_funder_mutation, friends_map, FunderModel, FunderMutation, FunderState};
use crate::friend::FriendMutation;
use crate::types::{FriendStatus, NodeReportMutateError, PublicKey, RequestsStatus};

verus! {

#[derive(Clone, Copy, Debug, PartialEq, Eq, Structural)]
pub struct McReport {
    pub balance: McBalance,
    pub requests_status: McRequestsStatus,
}

#[derive(Clone, Copy, Debug, PartialEq, Eq, Structural)]
pub enum DirectionReport {
    Incoming,
    Outgoing,
}

#[derive(Clone, Copy, Debug, PartialEq, Eq, Structural)]
pub struct TcReport {
    pub direction: DirectionReport,
    pub mutual_credit: McReport,
}

#[derive(Clone, Copy, Debug, PartialEq, Eq, Structural)]
pub enum ChannelStatusReport {
    Inconsistent(ChannelInconsistent),
    Consistent(TcReport),
}

/// Summary of a ledger: its balance and its requests status.
pub fn create_tc_report(mutual_credit: &MutualCredit) -> (r: McReport)
    ensures
        r == (McReport { balance: mutual_credit.balance, requests_status: mutual_credit.requests_status }),
{
    McReport { balance: mutual_credit.balance, requests_status: mutual_credit.requests_status }
}

#[derive(Clone, Debug, PartialEq, Eq)]
pub struct FriendReport {
    pub remote_address: u32,
    pub name: String,
    pub channel_status: ChannelStatusReport,
    pub wanted_remote_max_debt: u128,
    pub wanted_local_requests_status: RequestsStatus,
    pub num_pending_responses: u64,
    pub num_pending_requests: u64,
    pub status: FriendStatus,
    pub num_pending_user_requests: u64,
}

pub struct FriendReportModel {
    pub remote_address: u32,
    pub name: Seq<char>,
    pub channel_status: ChannelStatusReport,
    pub wanted_remote_max_debt: u128,
    pub wanted_local_requests_status: RequestsStatus,
    pub num_pending_responses: u64,
    pub num_pending_requests: u64,
    pub status: FriendStatus,
    pub num_pending_user_requests: u64,
}

impl View for FriendReport {
    type V = FriendReportModel;

    open spec fn view(&self) -> FriendReportModel {
        FriendReportModel {
            remote_address: self.remote_address,
            name: self.name@,
            channel_status: self.channel_status,
            wanted_remote_max_debt: self.wanted_remote_max_debt,
            wanted_local_requests_status: self.wanted_local_requests_status,
            num_pending_responses: self.num_pending_responses,
            num_pending_requests: self.num_pending_requests,
            status: self.status,
            num_pending_user_requests: self.num_pending_user_requests,
        }
    }
}

#[verifier::external_type_specification]
#[verifier::external_body]
#[verifier::reject_recursive_types(K)]
#[verifier::reject_recursive_types(V)]
#[verifier::reject_recursive_types(S)]
pub struct ExImHashMap<K, V, S>(ImHashMap<K, V, S>);

/// Friend reports, keyed by the friend's public key.
pub type ReportMap = ImHashMap<PublicKey, FriendReport>;

/// The entries that a map of friend reports holds.
pub uninterp spec fn report_entries(m: ReportMap) -> Map<PublicKey, FriendReport>;

/// Relies on im's `HashMap::new`: the map starts empty.
#[verifier::external_body]
fn report_map_new() -> (r: ReportMap)
    ensures
        report_entries(r).dom() == Set::<PublicKey>::empty(),
{
    ImHashMap::new()
}

/// Relies on im's `HashMap::insert`: the key is bound to the value, any
/// earlier value under it is replaced, other keys are kept.
#[verifier::external_body]
fn report_map_insert(m: &mut ReportMap, k: PublicKey, v: FriendReport)
    ensures
        report_entries(*final(m)) == report_entries(*old(m)).insert(k, v),
{
    m.insert(k, v);
}

/// Relies on im's `HashMap::remove`: the key leaves the map, and its value,
/// if it had one, is handed back.
#[verifier::external_body]
fn report_map_remove(m: &mut ReportMap, k: PublicKey) -> (r: Option<FriendReport>)
    ensures
        report_entries(*final(m)) == report_entries(*old(m)).remove(k),
        r == (if report_entries(*old(m)).contains_key(k) {
            Some(report_entries(*old(m))[k])
        } else {
            None
        }),
{
    m.remove(&k)
}

#[derive(Debug)]
pub struct FunderReport {
    pub friends: ReportMap,
    pub num_ready_receipts: usize,
    pub local_public_key: PublicKey,
}

pub struct FunderReportModel {
    pub friends: Map<PublicKey, FriendReportModel>,
    pub num_ready_receipts: usize,
    pub local_public_key: PublicKey,
}

pub open spec fn report_view_map(m: Map<PublicKey, FriendReport>) -> Map<PublicKey, FriendReportModel> {
    m.map_values(|r: FriendReport| r@)
}

impl View for FunderReport {
    type V = FunderReportModel;

    open spec fn view(&self) -> FunderReportModel {
        FunderReportModel {
            friends: report_view_map(report_entries(self.friends)),
            num_ready_receipts: self.num_ready_receipts,
            local_public_key: self.local_public_key,
        }
    }
}

#[derive(Debug)]
pub enum FriendReportMutation {
    SetFriendInfo((u32, String)),
    SetChannelStatus(ChannelStatusReport),
    SetWantedRemoteMaxDebt(u128),
    SetWantedLocalRequestsStatus(RequestsStatus),
    SetNumPendingResponses(u64),
    SetNumPendingRequests(u64),
    SetFriendStatus(FriendStatus),
    SetNumPendingUserRequests(u64),
}

#[derive(Debug)]
pub enum FunderReportMutation {
    AddFriend((PublicKey, u32, String, i128)),
    RemoveFriend(PublicKey),
    FriendReportMutation((PublicKey, FriendReportMutation)),
    SetNumReadyReceipts(u64),
}

/// The report of a friend: its fields, with counts in place of its queues.
pub open spec fn friend_report_of(f: FriendModel) -> FriendReportModel {
    FriendReportModel {
        remote_address: f.remote_address,
        name: f.name,
        channel_status: f.channel,
        wanted_remote_max_debt: f.wanted_remote_max_debt,
        wanted_local_requests_status: f.wanted_local_requests_status,
        num_pending_responses: f.pending_responses.len() as u64,
        num_pending_requests: f.pending_requests.len() as u64,
        status: f.status,
        num_pending_user_requests: f.pending_user_requests.len() as u64,
    }
}

/// The report of a whole state, folded over its friends.
pub open spec fn report_of(s: FunderModel) -> FunderReportModel {
    FunderReportModel {
        friends: s.friends.map_values(|f: FriendModel| friend_report_of(f)),
        num_ready_receipts: s.num_ready_receipts as usize,
        local_public_key: s.local_public_key,
    }
}

pub open spec fn apply_friend_report_mutation(r: FriendReportModel, m: FriendReportMutation) -> FriendReportModel {
    match m {
        FriendReportMutation::SetFriendInfo((address, name)) => FriendReportModel { remote_address: address, name: name@, ..r },
        FriendReportMutation::SetChannelStatus(c) => FriendReportModel { channel_status: c, ..r },
        FriendReportMutation::SetWantedRemoteMaxDebt(d) => FriendReportModel { wanted_remote_max_debt: d, ..r },
        FriendReportMutation::SetWantedLocalRequestsStatus(s) => FriendReportModel { wanted_local_requests_status: s, ..r },
        FriendReportMutation::SetNumPendingResponses(n) => FriendReportModel { num_pending_responses: n, ..r },
        FriendReportMutation::SetNumPendingRequests(n) => FriendReportModel { num_pending_requests: n, ..r },
        FriendReportMutation::SetFriendStatus(s) => FriendReportModel { status: s, ..r },
        FriendReportMutation::SetNumPendingUserRequests(n) => FriendReportModel { num_pending_user_requests: n, ..r },
    }
}

pub open spec fn apply_report_mutation(r: FunderReportModel, m: FunderReportMutation) -> FunderReportModel {
    match m {
        FunderReportMutation::AddFriend((pk, address, name, balance)) => {
            if r.friends.contains_key(pk) {
                r
            } else {
                FunderReportModel {
                    friends: r.friends.insert(
                        pk,
                        friend_report_of(new_friend_model(r.local_public_key, pk, address, name@, balance)),
                    ),
                    ..r
                }
            }
        },
        FunderReportMutation::RemoveFriend(pk) => FunderReportModel { friends: r.friends.remove(pk), ..r },
        FunderReportMutation::FriendReportMutation((pk, fm)) => {
            if r.friends.contains_key(pk) {
                FunderReportModel { friends: r.friends.insert(pk, apply_friend_report_mutation(r.friends[pk], fm)), ..r }
            } else {
                r
            }
        },
        FunderReportMutation::SetNumReadyReceipts(n) => FunderReportModel { num_ready_receipts: n as usize, ..r },
    }
}

/// Adding a friend that is there, or changing or removing one that is not.
pub open spec fn report_mutation_error(r: FunderReportModel, m: FunderReportMutation) -> bool {
    match m {
        FunderReportMutation::AddFriend((pk, _, _, _)) => r.friends.contains_key(pk),
        FunderReportMutation::RemoveFriend(pk) => !r.friends.contains_key(pk),
        FunderReportMutation::FriendReportMutation((pk, _)) => !r.friends.contains_key(pk),
        FunderReportMutation::SetNumReadyReceipts(_) => false,
    }
}

pub open spec fn apply_report_mutations(r: FunderReportModel, ms: Seq<FunderReportMutation>) -> FunderReportModel
    decreases ms.len(),
{
    if ms.len() == 0 {
        r
    } else {
        apply_report_mutation(apply_report_mutations(r, ms.drop_last()), ms.last())
    }
}

/// The report mutations that mirror one state mutation; `after` is the
/// state once the mutation is applied.
pub open spec fn report_mutations_of(after: FunderModel, m: FunderMutation) -> Seq<FunderReportMutation> {
    match m {
        FunderMutation::AddFriend(a) => seq![
            FunderReportMutation::AddFriend((a.friend_public_key, a.address, a.name, a.balance)),
        ],
        FunderMutation::RemoveFriend(pk) => seq![FunderReportMutation::RemoveFriend(pk)],
        FunderMutation::FriendMutation((pk, fm)) => {
            if !after.friends.contains_key(pk) {
                Seq::empty()
            } else {
                let f = after.friends[pk];
                let rm = match fm {
                    FriendMutation::SetStatus(st) => FriendReportMutation::SetFriendStatus(st),
                    FriendMutation::SetWantedRemoteMaxDebt(d) => FriendReportMutation::SetWantedRemoteMaxDebt(d),
                    FriendMutation::SetWantedLocalRequestsStatus(st) => FriendReportMutation::SetWantedLocalRequestsStatus(st),
                    FriendMutation::PushBackPendingResponse(_) => FriendReportMutation::SetNumPendingResponses(f.pending_responses.len() as u64),
                    FriendMutation::ClearPendingResponses => FriendReportMutation::SetNumPendingResponses(f.pending_responses.len() as u64),
                    FriendMutation::PushBackPendingRequest(_) => FriendReportMutation::SetNumPendingRequests(f.pending_requests.len() as u64),
                    FriendMutation::ClearPendingRequests => FriendReportMutation::SetNumPendingRequests(f.pending_requests.len() as u64),
                    FriendMutation::PushBackPendingUserRequest(_) => FriendReportMutation::SetNumPendingUserRequests(f.pending_user_requests.len() as u64),
                    FriendMutation::ClearPendingUserRequests => FriendReportMutation::SetNumPendingUserRequests(f.pending_user_requests.len() as u64),
                };
                seq![FunderReportMutation::FriendReportMutation((pk, rm))]
            }
        },
        FunderMutation::SetChannelStatus((pk, cs)) => {
            if !after.friends.contains_key(pk) {
                Seq::empty()
            } else {
                seq![
                    FunderReportMutation::FriendReportMutation(
                        (pk, FriendReportMutation::SetChannelStatus(channel_report(cs))),
                    ),
                ]
            }
        },
    }
}

/// The report mutations that mirror a stream of state mutations applied to
/// `s`, in the order of the stream.
pub open spec fn report_mutations_of_all(s: FunderModel, ms: Seq<FunderMutation>) -> Seq<FunderReportMutation>
    decreases ms.len(),
{
    if ms.len() == 0 {
        Seq::empty()
    } else {
        let prev = ms.drop_last();
        let after = apply_funder_mutation(crate::handler::apply_funder_mutations(s, prev), ms.last());
        report_mutations_of_all(s, prev) + report_mutations_of(after, ms.last())
    }
}

/// Replaying the report mutations of one state mutation on the report of
/// the state gives the report of the mutated state.
pub proof fn lemma_report_replay_step(s: FunderModel, m: FunderMutation)
    ensures
        report_of(apply_funder_mutation(s, m)) == apply_report_mutations(
            report_of(s),
            report_mutations_of(apply_funder_mutation(s, m), m),
        ),
{
    let after = apply_funder_mutation(s, m);
    let ms = report_mutations_of(after, m);
    if ms.len() == 1 {
        assert(ms.drop_last() =~= Seq::<FunderReportMutation>::empty());
        assert(apply_report_mutations(report_of(s), ms.drop_last()) == report_of(s));
        assert(ms.last() == ms[0]);
        assert(apply_report_mutations(report_of(s), ms) == apply_report_mutation(report_of(s), ms[0]));
    }
    match m {
        FunderMutation::AddFriend(a) => {
            assert(ms.drop_last() =~= Seq::<FunderReportMutation>::empty());
            assert(report_of(after).friends =~= apply_report_mutations(report_of(s), ms).friends);
        },
        FunderMutation::RemoveFriend(pk) => {
            assert(ms.drop_last() =~= Seq::<FunderReportMutation>::empty());
            assert(report_of(after).friends =~= apply_report_mutations(report_of(s), ms).friends);
        },
        FunderMutation::FriendMutation((pk, fm)) => {
            if s.friends.contains_key(pk) {
                assert(ms.drop_last() =~= Seq::<FunderReportMutation>::empty());
                assert(report_of(after).friends =~= apply_report_mutations(report_of(s), ms).friends);
            } else {
                assert(report_of(after).friends =~= report_of(s).friends);
            }
        },
        FunderMutation::SetChannelStatus((pk, cs)) => {
            if s.friends.contains_key(pk) {
                assert(report_of(after).friends =~= apply_report_mutations(report_of(s), ms).friends);
            } else {
                assert(report_of(after).friends =~= report_of(s).friends);
            }
        },
    }
}

proof fn lemma_apply_report_mutations_concat(r: FunderReportModel, a: Seq<FunderReportMutation>, b: Seq<FunderReportMutation>)
    ensures
        apply_report_mutations(r, a + b) == apply_report_mutations(apply_report_mutations(r, a), b),
    decreases b.len(),
{
    if b.len() == 0 {
        assert(a + b =~= a);
    } else {
        assert((a + b).drop_last() =~= a + b.drop_last());
        lemma_apply_report_mutations_concat(r, a, b.drop_last());
    }
}

/// The report built by folding over a state equals the report obtained by
/// replaying, from the report of the starting state, the report mutations
/// that mirror each state mutation of the stream, in emission order.
pub proof fn lemma_report_replay(s: FunderModel, ms: Seq<FunderMutation>)
    ensures
        report_of(crate::handler::apply_funder_mutations(s, ms)) == apply_report_mutations(
            report_of(s),
            report_mutations_of_all(s, ms),
        ),
    decreases ms.len(),
{
    if ms.len() > 0 {
        let prev = ms.drop_last();
        let mid = crate::handler::apply_funder_mutations(s, prev);
        lemma_report_replay(s, prev);
        lemma_report_replay_step(mid, ms.last());
        lemma_apply_report_mutations_concat(
            report_of(s),
            report_mutations_of_all(s, prev),
            report_mutations_of(apply_funder_mutation(mid, ms.last()), ms.last()),
        );
    }
}

pub fn create_friend_report(friend_state: &FriendState) -> (r: FriendReport)
    ensures
        r@ == friend_report_of(friend_state@),
{
    FriendReport {
        remote_address: friend_state.remote_address,
        name: friend_state.name.clone(),
        channel_status: friend_state.channel_status.report(),
        wanted_remote_max_debt: friend_state.wanted_remote_max_debt,
        wanted_local_requests_status: friend_state.wanted_local_requests_status,
        num_pending_responses: friend_state.pending_responses.len() as u64,
        num_pending_requests: friend_state.pending_requests.len() as u64,
        status: friend_state.status,
        num_pending_user_requests: friend_state.pending_user_requests.len() as u64,
    }
}

/// Builds the report of a state by folding over its friends.
pub fn create_report(funder_state: &FunderState) -> (r: FunderReport)
    ensures
        r@ == report_of(funder_state@),
{
    let mut friends = report_map_new();
    proof {
        assert(report_view_map(report_entries(friends)) =~= friends_map(funder_state.friends@.take(0)).map_values(
            |f: FriendModel| friend_report_of(f),
        ));
    }
    let mut i: usize = 0;
    while i < funder_state.friends.len()
        invariant
            0 <= i <= funder_state.friends.len(),
            report_view_map(report_entries(friends)) == friends_map(funder_state.friends@.take(i as int)).map_values(
                |f: FriendModel| friend_report_of(f),
            ),
        decreases funder_state.friends.len() - i,
    {
        let friend_public_key = funder_state.friends[i].0;
        let friend_report = create_friend_report(&funder_state.friends[i].1);
        let ghost before = report_entries(friends);
        report_map_insert(&mut friends, friend_public_key, friend_report);
        proof {
            let t = funder_state.friends@.take(i as int + 1);
            assert(t.drop_last() =~= funder_state.friends@.take(i as int));
            assert(t.last() == funder_state.friends@[i as int]);
            let fm0 = friends_map(funder_state.friends@.take(i as int));
            assert(friends_map(t) == fm0.insert(friend_public_key, funder_state.friends@[i as int].1@));
            assert(report_view_map(report_entries(friends)) =~= report_view_map(before).insert(friend_public_key, friend_report@));
            assert(friends_map(t).map_values(|f: FriendModel| friend_report_of(f)) =~= fm0.map_values(
                |f: FriendModel| friend_report_of(f),
            ).insert(friend_public_key, friend_report_of(funder_state.friends@[i as int].1@)));
            assert(report_view_map(report_entries(friends)) =~= friends_map(t).map_values(
                |f: FriendModel| friend_report_of(f),
            ));
        }
        i += 1;
    }
    proof {
        assert(funder_state.friends@.take(funder_state.friends@.len() as int) =~= funder_state.friends@);
    }
    FunderReport {
        friends,
        num_ready_receipts: funder_state.ready_receipts.len(),
        local_public_key: funder_state.local_public_key,
    }
}

impl FriendReport {
    pub fn mutate(&mut self, mutation: &FriendReportMutation)
        ensures
            final(self)@ == apply_friend_report_mutation(old(self)@, *mutation),
    {
        match mutation {
            FriendReportMutation::SetFriendInfo((address, name)) => {
                self.remote_address = *address;
                self.name = name.clone();
            },
            FriendReportMutation::SetChannelStatus(c) => self.channel_status = *c,
            FriendReportMutation::SetWantedRemoteMaxDebt(d) => self.wanted_remote_max_debt = *d,
            FriendReportMutation::SetWantedLocalRequestsStatus(st) => self.wanted_local_requests_status = *st,
            FriendReportMutation::SetNumPendingResponses(n) => self.num_pending_responses = *n,
            FriendReportMutation::SetNumPendingRequests(n) => self.num_pending_requests = *n,
            FriendReportMutation::SetFriendStatus(st) => self.status = *st,
            FriendReportMutation::SetNumPendingUserRequests(n) => self.num_pending_user_requests = *n,
        }
    }
}

impl FunderReport {
    /// Applies report mutations in order; one that is an error changes
    /// nothing and the rest still apply.
    pub fn mutate_all(&mut self, mutations: &Vec<FunderReportMutation>)
        ensures
            final(self)@ == apply_report_mutations(old(self)@, mutations@),
    {
        let mut i: usize = 0;
        proof {
            assert(mutations@.take(0) =~= Seq::<FunderReportMutation>::empty());
        }
        while i < mutations.len()
            invariant
                0 <= i <= mutations.len(),
                self@ == apply_report_mutations(old(self)@, mutations@.take(i as int)),
            decreases mutations.len() - i,
        {
            proof {
                assert(mutations@.take(i as int + 1).drop_last() =~= mutations@.take(i as int));
                assert(mutations@.take(i as int + 1).last() == mutations@[i as int]);
            }
            let _ = self.mutate(&mutations[i]);
            i += 1;
        }
        proof {
            assert(mutations@.take(mutations@.len() as int) =~= mutations@);
        }
    }

    /// Applies one report mutation. Adding a friend that is there, or
    /// changing or removing one that is not, is an error and changes
    /// nothing.
    pub fn mutate(&mut self, mutation: &FunderReportMutation) -> (r: Result<(), NodeReportMutateError>)
        ensures
            final(self)@ == apply_report_mutation(old(self)@, *mutation),
            r is Err <==> report_mutation_error(old(self)@, *mutation),
            r is Err ==> final(self)@ == old(self)@,
    {
        let ghost r0 = self@;
        let ghost e0 = report_entries(self.friends);
        match mutation {
            FunderReportMutation::AddFriend((pk, address, name, balance)) => {
                match report_map_remove(&mut self.friends, *pk) {
                    Some(existing) => {
                        report_map_insert(&mut self.friends, *pk, existing);
                        proof {
                            assert(report_entries(self.friends) =~= e0);
                            assert(self@.friends =~= r0.friends);
                        }
                        return Err(NodeReportMutateError);
                    },
                    None => {
                        let friend = FriendState::new(self.local_public_key, *pk, *address, name.clone(), *balance);
                        let report = create_friend_report(&friend);
                        report_map_insert(&mut self.friends, *pk, report);
                        proof {
                            assert(e0.remove(*pk) =~= e0);
                            assert(self@.friends =~= apply_report_mutation(r0, *mutation).friends);
                        }
                    },
                }
            },
            FunderReportMutation::RemoveFriend(pk) => {
                let removed = report_map_remove(&mut self.friends, *pk);
                proof {
                    assert(self@.friends =~= apply_report_mutation(r0, *mutation).friends);
                }
                if removed.is_none() {
                    proof {
                        assert(self@.friends =~= r0.friends);
                    }
                    return Err(NodeReportMutateError);
                }
            },
            FunderReportMutation::FriendReportMutation((pk, friend_mutation)) => {
                match report_map_remove(&mut self.friends, *pk) {
                    Some(existing) => {
                        let mut friend_report = existing;
                        friend_report.mutate(friend_mutation);
                        report_map_insert(&mut self.friends, *pk, friend_report);
                        proof {
                            assert(self@.friends =~= apply_report_mutation(r0, *mutation).friends);
                        }
                    },
                    None => {
                        proof {
                            assert(e0.remove(*pk) =~= e0);
                        }
                        return Err(NodeReportMutateError);
                    },
                }
            },
            FunderReportMutation::SetNumReadyReceipts(n) => {
                self.num_ready_receipts = *n as usize;
            },
        }
        Ok(())
    }
}

/// The report mutations that mirror `mutation`, given the state `after` it
/// was applied.
pub fn funder_mutation_to_report_mutations(after: &FunderState, mutation: &FunderMutation) -> (r: Vec<FunderReportMutation>)
    requires
        after.wf(),
    ensures
        r@ == report_mutations_of(after@, *mutation),
{
    let mut r: Vec<FunderReportMutation> = Vec::new();
    match mutation {
        FunderMutation::AddFriend(a) => {
            r.push(FunderReportMutation::AddFriend((a.friend_public_key, a.address, a.name.clone(), a.balance)));
        },
        FunderMutation::RemoveFriend(pk) => {
            r.push(FunderReportMutation::RemoveFriend(*pk));
        },
        FunderMutation::FriendMutation((pk, friend_mutation)) => {
            match after.get_friend(*pk) {
                None => {},
                Some(f) => {
                    let rm = match friend_mutation {
                        FriendMutation::SetStatus(st) => FriendReportMutation::SetFriendStatus(*st),
                        FriendMutation::SetWantedRemoteMaxDebt(d) => FriendReportMutation::SetWantedRemoteMaxDebt(*d),
                        FriendMutation::SetWantedLocalRequestsStatus(st) => FriendReportMutation::SetWantedLocalRequestsStatus(*st),
                        FriendMutation::PushBackPendingResponse(_) | FriendMutation::ClearPendingResponses =>
                            FriendReportMutation::SetNumPendingResponses(f.pending_responses.len() as u64),
                        FriendMutation::PushBackPendingRequest(_) | FriendMutation::ClearPendingRequests =>
                            FriendReportMutation::SetNumPendingRequests(f.pending_requests.len() as u64),
                        FriendMutation::PushBackPendingUserRequest(_) | FriendMutation::ClearPendingUserRequests =>
                            FriendReportMutation::SetNumPendingUserRequests(f.pending_user_requests.len() as u64),
                    };
                    r.push(FunderReportMutation::FriendReportMutation((*pk, rm)));
                },
            }
        },
        FunderMutation::SetChannelStatus((pk, cs)) => {
            if after.find_friend(*pk).is_some() {
                r.push(
                    FunderReportMutation::FriendReportMutation(
                        (*pk, FriendReportMutation::SetChannelStatus(cs.report())),
                    ),
                );
            }
        },
    }
    proof {
        assert(r@ =~= report_mutations_of(after@, *mutation));
    }
    r
}

} // verus!
