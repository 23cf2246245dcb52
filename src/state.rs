use vstd::prelude::*;

use crate::friend::{apply_friend_mutation, channel_model, set_channel, new_friend_model, ChannelStatus, FriendModel, FriendMutation, FriendState};
use crate::types::{PublicKey, Uid};

verus! {

#[derive(Debug)]
pub struct AddFriend {
    pub friend_public_key: PublicKey,
    pub address: u32,
    pub name: String,
    pub balance: i128,
}

/// A change of the persisted state. The state changes only through these.
#[derive(Debug)]
pub enum FunderMutation {
    AddFriend(AddFriend),
    RemoveFriend(PublicKey),
    FriendMutation((PublicKey, FriendMutation)),
    /// Replaces the channel of a friend.
    SetChannelStatus((PublicKey, ChannelStatus)),
}

impl FunderMutation {
    /// A channel that the mutation installs is well formed.
    pub open spec fn wf(&self) -> bool {
        match self {
            FunderMutation::SetChannelStatus((_, cs)) => cs.wf(),
            _ => true,
        }
    }
}

/// The persisted state of a node. Each key occurs once in `friends`; their
/// order carries no meaning.
#[derive(Debug)]
pub struct FunderState {
    pub local_public_key: PublicKey,
    pub friends: Vec<(PublicKey, FriendState)>,
    pub ready_receipts: Vec<Uid>,
}

pub struct FunderModel {
    pub local_public_key: PublicKey,
    pub friends: Map<PublicKey, FriendModel>,
    pub num_ready_receipts: nat,
}

pub open spec fn friends_map(s: Seq<(PublicKey, FriendState)>) -> Map<PublicKey, FriendModel>
    decreases s.len(),
{
    if s.len() == 0 {
        Map::empty()
    } else {
        friends_map(s.drop_last()).insert(s.last().0, s.last().1@)
    }
}

pub open spec fn keys_unique(s: Seq<(PublicKey, FriendState)>) -> bool {
    forall|i: int, j: int|
        0 <= i < s.len() && 0 <= j < s.len() && #[trigger] s[i].0 == #[trigger] s[j].0 ==> i == j
}

impl View for FunderState {
    type V = FunderModel;

    open spec fn view(&self) -> FunderModel {
        FunderModel {
            local_public_key: self.local_public_key,
            friends: friends_map(self.friends@),
            num_ready_receipts: self.ready_receipts@.len(),
        }
    }
}

pub open spec fn apply_funder_mutation(s: FunderModel, m: FunderMutation) -> FunderModel {
    match m {
        FunderMutation::AddFriend(a) => {
            if s.friends.contains_key(a.friend_public_key) {
                s
            } else {
                FunderModel {
                    friends: s.friends.insert(
                        a.friend_public_key,
                        new_friend_model(s.local_public_key, a.friend_public_key, a.address, a.name@, a.balance),
                    ),
                    ..s
                }
            }
        },
        FunderMutation::RemoveFriend(pk) => FunderModel { friends: s.friends.remove(pk), ..s },
        FunderMutation::FriendMutation((pk, fm)) => {
            if s.friends.contains_key(pk) {
                FunderModel { friends: s.friends.insert(pk, apply_friend_mutation(s.friends[pk], fm)), ..s }
            } else {
                s
            }
        },
        FunderMutation::SetChannelStatus((pk, cs)) => {
            if s.friends.contains_key(pk) {
                FunderModel {
                    friends: s.friends.insert(pk, set_channel(s.friends[pk], channel_model(cs))),
                    ..s
                }
            } else {
                s
            }
        },
    }
}

proof fn lemma_unique_drop_last(s: Seq<(PublicKey, FriendState)>)
    requires
        s.len() > 0,
        keys_unique(s),
    ensures
        keys_unique(s.drop_last()),
{
    let t = s.drop_last();
    assert forall|i: int, j: int|
        0 <= i < t.len() && 0 <= j < t.len() && #[trigger] t[i].0 == #[trigger] t[j].0 implies i == j by {
        assert(t[i] == s[i] && t[j] == s[j]);
    }
}

pub proof fn lemma_map_not_contains(s: Seq<(PublicKey, FriendState)>, k: PublicKey)
    requires
        forall|i: int| 0 <= i < s.len() ==> #[trigger] s[i].0 != k,
    ensures
        !friends_map(s).contains_key(k),
    decreases s.len(),
{
    if s.len() > 0 {
        let t = s.drop_last();
        assert forall|i: int| 0 <= i < t.len() implies #[trigger] t[i].0 != k by {
            assert(t[i] == s[i]);
        }
        lemma_map_not_contains(t, k);
        assert(s.last() == s[s.len() - 1]);
    }
}

pub proof fn lemma_map_index(s: Seq<(PublicKey, FriendState)>, i: int)
    requires
        keys_unique(s),
        0 <= i < s.len(),
    ensures
        friends_map(s).contains_key(s[i].0),
        friends_map(s)[s[i].0] == s[i].1@,
    decreases s.len(),
{
    if i < s.len() - 1 {
        lemma_unique_drop_last(s);
        assert(s.drop_last()[i] == s[i]);
        lemma_map_index(s.drop_last(), i);
        assert(s[s.len() - 1].0 != s[i].0);
    }
}

pub proof fn lemma_map_remove(s: Seq<(PublicKey, FriendState)>, i: int)
    requires
        keys_unique(s),
        0 <= i < s.len(),
    ensures
        friends_map(s.remove(i)) == friends_map(s).remove(s[i].0),
        keys_unique(s.remove(i)),
    decreases s.len(),
{
    let k = s[i].0;
    let t = s.remove(i);
    assert forall|a: int, b: int|
        0 <= a < t.len() && 0 <= b < t.len() && #[trigger] t[a].0 == #[trigger] t[b].0 implies a == b by {
        let a2 = if a < i { a } else { a + 1 };
        let b2 = if b < i { b } else { b + 1 };
        assert(t[a] == s[a2] && t[b] == s[b2]);
    }
    lemma_unique_drop_last(s);
    if i == s.len() - 1 {
        assert(t =~= s.drop_last());
        assert forall|j: int| 0 <= j < s.drop_last().len() implies #[trigger] s.drop_last()[j].0 != k by {
            assert(s.drop_last()[j] == s[j]);
        }
        lemma_map_not_contains(s.drop_last(), k);
        assert(friends_map(t) =~= friends_map(s).remove(k));
    } else {
        assert(t.drop_last() =~= s.drop_last().remove(i));
        assert(t.last() == s.last());
        assert(s.drop_last()[i] == s[i]);
        lemma_map_remove(s.drop_last(), i);
        assert(s[s.len() - 1].0 != k);
        assert(friends_map(t) =~= friends_map(s).remove(k));
    }
}

pub proof fn lemma_map_update(s: Seq<(PublicKey, FriendState)>, i: int, f: FriendState)
    requires
        keys_unique(s),
        0 <= i < s.len(),
    ensures
        friends_map(s.update(i, (s[i].0, f))) == friends_map(s).insert(s[i].0, f@),
        keys_unique(s.update(i, (s[i].0, f))),
    decreases s.len(),
{
    let k = s[i].0;
    let t = s.update(i, (k, f));
    assert forall|a: int, b: int|
        0 <= a < t.len() && 0 <= b < t.len() && #[trigger] t[a].0 == #[trigger] t[b].0 implies a == b by {
        assert(s[a].0 == t[a].0 && s[b].0 == t[b].0);
    }
    lemma_unique_drop_last(s);
    if i == s.len() - 1 {
        assert(t.drop_last() =~= s.drop_last());
        assert(friends_map(t) =~= friends_map(s).insert(k, f@));
    } else {
        assert(t.drop_last() =~= s.drop_last().update(i, (k, f)));
        assert(s.drop_last()[i] == s[i]);
        lemma_map_update(s.drop_last(), i, f);
        assert(s[s.len() - 1].0 != k);
        assert(friends_map(t) =~= friends_map(s).insert(k, f@));
    }
}

impl FunderState {
    pub open spec fn wf(&self) -> bool {
        &&& keys_unique(self.friends@)
        &&& forall|i: int| 0 <= i < self.friends@.len() ==> (#[trigger] self.friends@[i]).1.wf()
    }

    pub fn new(local_public_key: PublicKey) -> (r: FunderState)
        ensures
            r.wf(),
            r@.local_public_key == local_public_key,
            r@.friends == Map::<PublicKey, FriendModel>::empty(),
            r@.num_ready_receipts == 0,
    {
        FunderState { local_public_key, friends: Vec::new(), ready_receipts: Vec::new() }
    }

    /// Position of the friend with the given key.
    pub fn find_friend(&self, pk: PublicKey) -> (r: Option<usize>)
        requires
            self.wf(),
        ensures
            r.is_some() == self@.friends.contains_key(pk),
            r.is_some() ==> r.unwrap() < self.friends@.len() && self.friends@[r.unwrap() as int].0 == pk
                && self@.friends[pk] == self.friends@[r.unwrap() as int].1@,
    {
        let mut i: usize = 0;
        while i < self.friends.len()
            invariant
                0 <= i <= self.friends.len(),
                self.wf(),
                forall|j: int| 0 <= j < i ==> #[trigger] self.friends@[j].0 != pk,
            decreases self.friends.len() - i,
        {
            if self.friends[i].0 == pk {
                proof {
                    lemma_map_index(self.friends@, i as int);
                }
                return Some(i);
            }
            i += 1;
        }
        proof {
            lemma_map_not_contains(self.friends@, pk);
        }
        None
    }

    /// The friend with the given key.
    pub fn get_friend(&self, pk: PublicKey) -> (r: Option<&FriendState>)
        requires
            self.wf(),
        ensures
            r.is_some() == self@.friends.contains_key(pk),
            r.is_some() ==> r.unwrap()@ == self@.friends[pk] && r.unwrap().wf(),
    {
        match self.find_friend(pk) {
            None => None,
            Some(i) => Some(&self.friends[i].1),
        }
    }

    /// Applies a mutation to the state.
    pub fn mutate(&mut self, m: &FunderMutation)
        requires
            old(self).wf(),
            m.wf(),
        ensures
            final(self).wf(),
            final(self)@ == apply_funder_mutation(old(self)@, *m),
    {
        match m {
            FunderMutation::AddFriend(a) => {
                if self.find_friend(a.friend_public_key).is_none() {
                    let f = FriendState::new(self.local_public_key, a.friend_public_key, a.address,
                        a.name.clone(), a.balance);
                    let ghost s0 = self.friends@;
                    self.friends.push((a.friend_public_key, f));
                    proof {
                        let s1 = self.friends@;
                        assert(s1.drop_last() =~= s0);
                        assert forall|x: int, y: int|
                            0 <= x < s1.len() && 0 <= y < s1.len() && #[trigger] s1[x].0 == #[trigger] s1[y].0
                            implies x == y by {
                            if x < s0.len() && y < s0.len() {
                                assert(s1[x] == s0[x] && s1[y] == s0[y]);
                            } else if x < s0.len() {
                                assert(s1[x] == s0[x]);
                                lemma_map_index(s0, x);
                            } else if y < s0.len() {
                                assert(s1[y] == s0[y]);
                                lemma_map_index(s0, y);
                            }
                        }
                        assert forall|j: int| 0 <= j < s1.len() implies (#[trigger] s1[j]).1.wf() by {
                            if j < s0.len() {
                                assert(s1[j] == s0[j]);
                            }
                        }
                    }
                }
            },
            FunderMutation::RemoveFriend(pk) => {
                match self.find_friend(*pk) {
                    None => {
                        proof {
                            assert(self@.friends.remove(*pk) =~= self@.friends);
                        }
                    },
                    Some(i) => {
                        proof {
                            lemma_map_remove(self.friends@, i as int);
                        }
                        let ghost s0 = self.friends@;
                        self.friends.remove(i);
                        proof {
                            let s1 = self.friends@;
                            assert forall|j: int| 0 <= j < s1.len() implies (#[trigger] s1[j]).1.wf() by {
                                if j < i {
                                    assert(s1[j] == s0[j]);
                                } else {
                                    assert(s1[j] == s0[j + 1]);
                                }
                            }
                        }
                    },
                }
            },
            FunderMutation::FriendMutation((pk, fm)) => {
                match self.find_friend(*pk) {
                    None => {},
                    Some(i) => {
                        let ghost s0 = self.friends@;
                        let (k, mut f) = self.friends.remove(i);
                        proof {
                            assert(s0[i as int] == (k, f));
                        }
                        f.mutate(fm);
                        proof {
                            lemma_map_update(s0, i as int, f);
                        }
                        self.friends.insert(i, (k, f));
                        proof {
                            let s1 = self.friends@;
                            assert(s1 =~= s0.update(i as int, (k, f)));
                            assert forall|j: int| 0 <= j < s1.len() implies (#[trigger] s1[j]).1.wf() by {
                                if j != i {
                                    assert(s1[j] == s0[j]);
                                }
                            }
                        }
                    },
                }
            },
            FunderMutation::SetChannelStatus((pk, cs)) => {
                match self.find_friend(*pk) {
                    None => {},
                    Some(i) => {
                        let ghost s0 = self.friends@;
                        let (k, mut f) = self.friends.remove(i);
                        proof {
                            assert(s0[i as int] == (k, f));
                        }
                        f.channel_status = cs.duplicate();
                        proof {
                            lemma_map_update(s0, i as int, f);
                            assert(f@ =~= set_channel(s0[i as int].1@, channel_model(*cs)));
                        }
                        self.friends.insert(i, (k, f));
                        proof {
                            let s1 = self.friends@;
                            assert(s1 =~= s0.update(i as int, (k, f)));
                            assert forall|j: int| 0 <= j < s1.len() implies (#[trigger] s1[j]).1.wf() by {
                                if j != i {
                                    assert(s1[j] == s0[j]);
                                }
                            }
                        }
                    },
                }
            },
        }
    }
}

} // verus!
