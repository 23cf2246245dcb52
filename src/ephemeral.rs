use vstd::prelude::*;

use crate::types::PublicKey;

verus! {

/// The friends that are currently online. Each key occurs once.
#[derive(Debug)]
pub struct Liveness {
    pub friends: Vec<PublicKey>,
}

#[derive(Clone, Copy, Debug, PartialEq, Eq, Structural)]
pub enum LivenessMutation {
    SetOnline(PublicKey),
    SetOffline(PublicKey),
}

#[derive(Clone, Copy, Debug, PartialEq, Eq, Structural)]
pub enum EphemeralMutation {
    LivenessMutation(LivenessMutation),
}

/// State that lives only as long as the process: never persisted.
#[derive(Debug)]
pub struct Ephemeral {
    pub liveness: Liveness,
}

pub open spec fn online_after(online: Set<PublicKey>, m: EphemeralMutation) -> Set<PublicKey> {
    match m {
        EphemeralMutation::LivenessMutation(LivenessMutation::SetOnline(pk)) => online.insert(pk),
        EphemeralMutation::LivenessMutation(LivenessMutation::SetOffline(pk)) => online.remove(pk),
    }
}

impl Liveness {
    pub open spec fn online(&self) -> Set<PublicKey> {
        self.friends@.to_set()
    }

    pub open spec fn wf(&self) -> bool {
        self.friends@.no_duplicates()
    }

    pub fn new() -> (r: Liveness)
        ensures
            r.wf(),
            r.online() == Set::<PublicKey>::empty(),
    {
        let r = Liveness { friends: Vec::new() };
        proof {
            assert(r.online() =~= Set::<PublicKey>::empty());
        }
        r
    }

    pub fn is_online(&self, pk: PublicKey) -> (r: bool)
        ensures
            r == self.online().contains(pk),
    {
        let mut i: usize = 0;
        while i < self.friends.len()
            invariant
                0 <= i <= self.friends.len(),
                forall|j: int| 0 <= j < i ==> #[trigger] self.friends@[j] != pk,
            decreases self.friends.len() - i,
        {
            if self.friends[i] == pk {
                proof {
                    assert(self.friends@.contains(pk));
                }
                return true;
            }
            i += 1;
        }
        false
    }

    pub fn set_online(&mut self, pk: PublicKey)
        requires
            old(self).wf(),
        ensures
            final(self).wf(),
            final(self).online() == old(self).online().insert(pk),
    {
        if !self.is_online(pk) {
            let ghost s0 = self.friends@;
            self.friends.push(pk);
            proof {
                let s1 = self.friends@;
                assert(s1 =~= s0.push(pk));
                assert(s1[s0.len() as int] == pk);
                assert forall|k: PublicKey| s1.to_set().contains(k) == s0.to_set().insert(pk).contains(k) by {
                    if s0.contains(k) {
                        let j = choose|j: int| 0 <= j < s0.len() && s0[j] == k;
                        assert(s1[j] == k);
                    }
                    if s1.contains(k) {
                        let j = choose|j: int| 0 <= j < s1.len() && s1[j] == k;
                        if j < s0.len() {
                            assert(s0[j] == k);
                        }
                    }
                }
                assert forall|a: int, b: int| 0 <= a < s1.len() && 0 <= b < s1.len() && a != b
                    implies s1[a] != s1[b] by {
                    if a < s0.len() && b < s0.len() {
                        assert(s1[a] == s0[a] && s1[b] == s0[b]);
                    } else if a < s0.len() {
                        assert(s1[a] == s0[a]);
                        assert(s0.contains(s0[a]));
                    } else if b < s0.len() {
                        assert(s1[b] == s0[b]);
                        assert(s0.contains(s0[b]));
                    }
                }
                assert(s1.to_set() =~= s0.to_set().insert(pk));
            }
        } else {
            proof {
                assert(self.online().insert(pk) =~= self.online());
            }
        }
    }

    pub fn set_offline(&mut self, pk: PublicKey)
        requires
            old(self).wf(),
        ensures
            final(self).wf(),
            final(self).online() == old(self).online().remove(pk),
    {
        let ghost s0 = self.friends@;
        let mut i: usize = 0;
        while i < self.friends.len()
            invariant
                0 <= i <= self.friends.len(),
                self.friends@ == s0,
                s0 == old(self).friends@,
                s0.no_duplicates(),
                forall|j: int| 0 <= j < i ==> #[trigger] s0[j] != pk,
            decreases self.friends.len() - i,
        {
            if self.friends[i] == pk {
                self.friends.remove(i);
                proof {
                    let s1 = self.friends@;
                    assert(s1 =~= s0.remove(i as int));
                    assert forall|a: int, b: int| 0 <= a < s1.len() && 0 <= b < s1.len() && a != b
                        implies s1[a] != s1[b] by {
                        let a2 = if a < i { a } else { a + 1 };
                        let b2 = if b < i { b } else { b + 1 };
                        assert(s1[a] == s0[a2] && s1[b] == s0[b2]);
                    }
                    assert forall|k: PublicKey| s1.to_set().contains(k) == s0.to_set().remove(pk).contains(k) by {
                        if s0.to_set().remove(pk).contains(k) {
                            let j = choose|j: int| 0 <= j < s0.len() && s0[j] == k;
                            assert(j != i);
                            let j2 = if j < i { j } else { j - 1 };
                            assert(s1[j2] == k);
                        }
                        if s1.to_set().contains(k) {
                            let j = choose|j: int| 0 <= j < s1.len() && s1[j] == k;
                            let j2 = if j < i { j } else { j + 1 };
                            assert(s0[j2] == k);
                            assert(j2 != i);
                        }
                    }
                    assert(s1.to_set() =~= s0.to_set().remove(pk));
                }
                return;
            }
            i += 1;
        }
        proof {
            assert(!s0.contains(pk));
            assert(s0.to_set().remove(pk) =~= s0.to_set());
        }
    }
}

impl Ephemeral {
    pub open spec fn wf(&self) -> bool {
        self.liveness.wf()
    }

    pub fn new() -> (r: Ephemeral)
        ensures
            r.wf(),
            r.liveness.online() == Set::<PublicKey>::empty(),
    {
        Ephemeral { liveness: Liveness::new() }
    }

    pub fn mutate(&mut self, m: &EphemeralMutation)
        requires
            old(self).wf(),
        ensures
            final(self).wf(),
            final(self).liveness.online() == online_after(old(self).liveness.online(), *m),
    {
        match *m {
            EphemeralMutation::LivenessMutation(LivenessMutation::SetOnline(pk)) => self.liveness.set_online(pk),
            EphemeralMutation::LivenessMutation(LivenessMutation::SetOffline(pk)) => self.liveness.set_offline(pk),
        }
    }
}

/// Ephemeral state together with the mutations applied to it.
#[derive(Debug)]
pub struct MutableEphemeral {
    pub ephemeral: Ephemeral,
    pub mutations: Vec<EphemeralMutation>,
}

impl MutableEphemeral {
    pub fn new(ephemeral: Ephemeral) -> (r: MutableEphemeral)
        ensures
            r.ephemeral == ephemeral,
            r.mutations@.len() == 0,
    {
        MutableEphemeral { ephemeral, mutations: Vec::new() }
    }

    pub fn ephemeral(&self) -> (r: &Ephemeral)
        ensures
            *r == self.ephemeral,
    {
        &self.ephemeral
    }

    pub fn mutate(&mut self, m: EphemeralMutation)
        requires
            old(self).ephemeral.wf(),
        ensures
            final(self).ephemeral.wf(),
            final(self).ephemeral.liveness.online() == online_after(old(self).ephemeral.liveness.online(), m),
            final(self).mutations@ == old(self).mutations@.push(m),
    {
        self.ephemeral.mutate(&m);
        self.mutations.push(m);
    }

    /// The mutations that were applied, and the resulting state.
    pub fn done(self) -> (r: (Vec<EphemeralMutation>, Ephemeral))
        ensures
            r.0@ == self.mutations@,
            r.1 == self.ephemeral,
    {
        (self.mutations, self.ephemeral)
    }
}

} // verus!
