//! The admission pool: a capacity-bounded registry of the peers that
//! currently hold a tarpit session. It is the single source of truth
//! for "who is admitted", and it enforces two rules at every step:
//! membership never exceeds the capacity fixed at construction, and no
//! peer is admitted twice without an intervening release.
//!
//! The pool's behaviour is pinned to a small mathematical model: a set
//! of peers stepped by [`pool_step`]. The laws at the bottom of this
//! module prove the capacity bound, the uniqueness of admission, the
//! idempotence of release, and the exact fill/reject/refill behaviour
//! over that model, so they hold of any sequence of calls on the pool.

use vstd::prelude::*;

use crate::peer::PeerAddr;

verus! {

/// One operation on the admission pool: an attempted admission or a
/// release of a peer.
#[derive(Clone, Copy, PartialEq, Eq, Structural, Debug)]
pub enum PoolOp {
    Admit(PeerAddr),
    Release(PeerAddr),
}

/// Whether an attempt to admit `p` against members `s` under capacity
/// `cap` is granted: there must be room, and `p` must not already hold
/// a slot.
pub open spec fn admit_granted(cap: nat, s: Set<PeerAddr>, p: PeerAddr) -> bool {
    s.len() < cap && !s.contains(p)
}

/// The members after one operation: a granted admission adds the peer,
/// a refused one changes nothing, and a release removes the peer
/// whether or not it was a member.
pub open spec fn pool_step(cap: nat, s: Set<PeerAddr>, op: PoolOp) -> Set<PeerAddr> {
    match op {
        PoolOp::Admit(p) => if admit_granted(cap, s, p) {
            s.insert(p)
        } else {
            s
        },
        PoolOp::Release(p) => s.remove(p),
    }
}

/// The members after a whole sequence of operations applied in order,
/// starting from `s`.
pub open spec fn pool_run(cap: nat, s: Set<PeerAddr>, ops: Seq<PoolOp>) -> Set<PeerAddr>
    decreases ops.len(),
{
    if ops.len() == 0 {
        s
    } else {
        pool_run(cap, pool_step(cap, s, ops.first()), ops.drop_first())
    }
}

/// A pool of unique peer addresses with a hard capacity ceiling.
///
/// The members are kept in a duplicate-free vector; the abstract state
/// (the view) is the set of those members. Every mutation is exactly
/// one [`pool_step`] of the model.
pub struct ConnectionPool {
    members: Vec<PeerAddr>,
    capacity: usize,
}

impl View for ConnectionPool {
    type V = Set<PeerAddr>;

    closed spec fn view(&self) -> Set<PeerAddr> {
        self.members@.to_set()
    }
}

impl ConnectionPool {
    /// The internal invariant: the member list holds no duplicates,
    /// never grows past the capacity, and the capacity is positive.
    pub closed spec fn wf(&self) -> bool {
        &&& self.members@.no_duplicates()
        &&& self.members@.len() <= self.capacity
        &&& self.capacity >= 1
    }

    /// The capacity fixed at construction.
    pub closed spec fn spec_capacity(&self) -> nat {
        self.capacity as nat
    }

    /// A well-formed pool's member set is finite and within capacity.
    pub proof fn lemma_wf_len(&self)
        requires
            self.wf(),
        ensures
            self@.finite(),
            self@.len() <= self.spec_capacity(),
            self.spec_capacity() >= 1,
    {
        self.members@.unique_seq_to_set();
    }

    /// Creates an empty pool with the given capacity.
    pub fn with_capacity(capacity: usize) -> (pool: ConnectionPool)
        requires
            capacity >= 1,
        ensures
            pool.wf(),
            pool@ == Set::<PeerAddr>::empty(),
            pool.spec_capacity() == capacity,
    {
        let pool = ConnectionPool { members: Vec::new(), capacity };
        proof {
            assert(pool.members@.to_set() =~= Set::<PeerAddr>::empty());
        }
        pool
    }

    pub fn capacity(&self) -> (cap: usize)
        ensures
            cap == self.spec_capacity(),
    {
        self.capacity
    }

    /// How many peers currently hold a slot.
    pub fn len(&self) -> (n: usize)
        requires
            self.wf(),
        ensures
            n == self@.len(),
    {
        proof {
            self.members@.unique_seq_to_set();
        }
        self.members.len()
    }

    /// Whether `addr` currently holds a slot.
    pub fn contains(&self, addr: &PeerAddr) -> (present: bool)
        ensures
            present == self@.contains(*addr),
    {
        let n = self.members.len();
        let mut i: usize = 0;
        while i < n
            invariant
                n == self.members@.len(),
                0 <= i <= n,
                forall|j: int| 0 <= j < i ==> self.members@[j] != *addr,
            decreases n - i,
        {
            if self.members[i] == *addr {
                return true;
            }
            i += 1;
        }
        false
    }

    /// Attempts to admit `addr`. The attempt is granted — and `addr`
    /// becomes a member — exactly when the pool is not full and `addr`
    /// is not already a member; a full pool and a duplicate peer are
    /// both refused, and neither changes the members.
    pub fn insert(&mut self, addr: PeerAddr) -> (admitted: bool)
        requires
            old(self).wf(),
        ensures
            final(self).wf(),
            final(self).spec_capacity() == old(self).spec_capacity(),
            admitted == admit_granted(old(self).spec_capacity(), old(self)@, addr),
            final(self)@ == pool_step(
                old(self).spec_capacity(),
                old(self)@,
                PoolOp::Admit(addr),
            ),
    {
        proof {
            self.members@.unique_seq_to_set();
        }
        if self.members.len() >= self.capacity {
            return false;
        }
        if self.contains(&addr) {
            return false;
        }
        self.members.push(addr);
        proof {
            old(self).members@.lemma_push_to_set_commute(addr);
        }
        true
    }

    /// Removes `addr` from the pool, freeing its slot. Releasing a
    /// peer that holds no slot is a no-op, never an error; the return
    /// value says whether a slot was actually freed.
    pub fn remove(&mut self, addr: &PeerAddr) -> (was_member: bool)
        requires
            old(self).wf(),
        ensures
            final(self).wf(),
            final(self).spec_capacity() == old(self).spec_capacity(),
            was_member == old(self)@.contains(*addr),
            final(self)@ == pool_step(
                old(self).spec_capacity(),
                old(self)@,
                PoolOp::Release(*addr),
            ),
    {
        let n = self.members.len();
        let mut i: usize = 0;
        while i < n
            invariant
                self.members@ == old(self).members@,
                self.capacity == old(self).capacity,
                0 <= i <= n,
                forall|j: int| 0 <= j < i ==> self.members@[j] != *addr,
            decreases n - i,
        {
            if self.members[i] == *addr {
                let ghost pre = self.members@;
                self.members.remove(i);
                proof {
                    lemma_remove_from_unique_seq(pre, i as int, *addr);
                }
                return true;
            }
            i += 1;
        }
        proof {
            assert(!self.members@.contains(*addr));
            assert(self.members@.to_set() =~= self.members@.to_set().remove(*addr));
        }
        false
    }
}

/// The sequence of admission attempts for a list of peers, in order.
pub open spec fn admits_of(peers: Seq<PeerAddr>) -> Seq<PoolOp> {
    peers.map_values(|p: PeerAddr| PoolOp::Admit(p))
}

/// Whether every admission in `peers`, attempted in order against a
/// pool that starts with members `s`, is granted.
pub open spec fn all_admits_granted(cap: nat, s: Set<PeerAddr>, peers: Seq<PeerAddr>) -> bool
    decreases peers.len(),
{
    peers.len() == 0 || (admit_granted(cap, s, peers.first()) && all_admits_granted(
        cap,
        s.insert(peers.first()),
        peers.drop_first(),
    ))
}

/// Capacity invariant: however the pool is driven — any sequence of
/// admissions and releases, from any member set within capacity — the
/// member count never exceeds the capacity.
pub proof fn lemma_capacity_invariant(cap: nat, s: Set<PeerAddr>, ops: Seq<PoolOp>)
    requires
        s.finite(),
        s.len() <= cap,
    ensures
        pool_run(cap, s, ops).finite(),
        pool_run(cap, s, ops).len() <= cap,
    decreases ops.len(),
{
    if ops.len() > 0 {
        lemma_capacity_invariant(cap, pool_step(cap, s, ops.first()), ops.drop_first());
    }
}

/// Uniqueness of admission: once `p` is a member, it stays a member —
/// and a fresh admission of `p` stays refused — through any sequence
/// of operations that never releases `p`.
pub proof fn lemma_no_second_admission(cap: nat, s: Set<PeerAddr>, ops: Seq<PoolOp>, p: PeerAddr)
    requires
        s.contains(p),
        forall|i: int| 0 <= i < ops.len() ==> ops[i] != PoolOp::Release(p),
    ensures
        pool_run(cap, s, ops).contains(p),
        !admit_granted(cap, pool_run(cap, s, ops), p),
    decreases ops.len(),
{
    if ops.len() > 0 {
        assert(pool_step(cap, s, ops.first()).contains(p)) by {
            match ops.first() {
                PoolOp::Admit(_) => {},
                PoolOp::Release(q) => {
                    assert(ops[0] != PoolOp::Release(p));
                    assert(q != p);
                },
            }
        }
        lemma_no_second_admission(cap, pool_step(cap, s, ops.first()), ops.drop_first(), p);
    }
}

/// Idempotent release: releasing a peer that is not a member leaves
/// the members exactly as they were.
pub proof fn lemma_release_idempotent(cap: nat, s: Set<PeerAddr>, p: PeerAddr)
    requires
        !s.contains(p),
    ensures
        pool_step(cap, s, PoolOp::Release(p)) == s,
{
    assert(s.remove(p) =~= s);
}

/// Admitting distinct peers, none of them a member yet, into a pool
/// with room for all of them grants every one of them, and afterwards
/// the members are exactly the old members plus those peers.
pub proof fn lemma_distinct_admits_fill(cap: nat, s: Set<PeerAddr>, peers: Seq<PeerAddr>)
    requires
        s.finite(),
        peers.no_duplicates(),
        s.len() + peers.len() <= cap,
        forall|i: int| 0 <= i < peers.len() ==> !s.contains(#[trigger] peers[i]),
    ensures
        all_admits_granted(cap, s, peers),
        pool_run(cap, s, admits_of(peers)) == s.union(peers.to_set()),
        pool_run(cap, s, admits_of(peers)).finite(),
        pool_run(cap, s, admits_of(peers)).len() == s.len() + peers.len(),
    decreases peers.len(),
{
    if peers.len() == 0 {
        assert(s.union(peers.to_set()) =~= s);
    } else {
        let p = peers.first();
        let rest = peers.drop_first();
        assert(!s.contains(p)) by {
            assert(peers[0] == p);
        }
        assert(admit_granted(cap, s, p));
        let s1 = s.insert(p);
        assert(forall|i: int| 0 <= i < rest.len() ==> !s1.contains(#[trigger] rest[i])) by {
            assert(forall|i: int| 0 <= i < rest.len() ==> rest[i] == peers[i + 1]);
        }
        lemma_distinct_admits_fill(cap, s1, rest);
        assert(admits_of(peers).first() == PoolOp::Admit(p));
        assert(admits_of(peers).drop_first() =~= admits_of(rest));
        assert(pool_step(cap, s, PoolOp::Admit(p)) == s1);
        assert(s1.union(rest.to_set()) =~= s.union(peers.to_set())) by {
            assert forall|x: PeerAddr| peers.to_set().contains(x) implies x == p
                || rest.to_set().contains(x) by {
                let i = choose|i: int| 0 <= i < peers.len() && peers[i] == x;
                if i > 0 {
                    assert(rest[i - 1] == x);
                }
            }
            assert(forall|i: int| 0 <= i < rest.len() ==> peers[i + 1] == rest[i]);
            assert(peers[0] == p);
        }
    }
}

/// Rejection correctness: filling an empty pool with `cap` distinct
/// peers grants every admission; one more distinct peer is then
/// refused; and after any one member is released, that refused peer is
/// granted a slot.
pub proof fn lemma_rejection_correctness(
    cap: nat,
    peers: Seq<PeerAddr>,
    extra: PeerAddr,
    leaver: PeerAddr,
)
    requires
        cap >= 1,
        peers.no_duplicates(),
        peers.len() == cap,
        !peers.contains(extra),
        peers.contains(leaver),
    ensures
        all_admits_granted(cap, Set::empty(), peers),
        !admit_granted(cap, pool_run(cap, Set::empty(), admits_of(peers)), extra),
        admit_granted(
            cap,
            pool_step(cap, pool_run(cap, Set::empty(), admits_of(peers)), PoolOp::Release(leaver)),
            extra,
        ),
{
    lemma_distinct_admits_fill(cap, Set::empty(), peers);
    let full = pool_run(cap, Set::empty(), admits_of(peers));
    assert(full =~= peers.to_set()) by {
        assert(full =~= Set::empty().union(peers.to_set()));
    }
    assert(full.contains(leaver));
    assert(!full.contains(extra));
    assert(full.remove(leaver).len() == cap - 1);
    assert(!full.remove(leaver).contains(extra));
}

/// Removing the one index that holds `addr` from a duplicate-free
/// sequence removes exactly `addr` from the sequence's set.
proof fn lemma_remove_from_unique_seq(s: Seq<PeerAddr>, i: int, addr: PeerAddr)
    requires
        s.no_duplicates(),
        0 <= i < s.len(),
        s[i] == addr,
    ensures
        s.remove(i).no_duplicates(),
        s.remove(i).to_set() == s.to_set().remove(addr),
{
    let r = s.remove(i);
    s.remove_ensures(i);
    assert forall|x: PeerAddr| r.to_set().contains(x) implies s.to_set().remove(addr).contains(
        x,
    ) by {
        let j = choose|j: int| 0 <= j < r.len() && r[j] == x;
        if j < i {
            assert(s[j] == x);
        } else {
            assert(s[j + 1] == x);
        }
        assert(x != addr);
    }
    assert forall|x: PeerAddr| s.to_set().remove(addr).contains(x) implies r.to_set().contains(
        x,
    ) by {
        let k = choose|k: int| 0 <= k < s.len() && s[k] == x;
        assert(k != i);
        if k < i {
            assert(r[k] == x);
        } else {
            assert(r[k - 1] == x);
        }
    }
    assert(r.to_set() =~= s.to_set().remove(addr));
    assert forall|j1: int, j2: int| 0 <= j1 < j2 < r.len() implies r[j1] != r[j2] by {
        if j2 < i {
            assert(s[j1] == r[j1] && s[j2] == r[j2]);
        } else if j1 >= i {
            assert(s[j1 + 1] == r[j1] && s[j2 + 1] == r[j2]);
        } else {
            assert(s[j1] == r[j1] && s[j2 + 1] == r[j2]);
        }
    }
}

} // verus!
