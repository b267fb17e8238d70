//! The connection registry: the ordered list of live peer handles, each named
//! by a connection identifier. Only the single coordination loop mutates it:
//! it appends a handle on accept and, after a fan-out, keeps exactly the
//! handles whose write succeeded.

use vstd::prelude::*;

verus! {

/// The peers a broadcast keeps: the subsequence of `ids` at the positions
/// whose write succeeded, in their original order.
pub open spec fn retained(ids: Seq<u64>, ok: Seq<bool>) -> Seq<u64>
    decreases ids.len(),
{
    if ids.len() == 0 || ok.len() == 0 {
        Seq::empty()
    } else if ok.last() {
        retained(ids.drop_last(), ok.drop_last()).push(ids.last())
    } else {
        retained(ids.drop_last(), ok.drop_last())
    }
}

/// Law: a peer identifier is kept by a fan-out exactly when some position
/// carrying it had a successful write.
pub proof fn lemma_retained_membership(ids: Seq<u64>, ok: Seq<bool>)
    requires
        ids.len() == ok.len(),
    ensures
        forall|x: u64|
            retained(ids, ok).contains(x) <==> exists|i: int|
                0 <= i < ids.len() && ids[i] == x && ok[i],
    decreases ids.len(),
{
    if ids.len() == 0 {
        assert(forall|x: u64| !retained(ids, ok).contains(x));
    } else {
        let head_ids = ids.drop_last();
        let head_ok = ok.drop_last();
        lemma_retained_membership(head_ids, head_ok);
        assert forall|x: u64| retained(ids, ok).contains(x) implies exists|i: int|
            0 <= i < ids.len() && ids[i] == x && ok[i] by {
            if ok.last() && x == ids.last() {
                assert(ids[ids.len() - 1] == x && ok[ids.len() - 1]);
            } else {
                assert(retained(head_ids, head_ok).contains(x));
                let i = choose|i: int| 0 <= i < head_ids.len() && head_ids[i] == x && head_ok[i];
                assert(ids[i] == x && ok[i]);
            }
        }
        assert forall|x: u64|
            (exists|i: int| 0 <= i < ids.len() && ids[i] == x && ok[i]) implies retained(
            ids,
            ok,
        ).contains(x) by {
            let i = choose|i: int| 0 <= i < ids.len() && ids[i] == x && ok[i];
            if i == ids.len() - 1 {
                assert(retained(ids, ok).last() == x);
            } else {
                assert(head_ids[i] == x && head_ok[i]);
                assert(retained(head_ids, head_ok).contains(x));
                let j = choose|j: int|
                    0 <= j < retained(head_ids, head_ok).len() && retained(head_ids, head_ok)[j]
                        == x;
                assert(retained(ids, ok)[j] == x);
            }
        }
    }
}

/// Law: when peer identifiers are distinct, a peer whose write failed is
/// absent from the registry every later fan-out sees.
pub proof fn lemma_removed_peer_gone(ids: Seq<u64>, ok: Seq<bool>, i: int)
    requires
        ids.len() == ok.len(),
        0 <= i < ids.len(),
        !ok[i],
        forall|j: int, k: int| 0 <= j < k < ids.len() ==> ids[j] != ids[k],
    ensures
        !retained(ids, ok).contains(ids[i]),
{
    lemma_retained_membership(ids, ok);
    assert forall|j: int| 0 <= j < ids.len() && ids[j] == ids[i] implies !ok[j] by {
        if j < i {
            assert(ids[j] != ids[i]);
        } else if j > i {
            assert(ids[i] != ids[j]);
        }
    }
}

/// The ordered collection of live peer handles.
pub struct Registry {
    ids: Vec<u64>,
}

impl View for Registry {
    type V = Seq<u64>;

    closed spec fn view(&self) -> Seq<u64> {
        self.ids@
    }
}

impl Registry {
    /// A fresh registry holds no peer.
    pub fn new() -> (r: Registry)
        ensures
            r@ == Seq::<u64>::empty(),
    {
        Registry { ids: Vec::new() }
    }

    pub fn len(&self) -> (n: usize)
        ensures
            n == self@.len(),
    {
        self.ids.len()
    }

    /// Append a newly accepted peer's handle.
    pub fn register(&mut self, id: u64)
        ensures
            final(self)@ == old(self)@.push(id),
    {
        self.ids.push(id);
    }

    pub fn peer_at(&self, i: usize) -> (id: u64)
        requires
            i < self@.len(),
        ensures
            id == self@[i as int],
    {
        self.ids[i]
    }

    pub fn contains(&self, id: u64) -> (r: bool)
        ensures
            r == self@.contains(id),
    {
        let n = self.ids.len();
        let mut i: usize = 0;
        while i < n
            invariant
                n == self@.len(),
                i <= n,
                forall|j: int| 0 <= j < i ==> self@[j] != id,
            decreases n - i,
        {
            if self.ids[i] == id {
                return true;
            }
            i += 1;
        }
        false
    }

    /// The registered peers in order, for the fan-out step to write to.
    pub fn targets(&self) -> (t: Vec<u64>)
        ensures
            t@ == self@,
    {
        let n = self.ids.len();
        let mut t: Vec<u64> = Vec::new();
        let mut i: usize = 0;
        while i < n
            invariant
                n == self@.len(),
                i <= n,
                t@ == self@.take(i as int),
            decreases n - i,
        {
            t.push(self.ids[i]);
            proof {
                assert(t@ =~= self@.take(i + 1));
            }
            i += 1;
        }
        proof {
            assert(t@ =~= self@);
        }
        t
    }

    /// After a fan-out, keep exactly the peers whose write succeeded; a peer
    /// whose write failed is dropped silently.
    pub fn retain_written(&mut self, ok: &Vec<bool>)
        requires
            ok@.len() == old(self)@.len(),
        ensures
            final(self)@ == retained(old(self)@, ok@),
    {
        let n = self.ids.len();
        let mut kept: Vec<u64> = Vec::new();
        let mut i: usize = 0;
        while i < n
            invariant
                n == self@.len(),
                ok@.len() == self@.len(),
                i <= n,
                kept@ == retained(self@.take(i as int), ok@.take(i as int)),
            decreases n - i,
        {
            proof {
                assert(self@.take(i + 1).drop_last() =~= self@.take(i as int));
                assert(ok@.take(i + 1).drop_last() =~= ok@.take(i as int));
                assert(self@.take(i + 1).last() == self@[i as int]);
            }
            if ok[i] {
                kept.push(self.ids[i]);
            }
            i += 1;
        }
        proof {
            assert(self@.take(n as int) =~= self@);
            assert(ok@.take(n as int) =~= ok@);
        }
        self.ids = kept;
    }
}

} // verus!
