//! Bookkeeping of weak handles to live terminal sessions: registration,
//! release notification, enumeration.  The sessions themselves are owned by
//! the host; a handle is its numeric identity.

use vstd::prelude::*;

verus! {

/// The list after a release notification for `id`: the first matching
/// handle is removed, the rest keep their order.
pub open spec fn release_s(v: Seq<u64>, id: u64) -> Seq<u64>
    decreases v.len(),
{
    if v.len() == 0 {
        v
    } else if v[0] == id {
        v.drop_first()
    } else {
        seq![v[0]] + release_s(v.drop_first(), id)
    }
}

/// Weak handles of the open terminal sessions, in registration order.
pub struct Terminals {
    local_handles: Vec<u64>,
}

impl View for Terminals {
    type V = Seq<u64>;

    closed spec fn view(&self) -> Seq<u64> {
        self.local_handles@
    }
}

impl Terminals {
    pub fn new() -> (r: Terminals)
        ensures
            r@ == Seq::<u64>::empty(),
    {
        Terminals { local_handles: Vec::new() }
    }

    /// Track a newly created session.
    pub fn register(&mut self, id: u64)
        ensures
            final(self)@ == old(self)@.push(id),
    {
        self.local_handles.push(id);
    }

    /// Release notification: drop the first handle with this identity.
    pub fn release(&mut self, id: u64)
        ensures
            final(self)@ == release_s(old(self)@, id),
    {
        let ghost s0 = self@;
        let mut i: usize = 0;
        while i < self.local_handles.len()
            invariant
                old(self)@ == s0,
                self@ == s0,
                i <= s0.len(),
                s0.len() == self.local_handles@.len(),
                forall|j: int| 0 <= j < i ==> s0[j] != id,
            decreases s0.len() - i,
        {
            if self.local_handles[i] == id {
                proof {
                    lemma_release_at(s0, id, i as int);
                }
                self.local_handles.remove(i);
                proof {
                    assert(self@ =~= s0.remove(i as int));
                }
                return ;
            }
            i += 1;
        }
        proof {
            lemma_release_none(s0, id);
        }
    }

    pub fn handles(&self) -> (r: &Vec<u64>)
        ensures
            r@ == self@,
    {
        &self.local_handles
    }
}

proof fn lemma_release_at(v: Seq<u64>, id: u64, i: int)
    requires
        0 <= i < v.len(),
        v[i] == id,
        forall|j: int| 0 <= j < i ==> v[j] != id,
    ensures
        release_s(v, id) == v.remove(i),
    decreases i,
{
    if i == 0 {
        assert(v.drop_first() =~= v.remove(0));
    } else {
        assert(forall|j: int| 0 <= j < v.drop_first().len() ==> v.drop_first()[j] == v[j + 1]);
        lemma_release_at(v.drop_first(), id, i - 1);
        assert(seq![v[0]] + v.drop_first().remove(i - 1) =~= v.remove(i));
    }
}

proof fn lemma_release_none(v: Seq<u64>, id: u64)
    requires
        forall|j: int| 0 <= j < v.len() ==> v[j] != id,
    ensures
        release_s(v, id) == v,
    decreases v.len(),
{
    if v.len() == 0 {
    } else {
        assert(forall|j: int| 0 <= j < v.drop_first().len() ==> v.drop_first()[j] == v[j + 1]);
        lemma_release_none(v.drop_first(), id);
        assert(seq![v[0]] + v.drop_first() =~= v);
    }
}

/// Registry cleanup: registering a handle not yet tracked and then releasing
/// it leaves the handle list exactly as it was.
pub proof fn lemma_register_release(v: Seq<u64>, id: u64)
    requires
        !v.contains(id),
    ensures
        release_s(v.push(id), id) == v,
    decreases v.len(),
{
    if v.len() == 0 {
        assert(v.push(id)[0] == id);
        assert(v.push(id).drop_first() =~= v);
    } else {
        assert(v[0] != id) by {
            assert(v.contains(id) == exists|j: int| 0 <= j < v.len() && v[j] == id);
        }
        assert(v.push(id)[0] == v[0]);
        assert(v.push(id).drop_first() =~= v.drop_first().push(id));
        assert(!v.drop_first().contains(id)) by {
            if v.drop_first().contains(id) {
                let j = choose|j: int|
                    0 <= j < v.drop_first().len() && v.drop_first()[j] == id;
                assert(v[j + 1] == id);
                assert(v.contains(id));
            }
        }
        lemma_register_release(v.drop_first(), id);
        assert(seq![v[0]] + v.drop_first() =~= v);
    }
}

} // verus!
