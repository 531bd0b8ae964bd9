//! Request/response correlation for one connection: a connection-local
//! monotone id counter and the set of outstanding request ids. Inbound
//! response ids are routed here; an id matches at most one outstanding
//! request, and an unknown id is dropped without touching any other request.

use vstd::prelude::*;

verus! {

/// What became of one inbound response id.
pub enum Delivery {
    /// The id matched an outstanding request, which is now retired.
    Matched,
    /// No outstanding request carries this id; the message is dropped.
    Unknown,
}

/// No id occurs twice.
pub open spec fn unique_ids(p: Seq<u64>) -> bool {
    forall|i: int, j: int| 0 <= i < j < p.len() ==> p[i] != p[j]
}

/// Correlation state of one connection.
pub struct Correlator {
    next_id: u64,
    pending: Vec<u64>,
    open: bool,
}

impl Correlator {
    /// Ids handed out and not yet resolved, oldest first.
    pub closed spec fn pending_ids(self) -> Seq<u64> {
        self.pending@
    }

    /// The id the next request will get.
    pub closed spec fn next(self) -> u64 {
        self.next_id
    }

    /// False once the connection has closed: no further ids are issued.
    pub closed spec fn is_open(self) -> bool {
        self.open
    }

    /// Outstanding ids are pairwise distinct and below the counter, so a
    /// fresh id can never collide with an outstanding one.
    pub closed spec fn wf(self) -> bool {
        &&& unique_ids(self.pending@)
        &&& forall|i: int| 0 <= i < self.pending@.len() ==> self.pending@[i] < self.next_id
    }

    pub fn new() -> (c: Correlator)
        ensures
            c.wf(),
            c.pending_ids() =~= Seq::<u64>::empty(),
            c.next() == 0,
            c.is_open(),
    {
        Correlator { next_id: 0, pending: Vec::new(), open: true }
    }

    /// Allocate the next request id and record it as outstanding.
    pub fn register(&mut self) -> (id: u64)
        requires
            old(self).wf(),
            old(self).is_open(),
            old(self).next() < u64::MAX,
        ensures
            final(self).wf(),
            final(self).is_open(),
            id == old(self).next(),
            !old(self).pending_ids().contains(id),
            final(self).next() == old(self).next() + 1,
            final(self).pending_ids() =~= old(self).pending_ids().push(id),
    {
        let id = self.next_id;
        self.next_id = self.next_id + 1;
        self.pending.push(id);
        id
    }

    /// Route one inbound response id: retire the outstanding request that
    /// carries it, or report the id as unknown and change nothing.
    pub fn deliver(&mut self, id: u64) -> (d: Delivery)
        requires
            old(self).wf(),
        ensures
            final(self).wf(),
            final(self).is_open() == old(self).is_open(),
            final(self).next() == old(self).next(),
            d is Matched <==> old(self).pending_ids().contains(id),
            final(self).pending_ids() =~= old(self).pending_ids().remove_value(id),
            !final(self).pending_ids().contains(id),
            d is Unknown ==> *final(self) == *old(self),
    {
        let n = self.pending.len();
        let mut k: usize = 0;
        while k < n
            invariant
                self == old(self),
                self.wf(),
                n == self.pending@.len(),
                0 <= k <= n,
                forall|j: int| 0 <= j < k ==> self.pending@[j] != id,
            decreases n - k,
        {
            if self.pending[k] == id {
                proof {
                    let p = self.pending@;
                    assert(p.contains(id));
                    p.index_of_first_ensures(id);
                    let i = p.index_of_first(id)->Some_0;
                    assert(i == k) by {
                        if i < k {
                            assert(p[i] == id);
                        }
                    }
                    lemma_remove_value_unique(p, id);
                }
                self.pending.remove(k);
                proof {
                    let p = old(self).pending@;
                    let q = self.pending@;
                    assert(q =~= p.remove_value(id));
                    assert forall|j: int| 0 <= j < q.len() implies q[j] < self.next_id by {
                        assert(q.contains(q[j]));
                        assert(p.contains(q[j]));
                        let m = choose|m: int| 0 <= m < p.len() && p[m] == q[j];
                        assert(p[m] < self.next_id);
                    }
                }
                return Delivery::Matched;
            }
            k = k + 1;
        }
        proof {
            self.pending@.index_of_first_ensures(id);
            assert(!self.pending@.contains(id));
        }
        Delivery::Unknown
    }

    /// Outstanding ids never repeat: well-formedness keeps them pairwise
    /// distinct at all times.
    pub proof fn lemma_pending_unique(self)
        requires
            self.wf(),
        ensures
            unique_ids(self.pending_ids()),
    {
    }

    /// Every outstanding id was drawn from the counter, so each is below
    /// the id the next request will get.
    pub proof fn lemma_pending_below_next(self)
        requires
            self.wf(),
        ensures
            forall|k: int|
                0 <= k < self.pending_ids().len() ==> #[trigger] self.pending_ids()[k]
                    < self.next(),
    {
    }

    /// Close the connection: every outstanding request fails, none is left
    /// suspended, and no further id will be issued.
    pub fn close(&mut self) -> (failed: Vec<u64>)
        requires
            old(self).wf(),
        ensures
            final(self).wf(),
            !final(self).is_open(),
            final(self).next() == old(self).next(),
            failed@ =~= old(self).pending_ids(),
            final(self).pending_ids() =~= Seq::<u64>::empty(),
    {
        self.open = false;
        let mut failed: Vec<u64> = Vec::new();
        core::mem::swap(&mut failed, &mut self.pending);
        failed
    }
}

/// Concurrent calls resolve independently: when two distinct ids `a` and `b`
/// are outstanding, delivering the response for `a` retires exactly `a`,
/// leaves `b` outstanding, and the outstanding ids after both responses do
/// not depend on the order in which the two responses arrived.
pub proof fn lemma_responses_resolve_independently(p: Seq<u64>, a: u64, b: u64)
    requires
        unique_ids(p),
        p.contains(a),
        p.contains(b),
        a != b,
    ensures
        !p.remove_value(a).contains(a),
        p.remove_value(a).contains(b),
        p.remove_value(a).remove_value(b).to_multiset()
            == p.remove_value(b).remove_value(a).to_multiset(),
{
    broadcast use vstd::multiset::group_multiset_axioms;

    lemma_remove_value_unique(p, a);
    lemma_remove_value_unique(p, b);
    let pa = p.remove_value(a);
    let pb = p.remove_value(b);
    lemma_remove_value_unique(pa, b);
    lemma_remove_value_unique(pb, a);
    assert(pa.remove_value(b).to_multiset() == p.to_multiset().remove(a).remove(b));
    assert(pb.remove_value(a).to_multiset() == p.to_multiset().remove(b).remove(a));
    assert(p.to_multiset().remove(a).remove(b) =~= p.to_multiset().remove(b).remove(a));
}

/// Removing a value from a duplicate-free id sequence removes exactly that
/// value: the result no longer contains it, every other id is kept, and the
/// multiset shrinks by exactly that one element.
pub proof fn lemma_remove_value_unique(p: Seq<u64>, a: u64)
    requires
        unique_ids(p),
        p.contains(a),
    ensures
        unique_ids(p.remove_value(a)),
        !p.remove_value(a).contains(a),
        forall|x: u64| x != a ==> p.remove_value(a).contains(x) == p.contains(x),
        p.remove_value(a).to_multiset() == p.to_multiset().remove(a),
        p.remove_value(a).len() == p.len() - 1,
{
    p.index_of_first_ensures(a);
    let i = p.index_of_first(a)->Some_0;
    let q = p.remove(i);
    p.remove_ensures(i);
    assert(p.remove_value(a) == q);
    assert forall|x: u64| x != a && p.contains(x) implies q.contains(x) by {
        let k = choose|k: int| 0 <= k < p.len() && p[k] == x;
        if k < i {
            assert(q[k] == x);
        } else {
            assert(q[k - 1] == x);
        }
    }
    assert forall|x: u64| q.contains(x) implies x != a && p.contains(x) by {
        let k = choose|k: int| 0 <= k < q.len() && q[k] == x;
        if k < i {
            assert(p[k] == x);
        } else {
            assert(p[k + 1] == x);
        }
    }
    assert forall|j1: int, j2: int| 0 <= j1 < j2 < q.len() implies q[j1] != q[j2] by {
        if j1 < i {
            assert(q[j1] == p[j1]);
        } else {
            assert(q[j1] == p[j1 + 1]);
        }
        if j2 < i {
            assert(q[j2] == p[j2]);
        } else {
            assert(q[j2] == p[j2 + 1]);
        }
    }
    vstd::seq_lib::to_multiset_remove(p, i);
}

} // verus!
