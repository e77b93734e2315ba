//! Bookkeeping of the links between agents, transaction requests and the
//! transactions that settle them: which links a clean-up removes and which
//! it replaces.
use vstd::prelude::*;
use crate::hashes::{ActionId, opt_view};
use crate::activity::ids_view;

verus! {

/// The positions of `items` whose value occurs in `wanted`, in increasing
/// order.
pub open spec fn positions_in_spec(items: Seq<Seq<u8>>, wanted: Seq<Seq<u8>>) -> Seq<usize>
    decreases items.len(),
{
    if items.len() == 0 {
        Seq::empty()
    } else {
        let prev = positions_in_spec(items.drop_last(), wanted);
        if wanted.contains(items.last()) {
            prev.push((items.len() - 1) as usize)
        } else {
            prev
        }
    }
}

/// The first position of `h` in `s`.
pub open spec fn first_index(s: Seq<Seq<u8>>, h: Seq<u8>) -> Option<int>
    decreases s.len(),
{
    if s.len() == 0 {
        None
    } else {
        match first_index(s.drop_last(), h) {
            Some(i) => Some(i),
            None => if s.last() == h {
                Some(s.len() - 1)
            } else {
                None
            },
        }
    }
}

/// Whether `h` occurs in `wanted`.
pub fn contains_id(wanted: &Vec<ActionId>, h: &ActionId) -> (r: bool)
    ensures
        r == ids_view(wanted@).contains(h@),
{
    let mut i: usize = 0;
    while i < wanted.len()
        invariant
            i <= wanted@.len(),
            forall|j: int| 0 <= j < i ==> wanted@[j]@ != h@,
        decreases wanted@.len() - i,
    {
        if wanted[i].same_as(h) {
            assert(ids_view(wanted@)[i as int] == h@);
            return true;
        }
        i = i + 1;
    }
    assert(!ids_view(wanted@).contains(h@)) by {
        if ids_view(wanted@).contains(h@) {
            let k = choose|k: int| 0 <= k < ids_view(wanted@).len() && ids_view(wanted@)[k] == h@;
            assert(wanted@[k]@ == h@);
        }
    }
    false
}

/// The positions of `items` whose hash occurs in `wanted`, in increasing
/// order.
pub fn positions_in(items: &Vec<ActionId>, wanted: &Vec<ActionId>) -> (r: Vec<usize>)
    ensures
        r@ == positions_in_spec(ids_view(items@), ids_view(wanted@)),
{
    let mut r: Vec<usize> = Vec::new();
    let mut i: usize = 0;
    while i < items.len()
        invariant
            i <= items@.len(),
            r@ == positions_in_spec(ids_view(items@).take(i as int), ids_view(wanted@)),
        decreases items@.len() - i,
    {
        let found = contains_id(wanted, &items[i]);
        assert(ids_view(items@).take(i + 1).drop_last() =~= ids_view(items@).take(i as int));
        if found {
            r.push(i);
        }
        i = i + 1;
    }
    assert(ids_view(items@).take(items@.len() as int) =~= ids_view(items@));
    r
}

/// The position of the first occurrence of `h` in `items`.
pub fn find_first(items: &Vec<ActionId>, h: &ActionId) -> (r: Option<usize>)
    ensures
        match r {
            Some(i) => first_index(ids_view(items@), h@) == Some(i as int),
            None => first_index(ids_view(items@), h@) is None,
        },
{
    let mut i: usize = 0;
    while i < items.len()
        invariant
            i <= items@.len(),
            first_index(ids_view(items@).take(i as int), h@) is None,
        decreases items@.len() - i,
    {
        assert(ids_view(items@).take(i + 1).drop_last() =~= ids_view(items@).take(i as int));
        if items[i].same_as(h) {
            proof { lemma_first_index_prefix(ids_view(items@), h@, i + 1); }
            return Some(i);
        }
        i = i + 1;
    }
    assert(ids_view(items@).take(items@.len() as int) =~= ids_view(items@));
    None
}

/// A first occurrence found in a prefix is the first occurrence in the
/// whole sequence.
pub proof fn lemma_first_index_prefix(s: Seq<Seq<u8>>, h: Seq<u8>, n: int)
    requires
        0 <= n <= s.len(),
        first_index(s.take(n), h) is Some,
    ensures
        first_index(s, h) == first_index(s.take(n), h),
    decreases s.len() - n,
{
    if n < s.len() {
        assert(s.take(n + 1).drop_last() =~= s.take(n));
        lemma_first_index_prefix(s, h, n + 1);
    } else {
        assert(s.take(n) =~= s);
    }
}

/// The position `first_index` names holds the hash it looks for, and no
/// earlier position does.
pub proof fn lemma_first_index_is_first(s: Seq<Seq<u8>>, h: Seq<u8>)
    ensures
        match first_index(s, h) {
            Some(i) => 0 <= i < s.len() && s[i] == h && forall|j: int| 0 <= j < i ==> s[j] != h,
            None => !s.contains(h),
        },
    decreases s.len(),
{
    if s.len() > 0 {
        let d = s.drop_last();
        lemma_first_index_is_first(d, h);
        assert forall|j: int| 0 <= j < s.len() - 1 implies s[j] == d[j] by {}
        match first_index(d, h) {
            Some(i) => {
                assert(s[i] == d[i]);
            },
            None => {
                assert forall|j: int| 0 <= j < s.len() - 1 implies s[j] != h by {
                    assert(s[j] == d[j]);
                    if s[j] == h {
                        assert(d.contains(h));
                    }
                }
                if s.last() != h {
                    assert forall|j: int| 0 <= j < s.len() implies s[j] != h by {}
                }
            },
        }
    }
}

/// The positions of the links (given by their targets) that point at one of
/// `transaction_requests_hashes`: the links that clearing those requests
/// deletes, in link order.
pub fn links_to_clear(link_targets: &Vec<ActionId>, transaction_requests_hashes: &Vec<ActionId>) -> (r: Vec<usize>)
    ensures
        r@ == positions_in_spec(ids_view(link_targets@), ids_view(transaction_requests_hashes@)),
{
    positions_in(link_targets, transaction_requests_hashes)
}

/// The positions of the committed actions that are transactions of this
/// agent (given by the addresses of its transaction records).
pub fn new_transactions(committed: &Vec<ActionId>, my_transactions: &Vec<ActionId>) -> (r: Vec<usize>)
    ensures
        r@ == positions_in_spec(ids_view(committed@), ids_view(my_transactions@)),
{
    positions_in(committed, my_transactions)
}

/// The target of the first link, if there is a link.
pub fn first_link_target(link_targets: &Vec<ActionId>) -> (r: Option<ActionId>)
    ensures
        match r {
            Some(h) => link_targets@.len() > 0 && h@ == link_targets@[0]@,
            None => link_targets@.len() == 0,
        },
{
    if link_targets.len() == 0 {
        None
    } else {
        Some(link_targets[0].copy())
    }
}

/// A transaction of this agent, with the hash of the transaction request it
/// settles when its application data reads as one.
pub struct Settlement {
    pub transaction_request_hash: Option<ActionId>,
    pub transaction_hash: ActionId,
}

/// The replacement of a link from the agent to a request by a link from the
/// request to the transaction that settles it.
pub struct Relink {
    /// The position of the agent's link to delete.
    pub link_index: usize,
    pub transaction_request_hash: ActionId,
    pub transaction_hash: ActionId,
}

pub struct RelinkView {
    pub link_index: int,
    pub request: Seq<u8>,
    pub transaction: Seq<u8>,
}

pub struct SettlementView {
    pub request: Option<Seq<u8>>,
    pub transaction: Seq<u8>,
}

pub open spec fn settlements_view(s: Seq<Settlement>) -> Seq<SettlementView> {
    s.map_values(|x: Settlement| SettlementView { request: opt_view(x.transaction_request_hash), transaction: x.transaction_hash@ })
}

pub open spec fn relinks_view(s: Seq<Relink>) -> Seq<RelinkView> {
    s.map_values(|x: Relink| RelinkView { link_index: x.link_index as int, request: x.transaction_request_hash@, transaction: x.transaction_hash@ })
}

/// The clean-up of settled requests: for each transaction in turn, the first
/// link from the agent to the request it settles is replaced; the clean-up
/// stops at the first transaction whose data does not read as a request hash
/// (the second component is then `true`).
pub open spec fn relinks_spec(targets: Seq<Seq<u8>>, s: Seq<SettlementView>) -> (Seq<RelinkView>, bool)
    decreases s.len(),
{
    if s.len() == 0 {
        (Seq::empty(), false)
    } else {
        let prev = relinks_spec(targets, s.drop_last());
        if prev.1 {
            prev
        } else {
            match s.last().request {
                None => (prev.0, true),
                Some(h) => match first_index(targets, h) {
                    None => prev,
                    Some(i) => (prev.0.push(RelinkView { link_index: i, request: h, transaction: s.last().transaction }), false),
                },
            }
        }
    }
}

/// Plans the clean-up of the agent's links to transaction requests that its
/// transactions settle. The relinks are to be performed in order; when the
/// returned flag is set, the clean-up fails after them.
pub fn plan_relinks(link_targets: &Vec<ActionId>, settlements: &Vec<Settlement>) -> (r: (Vec<Relink>, bool))
    ensures
        (relinks_view(r.0@), r.1) == relinks_spec(ids_view(link_targets@), settlements_view(settlements@)),
{
    let mut relinks: Vec<Relink> = Vec::new();
    let mut i: usize = 0;
    while i < settlements.len()
        invariant
            i <= settlements@.len(),
            (relinks_view(relinks@), false) == relinks_spec(ids_view(link_targets@), settlements_view(settlements@).take(i as int)),
        decreases settlements@.len() - i,
    {
        assert(settlements_view(settlements@).take(i + 1).drop_last() =~= settlements_view(settlements@).take(i as int));
        let s = &settlements[i];
        match &s.transaction_request_hash {
            None => {
                proof { lemma_relinks_stop(ids_view(link_targets@), settlements_view(settlements@), i as int + 1); }
                return (relinks, true);
            },
            Some(h) => {
                match find_first(link_targets, h) {
                    None => {},
                    Some(k) => {
                        let ghost before = relinks@;
                        relinks.push(Relink { link_index: k, transaction_request_hash: h.copy(), transaction_hash: s.transaction_hash.copy() });
                        assert(relinks_view(relinks@) =~= relinks_view(before).push(RelinkView {
                            link_index: k as int,
                            request: h@,
                            transaction: s.transaction_hash@,
                        }));
                    },
                }
            },
        }
        i = i + 1;
    }
    assert(settlements_view(settlements@).take(settlements@.len() as int) =~= settlements_view(settlements@));
    (relinks, false)
}

/// Once the clean-up has stopped, later transactions change nothing.
pub proof fn lemma_relinks_stop(targets: Seq<Seq<u8>>, s: Seq<SettlementView>, n: int)
    requires
        0 <= n <= s.len(),
        relinks_spec(targets, s.take(n)).1,
    ensures
        relinks_spec(targets, s) == relinks_spec(targets, s.take(n)),
    decreases s.len() - n,
{
    if n < s.len() {
        assert(s.take(n + 1).drop_last() =~= s.take(n));
        lemma_relinks_stop(targets, s, n + 1);
    } else {
        assert(s.take(n) =~= s);
    }
}

/// The positions picked out of `items` are exactly those whose value is
/// wanted, each once, in increasing order: clearing removes every link to a
/// given request and no other link, and a commit reports every new
/// transaction action and nothing else.
pub proof fn lemma_positions_in_exact(items: Seq<Seq<u8>>, wanted: Seq<Seq<u8>>)
    requires
        items.len() <= usize::MAX,
    ensures
        forall|a: int, b: int| 0 <= a < b < positions_in_spec(items, wanted).len() ==>
            positions_in_spec(items, wanted)[a] < positions_in_spec(items, wanted)[b],
        forall|a: int| 0 <= a < positions_in_spec(items, wanted).len() ==>
            (positions_in_spec(items, wanted)[a] as int) < items.len()
            && wanted.contains(items[positions_in_spec(items, wanted)[a] as int]),
        forall|i: int| 0 <= i < items.len() && wanted.contains(items[i]) ==>
            positions_in_spec(items, wanted).contains(i as usize),
    decreases items.len(),
{
    if items.len() > 0 {
        let d = items.drop_last();
        lemma_positions_in_exact(d, wanted);
        let p = positions_in_spec(d, wanted);
        let q = positions_in_spec(items, wanted);
        let last = (items.len() - 1) as usize;
        assert(last as int == items.len() - 1);
        assert forall|a: int| 0 <= a < p.len() implies (p[a] as int) < items.len() - 1
            && wanted.contains(items[p[a] as int]) by {
            assert(items[p[a] as int] == d[p[a] as int]);
        }
        if wanted.contains(items.last()) {
            assert(q == p.push(last));
            assert forall|a: int, b: int| 0 <= a < b < q.len() implies q[a] < q[b] by {
                if b == q.len() - 1 {
                    assert(q[b] == last);
                    assert(q[a] == p[a]);
                } else {
                    assert(q[a] == p[a] && q[b] == p[b]);
                }
            }
            assert forall|a: int| 0 <= a < q.len() implies (q[a] as int) < items.len()
                && wanted.contains(items[q[a] as int]) by {
                if a < q.len() - 1 {
                    assert(q[a] == p[a]);
                }
            }
        } else {
            assert(q == p);
        }
        assert forall|i: int| 0 <= i < items.len() && wanted.contains(items[i]) implies q.contains(i as usize) by {
            if i < items.len() - 1 {
                assert(items[i] == d[i]);
                assert(p.contains(i as usize));
                let k = choose|k: int| 0 <= k < p.len() && p[k] == i as usize;
                assert(q[k] == i as usize);
            } else {
                assert(q[q.len() - 1] == i as usize);
            }
        }
    }
}

/// Each replacement the clean-up plans deletes a link that points at the
/// request it settles: the first such link.
pub proof fn lemma_relinks_hit_their_request(targets: Seq<Seq<u8>>, s: Seq<SettlementView>)
    ensures
        forall|k: int| 0 <= k < relinks_spec(targets, s).0.len() ==> {
            let r = #[trigger] relinks_spec(targets, s).0[k];
            &&& 0 <= r.link_index < targets.len()
            &&& targets[r.link_index] == r.request
            &&& forall|j: int| 0 <= j < r.link_index ==> targets[j] != r.request
        },
    decreases s.len(),
{
    if s.len() > 0 {
        lemma_relinks_hit_their_request(targets, s.drop_last());
        match s.last().request {
            Some(h) => lemma_first_index_is_first(targets, h),
            None => {},
        }
        let prev = relinks_spec(targets, s.drop_last());
        let cur = relinks_spec(targets, s);
        assert forall|k: int| 0 <= k < cur.0.len() implies {
            let r = #[trigger] cur.0[k];
            &&& 0 <= r.link_index < targets.len()
            &&& targets[r.link_index] == r.request
            &&& forall|j: int| 0 <= j < r.link_index ==> targets[j] != r.request
        } by {
            if k < prev.0.len() {
                assert(cur.0[k] == prev.0[k]);
            }
        }
    }
}

/// The link targets left after clearing the links that point at one of
/// `wanted`, in link order.
pub open spec fn targets_after_clearing(targets: Seq<Seq<u8>>, wanted: Seq<Seq<u8>>) -> Seq<Seq<u8>>
    decreases targets.len(),
{
    if targets.len() == 0 {
        Seq::empty()
    } else {
        let p = targets_after_clearing(targets.drop_last(), wanted);
        if wanted.contains(targets.last()) {
            p
        } else {
            p.push(targets.last())
        }
    }
}

/// No target left after clearing is wanted.
pub proof fn lemma_cleared_targets_unwanted(targets: Seq<Seq<u8>>, wanted: Seq<Seq<u8>>)
    ensures
        forall|i: int| 0 <= i < targets_after_clearing(targets, wanted).len()
            ==> !wanted.contains(#[trigger] targets_after_clearing(targets, wanted)[i]),
    decreases targets.len(),
{
    if targets.len() > 0 {
        let p = targets_after_clearing(targets.drop_last(), wanted);
        lemma_cleared_targets_unwanted(targets.drop_last(), wanted);
        let q = targets_after_clearing(targets, wanted);
        if !wanted.contains(targets.last()) {
            assert forall|i: int| 0 <= i < q.len() implies !wanted.contains(#[trigger] q[i]) by {
                if i < p.len() {
                    assert(q[i] == p[i]);
                }
            }
        }
    }
}

/// A sequence with no wanted element has no wanted position.
pub proof fn lemma_no_wanted_positions(items: Seq<Seq<u8>>, wanted: Seq<Seq<u8>>)
    requires
        forall|i: int| 0 <= i < items.len() ==> !wanted.contains(#[trigger] items[i]),
    ensures
        positions_in_spec(items, wanted).len() == 0,
    decreases items.len(),
{
    if items.len() > 0 {
        let d = items.drop_last();
        assert forall|i: int| 0 <= i < d.len() implies !wanted.contains(#[trigger] d[i]) by {
            assert(d[i] == items[i]);
        }
        lemma_no_wanted_positions(d, wanted);
        assert(!wanted.contains(items[items.len() - 1]));
    }
}

/// Clearing is idempotent: once the links to the wanted requests are
/// cleared, clearing the same requests again finds no link to delete.
pub proof fn lemma_clearing_twice_clears_nothing(targets: Seq<Seq<u8>>, wanted: Seq<Seq<u8>>)
    ensures
        positions_in_spec(targets_after_clearing(targets, wanted), wanted).len() == 0,
{
    lemma_cleared_targets_unwanted(targets, wanted);
    lemma_no_wanted_positions(targets_after_clearing(targets, wanted), wanted);
}

/// The clean-up fails exactly when one of the transactions' data names no
/// request; when every transaction names a request that a link points at,
/// it replaces, in order, one link for each transaction: the link to that
/// transaction's request, relinked to that transaction.
pub proof fn lemma_relinks_follow_settlements(targets: Seq<Seq<u8>>, s: Seq<SettlementView>)
    ensures
        relinks_spec(targets, s).1 <==> exists|k: int| 0 <= k < s.len() && (#[trigger] s[k]).request is None,
        (forall|k: int| 0 <= k < s.len() ==> (#[trigger] s[k]).request is Some && targets.contains(s[k].request->Some_0)) ==> {
            let r = relinks_spec(targets, s).0;
            &&& r.len() == s.len()
            &&& forall|k: int| 0 <= k < s.len() ==> (#[trigger] r[k]).request == s[k].request->Some_0
                && r[k].transaction == s[k].transaction
        },
    decreases s.len(),
{
    if s.len() > 0 {
        let d = s.drop_last();
        lemma_relinks_follow_settlements(targets, d);
        assert forall|k: int| 0 <= k < d.len() implies d[k] == s[k] by {}
        if exists|k: int| 0 <= k < d.len() && (#[trigger] d[k]).request is None {
            let k = choose|k: int| 0 <= k < d.len() && (#[trigger] d[k]).request is None;
            assert(s[k].request is None);
        }
        if exists|k: int| 0 <= k < s.len() && (#[trigger] s[k]).request is None {
            let k = choose|k: int| 0 <= k < s.len() && (#[trigger] s[k]).request is None;
            if k < d.len() {
                assert(d[k].request is None);
            }
        }
        if forall|k: int| 0 <= k < s.len() ==> (#[trigger] s[k]).request is Some && targets.contains(s[k].request->Some_0) {
            assert forall|k: int| 0 <= k < d.len() implies (#[trigger] d[k]).request is Some && targets.contains(d[k].request->Some_0) by {
                assert(s[k].request is Some);
            }
            let h = s[s.len() - 1].request->Some_0;
            assert(s[s.len() - 1].request is Some && targets.contains(h));
            lemma_first_index_is_first(targets, h);
            let p = relinks_spec(targets, d);
            assert(!p.1) by {
                if p.1 {
                    let k = choose|k: int| 0 <= k < d.len() && (#[trigger] d[k]).request is None;
                    assert(s[k].request is Some);
                }
            }
            let r = relinks_spec(targets, s).0;
            assert forall|k: int| 0 <= k < s.len() implies (#[trigger] r[k]).request == s[k].request->Some_0
                && r[k].transaction == s[k].transaction by {
                if k < d.len() {
                    assert(r[k] == p.0[k]);
                }
            }
        }
    }
}

} // verus!
