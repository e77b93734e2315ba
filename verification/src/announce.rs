//! Which transactions a commit announces, and to whom: each committed
//! action that wrote one of this agent's transactions is announced, with
//! that transaction, to its other party.
use vstd::prelude::*;
use crate::hashes::{ActionId, AgentKey};
use crate::error::MutualCreditError;
use crate::transaction::{Transaction, TransactionView, other_party_of};
use crate::records::{TransactionRecord, RecordView, record_transaction, records_view, record_to_transaction};
use crate::activity::ids_view;
use crate::links::{first_index, find_first, lemma_first_index_is_first};

verus! {

/// A transaction to announce: the action that wrote it, the transaction,
/// and the party it is announced to.
pub struct Announcement {
    pub transaction_hash: ActionId,
    pub transaction: Transaction,
    pub counterparty: AgentKey,
}

pub struct AnnouncementView {
    pub transaction_hash: Seq<u8>,
    pub transaction: TransactionView,
    pub counterparty: Seq<u8>,
}

pub open spec fn announcements_view(s: Seq<Announcement>) -> Seq<AnnouncementView> {
    s.map_values(|a: Announcement| AnnouncementView {
        transaction_hash: a.transaction_hash@,
        transaction: a.transaction@,
        counterparty: a.counterparty@,
    })
}

pub open spec fn record_addresses(records: Seq<RecordView>) -> Seq<Seq<u8>> {
    records.map_values(|r: RecordView| r.address)
}

/// The announcements `me` makes for the committed actions `committed`, in
/// order, given the records of its transactions: an action that is the
/// address of one of them (the first with that address) is announced with
/// the transaction that record holds, to the transaction's other party.
/// The reading stops at the first record that holds no transaction, or
/// whose transaction does not name `me`, with that error.
pub open spec fn announcements_spec(
    me: Seq<u8>,
    committed: Seq<Seq<u8>>,
    records: Seq<RecordView>,
) -> (Seq<AnnouncementView>, Option<MutualCreditError>)
    decreases committed.len(),
{
    if committed.len() == 0 {
        (Seq::empty(), None)
    } else {
        let prev = announcements_spec(me, committed.drop_last(), records);
        if prev.1 is Some {
            prev
        } else {
            match first_index(record_addresses(records), committed.last()) {
                None => prev,
                Some(k) => match record_transaction(records[k]) {
                    Err(e) => (prev.0, Some(e)),
                    Ok(t) => match other_party_of(t, me) {
                        None => (prev.0, Some(MutualCreditError::NotAParticipant)),
                        Some(c) => (
                            prev.0.push(AnnouncementView { transaction_hash: committed.last(), transaction: t, counterparty: c.agent }),
                            None,
                        ),
                    },
                },
            }
        }
    }
}

/// Once the reading has stopped, later actions change nothing.
pub proof fn lemma_announcements_stop(me: Seq<u8>, committed: Seq<Seq<u8>>, records: Seq<RecordView>, n: int)
    requires
        0 <= n <= committed.len(),
        announcements_spec(me, committed.take(n), records).1 is Some,
    ensures
        announcements_spec(me, committed, records) == announcements_spec(me, committed.take(n), records),
    decreases committed.len() - n,
{
    if n < committed.len() {
        assert(committed.take(n + 1).drop_last() =~= committed.take(n));
        lemma_announcements_stop(me, committed, records, n + 1);
    } else {
        assert(committed.take(n) =~= committed);
    }
}

/// What `me` announces after committing the actions `committed`, given the
/// records of its transactions: the announcements, in order, up to the
/// first record that cannot be read, and the error of that record.
pub fn announcements(
    me: &AgentKey,
    committed: &Vec<ActionId>,
    my_records: &Vec<TransactionRecord>,
) -> (r: (Vec<Announcement>, Option<MutualCreditError>))
    ensures
        (announcements_view(r.0@), r.1) == announcements_spec(me@, ids_view(committed@), records_view(my_records@)),
{
    let ghost records = records_view(my_records@);
    let mut addresses: Vec<ActionId> = Vec::new();
    let mut j: usize = 0;
    while j < my_records.len()
        invariant
            j <= my_records@.len(),
            records == records_view(my_records@),
            ids_view(addresses@) =~= record_addresses(records).take(j as int),
        decreases my_records@.len() - j,
    {
        let ghost before = addresses@;
        addresses.push(my_records[j].action_address.copy());
        assert(records[j as int] == my_records@[j as int]@);
        assert(ids_view(addresses@) =~= ids_view(before).push(records[j as int].address));
        assert(record_addresses(records).take(j + 1) =~= record_addresses(records).take(j as int).push(records[j as int].address));
        j = j + 1;
    }
    assert(ids_view(addresses@) =~= record_addresses(records));

    let ghost cs = ids_view(committed@);
    let mut out: Vec<Announcement> = Vec::new();
    let mut i: usize = 0;
    while i < committed.len()
        invariant
            i <= committed@.len(),
            cs == ids_view(committed@),
            records == records_view(my_records@),
            ids_view(addresses@) == record_addresses(records),
            (announcements_view(out@), None::<MutualCreditError>) == announcements_spec(me@, cs.take(i as int), records),
        decreases committed@.len() - i,
    {
        assert(cs.take(i + 1).drop_last() =~= cs.take(i as int));
        assert(cs.take(i + 1).last() == committed@[i as int]@);
        match find_first(&addresses, &committed[i]) {
            None => {},
            Some(k) => {
                proof { crate::links::lemma_first_index_is_first(ids_view(addresses@), committed@[i as int]@); }
                assert(record_addresses(records)[k as int] == records[k as int].address);
                assert(records[k as int] == my_records@[k as int]@);
                let record = my_records[k].copy();
                match record_to_transaction(record) {
                    Err(e) => {
                        proof { lemma_announcements_stop(me@, cs, records, i + 1); }
                        return (out, Some(e));
                    },
                    Ok(t) => {
                        match t.get_counterparty(me) {
                            Err(e) => {
                                proof { lemma_announcements_stop(me@, cs, records, i + 1); }
                                return (out, Some(e));
                            },
                            Ok(c) => {
                                let ghost before = out@;
                                out.push(Announcement {
                                    transaction_hash: committed[i].copy(),
                                    transaction: t,
                                    counterparty: c.agent_pub_key,
                                });
                                assert(announcements_view(out@) =~= announcements_view(before).push(AnnouncementView {
                                    transaction_hash: committed@[i as int]@,
                                    transaction: out@[out@.len() - 1].transaction@,
                                    counterparty: out@[out@.len() - 1].counterparty@,
                                }));
                            },
                        }
                    },
                }
            },
        }
        i = i + 1;
    }
    assert(cs.take(committed@.len() as int) =~= cs);
    (out, None)
}

/// Whether record `r` holds a transaction that names `me`.
pub open spec fn record_names(r: RecordView, me: Seq<u8>) -> bool {
    match record_transaction(r) {
        Ok(t) => t.spender.agent == me || t.recipient.agent == me,
        Err(_) => false,
    }
}

/// Each announcement is of a transaction of `me`, written by one of the
/// committed actions, announced to the party `me` did not play; and when
/// every record holds a transaction that names `me`, the reading does not
/// stop and every committed action that wrote one of them is announced.
pub proof fn lemma_announcements(me: Seq<u8>, committed: Seq<Seq<u8>>, records: Seq<RecordView>)
    ensures
        ({
            let (a, failure) = announcements_spec(me, committed, records);
            &&& forall|k: int| 0 <= k < a.len() ==> {
                let x = #[trigger] a[k];
                &&& committed.contains(x.transaction_hash)
                &&& exists|j: int| 0 <= j < records.len() && records[j].address == x.transaction_hash
                    && record_transaction(records[j]) == Ok::<TransactionView, MutualCreditError>(x.transaction)
                &&& x.transaction.spender.agent == me ==> x.counterparty == x.transaction.recipient.agent
                &&& x.transaction.spender.agent != me ==> x.transaction.recipient.agent == me && x.counterparty == x.transaction.spender.agent
            }
            &&& (forall|j: int| 0 <= j < records.len() ==> record_names(#[trigger] records[j], me)) ==> {
                &&& failure is None
                &&& forall|i: int| 0 <= i < committed.len() && record_addresses(records).contains(#[trigger] committed[i])
                    ==> exists|k: int| 0 <= k < a.len() && (#[trigger] a[k]).transaction_hash == committed[i]
            }
        }),
    decreases committed.len(),
{
    if committed.len() > 0 {
        let d = committed.drop_last();
        lemma_announcements(me, d, records);
        let h = committed.last();
        let prev = announcements_spec(me, d, records);
        let cur = announcements_spec(me, committed, records);
        assert forall|i: int| 0 <= i < d.len() implies d[i] == committed[i] by {}
        lemma_first_index_is_first(record_addresses(records), h);
        assert forall|k: int| 0 <= k < cur.0.len() implies {
            let x = #[trigger] cur.0[k];
            &&& committed.contains(x.transaction_hash)
            &&& exists|j: int| 0 <= j < records.len() && records[j].address == x.transaction_hash
                && record_transaction(records[j]) == Ok::<TransactionView, MutualCreditError>(x.transaction)
            &&& x.transaction.spender.agent == me ==> x.counterparty == x.transaction.recipient.agent
            &&& x.transaction.spender.agent != me ==> x.transaction.recipient.agent == me && x.counterparty == x.transaction.spender.agent
        } by {
            if k < prev.0.len() {
                assert(cur.0[k] == prev.0[k]);
                let x = prev.0[k];
                assert(d.contains(x.transaction_hash));
                let i = choose|i: int| 0 <= i < d.len() && d[i] == x.transaction_hash;
                assert(committed[i] == x.transaction_hash);
            } else {
                let j = first_index(record_addresses(records), h)->Some_0;
                assert(records[j].address == record_addresses(records)[j]);
                assert(committed[committed.len() - 1] == h);
            }
        }
        if forall|j: int| 0 <= j < records.len() ==> record_names(#[trigger] records[j], me) {
            assert forall|i: int| 0 <= i < committed.len() && record_addresses(records).contains(#[trigger] committed[i])
                implies exists|k: int| 0 <= k < cur.0.len() && (#[trigger] cur.0[k]).transaction_hash == committed[i] by {
                if i < d.len() {
                    assert(d[i] == committed[i]);
                    assert(record_addresses(records).contains(d[i]));
                    let k = choose|k: int| 0 <= k < prev.0.len() && (#[trigger] prev.0[k]).transaction_hash == d[i];
                    assert(cur.0[k] == prev.0[k]);
                } else {
                    let j = first_index(record_addresses(records), h)->Some_0;
                    assert(records[j].address == record_addresses(records)[j]);
                    assert(record_names(records[j], me));
                    assert(cur.0[cur.0.len() - 1].transaction_hash == h);
                }
            }
        }
    }
}

} // verus!
