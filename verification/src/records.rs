//! Reading transactions out of source-chain records, and the map of
//! transactions by action hash that queries answer with.
use vstd::prelude::*;
use crate::hashes::ActionId;
use crate::error::MutualCreditError;
use crate::transaction::{Transaction, TransactionView};
use crate::order::{lex_lt, compare_bytes, ByteOrder, lemma_lex_irreflexive, lemma_lex_transitive,
    lemma_lex_total, lemma_lex_asymmetric};

verus! {

/// The entry of a record, as far as transactions are concerned.
pub enum EntryShape {
    /// A countersigned entry, with the transaction its bytes decode to, or
    /// `None` when they do not decode to one.
    CounterSigned(Option<Transaction>),
    /// Any entry that is not countersigned.
    Other,
}

/// A record of a source chain that is expected to hold a transaction.
pub struct TransactionRecord {
    pub action_address: ActionId,
    /// The record's entry, if the record carries one.
    pub entry: Option<EntryShape>,
}

pub enum EntryView {
    CounterSigned(Option<TransactionView>),
    Other,
}

pub struct RecordView {
    pub address: Seq<u8>,
    pub entry: Option<EntryView>,
}

impl View for EntryShape {
    type V = EntryView;

    open spec fn view(&self) -> EntryView {
        match self {
            EntryShape::CounterSigned(Some(t)) => EntryView::CounterSigned(Some(t@)),
            EntryShape::CounterSigned(None) => EntryView::CounterSigned(None),
            EntryShape::Other => EntryView::Other,
        }
    }
}

impl View for TransactionRecord {
    type V = RecordView;

    open spec fn view(&self) -> RecordView {
        RecordView {
            address: self.action_address@,
            entry: match self.entry {
                Some(e) => Some(e@),
                None => None,
            },
        }
    }
}

/// The transaction a countersigned entry holds.
pub open spec fn entry_transaction(e: EntryView) -> Result<TransactionView, MutualCreditError> {
    match e {
        EntryView::CounterSigned(Some(t)) => Ok(t),
        EntryView::CounterSigned(None) => Err(MutualCreditError::TransactionDecodeFailed),
        EntryView::Other => Err(MutualCreditError::MalformedEntry),
    }
}

/// The transaction a record holds.
pub open spec fn record_transaction(r: RecordView) -> Result<TransactionView, MutualCreditError> {
    match r.entry {
        None => Err(MutualCreditError::MalformedTransaction),
        Some(e) => entry_transaction(e),
    }
}

/// The transactions of `records` by action hash, read in order (a later
/// record replaces an earlier one with the same hash); the first record
/// that holds no transaction stops the reading with its error.
pub open spec fn records_spec(records: Seq<RecordView>) -> Result<Map<Seq<u8>, TransactionView>, MutualCreditError>
    decreases records.len(),
{
    if records.len() == 0 {
        Ok(Map::empty())
    } else {
        match records_spec(records.drop_last()) {
            Err(e) => Err(e),
            Ok(m) => match record_transaction(records.last()) {
                Err(e) => Err(e),
                Ok(t) => Ok(m.insert(records.last().address, t)),
            },
        }
    }
}

pub open spec fn records_view(s: Seq<TransactionRecord>) -> Seq<RecordView> {
    s.map_values(|x: TransactionRecord| x@)
}

impl EntryShape {
    pub fn copy(&self) -> (r: EntryShape)
        ensures
            r@ == self@,
    {
        match self {
            EntryShape::CounterSigned(Some(t)) => EntryShape::CounterSigned(Some(t.copy())),
            EntryShape::CounterSigned(None) => EntryShape::CounterSigned(None),
            EntryShape::Other => EntryShape::Other,
        }
    }
}

impl TransactionRecord {
    pub fn copy(&self) -> (r: TransactionRecord)
        ensures
            r@ == self@,
    {
        TransactionRecord {
            action_address: self.action_address.copy(),
            entry: match &self.entry {
                Some(e) => Some(e.copy()),
                None => None,
            },
        }
    }
}

/// The transaction a countersigned entry holds.
pub fn entry_to_transaction(entry: EntryShape) -> (r: Result<Transaction, MutualCreditError>)
    ensures
        match r {
            Ok(t) => entry_transaction(entry@) == Ok::<TransactionView, MutualCreditError>(t@),
            Err(e) => entry_transaction(entry@) == Err::<TransactionView, MutualCreditError>(e),
        },
{
    match entry {
        EntryShape::CounterSigned(Some(t)) => Ok(t),
        EntryShape::CounterSigned(None) => Err(MutualCreditError::TransactionDecodeFailed),
        EntryShape::Other => Err(MutualCreditError::MalformedEntry),
    }
}

/// The transaction a record holds.
pub fn record_to_transaction(record: TransactionRecord) -> (r: Result<Transaction, MutualCreditError>)
    ensures
        match r {
            Ok(t) => record_transaction(record@) == Ok::<TransactionView, MutualCreditError>(t@),
            Err(e) => record_transaction(record@) == Err::<TransactionView, MutualCreditError>(e),
        },
{
    match record.entry {
        None => Err(MutualCreditError::MalformedTransaction),
        Some(e) => entry_to_transaction(e),
    }
}

/// The latest transaction of an agent: the action `hash` (its latest valid
/// transaction action) with the transaction its record holds; `fetched` is
/// the entry of that record when the record could be fetched.
pub fn latest_transaction(hash: ActionId, fetched: Option<Option<EntryShape>>) -> (r: Result<(ActionId, Transaction), MutualCreditError>)
    ensures
        match r {
            Ok(p) => p.0@ == hash@ && match fetched {
                Some(e) => record_transaction(RecordView { address: hash@, entry: match e { Some(x) => Some(x@), None => None } })
                    == Ok::<TransactionView, MutualCreditError>(p.1@),
                None => false,
            },
            Err(e) => match fetched {
                None => e == MutualCreditError::LatestTransactionMissing,
                Some(x) => record_transaction(RecordView { address: hash@, entry: match x { Some(y) => Some(y@), None => None } })
                    == Err::<TransactionView, MutualCreditError>(e),
            },
        },
{
    match fetched {
        None => Err(MutualCreditError::LatestTransactionMissing),
        Some(entry) => {
            let t = record_to_transaction(TransactionRecord { action_address: hash.copy(), entry })?;
            Ok((hash, t))
        },
    }
}

pub open spec fn opt_record_view(m: Option<TransactionRecord>) -> Option<RecordView> {
    match m {
        Some(x) => Some(x@),
        None => None,
    }
}

/// The records of `s` that were found, in order.
pub open spec fn present_spec(s: Seq<Option<RecordView>>) -> Seq<RecordView>
    decreases s.len(),
{
    if s.len() == 0 {
        Seq::empty()
    } else {
        let p = present_spec(s.drop_last());
        match s.last() {
            Some(x) => p.push(x),
            None => p,
        }
    }
}

/// The records that were found, in order.
pub fn present_records(maybe_records: Vec<Option<TransactionRecord>>) -> (r: Vec<TransactionRecord>)
    ensures
        r@.map_values(|x: TransactionRecord| x@) == present_spec(maybe_records@.map_values(|m: Option<TransactionRecord>| opt_record_view(m))),
{
    let ghost whole = maybe_records@.map_values(|m: Option<TransactionRecord>| opt_record_view(m));
    let mut r: Vec<TransactionRecord> = Vec::new();
    let mut rest = maybe_records;
    let n = rest.len();
    let mut i: usize = 0;
    while i < n
        invariant
            n == whole.len(),
            i <= n,
            rest@.len() == n - i,
            forall|j: int| 0 <= j < n - i ==> #[trigger] opt_record_view(rest@[j]) == whole[j + i],
            r@.map_values(|x: TransactionRecord| x@) == present_spec(whole.take(i as int)),
        decreases n - i,
    {
        let m = rest.remove(0);
        proof {
            assert(opt_record_view(m) == whole[i as int]);
            assert(whole.take(i + 1).drop_last() =~= whole.take(i as int));
            assert(whole.take(i + 1).last() == whole[i as int]);
        }
        let ghost before = r@;
        match m {
            Some(rec) => {
                r.push(rec);
                assert(r@.map_values(|x: TransactionRecord| x@) =~= before.map_values(|x: TransactionRecord| x@).push(rec@));
            },
            None => {},
        }
        i = i + 1;
    }
    assert(whole.take(n as int) =~= whole);
    r
}

/// Ordered entries with distinct keys in increasing order.
pub open spec fn keys_sorted(s: Seq<(Seq<u8>, TransactionView)>) -> bool {
    forall|i: int, j: int| 0 <= i < j < s.len() ==> lex_lt(#[trigger] s[i].0, #[trigger] s[j].0)
}

/// The map that a sequence of entries stands for.
pub open spec fn entries_map(s: Seq<(Seq<u8>, TransactionView)>) -> Map<Seq<u8>, TransactionView>
    decreases s.len(),
{
    if s.len() == 0 {
        Map::empty()
    } else {
        entries_map(s.drop_last()).insert(s.last().0, s.last().1)
    }
}

/// In sorted entries each key stands for the value beside it, and the map
/// has no other keys.
pub proof fn lemma_entries_map(s: Seq<(Seq<u8>, TransactionView)>)
    requires
        keys_sorted(s),
    ensures
        forall|i: int| 0 <= i < s.len() ==> #[trigger] entries_map(s).contains_key(s[i].0)
            && entries_map(s)[s[i].0] == s[i].1,
        forall|k: Seq<u8>| #[trigger] entries_map(s).contains_key(k) ==> exists|i: int| 0 <= i < s.len() && s[i].0 == k,
    decreases s.len(),
{
    if s.len() > 0 {
        let d = s.drop_last();
        assert(keys_sorted(d)) by {
            assert forall|i: int, j: int| 0 <= i < j < d.len() implies lex_lt(#[trigger] d[i].0, #[trigger] d[j].0) by {
                assert(d[i] == s[i] && d[j] == s[j]);
            }
        }
        lemma_entries_map(d);
        assert forall|i: int| 0 <= i < s.len() implies #[trigger] entries_map(s).contains_key(s[i].0)
            && entries_map(s)[s[i].0] == s[i].1 by {
            if i < s.len() - 1 {
                assert(d[i] == s[i]);
                assert(entries_map(d).contains_key(d[i].0));
                assert(lex_lt(s[i].0, s[s.len() - 1].0));
                lemma_lex_irreflexive(s[i].0);
            }
        }
        assert forall|k: Seq<u8>| #[trigger] entries_map(s).contains_key(k) implies exists|i: int| 0 <= i < s.len() && s[i].0 == k by {
            if k != s.last().0 {
                assert(entries_map(d).contains_key(k));
                let i = choose|i: int| 0 <= i < d.len() && d[i].0 == k;
                assert(s[i] == d[i]);
            } else {
                assert(s[s.len() - 1].0 == k);
            }
        }
    }
}

/// Two sorted sequences of entries with the same pairs stand for the same
/// map, and a sorted sequence's map is determined by its pairs.
pub proof fn lemma_entries_map_ext(s: Seq<(Seq<u8>, TransactionView)>, m: Map<Seq<u8>, TransactionView>)
    requires
        keys_sorted(s),
        forall|i: int| 0 <= i < s.len() ==> #[trigger] m.contains_key(s[i].0) && m[s[i].0] == s[i].1,
        forall|k: Seq<u8>| #[trigger] m.contains_key(k) ==> exists|i: int| 0 <= i < s.len() && s[i].0 == k,
    ensures
        entries_map(s) == m,
{
    lemma_entries_map(s);
    assert forall|k: Seq<u8>| #[trigger] entries_map(s).contains_key(k) <==> m.contains_key(k) by {
        if m.contains_key(k) {
            let i = choose|i: int| 0 <= i < s.len() && s[i].0 == k;
        }
        if entries_map(s).contains_key(k) {
            let i = choose|i: int| 0 <= i < s.len() && s[i].0 == k;
        }
    }
    assert forall|k: Seq<u8>| #[trigger] entries_map(s).contains_key(k) implies entries_map(s)[k] == m[k] by {
        let i = choose|i: int| 0 <= i < s.len() && s[i].0 == k;
    }
    assert(entries_map(s) =~= m);
}

/// Transactions by the hash of the action that wrote them, kept in
/// increasing byte order of the hashes (the order of an ordered map).
pub struct TransactionMap {
    entries: Vec<(ActionId, Transaction)>,
}

pub open spec fn entries_view(v: Seq<(ActionId, Transaction)>) -> Seq<(Seq<u8>, TransactionView)> {
    v.map_values(|e: (ActionId, Transaction)| (e.0@, e.1@))
}

impl TransactionMap {
    /// The entries, in increasing order of their hashes.
    pub closed spec fn entries_spec(&self) -> Seq<(Seq<u8>, TransactionView)> {
        entries_view(self.entries@)
    }

    /// The map the entries stand for.
    pub open spec fn map(&self) -> Map<Seq<u8>, TransactionView> {
        entries_map(self.entries_spec())
    }

    pub open spec fn wf(&self) -> bool {
        keys_sorted(self.entries_spec())
    }

    /// An empty map.
    pub fn new() -> (r: TransactionMap)
        ensures
            r.wf(),
            r.map() == Map::<Seq<u8>, TransactionView>::empty(),
            r.entries_spec().len() == 0,
    {
        let r = TransactionMap { entries: Vec::new() };
        assert(r.entries_spec() =~= Seq::<(Seq<u8>, TransactionView)>::empty());
        r
    }

    /// The number of transactions.
    pub fn len(&self) -> (r: usize)
        ensures
            r == self.entries_spec().len(),
    {
        self.entries.len()
    }

    /// The entries, in increasing order of their hashes.
    pub fn into_entries(self) -> (r: Vec<(ActionId, Transaction)>)
        ensures
            entries_view(r@) == self.entries_spec(),
    {
        self.entries
    }

    /// Records `transaction` under `hash`, replacing what was there.
    pub fn insert(&mut self, hash: ActionId, transaction: Transaction)
        requires
            old(self).wf(),
        ensures
            final(self).wf(),
            final(self).map() == old(self).map().insert(hash@, transaction@),
    {
        let ghost old_entries = self.entries_spec();
        proof {
            lemma_entries_map(old_entries);
        }
        let mut p: usize = 0;
        let n = self.entries.len();
        while p < n && compare_bytes(&self.entries[p].0.bytes, &hash.bytes) == ByteOrder::Before
            invariant
                n == self.entries@.len(),
                p <= n,
                self.entries_spec() == old_entries,
                forall|j: int| 0 <= j < p ==> lex_lt(#[trigger] old_entries[j].0, hash@),
            decreases n - p,
        {
            p = p + 1;
        }
        let ghost new_entry = (hash@, transaction@);
        if p < n && compare_bytes(&self.entries[p].0.bytes, &hash.bytes) == ByteOrder::Same {
            self.entries.set(p, (hash, transaction));
            proof {
                let s = self.entries_spec();
                assert(s =~= old_entries.update(p as int, new_entry));
                assert(keys_sorted(s)) by {
                    assert forall|i: int, j: int| 0 <= i < j < s.len() implies lex_lt(#[trigger] s[i].0, #[trigger] s[j].0) by {
                        assert(s[i].0 == old_entries[i].0);
                        assert(s[j].0 == old_entries[j].0);
                    }
                }
                let m = entries_map(old_entries).insert(new_entry.0, new_entry.1);
                assert forall|i: int| 0 <= i < s.len() implies #[trigger] m.contains_key(s[i].0) && m[s[i].0] == s[i].1 by {
                    if i != p {
                        assert(s[i] == old_entries[i]);
                        assert(entries_map(old_entries).contains_key(old_entries[i].0));
                        if i < p {
                            assert(lex_lt(old_entries[i].0, old_entries[p as int].0));
                        } else {
                            assert(lex_lt(old_entries[p as int].0, old_entries[i].0));
                        }
                        lemma_lex_irreflexive(s[i].0);
                    }
                }
                assert forall|k: Seq<u8>| #[trigger] m.contains_key(k) implies exists|i: int| 0 <= i < s.len() && s[i].0 == k by {
                    if k != new_entry.0 {
                        let i = choose|i: int| 0 <= i < old_entries.len() && old_entries[i].0 == k;
                        assert(s[i].0 == k);
                    } else {
                        assert(s[p as int].0 == k);
                    }
                }
                lemma_entries_map_ext(s, m);
            }
        } else {
            proof {
                if p < n {
                    lemma_lex_total(old_entries[p as int].0, hash@);
                }
            }
            self.entries.insert(p, (hash, transaction));
            proof {
                let s = self.entries_spec();
                assert(s =~= old_entries.insert(p as int, new_entry));
                assert(keys_sorted(s)) by {
                    assert forall|i: int, j: int| 0 <= i < j < s.len() implies lex_lt(#[trigger] s[i].0, #[trigger] s[j].0) by {
                        if j < p {
                            assert(s[i] == old_entries[i] && s[j] == old_entries[j]);
                        } else if j == p {
                            assert(s[i] == old_entries[i]);
                        } else if i < p {
                            assert(s[i] == old_entries[i] && s[j] == old_entries[j - 1]);
                            assert(lex_lt(old_entries[i].0, hash@));
                            assert(lex_lt(hash@, old_entries[p as int].0));
                            if j - 1 > p {
                                assert(lex_lt(old_entries[p as int].0, old_entries[j - 1].0));
                                lemma_lex_transitive(hash@, old_entries[p as int].0, old_entries[j - 1].0);
                            }
                            lemma_lex_transitive(old_entries[i].0, hash@, old_entries[j - 1].0);
                        } else if i == p {
                            assert(s[j] == old_entries[j - 1]);
                            if j - 1 > p {
                                assert(lex_lt(old_entries[p as int].0, old_entries[j - 1].0));
                                lemma_lex_transitive(hash@, old_entries[p as int].0, old_entries[j - 1].0);
                            }
                        } else {
                            assert(s[i] == old_entries[i - 1] && s[j] == old_entries[j - 1]);
                        }
                    }
                }
                let m = entries_map(old_entries).insert(new_entry.0, new_entry.1);
                assert forall|i: int| 0 <= i < s.len() implies #[trigger] m.contains_key(s[i].0) && m[s[i].0] == s[i].1 by {
                    if i < p {
                        assert(s[i] == old_entries[i]);
                        assert(entries_map(old_entries).contains_key(old_entries[i].0));
                        lemma_lex_irreflexive(hash@);
                    } else if i > p {
                        assert(s[i] == old_entries[i - 1]);
                        assert(entries_map(old_entries).contains_key(old_entries[i - 1].0));
                        if i - 1 > p {
                            assert(lex_lt(old_entries[p as int].0, old_entries[i - 1].0));
                            lemma_lex_transitive(hash@, old_entries[p as int].0, old_entries[i - 1].0);
                        }
                        lemma_lex_irreflexive(hash@);
                    }
                }
                assert forall|k: Seq<u8>| #[trigger] m.contains_key(k) implies exists|i: int| 0 <= i < s.len() && s[i].0 == k by {
                    if k != new_entry.0 {
                        let i = choose|i: int| 0 <= i < old_entries.len() && old_entries[i].0 == k;
                        if i < p {
                            assert(s[i].0 == k);
                        } else {
                            assert(s[i + 1].0 == k);
                        }
                    } else {
                        assert(s[p as int].0 == k);
                    }
                }
                lemma_entries_map_ext(s, m);
            }
        }
    }
}

/// The map of the transactions that `records` hold, by the hash of the
/// action that wrote them; the first record that holds no transaction makes
/// the whole reading fail with its error.
pub fn records_to_transactions(records: Vec<TransactionRecord>) -> (r: Result<TransactionMap, MutualCreditError>)
    ensures
        match r {
            Ok(m) => m.wf() && records_spec(records_view(records@))
                == Ok::<Map<Seq<u8>, TransactionView>, MutualCreditError>(m.map()),
            Err(e) => records_spec(records_view(records@))
                == Err::<Map<Seq<u8>, TransactionView>, MutualCreditError>(e),
        },
{
    let ghost whole = records_view(records@);
    let mut rest = records;
    let n = rest.len();
    let mut map = TransactionMap::new();
    let mut i: usize = 0;
    while i < n
        invariant
            n == whole.len(),
            whole == records_view(records@),
            i <= n,
            rest@.len() == n - i,
            forall|j: int| 0 <= j < n - i ==> #[trigger] rest@[j]@ == whole[j + i],
            map.wf(),
            records_spec(whole.take(i as int)) == Ok::<Map<Seq<u8>, TransactionView>, MutualCreditError>(map.map()),
        decreases n - i,
    {
        let record = rest.remove(0);
        proof {
            assert(record@ == whole[i as int]);
            assert(whole.take(i + 1).drop_last() =~= whole.take(i as int));
            assert(whole.take(i + 1).last() == whole[i as int]);
        }
        let address = record.action_address.copy();
        match record_to_transaction(record) {
            Err(e) => {
                proof {
                    assert(records_spec(whole.take(i + 1)) == Err::<Map<Seq<u8>, TransactionView>, MutualCreditError>(e));
                    lemma_records_spec_error_persists(whole, i as int + 1);
                    assert(records_spec(whole) == Err::<Map<Seq<u8>, TransactionView>, MutualCreditError>(e));
                }
                return Err(e);
            },
            Ok(t) => {
                map.insert(address, t);
            },
        }
        i = i + 1;
    }
    assert(whole.take(n as int) =~= whole);
    Ok(map)
}

/// Once reading the records has failed, reading more of them keeps the
/// same error.
pub proof fn lemma_records_spec_error_persists(records: Seq<RecordView>, n: int)
    requires
        0 <= n <= records.len(),
        records_spec(records.take(n)) is Err,
    ensures
        records_spec(records) == records_spec(records.take(n)),
    decreases records.len() - n,
{
    if n < records.len() {
        assert(records.take(n + 1).drop_last() =~= records.take(n));
        lemma_records_spec_error_persists(records, n + 1);
    } else {
        assert(records.take(n) =~= records);
    }
}

/// Reading records succeeds exactly when every record holds a
/// transaction; the map then has a key for each record's address and no
/// other, and under an address it holds the transaction of the last record
/// with that address.
pub proof fn lemma_records_map_contents(rs: Seq<RecordView>)
    ensures
        records_spec(rs) is Ok <==> forall|i: int| 0 <= i < rs.len() ==> #[trigger] record_transaction(rs[i]) is Ok,
        records_spec(rs) is Ok ==> {
            let m = records_spec(rs)->Ok_0;
            &&& forall|k: Seq<u8>| #[trigger] m.contains_key(k) <==> exists|i: int| 0 <= i < rs.len() && rs[i].address == k
            &&& forall|i: int| 0 <= i < rs.len() && (forall|j: int| i < j < rs.len() ==> rs[j].address != rs[i].address)
                ==> m[#[trigger] rs[i].address] == record_transaction(rs[i])->Ok_0
        },
    decreases rs.len(),
{
    if rs.len() > 0 {
        let d = rs.drop_last();
        lemma_records_map_contents(d);
        assert forall|i: int| 0 <= i < rs.len() - 1 implies rs[i] == d[i] by {}
        if records_spec(rs) is Ok {
            let m = records_spec(rs)->Ok_0;
            let md = records_spec(d)->Ok_0;
            assert forall|k: Seq<u8>| #[trigger] m.contains_key(k) <==> exists|i: int| 0 <= i < rs.len() && rs[i].address == k by {
                if m.contains_key(k) && k != rs.last().address {
                    assert(md.contains_key(k));
                    let i = choose|i: int| 0 <= i < d.len() && d[i].address == k;
                    assert(rs[i].address == k);
                }
                if exists|i: int| 0 <= i < rs.len() && rs[i].address == k {
                    let i = choose|i: int| 0 <= i < rs.len() && rs[i].address == k;
                    if i < rs.len() - 1 {
                        assert(d[i].address == k);
                    }
                }
            }
            assert forall|i: int| 0 <= i < rs.len() && (forall|j: int| i < j < rs.len() ==> rs[j].address != rs[i].address)
                implies m[#[trigger] rs[i].address] == record_transaction(rs[i])->Ok_0 by {
                if i < rs.len() - 1 {
                    assert(rs[rs.len() - 1].address != rs[i].address);
                    assert forall|j: int| i < j < d.len() implies d[j].address != d[i].address by {
                        assert(d[j] == rs[j]);
                    }
                    assert(md[d[i].address] == record_transaction(d[i])->Ok_0);
                }
            }
        } else {
            if records_spec(d) is Ok {
                assert(record_transaction(rs[rs.len() - 1]) is Err);
            } else {
                let i = choose|i: int| 0 <= i < d.len() && !(#[trigger] record_transaction(d[i]) is Ok);
                assert(record_transaction(rs[i]) is Err);
            }
        }
    }
}

/// The latest transaction of an agent is among its transactions: when the
/// records of its transaction actions, in chain order, are read into a map,
/// the map holds under the address of the last record the transaction that
/// record holds, which is what reading the latest transaction from that
/// record gives; with no record the map is empty.
pub proof fn lemma_latest_among_transactions(rs: Seq<RecordView>)
    requires
        records_spec(rs) is Ok,
    ensures
        rs.len() == 0 ==> records_spec(rs)->Ok_0 == Map::<Seq<u8>, TransactionView>::empty(),
        rs.len() > 0 ==> {
            &&& record_transaction(rs.last()) is Ok
            &&& records_spec(rs)->Ok_0.contains_key(rs.last().address)
            &&& records_spec(rs)->Ok_0[rs.last().address] == record_transaction(rs.last())->Ok_0
        },
{
}

/// The two readings of an agent's transactions agree on its latest one:
/// when the records read for its transaction actions, in chain order, end
/// with the record of its latest action `hash` (with entry `entry`, as the
/// reading of the latest transaction fetches it) and reading them all
/// succeeds, the map holds under `hash` exactly the transaction that
/// reading the latest transaction gives (`latest_transaction` returns it
/// from the same record); and an agent without transaction actions has an
/// empty map and no latest transaction.
pub proof fn lemma_latest_reading_in_map(rs: Seq<RecordView>, hash: Seq<u8>, entry: Option<EntryView>)
    requires
        records_spec(rs) is Ok,
        rs.len() > 0 ==> rs.last() == (RecordView { address: hash, entry }),
    ensures
        rs.len() > 0 ==> {
            &&& record_transaction(RecordView { address: hash, entry }) is Ok
            &&& records_spec(rs)->Ok_0.contains_key(hash)
            &&& records_spec(rs)->Ok_0[hash] == record_transaction(RecordView { address: hash, entry })->Ok_0
        },
        rs.len() == 0 ==> records_spec(rs)->Ok_0 == Map::<Seq<u8>, TransactionView>::empty(),
{
    lemma_latest_among_transactions(rs);
}

/// Reading the found records keeps every record that was found, in order,
/// and nothing else: when every record was found the result is all of
/// them; a record found at any position is in the result; and the result
/// is never longer than what was read.
pub proof fn lemma_present_records_keeps_found(s: Seq<Option<RecordView>>)
    ensures
        (forall|i: int| 0 <= i < s.len() ==> (#[trigger] s[i]) is Some)
            ==> present_spec(s) == s.map_values(|m: Option<RecordView>| m->Some_0),
        forall|i: int| 0 <= i < s.len() && (#[trigger] s[i]) is Some ==> present_spec(s).contains(s[i]->Some_0),
        forall|k: int| 0 <= k < present_spec(s).len() ==> s.contains(Some(#[trigger] present_spec(s)[k])),
        present_spec(s).len() <= s.len(),
    decreases s.len(),
{
    if s.len() > 0 {
        let d = s.drop_last();
        lemma_present_records_keeps_found(d);
        let p = present_spec(d);
        let q = present_spec(s);
        assert forall|i: int| 0 <= i < d.len() implies d[i] == s[i] by {}
        if forall|i: int| 0 <= i < s.len() ==> (#[trigger] s[i]) is Some {
            assert forall|i: int| 0 <= i < d.len() implies (#[trigger] d[i]) is Some by {
                assert(s[i] is Some);
            }
            assert(s[s.len() - 1] is Some);
            assert(q =~= s.map_values(|m: Option<RecordView>| m->Some_0));
        }
        assert forall|i: int| 0 <= i < s.len() && (#[trigger] s[i]) is Some implies q.contains(s[i]->Some_0) by {
            if i < s.len() - 1 {
                assert(d[i] == s[i]);
                assert(p.contains(d[i]->Some_0));
                let k = choose|k: int| 0 <= k < p.len() && p[k] == d[i]->Some_0;
                assert(q[k] == p[k]);
            } else {
                assert(q[q.len() - 1] == s[i]->Some_0);
            }
        }
        assert forall|k: int| 0 <= k < q.len() implies s.contains(Some(#[trigger] q[k])) by {
            if k < p.len() {
                assert(q[k] == p[k]);
                assert(d.contains(Some(p[k])));
                let j = choose|j: int| 0 <= j < d.len() && d[j] == Some(p[k]);
                assert(s[j] == d[j]);
            } else {
                assert(s[s.len() - 1] == Some(q[k]));
            }
        }
    }
}

/// A record holds a transaction exactly when it carries a countersigned
/// entry whose bytes read as one, and then holds that one; a record without
/// an entry, with another entry or with unreadable bytes is refused with
/// the error that names it.
pub proof fn lemma_record_transaction(r: RecordView)
    ensures
        r.entry is None ==> record_transaction(r) == Err::<TransactionView, MutualCreditError>(MutualCreditError::MalformedTransaction),
        r.entry == Some(EntryView::Other) ==> record_transaction(r) == Err::<TransactionView, MutualCreditError>(MutualCreditError::MalformedEntry),
        r.entry == Some(EntryView::CounterSigned(None)) ==> record_transaction(r) == Err::<TransactionView, MutualCreditError>(MutualCreditError::TransactionDecodeFailed),
        forall|t: TransactionView| r.entry == Some(EntryView::CounterSigned(Some(t)))
            ==> #[trigger] record_transaction(r) == Ok::<TransactionView, MutualCreditError>(t),
{
}

} // verus!
