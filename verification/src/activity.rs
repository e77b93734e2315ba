//! What an agent's activity says about its chain: its top, its latest
//! transaction, and whether a countersigning session still holds.
use vstd::prelude::*;
use crate::hashes::{ActionId, opt_view};
use crate::error::MutualCreditError;

verus! {

/// The views of a list of hashes.
pub open spec fn ids_view(v: Seq<ActionId>) -> Seq<Seq<u8>> {
    v.map_values(|h: ActionId| h@)
}

/// The part of an agent's activity (for the transaction entry type, or for
/// the whole chain) that the application reads.
pub struct ActivitySummary {
    /// The hashes of the valid actions, in chain order.
    pub valid_activity: Vec<ActionId>,
    /// The hashes that claim the highest observed position, if any
    /// position was observed.
    pub highest_observed: Option<Vec<ActionId>>,
}

pub struct ActivityView {
    pub valid: Seq<Seq<u8>>,
    pub highest: Option<Seq<Seq<u8>>>,
}

impl View for ActivitySummary {
    type V = ActivityView;

    open spec fn view(&self) -> ActivityView {
        ActivityView {
            valid: ids_view(self.valid_activity@),
            highest: match self.highest_observed {
                Some(h) => Some(ids_view(h@)),
                None => None,
            },
        }
    }
}

/// The last element of a sequence, if it has one.
pub open spec fn last_of(s: Seq<Seq<u8>>) -> Option<Seq<u8>> {
    if s.len() == 0 {
        None
    } else {
        Some(s.last())
    }
}

/// The top of a chain according to its activity: the single action at the
/// highest observed position.
pub open spec fn chain_top_spec(a: ActivityView) -> Result<Seq<u8>, MutualCreditError> {
    match a.highest {
        None => Err(MutualCreditError::HighestObservedMissing),
        Some(h) => if h.len() != 1 {
            Err(MutualCreditError::HighestObservedNotUnique)
        } else {
            Ok(h[0])
        },
    }
}

/// Whether a countersigning session that expects the chain top
/// `highest_observed` and builds on `transaction_hash` (the party's previous
/// transaction, if any) matches the activity `a`.
pub open spec fn latest_check_spec(
    a: ActivityView,
    transaction_hash: Option<Seq<u8>>,
    highest_observed: Seq<u8>,
) -> Result<(), MutualCreditError> {
    match chain_top_spec(a) {
        Err(e) => Err(e),
        Ok(top) => if top != highest_observed {
            Err(MutualCreditError::BadHighestObserved)
        } else if last_of(a.valid) != transaction_hash {
            Err(MutualCreditError::TransactionNotTheLatest)
        } else {
            Ok(())
        },
    }
}

/// Whether the local chain, whose actions' hashes are `chain` in order,
/// still ends at `chain_top`.
pub open spec fn top_of_chain_spec(chain_top: Seq<u8>, chain: Seq<Seq<u8>>) -> Result<(), MutualCreditError> {
    match last_of(chain) {
        None => Err(MutualCreditError::ChainEmpty),
        Some(last) => if last != chain_top {
            Err(MutualCreditError::ChainMoved)
        } else {
            Ok(())
        },
    }
}

/// Copies a list of hashes.
pub fn copy_ids(v: &Vec<ActionId>) -> (r: Vec<ActionId>)
    ensures
        ids_view(r@) == ids_view(v@),
{
    let mut r: Vec<ActionId> = Vec::new();
    let mut i: usize = 0;
    while i < v.len()
        invariant
            i <= v@.len(),
            r@.len() == i,
            forall|j: int| 0 <= j < i ==> r@[j]@ == v@[j]@,
        decreases v@.len() - i,
    {
        r.push(v[i].copy());
        i = i + 1;
    }
    assert(ids_view(r@) =~= ids_view(v@));
    r
}

/// The last hash of a list, if it has one.
pub fn last_id(v: &Vec<ActionId>) -> (r: Option<ActionId>)
    ensures
        opt_view(r) == last_of(ids_view(v@)),
{
    if v.len() == 0 {
        None
    } else {
        Some(v[v.len() - 1].copy())
    }
}

impl ActivitySummary {
    /// The hash of the latest valid action, if there is one.
    pub fn latest_valid_action(&self) -> (r: Option<ActionId>)
        ensures
            opt_view(r) == last_of(self@.valid),
    {
        last_id(&self.valid_activity)
    }

    /// The top of the chain: the single hash at the highest observed
    /// position.
    pub fn get_chain_top(&self) -> (r: Result<ActionId, MutualCreditError>)
        ensures
            match r {
                Ok(h) => chain_top_spec(self@) == Ok::<Seq<u8>, MutualCreditError>(h@),
                Err(e) => chain_top_spec(self@) == Err::<Seq<u8>, MutualCreditError>(e),
            },
    {
        match &self.highest_observed {
            None => Err(MutualCreditError::HighestObservedMissing),
            Some(h) => {
                if h.len() != 1 {
                    Err(MutualCreditError::HighestObservedNotUnique)
                } else {
                    Ok(h[0].copy())
                }
            },
        }
    }

    /// Checks that this activity's chain is still at `highest_observed` and
    /// that its latest transaction is `transaction_hash` (both absent, or the
    /// same hash).
    pub fn check_transaction_is_the_latest(
        &self,
        transaction_hash: &Option<ActionId>,
        highest_observed: &ActionId,
    ) -> (r: Result<(), MutualCreditError>)
        ensures
            r == latest_check_spec(self@, opt_view(*transaction_hash), highest_observed@),
    {
        let actual_highest = self.get_chain_top()?;
        if !actual_highest.same_as(highest_observed) {
            return Err(MutualCreditError::BadHighestObserved);
        }
        let latest = self.latest_valid_action();
        if !crate::hashes::same_opt(&latest, transaction_hash) {
            return Err(MutualCreditError::TransactionNotTheLatest);
        }
        Ok(())
    }
}

/// Checks that the local chain, whose actions' hashes are `chain` in order,
/// still ends at `chain_top`.
pub fn validate_is_top_of_the_chain(chain_top: &ActionId, chain: &Vec<ActionId>) -> (r: Result<(), MutualCreditError>)
    ensures
        r == top_of_chain_spec(chain_top@, ids_view(chain@)),
{
    let last = last_id(chain);
    match last {
        None => Err(MutualCreditError::ChainEmpty),
        Some(l) => {
            if !l.same_as(chain_top) {
                Err(MutualCreditError::ChainMoved)
            } else {
                Ok(())
            }
        },
    }
}

/// An agent's own reading of its activity passes the latest-transaction
/// check: when the activity has a single chain top, a session that expects
/// that top and builds on the latest valid action is accepted.
pub proof fn lemma_own_chain_top_passes(a: ActivityView)
    requires
        chain_top_spec(a) is Ok,
    ensures
        latest_check_spec(a, last_of(a.valid), chain_top_spec(a)->Ok_0) == Ok::<(), MutualCreditError>(()),
{
}

/// The latest-transaction check accepts exactly one chain top and exactly
/// one previous transaction: those the activity reports.
pub proof fn lemma_latest_check_accepts_only_reported(
    a: ActivityView,
    transaction_hash: Option<Seq<u8>>,
    highest_observed: Seq<u8>,
)
    requires
        latest_check_spec(a, transaction_hash, highest_observed) is Ok,
    ensures
        chain_top_spec(a) == Ok::<Seq<u8>, MutualCreditError>(highest_observed),
        last_of(a.valid) == transaction_hash,
{
}

/// A chain is still at its expected top exactly when it holds an action
/// and its last action is that top; an empty chain is refused as empty and
/// any other as moved.
pub proof fn lemma_top_of_chain(chain_top: Seq<u8>, chain: Seq<Seq<u8>>)
    ensures
        chain.len() == 0 ==> top_of_chain_spec(chain_top, chain) == Err::<(), MutualCreditError>(MutualCreditError::ChainEmpty),
        chain.len() > 0 ==> (top_of_chain_spec(chain_top, chain) is Ok <==> chain[chain.len() - 1] == chain_top),
        chain.len() > 0 && chain[chain.len() - 1] != chain_top
            ==> top_of_chain_spec(chain_top, chain) == Err::<(), MutualCreditError>(MutualCreditError::ChainMoved),
        top_of_chain_spec(chain_top, chain.push(chain_top)) is Ok,
{
}

/// The chain top of an activity is its single highest observed action: it
/// is read exactly when one action is observed at the highest position.
pub proof fn lemma_chain_top(a: ActivityView)
    ensures
        a.highest is None ==> chain_top_spec(a) == Err::<Seq<u8>, MutualCreditError>(MutualCreditError::HighestObservedMissing),
        a.highest matches Some(h) ==> (h.len() == 1 <==> chain_top_spec(a) == Ok::<Seq<u8>, MutualCreditError>(h[0])),
        a.highest matches Some(h) ==> (h.len() != 1 ==> chain_top_spec(a) == Err::<Seq<u8>, MutualCreditError>(MutualCreditError::HighestObservedNotUnique)),
{
}

/// A session that expects the chain top `top` and builds on `previous` is
/// accepted exactly when the activity observes `top` alone at its highest
/// position and its valid actions end with `previous` (or are none when
/// there is no previous transaction).
pub proof fn lemma_latest_check(a: ActivityView, previous: Option<Seq<u8>>, top: Seq<u8>)
    ensures
        ({
            let last = if a.valid.len() == 0 { None } else { Some(a.valid[a.valid.len() - 1]) };
            latest_check_spec(a, previous, top) is Ok
                <==> (a.highest == Some(seq![top]) && last == previous)
        }),
{
    if let Some(h) = a.highest {
        if h.len() == 1 {
            assert(h == seq![h[0]]) by { assert(h =~= seq![h[0]]); }
        }
    }
}

} // verus!
