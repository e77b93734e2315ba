use mutual_credit::activity::{validate_is_top_of_the_chain, ActivitySummary};
use mutual_credit::error::MutualCreditError;
use mutual_credit::hashes::ActionId;

fn hash(n: u8) -> ActionId {
    ActionId::new(vec![n; 39])
}

fn activity(valid: &[u8], highest: Option<&[u8]>) -> ActivitySummary {
    ActivitySummary {
        valid_activity: valid.iter().map(|n| hash(*n)).collect(),
        highest_observed: highest.map(|h| h.iter().map(|n| hash(*n)).collect()),
    }
}

#[test]
fn chain_top_needs_one_highest_observed() {
    assert_eq!(activity(&[1], None).get_chain_top().err(), Some(MutualCreditError::HighestObservedMissing));
    assert_eq!(activity(&[1], Some(&[1, 2])).get_chain_top().err(), Some(MutualCreditError::HighestObservedNotUnique));
    assert_eq!(activity(&[1], Some(&[])).get_chain_top().err(), Some(MutualCreditError::HighestObservedNotUnique));
    assert_eq!(activity(&[1], Some(&[4])).get_chain_top().unwrap().bytes, vec![4u8; 39]);
}

#[test]
fn latest_valid_action_is_the_last() {
    assert!(activity(&[], None).latest_valid_action().is_none());
    assert_eq!(activity(&[1, 2, 3], None).latest_valid_action().unwrap().bytes, vec![3u8; 39]);
}

#[test]
fn latest_check_accepts_matching_activity() {
    let a = activity(&[1, 2], Some(&[5]));
    assert_eq!(a.check_transaction_is_the_latest(&Some(hash(2)), &hash(5)), Ok(()));
    let empty = activity(&[], Some(&[5]));
    assert_eq!(empty.check_transaction_is_the_latest(&None, &hash(5)), Ok(()));
}

#[test]
fn latest_check_refusals() {
    let a = activity(&[1, 2], Some(&[5]));
    assert_eq!(activity(&[1], None).check_transaction_is_the_latest(&Some(hash(1)), &hash(5)),
        Err(MutualCreditError::HighestObservedMissing));
    assert_eq!(activity(&[1], Some(&[5, 6])).check_transaction_is_the_latest(&Some(hash(1)), &hash(5)),
        Err(MutualCreditError::HighestObservedNotUnique));
    assert_eq!(a.check_transaction_is_the_latest(&Some(hash(2)), &hash(6)), Err(MutualCreditError::BadHighestObserved));
    assert_eq!(a.check_transaction_is_the_latest(&Some(hash(1)), &hash(5)), Err(MutualCreditError::TransactionNotTheLatest));
    assert_eq!(a.check_transaction_is_the_latest(&None, &hash(5)), Err(MutualCreditError::TransactionNotTheLatest));
    assert_eq!(activity(&[], Some(&[5])).check_transaction_is_the_latest(&Some(hash(1)), &hash(5)),
        Err(MutualCreditError::TransactionNotTheLatest));
}

#[test]
fn own_chain_top_passes_the_latest_check() {
    let a = activity(&[3, 4, 7], Some(&[9]));
    let top = a.get_chain_top().unwrap();
    let latest = a.latest_valid_action();
    assert_eq!(a.check_transaction_is_the_latest(&latest, &top), Ok(()));
}

#[test]
fn top_of_the_chain() {
    assert_eq!(validate_is_top_of_the_chain(&hash(1), &vec![]), Err(MutualCreditError::ChainEmpty));
    assert_eq!(validate_is_top_of_the_chain(&hash(1), &vec![hash(1), hash(2)]), Err(MutualCreditError::ChainMoved));
    assert_eq!(validate_is_top_of_the_chain(&hash(2), &vec![hash(1), hash(2)]), Ok(()));
}
