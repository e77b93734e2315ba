use mutual_credit::hashes::ActionId;
use mutual_credit::links::{find_first, first_link_target, links_to_clear, new_transactions, plan_relinks, Settlement};

fn hash(n: u8) -> ActionId {
    ActionId::new(vec![n; 39])
}

fn hashes(ns: &[u8]) -> Vec<ActionId> {
    ns.iter().map(|n| hash(*n)).collect()
}

#[test]
fn clearing_picks_every_link_to_the_given_requests() {
    let targets = hashes(&[1, 2, 3, 2, 4]);
    assert_eq!(links_to_clear(&targets, &hashes(&[2])), vec![1, 3]);
    assert_eq!(links_to_clear(&targets, &hashes(&[4, 1])), vec![0, 4]);
    assert_eq!(links_to_clear(&targets, &hashes(&[9])), Vec::<usize>::new());
    assert_eq!(links_to_clear(&vec![], &hashes(&[1])), Vec::<usize>::new());
}

#[test]
fn new_transactions_are_the_committed_transaction_actions() {
    let committed = hashes(&[10, 11, 12]);
    assert_eq!(new_transactions(&committed, &hashes(&[12, 10, 30])), vec![0, 2]);
    assert_eq!(new_transactions(&committed, &vec![]), Vec::<usize>::new());
}

#[test]
fn first_target_and_first_position() {
    assert!(first_link_target(&vec![]).is_none());
    assert_eq!(first_link_target(&hashes(&[5, 6])).unwrap().bytes, vec![5u8; 39]);
    assert_eq!(find_first(&hashes(&[5, 6, 6]), &hash(6)), Some(1));
    assert_eq!(find_first(&hashes(&[5, 6, 6]), &hash(7)), None);
}

#[test]
fn relinking_replaces_the_first_link_of_each_settled_request() {
    let targets = hashes(&[1, 2, 2, 3]);
    let settlements = vec![
        Settlement { transaction_request_hash: Some(hash(2)), transaction_hash: hash(20) },
        Settlement { transaction_request_hash: Some(hash(9)), transaction_hash: hash(90) },
        Settlement { transaction_request_hash: Some(hash(3)), transaction_hash: hash(30) },
    ];
    let (relinks, failed) = plan_relinks(&targets, &settlements);
    assert!(!failed);
    assert_eq!(relinks.len(), 2);
    assert_eq!(relinks[0].link_index, 1);
    assert_eq!(relinks[0].transaction_request_hash.bytes, vec![2u8; 39]);
    assert_eq!(relinks[0].transaction_hash.bytes, vec![20u8; 39]);
    assert_eq!(relinks[1].link_index, 3);
    assert_eq!(relinks[1].transaction_hash.bytes, vec![30u8; 39]);
}

#[test]
fn relinking_stops_at_unreadable_request_hash() {
    let targets = hashes(&[1, 2]);
    let settlements = vec![
        Settlement { transaction_request_hash: Some(hash(1)), transaction_hash: hash(10) },
        Settlement { transaction_request_hash: None, transaction_hash: hash(11) },
        Settlement { transaction_request_hash: Some(hash(2)), transaction_hash: hash(12) },
    ];
    let (relinks, failed) = plan_relinks(&targets, &settlements);
    assert!(failed);
    assert_eq!(relinks.len(), 1);
    assert_eq!(relinks[0].link_index, 0);
}
