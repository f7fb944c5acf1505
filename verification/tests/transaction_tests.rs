use poh_node::transaction::{create_transaction, TransactionPool};

#[test]
fn submit_admits_only_signed_transactions() {
    let mut pool = TransactionPool::new();
    let signed = create_transaction("s".to_string(), "r".to_string(), 10, vec![7]);
    let unsigned = create_transaction("s".to_string(), "r".to_string(), 10, Vec::new());
    assert!(pool.submit(signed));
    assert!(!pool.submit(unsigned));
    assert_eq!(pool.len(), 1);
}

#[test]
fn drain_snapshot_copies_without_removing() {
    let mut pool = TransactionPool::new();
    assert!(pool.submit(create_transaction(
        "a".to_string(),
        "b".to_string(),
        1,
        vec![1]
    )));
    assert!(pool.submit(create_transaction(
        "c".to_string(),
        "d".to_string(),
        2,
        vec![2]
    )));
    let snapshot = pool.drain_snapshot();
    assert_eq!(snapshot.len(), 2);
    assert_eq!(snapshot[0].sender, "a");
    assert_eq!(snapshot[1].amount, 2);
    // The pool still holds both transactions.
    assert_eq!(pool.len(), 2);
}

#[test]
fn take_all_empties_the_pool_in_order() {
    let mut pool = TransactionPool::new();
    assert!(pool.submit(create_transaction(
        "a".to_string(),
        "b".to_string(),
        1,
        vec![1]
    )));
    assert!(pool.submit(create_transaction(
        "c".to_string(),
        "d".to_string(),
        2,
        vec![2]
    )));
    let taken = pool.take_all();
    assert_eq!(taken.len(), 2);
    assert_eq!(taken[0].sender, "a");
    assert_eq!(taken[1].sender, "c");
    assert_eq!(pool.len(), 0);
}
