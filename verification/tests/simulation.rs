use kora::primitives::{B256, U256};
use kora::simulation::{
    all_nodes_converged, FinalizationTracker, NodeReport, SimConfig, SimError, SimOutcome,
};
use kora::snapshot::ConsensusDigest;

fn digest(byte: u8) -> ConsensusDigest {
    ConsensusDigest::repeat_byte(byte)
}

fn report(from: u64, to: u64, root: u8, seed: u8) -> NodeReport {
    NodeReport {
        from_balance: Some(U256::from_u64(from)),
        to_balance: Some(U256::from_u64(to)),
        state_root: Some(B256::repeat_byte(root)),
        seed: Some(B256::repeat_byte(seed)),
    }
}

#[test]
fn run_of_no_blocks_is_refused() {
    assert_eq!(FinalizationTracker::new(4, 0).err(), Some(SimError::NoBlocks));
    assert!(FinalizationTracker::new(4, 1).is_ok());
}

#[test]
fn head_is_the_wanted_block_of_every_node() {
    let mut tracker = FinalizationTracker::new(2, 3).unwrap();
    assert!(tracker.waiting());
    assert_eq!(tracker.head(), Err(SimError::MissingFinalization));
    for block in 1u8..=3 {
        tracker.observe(0, digest(block));
    }
    assert!(tracker.waiting());
    assert_eq!(tracker.head(), Err(SimError::NodeMissingFinalization(1)));
    tracker.observe(0, digest(9));
    for block in 1u8..=3 {
        tracker.observe(1, digest(block));
    }
    assert!(!tracker.waiting());
    assert_eq!(tracker.head(), Ok(digest(3)));
    tracker.observe(1, digest(4));
    assert_eq!(tracker.head(), Ok(digest(3)));
}

#[test]
fn divergent_heads_are_reported() {
    let mut tracker = FinalizationTracker::new(2, 1).unwrap();
    tracker.observe(0, digest(1));
    tracker.observe(1, digest(2));
    assert_eq!(tracker.head(), Err(SimError::DivergentHeads));
    let none = FinalizationTracker::new(0, 1).unwrap();
    assert!(!none.waiting());
    assert_eq!(none.head(), Err(SimError::MissingFinalization));
}

#[test]
fn nodes_converge_on_root_and_seed() {
    let reports = vec![report(999_900, 100, 7, 8), report(999_900, 100, 7, 8)];
    assert_eq!(
        all_nodes_converged(&reports, U256::from_u64(1_000_000 - 100), U256::from_u64(100)),
        Ok((B256::repeat_byte(7), B256::repeat_byte(8)))
    );
}

#[test]
fn first_fault_of_the_reports_is_reported() {
    let from = U256::from_u64(900);
    let to = U256::from_u64(100);
    let good = report(900, 100, 7, 8);
    let check = |second: NodeReport| all_nodes_converged(&[good, second], from, to);

    assert_eq!(all_nodes_converged(&[], from, to), Err(SimError::MissingStateRoot));
    assert_eq!(check(NodeReport { from_balance: None, ..good }), Err(SimError::MissingFromBalance));
    assert_eq!(check(NodeReport { to_balance: None, ..good }), Err(SimError::MissingToBalance));
    assert_eq!(check(report(901, 100, 7, 8)), Err(SimError::UnexpectedBalances));
    assert_eq!(check(report(900, 99, 7, 8)), Err(SimError::UnexpectedBalances));
    assert_eq!(check(NodeReport { state_root: None, ..good }), Err(SimError::MissingStateRoot));
    assert_eq!(check(report(900, 100, 6, 8)), Err(SimError::DivergentStateRoots));
    assert_eq!(check(NodeReport { seed: None, ..good }), Err(SimError::MissingSeed));
    assert_eq!(check(report(900, 100, 7, 9)), Err(SimError::DivergentSeeds));
    assert_eq!(
        check(NodeReport { state_root: Some(B256::repeat_byte(6)), seed: None, ..good }),
        Err(SimError::DivergentStateRoots)
    );
}

#[test]
fn simulation_messages_and_values() {
    assert_eq!(SimError::NoBlocks.message(), "blocks must be greater than zero");
    assert_eq!(SimError::MissingFinalization.message(), "missing finalization");
    assert_eq!(SimError::NodeMissingFinalization(12).message(), "node 12 missing finalization");
    assert_eq!(SimError::DivergentHeads.message(), "divergent finalized heads");
    assert_eq!(SimError::MissingFromBalance.message(), "missing from balance");
    assert_eq!(SimError::MissingToBalance.message(), "missing to balance");
    assert_eq!(SimError::UnexpectedBalances.message(), "unexpected balances");
    assert_eq!(SimError::MissingStateRoot.message(), "missing state root");
    assert_eq!(SimError::DivergentStateRoots.message(), "divergent state roots");
    assert_eq!(SimError::MissingSeed.message(), "missing seed");
    assert_eq!(SimError::DivergentSeeds.message(), "divergent seeds");

    let config = SimConfig { nodes: 4, blocks: 3, seed: 42 };
    assert_eq!(config.nodes, 4);
    let outcome = SimOutcome {
        head: digest(1),
        state_root: B256::repeat_byte(2),
        seed: B256::repeat_byte(3),
        from_balance: U256::from_u64(1_000_000 - 100),
        to_balance: U256::from_u64(100),
    };
    assert_eq!(outcome.from_balance, U256::from_u64(999_900));
    assert_eq!(outcome.to_balance, U256::from_u64(100));
}
