use pow_ledger::block::Block;
use pow_ledger::blockchain::{Blockchain, LedgerError};
use pow_ledger::keymanager::KeyManager;
use pow_ledger::transaction::Transaction;

const GENESIS_HASH: &str = "7118337ce6b3ec6104e06886f683cd2d8a2a0009651a678309d016807062ec98";

fn plain(to: &str, from: &str, amount: u64) -> Transaction {
    Transaction {
        to_address: to.to_string(),
        amount,
        timestamp: "t".to_string(),
        hash: "h".to_string(),
        signature: "s".to_string(),
        public_key: from.to_string(),
    }
}

fn block_of(txs: Vec<Transaction>) -> Block {
    let mut b = Block::with_timestamp("noon".to_string());
    for t in txs {
        b.add_transaction(t);
    }
    b
}

fn chain_of(blocks: Vec<Vec<Transaction>>) -> Blockchain {
    let mut chain = Blockchain::new(100, 1);
    for txs in blocks {
        chain.blocks.push(block_of(txs));
    }
    chain
}

#[test]
fn a_new_chain_holds_the_genesis_block() {
    let chain = Blockchain::new(100, 1);
    assert_eq!(chain.blocks.len(), 1);
    assert_eq!(chain.mining_reward, 100);
    assert_eq!(chain.difficulty, 1);
    assert!(chain.pending_transactions.is_empty());
    let g = &chain.blocks[0];
    assert_eq!(g.timestamp, "Beginning of time");
    assert_eq!(g.nonce, 0);
    assert_eq!(g.previous_hash, "");
    assert!(g.transactions.is_empty());
    assert_eq!(g.hash, GENESIS_HASH);
}

#[test]
fn the_genesis_block_is_fixed() {
    let chain = Blockchain::new(1, 3);
    let a = chain.create_genesis_block();
    let b = Blockchain::new(7, 0).create_genesis_block();
    assert!(a == b);
    assert_eq!(a.print(), b.print());
    assert_eq!(a.get_hash(), GENESIS_HASH);
    assert_eq!(a.get_hash(), a.calc_hash());
}

#[test]
fn last_hash_of_a_new_chain_is_the_genesis_hash() {
    let chain = Blockchain::new(100, 1);
    assert_eq!(chain.get_last_hash(), Ok(GENESIS_HASH));
}

#[test]
fn last_hash_follows_the_tip() {
    let keys = KeyManager::new().unwrap();
    let mut chain = Blockchain::new(100, 1);
    chain
        .mine_pending_transactions(&keys, "a".to_string())
        .unwrap();
    let tip = chain.blocks[1].hash.clone();
    assert_eq!(chain.get_last_hash(), Ok(tip.as_str()));
}

#[test]
fn last_hash_of_an_empty_chain_is_an_error() {
    let mut chain = Blockchain::new(100, 1);
    chain.blocks.clear();
    assert_eq!(chain.get_last_hash(), Err(LedgerError::NoBlocks));
}

#[test]
fn a_new_chain_verifies() {
    assert!(Blockchain::new(100, 1).verify());
}

#[test]
fn an_empty_chain_does_not_verify() {
    let mut chain = Blockchain::new(100, 1);
    chain.blocks.clear();
    assert!(!chain.verify());
}

#[test]
fn a_mined_chain_verifies() {
    let keys = KeyManager::new().unwrap();
    let mut chain = Blockchain::new(100, 1);
    for _ in 0..3 {
        chain
            .mine_pending_transactions(&keys, keys.get_public_key())
            .unwrap();
    }
    assert_eq!(chain.blocks.len(), 4);
    assert!(chain.verify());
}

#[test]
fn a_changed_genesis_timestamp_does_not_verify() {
    let mut chain = Blockchain::new(100, 1);
    chain.blocks[0].set_timestamp("Another time");
    assert!(!chain.verify());
    let h = chain.blocks[0].calc_hash();
    chain.blocks[0].set_hash(&h);
    assert!(!chain.verify());
}

#[test]
fn a_changed_genesis_hash_does_not_verify() {
    let mut chain = Blockchain::new(100, 1);
    chain.blocks[0].set_hash("00");
    assert!(!chain.verify());
}

#[test]
fn a_genesis_with_a_previous_hash_does_not_verify() {
    let mut chain = Blockchain::new(100, 1);
    chain.blocks[0].set_previous_hash("x");
    assert!(!chain.verify());
}

#[test]
fn a_genesis_with_a_transaction_does_not_verify() {
    let keys = KeyManager::new().unwrap();
    let mut chain = Blockchain::new(100, 1);
    chain.blocks[0].add_transaction(Transaction::new(&keys, "a".to_string(), 1));
    assert!(!chain.verify());
}

#[test]
fn the_genesis_nonce_is_not_compared() {
    let mut chain = Blockchain::new(100, 1);
    chain.blocks[0].nonce = 5;
    assert!(chain.verify());
}

#[test]
fn a_broken_link_to_the_genesis_block_does_not_verify() {
    let keys = KeyManager::new().unwrap();
    let mut chain = Blockchain::new(100, 1);
    chain
        .mine_pending_transactions(&keys, "a".to_string())
        .unwrap();
    assert!(chain.verify());
    chain.blocks[1].set_previous_hash("elsewhere");
    assert!(chain.blocks[1].mine_block(1));
    assert!(chain.blocks[1].verify());
    assert!(!chain.verify());
}

#[test]
fn a_broken_link_between_later_blocks_does_not_verify() {
    let keys = KeyManager::new().unwrap();
    let mut chain = Blockchain::new(100, 1);
    for _ in 0..3 {
        chain
            .mine_pending_transactions(&keys, "a".to_string())
            .unwrap();
    }
    assert!(chain.verify());
    assert!(chain.blocks[2].mine_block(1));
    assert!(chain.blocks[2].verify());
    assert!(!chain.verify());
}

#[test]
fn a_block_that_does_not_verify_fails_the_chain() {
    let keys = KeyManager::new().unwrap();
    let mut chain = Blockchain::new(100, 1);
    for _ in 0..2 {
        chain
            .mine_pending_transactions(&keys, "a".to_string())
            .unwrap();
    }
    chain.blocks[2].nonce += 1;
    assert!(!chain.blocks[2].verify());
    assert!(!chain.verify());
}

#[test]
fn a_zero_reward_makes_blocks_that_do_not_verify() {
    let keys = KeyManager::new().unwrap();
    let mut chain = Blockchain::new(0, 1);
    chain
        .mine_pending_transactions(&keys, "a".to_string())
        .unwrap();
    assert_eq!(chain.blocks[1].hash, chain.blocks[1].calc_hash());
    assert!(!chain.verify());
}

#[test]
fn balance_of_a_new_chain_is_zero() {
    let chain = Blockchain::new(100, 1);
    assert_eq!(chain.get_balance("anyone"), Ok(0));
}

#[test]
fn balance_of_an_empty_chain_is_zero() {
    let mut chain = Blockchain::new(100, 1);
    chain.blocks.clear();
    assert_eq!(chain.get_balance("anyone"), Ok(0));
}

#[test]
fn balance_skips_the_first_block() {
    let mut chain = Blockchain::new(100, 1);
    chain.blocks[0].add_transaction(plain("a", "x", 40));
    assert_eq!(chain.get_balance("a"), Ok(0));
    assert_eq!(chain.get_balance("x"), Ok(0));
}

#[test]
fn balance_credits_and_debits_in_order() {
    let chain = chain_of(vec![
        vec![plain("a", "m", 100), plain("b", "a", 30)],
        vec![plain("a", "m", 5), plain("c", "a", 75)],
    ]);
    assert_eq!(chain.get_balance("a"), Ok(0));
    assert_eq!(chain.get_balance("b"), Ok(30));
    assert_eq!(chain.get_balance("c"), Ok(75));
    assert_eq!(chain.get_balance("nobody"), Ok(0));
}

#[test]
fn balance_goes_by_the_order_of_the_entries() {
    let chain = chain_of(vec![vec![plain("b", "a", 30), plain("a", "m", 100)]]);
    assert_eq!(chain.get_balance("a"), Err(LedgerError::InvalidChain));
    assert_eq!(chain.get_balance("b"), Ok(30));
}

#[test]
fn balance_of_an_overdrawn_sender_is_an_error() {
    let chain = chain_of(vec![vec![plain("a", "m", 10)], vec![plain("b", "a", 11)]]);
    assert_eq!(chain.get_balance("a"), Err(LedgerError::InvalidChain));
    assert_eq!(chain.get_balance("b"), Ok(11));
    assert_eq!(chain.get_balance("m"), Err(LedgerError::InvalidChain));
}

#[test]
fn an_error_of_the_replay_stays() {
    let chain = chain_of(vec![
        vec![plain("b", "a", 1)],
        vec![plain("a", "m2", 100)],
        vec![plain("a", "m2", 100)],
    ]);
    assert_eq!(chain.get_balance("a"), Err(LedgerError::InvalidChain));
}

#[test]
fn a_debit_of_the_whole_balance_is_in_order() {
    let chain = chain_of(vec![vec![plain("a", "a0", 10), plain("b", "a", 10)]]);
    assert_eq!(chain.get_balance("a"), Ok(0));
}

#[test]
fn a_transfer_to_oneself_is_a_credit() {
    let chain = chain_of(vec![vec![plain("a", "a", 10)]]);
    assert_eq!(chain.get_balance("a"), Ok(10));
}

#[test]
fn balance_above_the_largest_value_is_an_error() {
    let chain = chain_of(vec![vec![plain("a", "m", u64::MAX)], vec![plain("a", "m", 1)]]);
    assert_eq!(chain.get_balance("a"), Err(LedgerError::BalanceOverflow));
}

#[test]
fn balance_at_the_largest_value() {
    let chain = chain_of(vec![vec![plain("a", "m", u64::MAX - 1), plain("a", "m2", 1)]]);
    assert_eq!(chain.get_balance("a"), Ok(u64::MAX));
}

#[test]
fn rewards_of_the_largest_value_overflow() {
    let keys = KeyManager::new().unwrap();
    let mut chain = Blockchain::new(u64::MAX, 1);
    chain
        .mine_pending_transactions(&keys, "a".to_string())
        .unwrap();
    assert_eq!(chain.get_balance("a"), Ok(u64::MAX));
    chain
        .mine_pending_transactions(&keys, "a".to_string())
        .unwrap();
    assert_eq!(chain.get_balance("a"), Err(LedgerError::BalanceOverflow));
}

#[test]
fn balance_after_rewards_only() {
    let miner = KeyManager::new().unwrap();
    let mut chain = Blockchain::new(25, 1);
    for n in 1..=4u64 {
        chain
            .mine_pending_transactions(&miner, "a".to_string())
            .unwrap();
        assert_eq!(chain.get_balance("a"), Ok(n * 25));
    }
}

#[test]
fn balance_after_rewards_to_the_miner() {
    let miner = KeyManager::new().unwrap();
    let mut chain = Blockchain::new(25, 1);
    for _ in 0..3 {
        chain
            .mine_pending_transactions(&miner, miner.get_public_key())
            .unwrap();
    }
    assert_eq!(chain.get_balance(&miner.get_public_key()), Ok(75));
}

#[test]
fn the_miner_who_rewards_another_stays_at_zero_until_then_overdrawn() {
    let miner = KeyManager::new().unwrap();
    let mut chain = Blockchain::new(25, 1);
    chain
        .mine_pending_transactions(&miner, "a".to_string())
        .unwrap();
    assert_eq!(
        chain.get_balance(&miner.get_public_key()),
        Err(LedgerError::InvalidChain)
    );
}

#[test]
fn add_transaction_pools_in_order() {
    let a = KeyManager::new().unwrap();
    let mut chain = Blockchain::new(100, 1);
    chain
        .mine_pending_transactions(&a, a.get_public_key())
        .unwrap();
    let t1 = Transaction::new(&a, "b".to_string(), 10);
    let t2 = Transaction::new(&a, "c".to_string(), 20);
    assert_eq!(chain.add_transaction(t1), Ok(()));
    assert_eq!(chain.add_transaction(t2), Ok(()));
    assert_eq!(chain.pending_transactions.len(), 2);
    assert_eq!(chain.pending_transactions[0].get_to_address(), "b");
    assert_eq!(chain.pending_transactions[1].get_to_address(), "c");
    assert_eq!(chain.blocks.len(), 2);
}

#[test]
fn add_transaction_rejects_a_zero_amount() {
    let a = KeyManager::new().unwrap();
    let mut chain = Blockchain::new(100, 1);
    chain
        .mine_pending_transactions(&a, a.get_public_key())
        .unwrap();
    let t = Transaction::new(&a, "b".to_string(), 0);
    assert_eq!(chain.add_transaction(t), Err(LedgerError::InvalidTransaction));
    assert!(chain.pending_transactions.is_empty());
}

#[test]
fn add_transaction_rejects_a_bad_signature() {
    let a = KeyManager::new().unwrap();
    let mut chain = Blockchain::new(100, 1);
    chain
        .mine_pending_transactions(&a, a.get_public_key())
        .unwrap();
    let mut t = Transaction::new(&a, "b".to_string(), 1);
    t.signature = "00".to_string();
    assert_eq!(chain.add_transaction(t), Err(LedgerError::InvalidTransaction));
    assert!(chain.pending_transactions.is_empty());
}

#[test]
fn add_transaction_rejects_more_than_the_balance() {
    let a = KeyManager::new().unwrap();
    let mut chain = Blockchain::new(100, 1);
    chain
        .mine_pending_transactions(&a, a.get_public_key())
        .unwrap();
    let t = Transaction::new(&a, "b".to_string(), 101);
    assert_eq!(chain.add_transaction(t), Err(LedgerError::InsufficientFunds));
    assert!(chain.pending_transactions.is_empty());
    let t = Transaction::new(&a, "b".to_string(), 100);
    assert_eq!(chain.add_transaction(t), Ok(()));
    assert_eq!(chain.pending_transactions.len(), 1);
}

#[test]
fn add_transaction_checks_the_signature_before_the_balance() {
    let a = KeyManager::new().unwrap();
    let mut chain = Blockchain::new(100, 1);
    let t = Transaction::new(&a, "b".to_string(), 0);
    assert_eq!(chain.add_transaction(t), Err(LedgerError::InvalidTransaction));
}

#[test]
fn add_transaction_goes_by_mined_blocks_only() {
    let a = KeyManager::new().unwrap();
    let mut chain = Blockchain::new(100, 1);
    chain
        .mine_pending_transactions(&a, a.get_public_key())
        .unwrap();
    assert_eq!(
        chain.add_transaction(Transaction::new(&a, "b".to_string(), 80)),
        Ok(())
    );
    assert_eq!(
        chain.add_transaction(Transaction::new(&a, "c".to_string(), 80)),
        Ok(())
    );
    assert_eq!(chain.pending_transactions.len(), 2);
}

#[test]
fn add_transaction_hands_on_an_error_of_the_replay() {
    let a = KeyManager::new().unwrap();
    let address = a.get_public_key();
    let mut chain = chain_of(vec![vec![plain("b", &address, 1)]]);
    let t = Transaction::new(&a, "b".to_string(), 1);
    assert_eq!(chain.add_transaction(t), Err(LedgerError::InvalidChain));
    assert!(chain.pending_transactions.is_empty());
}

#[test]
fn mining_builds_the_block_from_reward_and_pool() {
    let a = KeyManager::new().unwrap();
    let miner = KeyManager::new().unwrap();
    let mut chain = Blockchain::new(100, 1);
    chain
        .mine_pending_transactions(&miner, a.get_public_key())
        .unwrap();
    chain
        .add_transaction(Transaction::new(&a, "b".to_string(), 10))
        .unwrap();
    chain
        .add_transaction(Transaction::new(&a, "c".to_string(), 20))
        .unwrap();
    let pooled: Vec<String> = chain
        .pending_transactions
        .iter()
        .map(|t| t.print())
        .collect();
    let tip = chain.blocks[1].hash.clone();
    assert_eq!(
        chain.mine_pending_transactions(&miner, "r".to_string()),
        Ok(())
    );
    assert_eq!(chain.blocks.len(), 3);
    assert!(chain.pending_transactions.is_empty());
    let b = &chain.blocks[2];
    assert_eq!(b.previous_hash, tip);
    assert_eq!(b.transactions.len(), 3);
    let reward = &b.transactions[0];
    assert_eq!(reward.get_to_address(), "r");
    assert_eq!(reward.get_amount(), 100);
    assert_eq!(reward.get_public_key(), miner.get_public_key());
    assert!(reward.verify());
    assert_eq!(b.transactions[1].print(), pooled[0]);
    assert_eq!(b.transactions[2].print(), pooled[1]);
    assert_eq!(b.hash, b.calc_hash());
    assert!(b.hash.starts_with('0'));
    assert!(b.nonce >= 1);
    assert!(chain.verify());
}

#[test]
fn mining_with_given_timestamps_is_reproducible() {
    let miner = KeyManager::new().unwrap();
    let mut one = Blockchain::new(100, 2);
    let mut two = Blockchain::new(100, 2);
    for chain in [&mut one, &mut two] {
        assert_eq!(
            chain.mine_pending_transactions_at(
                &miner,
                "r".to_string(),
                "t-reward".to_string(),
                "t-block".to_string()
            ),
            Ok(())
        );
    }
    assert_eq!(one.print(), two.print());
    let b = &one.blocks[1];
    assert_eq!(b.timestamp, "t-block");
    assert_eq!(b.transactions[0].timestamp, "t-reward");
    assert!(b.hash.starts_with("00"));
    let mut c = b.clone();
    for n in 1..b.nonce {
        c.nonce = n;
        assert!(!c.calc_hash().starts_with("00"));
    }
}

#[test]
fn mining_meets_the_difficulty_of_the_chain() {
    let miner = KeyManager::new().unwrap();
    let mut chain = Blockchain::new(100, 2);
    for _ in 0..2 {
        chain
            .mine_pending_transactions(&miner, "r".to_string())
            .unwrap();
    }
    for b in &chain.blocks[1..] {
        assert!(b.hash.starts_with("00"));
        assert_eq!(b.hash, b.calc_hash());
    }
}

#[test]
fn mining_on_an_empty_chain_is_an_error() {
    let miner = KeyManager::new().unwrap();
    let mut chain = Blockchain::new(100, 1);
    chain.blocks.clear();
    chain.pending_transactions.push(plain("b", "a", 1));
    assert_eq!(
        chain.mine_pending_transactions(&miner, "r".to_string()),
        Err(LedgerError::NoBlocks)
    );
    assert!(chain.blocks.is_empty());
    assert_eq!(chain.pending_transactions.len(), 1);
    assert_eq!(
        chain.mine_pending_transactions_at(
            &miner,
            "r".to_string(),
            "t".to_string(),
            "t".to_string()
        ),
        Err(LedgerError::NoBlocks)
    );
}

#[test]
fn mining_takes_the_pool_as_it_is() {
    let miner = KeyManager::new().unwrap();
    let mut chain = Blockchain::new(100, 1);
    chain.pending_transactions.push(plain("b", "a", 1));
    chain
        .mine_pending_transactions(&miner, "r".to_string())
        .unwrap();
    assert_eq!(chain.blocks[1].transactions.len(), 2);
    assert!(chain.pending_transactions.is_empty());
    assert!(!chain.verify());
}

#[test]
fn error_messages() {
    assert_eq!(LedgerError::InvalidTransaction.message(), "Invalid transaction");
    assert_eq!(LedgerError::InsufficientFunds.message(), "Insufficient funds.");
    assert_eq!(LedgerError::InvalidChain.message(), "Invalid chain");
    assert_eq!(LedgerError::NoBlocks.message(), "No blocks in the chain");
    assert_eq!(LedgerError::NonceExhausted.message(), "Nonce space exhausted");
    assert_eq!(LedgerError::BalanceOverflow.message(), "Balance overflow");
}

#[test]
fn print_of_an_empty_chain_is_empty() {
    let mut chain = Blockchain::new(100, 1);
    chain.blocks.clear();
    assert_eq!(chain.print(), "");
}

#[test]
fn print_of_a_new_chain() {
    let chain = Blockchain::new(100, 1);
    assert_eq!(
        chain.print(),
        format!(
            "[{{Transactions: [], Timestamp: Beginning of time, Nonce: 0, Hash: {}, PreviousHash: }}]",
            GENESIS_HASH
        )
    );
}

#[test]
fn print_joins_the_blocks_with_commas() {
    let chain = chain_of(vec![vec![], vec![plain("b", "a", 1)]]);
    let texts: Vec<String> = chain.blocks.iter().map(|b| b.print()).collect();
    assert_eq!(chain.print(), format!("[{}]", texts.join(",")));
    assert_eq!(chain.blocks.len(), 3);
}
