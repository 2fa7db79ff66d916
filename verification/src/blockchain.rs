//! The ledger: a chain of blocks that starts at a fixed genesis block, and a
//! pool of transactions that wait for the next block.

use crate::block::{leading_zeros, lemma_joined_texts_empty, Block, BlockView};
use crate::encoding::lemma_concat_cancel;
use crate::clock::utc_now_text;
use crate::encoding::text_eq;
use crate::keymanager::{KeyManager, KeyPair};
use crate::transaction::{signed_transfer, Transaction, TransactionView};
use vstd::prelude::*;
use vstd::string::StringExecFns;

verus! {

/// Why the ledger refused an operation.
#[derive(Clone, Copy, Debug, PartialEq, Eq, Structural)]
pub enum LedgerError {
    /// The transaction has a zero amount or its signature does not verify.
    InvalidTransaction,
    /// The sender's balance is below the amount.
    InsufficientFunds,
    /// Replaying the chain met a debit larger than the balance held.
    InvalidChain,
    /// The chain holds no block.
    NoBlocks,
    /// No nonce up to `u64::MAX` gives the block a hash of the required
    /// form.
    NonceExhausted,
    /// Replaying the chain met a credit that takes the balance above
    /// `u64::MAX`.
    BalanceOverflow,
}

impl LedgerError {
    /// The message of each error.
    pub open spec fn spec_message(self) -> Seq<char> {
        match self {
            LedgerError::InvalidTransaction => "Invalid transaction"@,
            LedgerError::InsufficientFunds => "Insufficient funds."@,
            LedgerError::InvalidChain => "Invalid chain"@,
            LedgerError::NoBlocks => "No blocks in the chain"@,
            LedgerError::NonceExhausted => "Nonce space exhausted"@,
            LedgerError::BalanceOverflow => "Balance overflow"@,
        }
    }

    /// A short text for the error.
    pub fn message(&self) -> (text: &'static str)
        ensures
            text@ == self.spec_message(),
    {
        match self {
            LedgerError::InvalidTransaction => "Invalid transaction",
            LedgerError::InsufficientFunds => "Insufficient funds.",
            LedgerError::InvalidChain => "Invalid chain",
            LedgerError::NoBlocks => "No blocks in the chain",
            LedgerError::NonceExhausted => "Nonce space exhausted",
            LedgerError::BalanceOverflow => "Balance overflow",
        }
    }
}

/// The genesis block: empty, with a fixed timestamp and the hash of that
/// state.
pub open spec fn genesis_view() -> BlockView {
    BlockView::blank("Beginning of time"@)
}

/// A block equals the genesis block exactly when it has the genesis
/// timestamp and hash, no previous hash and no transactions. Its nonce is
/// free.
pub proof fn lemma_equals_genesis(block: BlockView)
    ensures
        genesis_view().same_as(block) <==> {
            &&& block.timestamp == "Beginning of time"@
            &&& block.hash == genesis_view().hash
            &&& block.previous_hash.len() == 0
            &&& block.transactions.len() == 0
        },
{
    let none = Seq::<char>::empty();
    let joined = crate::block::joined_texts(block.transactions);
    lemma_joined_texts_empty(block.transactions);
    assert(genesis_view().transactions_text() =~= "["@ + none + "]"@);
    if genesis_view().same_as(block) {
        lemma_concat_cancel("["@, none, joined, "]"@);
        assert(block.previous_hash =~= none);
    }
    if block.previous_hash.len() == 0 && block.transactions.len() == 0 {
        assert(block.previous_hash =~= none);
        assert(joined =~= none);
    }
}

/// The transactions that count for balances: those of every block but the
/// first, in chain order.
pub open spec fn ledger_entries(blocks: Seq<BlockView>) -> Seq<TransactionView>
    decreases blocks.len(),
{
    if blocks.len() <= 1 {
        Seq::empty()
    } else {
        ledger_entries(blocks.drop_last()) + blocks.last().transactions
    }
}

/// One step of the replay for `address`. A transaction to `address` is a
/// credit; otherwise one from `address` is a debit; any other leaves the
/// balance alone. A credit above `u64::MAX` and a debit above the balance
/// stop the replay with an error, and an error stays.
pub open spec fn apply_entry(
    balance: Result<u64, LedgerError>,
    t: TransactionView,
    address: Seq<char>,
) -> Result<u64, LedgerError> {
    match balance {
        Err(e) => Err(e),
        Ok(held) => if t.to_address == address {
            if held + t.amount > u64::MAX {
                Err(LedgerError::BalanceOverflow)
            } else {
                Ok((held + t.amount) as u64)
            }
        } else if t.public_key == address {
            if t.amount > held {
                Err(LedgerError::InvalidChain)
            } else {
                Ok((held - t.amount) as u64)
            }
        } else {
            Ok(held)
        },
    }
}

/// The balance of `address` after `entries`, starting from zero.
pub open spec fn replay(entries: Seq<TransactionView>, address: Seq<char>) -> Result<
    u64,
    LedgerError,
>
    decreases entries.len(),
{
    if entries.len() == 0 {
        Ok(0)
    } else {
        apply_entry(replay(entries.drop_last(), address), entries.last(), address)
    }
}

/// Once the replay has failed, later entries do not change the outcome.
pub proof fn lemma_replay_error_stays(
    entries: Seq<TransactionView>,
    more: Seq<TransactionView>,
    address: Seq<char>,
)
    requires
        replay(entries, address) is Err,
    ensures
        replay(entries + more, address) == replay(entries, address),
    decreases more.len(),
{
    if more.len() == 0 {
        assert(entries + more =~= entries);
    } else {
        lemma_replay_error_stays(entries, more.drop_last(), address);
        assert((entries + more).drop_last() =~= entries + more.drop_last());
        assert((entries + more).last() == more.last());
    }
}

/// The entries of the first `i` blocks open the entries of the whole
/// chain; the result is what follows them.
pub proof fn lemma_entries_prefix(blocks: Seq<BlockView>, i: int) -> (rest: Seq<TransactionView>)
    requires
        0 <= i <= blocks.len(),
    ensures
        ledger_entries(blocks) == ledger_entries(blocks.take(i)) + rest,
    decreases blocks.len(),
{
    if i == blocks.len() {
        assert(blocks.take(i) =~= blocks);
        assert(ledger_entries(blocks) + Seq::<TransactionView>::empty() =~= ledger_entries(blocks));
        Seq::empty()
    } else if blocks.len() <= 1 {
        assert(ledger_entries(blocks.take(i)) =~= Seq::<TransactionView>::empty());
        assert(ledger_entries(blocks) =~= Seq::<TransactionView>::empty());
        Seq::empty()
    } else {
        let shorter = lemma_entries_prefix(blocks.drop_last(), i);
        assert(blocks.drop_last().take(i) =~= blocks.take(i));
        let rest = shorter + blocks.last().transactions;
        assert(ledger_entries(blocks) =~= ledger_entries(blocks.take(i)) + rest);
        rest
    }
}

/// `t` is neither paid to `address` nor sent from it.
pub open spec fn leaves_alone(t: TransactionView, address: Seq<char>) -> bool {
    t.to_address != address && t.public_key != address
}

/// Entries that leave `address` alone do not change its balance.
pub proof fn lemma_replay_skips_others(
    entries: Seq<TransactionView>,
    more: Seq<TransactionView>,
    address: Seq<char>,
)
    requires
        forall|j: int| 0 <= j < more.len() ==> leaves_alone(#[trigger] more[j], address),
    ensures
        replay(entries + more, address) == replay(entries, address),
    decreases more.len(),
{
    if more.len() == 0 {
        assert(entries + more =~= entries);
    } else {
        lemma_replay_skips_others(entries, more.drop_last(), address);
        assert((entries + more).drop_last() =~= entries + more.drop_last());
        assert((entries + more).last() == more.last());
        assert(leaves_alone(more[more.len() - 1], address));
    }
}

/// The block pays `reward` to `address` in its first transaction, and its
/// other transactions leave `address` alone.
pub open spec fn pays_only_reward(block: BlockView, address: Seq<char>, reward: u64) -> bool {
    &&& block.transactions.len() > 0
    &&& block.transactions[0].to_address == address
    &&& block.transactions[0].amount == reward
    &&& forall|j: int|
        1 <= j < block.transactions.len() ==> leaves_alone(
            #[trigger] block.transactions[j],
            address,
        )
}

/// Appending a block that pays only the reward to `address` adds the reward
/// to the balance of `address`.
pub proof fn lemma_reward_block_adds_reward(
    blocks: Seq<BlockView>,
    block: BlockView,
    address: Seq<char>,
    reward: u64,
)
    requires
        blocks.len() > 0,
        pays_only_reward(block, address, reward),
    ensures
        replay(ledger_entries(blocks.push(block)), address) == apply_entry(
            replay(ledger_entries(blocks), address),
            block.transactions[0],
            address,
        ),
{
    let done = ledger_entries(blocks);
    let first = seq![block.transactions[0]];
    let others = block.transactions.skip(1);
    assert(blocks.push(block).drop_last() =~= blocks);
    assert(ledger_entries(blocks.push(block)) == done + block.transactions);
    assert(done + block.transactions =~= (done + first) + others);
    assert forall|j: int| 0 <= j < others.len() implies leaves_alone(
        #[trigger] others[j],
        address,
    ) by {
        assert(others[j] == block.transactions[j + 1]);
    }
    lemma_replay_skips_others(done + first, others, address);
    assert((done + first).drop_last() =~= done);
    assert((done + first).last() == block.transactions[0]);
}

/// Mining a pool that leaves `reward_address` alone adds the mining reward
/// to the balance of `reward_address`, as long as the sum fits a `u64`.
pub proof fn lemma_mining_pays_reward(
    before: ChainView,
    after: ChainView,
    keys: KeyPair,
    reward_address: Seq<char>,
    reward_timestamp: Seq<char>,
    block_timestamp: Seq<char>,
    held: u64,
)
    requires
        before.mined_into(after, keys, reward_address, reward_timestamp, block_timestamp),
        forall|j: int|
            0 <= j < before.pending_transactions.len() ==> leaves_alone(
                #[trigger] before.pending_transactions[j],
                reward_address,
            ),
        before.balance(reward_address) == Ok::<u64, LedgerError>(held),
        held + before.mining_reward <= u64::MAX,
    ensures
        pays_only_reward(after.blocks.last(), reward_address, before.mining_reward),
        after.balance(reward_address) == Ok::<u64, LedgerError>(
            (held + before.mining_reward) as u64,
        ),
{
    let block = after.blocks.last();
    assert(block.transactions[0].to_address == reward_address);
    assert forall|j: int| 1 <= j < block.transactions.len() implies leaves_alone(
        #[trigger] block.transactions[j],
        reward_address,
    ) by {
        assert(block.transactions[j] == before.pending_transactions[j - 1]);
    }
    lemma_reward_block_adds_reward(before.blocks, block, reward_address, before.mining_reward);
}

/// A chain of the genesis block and `n` blocks that each pay only the
/// reward to `address` gives `address` the balance `n` times the reward,
/// as long as that fits a `u64`.
pub proof fn lemma_balance_of_rewards(chain: ChainView, address: Seq<char>)
    requires
        chain.blocks.len() > 0,
        forall|i: int|
            1 <= i < chain.blocks.len() ==> pays_only_reward(
                #[trigger] chain.blocks[i],
                address,
                chain.mining_reward,
            ),
        (chain.blocks.len() - 1) * chain.mining_reward <= u64::MAX,
    ensures
        chain.balance(address) == Ok::<u64, LedgerError>(
            ((chain.blocks.len() - 1) * chain.mining_reward) as u64,
        ),
    decreases chain.blocks.len(),
{
    let n = chain.blocks.len() - 1;
    let reward = chain.mining_reward;
    if n == 0 {
        assert(ledger_entries(chain.blocks) =~= Seq::<TransactionView>::empty());
        assert(0 * reward == 0);
    } else {
        let shorter = ChainView { blocks: chain.blocks.drop_last(), ..chain };
        assert((n - 1) * reward + reward == n * reward) by (nonlinear_arith);
        assert((n - 1) * reward >= 0) by (nonlinear_arith)
            requires
                n >= 1,
                reward >= 0,
        ;
        lemma_balance_of_rewards(shorter, address);
        let last = chain.blocks.last();
        assert(pays_only_reward(chain.blocks[n], address, reward));
        lemma_reward_block_adds_reward(shorter.blocks, last, address, reward);
        assert(shorter.blocks.push(last) =~= chain.blocks);
    }
}

/// A ledger as plain values.
pub struct ChainView {
    pub blocks: Seq<BlockView>,
    pub mining_reward: u64,
    pub difficulty: usize,
    pub pending_transactions: Seq<TransactionView>,
}

impl ChainView {
    /// The chain is sound: it starts with the genesis block, and every
    /// later block is valid and names the hash of the block before it.
    pub open spec fn valid(self) -> bool {
        &&& self.blocks.len() > 0
        &&& genesis_view().same_as(self.blocks[0])
        &&& forall|i: int|
            1 <= i < self.blocks.len() ==> (#[trigger] self.blocks[i]).valid()
                && self.blocks[i].previous_hash == self.blocks[i - 1].hash
    }

    /// Every pooled transaction is valid.
    pub open spec fn pool_valid(self) -> bool {
        forall|i: int|
            0 <= i < self.pending_transactions.len() ==> (
            #[trigger] self.pending_transactions[i]).valid()
    }

    /// The balance of `address` by replay of the chain.
    pub open spec fn balance(self, address: Seq<char>) -> Result<u64, LedgerError> {
        replay(ledger_entries(self.blocks), address)
    }

    /// The ledger with `t` added at the end of the pool.
    pub open spec fn pooled(self, t: TransactionView) -> ChainView {
        ChainView { pending_transactions: self.pending_transactions.push(t), ..self }
    }

    /// The block that mining starts from: made at `timestamp`, it holds
    /// the reward transaction and then the pool in order, and names the
    /// hash of the last block.
    pub open spec fn candidate(self, reward: TransactionView, timestamp: Seq<char>) -> BlockView {
        BlockView {
            previous_hash: self.blocks.last().hash,
            transactions: seq![reward] + self.pending_transactions,
            ..BlockView::blank(timestamp)
        }
    }

    /// The ledger with `block` appended and the pool emptied.
    pub open spec fn extended(self, block: BlockView) -> ChainView {
        ChainView { blocks: self.blocks.push(block), pending_transactions: Seq::empty(), ..self }
    }

    /// Mining can seal the candidate block: the chain has a block to link
    /// to, and some nonce above 0 solves the candidate.
    pub open spec fn minable(
        self,
        keys: KeyPair,
        reward_address: Seq<char>,
        reward_timestamp: Seq<char>,
        block_timestamp: Seq<char>,
    ) -> bool {
        let reward = signed_transfer(keys, reward_address, self.mining_reward, reward_timestamp);
        let start = self.candidate(reward, block_timestamp);
        &&& self.blocks.len() > 0
        &&& exists|nonce: u64| 0 < nonce && #[trigger] start.solves(nonce, self.difficulty as nat)
    }

    /// `next` is this ledger after mining: the candidate block, sealed
    /// with the least nonce above 0 that solves it, is appended, and the
    /// pool is empty.
    pub open spec fn mined_into(
        self,
        next: ChainView,
        keys: KeyPair,
        reward_address: Seq<char>,
        reward_timestamp: Seq<char>,
        block_timestamp: Seq<char>,
    ) -> bool {
        let reward = signed_transfer(keys, reward_address, self.mining_reward, reward_timestamp);
        let start = self.candidate(reward, block_timestamp);
        &&& self.blocks.len() > 0
        &&& next.blocks.len() == self.blocks.len() + 1
        &&& start.first_solution(next.blocks.last().nonce, self.difficulty as nat)
        &&& next == self.extended(start.sealed(next.blocks.last().nonce))
    }

    /// The text of the whole chain, for display: the blocks' texts,
    /// comma-separated, in square brackets; nothing for a chain without
    /// blocks.
    pub open spec fn text(self) -> Seq<char> {
        if self.blocks.len() == 0 {
            Seq::empty()
        } else {
            "["@ + joined_block_texts(self.blocks) + "]"@
        }
    }

    /// Whether the ledger pools `t`, and the error if it does not: an
    /// invalid transaction first, then an error of the replay for the
    /// sender, then a balance below the amount.
    pub open spec fn admits(self, t: TransactionView) -> Result<(), LedgerError> {
        if !t.valid() {
            Err(LedgerError::InvalidTransaction)
        } else {
            match self.balance(t.public_key) {
                Err(e) => Err(e),
                Ok(held) => if held < t.amount {
                    Err(LedgerError::InsufficientFunds)
                } else {
                    Ok(())
                },
            }
        }
    }
}

/// The texts of `blocks`, in order, with a comma between neighbours.
pub open spec fn joined_block_texts(blocks: Seq<BlockView>) -> Seq<char>
    decreases blocks.len(),
{
    if blocks.len() == 0 {
        Seq::empty()
    } else if blocks.len() == 1 {
        blocks[0].text()
    } else {
        joined_block_texts(blocks.drop_last()) + ","@ + blocks.last().text()
    }
}

/// The views of a list of blocks.
pub open spec fn block_views(blocks: Seq<Block>) -> Seq<BlockView> {
    blocks.map_values(|b: Block| b@)
}

/// One step of the replay for `address`, on the balance held so far.
fn settle(held: u64, t: &Transaction, address: &str) -> (next: Result<u64, LedgerError>)
    ensures
        next == apply_entry(Ok(held), t@, address@),
{
    if text_eq(t.get_to_address(), address) {
        match held.checked_add(t.get_amount()) {
            Some(sum) => Ok(sum),
            None => Err(LedgerError::BalanceOverflow),
        }
    } else if text_eq(t.get_public_key(), address) {
        if t.get_amount() > held {
            Err(LedgerError::InvalidChain)
        } else {
            Ok(held - t.get_amount())
        }
    } else {
        Ok(held)
    }
}

/// The ledger.
///
/// The fields are open: a chain is judged by [`Blockchain::verify`], and
/// balances are what the replay of `blocks` gives.
pub struct Blockchain {
    pub blocks: Vec<Block>,
    pub mining_reward: u64,
    pub difficulty: usize,
    pub pending_transactions: Vec<Transaction>,
}

impl View for Blockchain {
    type V = ChainView;

    open spec fn view(&self) -> ChainView {
        ChainView {
            blocks: block_views(self.blocks@),
            mining_reward: self.mining_reward,
            difficulty: self.difficulty,
            pending_transactions: crate::block::transaction_views(self.pending_transactions@),
        }
    }
}

impl Blockchain {
    /// A ledger that holds the genesis block and an empty pool.
    pub fn new(mining_reward: u64, difficulty: usize) -> (made: Self)
        ensures
            made@ == (ChainView {
                blocks: seq![genesis_view()],
                mining_reward,
                difficulty,
                pending_transactions: Seq::empty(),
            }),
            made@.valid(),
    {
        let mut blockchain = Blockchain {
            blocks: Vec::new(),
            mining_reward,
            difficulty,
            pending_transactions: Vec::new(),
        };
        let genesis = blockchain.create_genesis_block();
        blockchain.blocks.push(genesis);
        assert(blockchain@.blocks =~= seq![genesis_view()]);
        assert(blockchain@.pending_transactions =~= Seq::empty());
        blockchain
    }

    /// The genesis block.
    pub fn create_genesis_block(&self) -> (genesis: Block)
        ensures
            genesis@ == genesis_view(),
    {
        Block::with_timestamp(String::from_str("Beginning of time"))
    }

    /// The hash of the last block.
    pub fn get_last_hash(&self) -> (hash: Result<&str, LedgerError>)
        ensures
            self@.blocks.len() == 0 ==> hash == Err::<&str, LedgerError>(LedgerError::NoBlocks),
            self@.blocks.len() > 0 ==> hash is Ok && hash.unwrap()@ == self@.blocks.last().hash,
    {
        let n = self.blocks.len();
        if n == 0 {
            Err(LedgerError::NoBlocks)
        } else {
            Ok(self.blocks[n - 1].get_hash())
        }
    }

    /// Whether the chain is sound: its first block equals the genesis
    /// block, and every later block verifies and names the hash of the
    /// block before it.
    pub fn verify(&self) -> (valid: bool)
        ensures
            valid == self@.valid(),
    {
        if self.blocks.len() == 0 {
            return false;
        }
        let genesis = self.create_genesis_block();
        if !(genesis == self.blocks[0]) {
            return false;
        }
        let mut i: usize = 1;
        while i < self.blocks.len()
            invariant
                1 <= i <= self.blocks.len(),
                genesis_view().same_as(self@.blocks[0]),
                forall|k: int|
                    1 <= k < i ==> (#[trigger] self@.blocks[k]).valid()
                        && self@.blocks[k].previous_hash == self@.blocks[k - 1].hash,
            decreases self.blocks.len() - i,
        {
            if !self.blocks[i].verify() {
                assert(!self@.blocks[i as int].valid());
                return false;
            }
            if !text_eq(self.blocks[i].get_previous_hash(), self.blocks[i - 1].get_hash()) {
                assert(self@.blocks[i as int].previous_hash != self@.blocks[i - 1].hash);
                return false;
            }
            i = i + 1;
        }
        true
    }

    /// The balance of `address`: the replay of every block but the first,
    /// in order.
    pub fn get_balance(&self, address: &str) -> (balance: Result<u64, LedgerError>)
        ensures
            balance == self@.balance(address@),
    {
        if self.blocks.len() <= 1 {
            return Ok(0);
        }
        assert(ledger_entries(self@.blocks.take(1)) =~= Seq::<TransactionView>::empty());
        let mut held: u64 = 0;
        let mut i: usize = 1;
        while i < self.blocks.len()
            invariant
                1 <= i <= self.blocks.len(),
                replay(ledger_entries(self@.blocks.take(i as int)), address@) == Ok::<
                    u64,
                    LedgerError,
                >(held),
            decreases self.blocks.len() - i,
        {
            let block = &self.blocks[i];
            let ghost done = ledger_entries(self@.blocks.take(i as int));
            let ghost txs = self@.blocks[i as int].transactions;
            proof {
                assert(self@.blocks.take(i + 1).drop_last() =~= self@.blocks.take(i as int));
                assert(done + txs.take(0) =~= done);
            }
            let mut j: usize = 0;
            while j < block.transactions.len()
                invariant
                    1 <= i < self.blocks.len(),
                    j <= block.transactions.len(),
                    txs == block@.transactions,
                    ledger_entries(self@.blocks.take(i + 1)) == done + txs,
                    replay(done + txs.take(j as int), address@) == Ok::<u64, LedgerError>(held),
                decreases block.transactions.len() - j,
            {
                let ghost stopped = done + txs.take(j + 1);
                proof {
                    assert(stopped.drop_last() =~= done + txs.take(j as int));
                    assert(stopped.last() == block.transactions[j as int]@);
                }
                match settle(held, &block.transactions[j], address) {
                    Ok(next) => {
                        held = next;
                    },
                    Err(e) => {
                        proof {
                            let rest = lemma_entries_prefix(self@.blocks, i + 1);
                            let more = txs.skip(j + 1) + rest;
                            lemma_replay_error_stays(stopped, more, address@);
                            assert(stopped + more =~= ledger_entries(self@.blocks));
                        }
                        return Err(e);
                    },
                }
                j = j + 1;
            }
            assert(txs.take(j as int) =~= txs);
            i = i + 1;
        }
        assert(self@.blocks.take(i as int) =~= self@.blocks);
        Ok(held)
    }

    /// Pools a transaction, after checking it: it must verify, and its
    /// sender's balance by replay must cover the amount. A refused
    /// transaction leaves the ledger as it was.
    pub fn add_transaction(&mut self, transaction: Transaction) -> (result: Result<
        (),
        LedgerError,
    >)
        ensures
            result == old(self)@.admits(transaction@),
            result is Ok ==> final(self)@ == old(self)@.pooled(transaction@),
            result is Err ==> final(self)@ == old(self)@,
            transaction@.amount == 0 ==> result == Err::<(), LedgerError>(
                LedgerError::InvalidTransaction,
            ),
            old(self)@.balance(transaction@.public_key) matches Ok(held) && held
                < transaction@.amount ==> result is Err,
            old(self)@.pool_valid() ==> final(self)@.pool_valid(),
            old(self)@.valid() ==> final(self)@.valid(),
    {
        if !transaction.verify() {
            return Err(LedgerError::InvalidTransaction);
        }
        match self.get_balance(transaction.get_public_key()) {
            Ok(held) => {
                if held < transaction.get_amount() {
                    return Err(LedgerError::InsufficientFunds);
                }
            },
            Err(e) => {
                return Err(e);
            },
        }
        self.pending_transactions.push(transaction);
        assert(self@.pending_transactions =~= old(self)@.pending_transactions.push(transaction@));
        Ok(())
    }

    /// Mines the pool into a new block, made now and rewarded to
    /// `reward_address`.
    ///
    /// On success the chain has one more block: it holds the reward
    /// transaction, signed by `keys`, and then the pool in order; it names
    /// the hash of the block before it; its hash is its digest and has
    /// `difficulty` leading zeros; and the pool is empty. The two
    /// timestamps, of the reward transaction and of the block, are read
    /// from the clock in that order. On an error the ledger is as it was.
    pub fn mine_pending_transactions(&mut self, keys: &KeyManager, reward_address: String) -> (result:
        Result<(), LedgerError>)
        ensures
            old(self)@.blocks.len() == 0 ==> result == Err::<(), LedgerError>(LedgerError::NoBlocks),
            result is Err ==> final(self)@ == old(self)@,
            result is Err && old(self)@.blocks.len() > 0 ==> result == Err::<(), LedgerError>(
                LedgerError::NonceExhausted,
            ),
            result is Ok ==> old(self)@.mined_into(
                final(self)@,
                keys@,
                reward_address@,
                final(self)@.blocks.last().transactions[0].timestamp,
                final(self)@.blocks.last().timestamp,
            ),
            result is Ok ==> final(self)@.blocks.last().hash == final(self)@.blocks.last().digest()
                && leading_zeros(final(self)@.blocks.last().hash, old(self)@.difficulty as nat),
            result is Ok && old(self)@.valid() && old(self)@.pool_valid() && old(
                self,
            )@.mining_reward != 0 ==> final(self)@.valid(),
    {
        let reward_timestamp = utc_now_text();
        let block_timestamp = utc_now_text();
        let result = self.mine_pending_transactions_at(
            keys,
            reward_address,
            reward_timestamp,
            block_timestamp,
        );
        result
    }

    /// Mines the pool into a new block with the given timestamps for the
    /// reward transaction and for the block.
    ///
    /// Fails with `NoBlocks` on an empty chain, and with `NonceExhausted`
    /// where no nonce above 0 solves the candidate block; the ledger is
    /// then as it was. Otherwise the candidate block, sealed with the
    /// least such nonce, is appended and the pool is emptied.
    pub fn mine_pending_transactions_at(
        &mut self,
        keys: &KeyManager,
        reward_address: String,
        reward_timestamp: String,
        block_timestamp: String,
    ) -> (result: Result<(), LedgerError>)
        ensures
            result is Ok <==> old(self)@.minable(
                keys@,
                reward_address@,
                reward_timestamp@,
                block_timestamp@,
            ),
            result is Ok ==> old(self)@.mined_into(
                final(self)@,
                keys@,
                reward_address@,
                reward_timestamp@,
                block_timestamp@,
            ),
            result is Ok ==> final(self)@.blocks.last().hash == final(self)@.blocks.last().digest()
                && leading_zeros(final(self)@.blocks.last().hash, old(self)@.difficulty as nat),
            result is Err ==> final(self)@ == old(self)@,
            result is Err ==> result == Err::<(), LedgerError>(
                if old(self)@.blocks.len() == 0 {
                    LedgerError::NoBlocks
                } else {
                    LedgerError::NonceExhausted
                },
            ),
            result is Ok && old(self)@.valid() && old(self)@.pool_valid() && old(
                self,
            )@.mining_reward != 0 ==> final(self)@.valid(),
    {
        if self.blocks.len() == 0 {
            return Err(LedgerError::NoBlocks);
        }
        let reward_transaction = Transaction::with_timestamp(
            keys,
            reward_address,
            self.mining_reward,
            reward_timestamp,
        );
        let ghost reward = reward_transaction@;
        let ghost start = self@.candidate(reward, block_timestamp@);
        let mut block = Block::with_timestamp(block_timestamp);
        block.add_transaction(reward_transaction);
        let mut i: usize = 0;
        while i < self.pending_transactions.len()
            invariant
                i <= self.pending_transactions.len(),
                block@ == (BlockView {
                    transactions: seq![reward] + self@.pending_transactions.take(i as int),
                    ..BlockView::blank(block_timestamp@)
                }),
            decreases self.pending_transactions.len() - i,
        {
            block.add_transaction(self.pending_transactions[i].clone());
            assert(self@.pending_transactions.take(i + 1) =~= self@.pending_transactions.take(
                i as int,
            ).push(self@.pending_transactions[i as int]));
            assert(block@.transactions =~= seq![reward] + self@.pending_transactions.take(i + 1));
            i = i + 1;
        }
        assert(self@.pending_transactions.take(i as int) =~= self@.pending_transactions);
        let n = self.blocks.len();
        block.set_previous_hash(self.blocks[n - 1].get_hash());
        assert(block@ == start);
        if !block.mine_block(self.difficulty) {
            return Err(LedgerError::NonceExhausted);
        }
        let ghost sealed = block@;
        self.blocks.push(block);
        self.pending_transactions.clear();
        proof {
            assert(self@.blocks =~= old(self)@.blocks.push(sealed));
            assert(self@.pending_transactions =~= Seq::<TransactionView>::empty());
            assert(self@ == old(self)@.extended(sealed));
            if old(self)@.valid() && old(self)@.pool_valid() && old(self)@.mining_reward != 0 {
                assert forall|k: int| 0 <= k < sealed.transactions.len() implies (
                #[trigger] sealed.transactions[k]).valid() by {
                    if k > 0 {
                        assert(sealed.transactions[k] == old(self)@.pending_transactions[k - 1]);
                    }
                }
                assert(sealed.valid());
                assert forall|k: int| 1 <= k < self@.blocks.len() implies (
                #[trigger] self@.blocks[k]).valid() && self@.blocks[k].previous_hash
                    == self@.blocks[k - 1].hash by {
                    if k < old(self)@.blocks.len() {
                        assert(self@.blocks[k] == old(self)@.blocks[k]);
                    }
                }
            }
        }
        Ok(())
    }

    /// The text of the whole chain, for display.
    pub fn print(&self) -> (text: String)
        ensures
            text@ == self@.text(),
    {
        let mut s = String::new();
        let mut i: usize = 0;
        while i < self.blocks.len()
            invariant
                i <= self.blocks.len(),
                i == 0 ==> s@ == Seq::<char>::empty(),
                i > 0 ==> s@ == "["@ + joined_block_texts(self@.blocks.take(i as int)),
            decreases self.blocks.len() - i,
        {
            let ghost before = self@.blocks.take(i as int);
            let ghost after = self@.blocks.take(i + 1);
            if i == 0 {
                s.append("[");
            } else {
                s.append(",");
            }
            s.append(self.blocks[i].print().as_str());
            proof {
                assert(after.drop_last() =~= before);
                assert(after.last() == self@.blocks[i as int]);
                assert(s@ =~= "["@ + joined_block_texts(after));
            }
            i = i + 1;
        }
        if i > 0 {
            assert(self@.blocks.take(i as int) =~= self@.blocks);
            s.append("]");
        }
        s
    }
}

} // verus!
