//! Blocks: an ordered list of transactions, the link to the previous block,
//! the content hash, and the nonce search that seals a block.

use crate::clock::utc_now_text;
use crate::encoding::{decimal_digits, decimal_string, lemma_concat_cancel};
use crate::keymanager::{hash_string, spec_sha256_hex};
use crate::transaction::{
    lemma_text_not_empty, lemma_text_tells_amount, lemma_text_tells_recipient, Transaction,
    TransactionView,
};
use vstd::prelude::*;
use vstd::string::{StrSliceExecFns, StringExecFns};

verus! {

/// The canonical texts of `txs`, in order, with a comma between neighbours.
pub open spec fn joined_texts(txs: Seq<TransactionView>) -> Seq<char>
    decreases txs.len(),
{
    if txs.len() == 0 {
        Seq::empty()
    } else if txs.len() == 1 {
        txs[0].text()
    } else {
        joined_texts(txs.drop_last()) + ","@ + txs.last().text()
    }
}

/// `hash` has at least `difficulty` characters and its first `difficulty`
/// characters are all `'0'`.
pub open spec fn leading_zeros(hash: Seq<char>, difficulty: nat) -> bool {
    &&& difficulty <= hash.len()
    &&& forall|i: int| 0 <= i < difficulty ==> hash[i] == '0'
}

/// A block as plain values.
pub struct BlockView {
    pub timestamp: Seq<char>,
    pub nonce: u64,
    pub hash: Seq<char>,
    pub previous_hash: Seq<char>,
    pub transactions: Seq<TransactionView>,
}

impl BlockView {
    /// The transaction list as text: the transactions' canonical texts,
    /// comma-separated, in square brackets.
    pub open spec fn transactions_text(self) -> Seq<char> {
        "["@ + joined_texts(self.transactions) + "]"@
    }

    /// The text that is hashed: transaction list, timestamp, nonce in
    /// decimal and previous hash, one after the other. The stored hash is
    /// not part of it.
    pub open spec fn preimage(self) -> Seq<char> {
        self.transactions_text() + self.timestamp + decimal_digits(self.nonce as nat)
            + self.previous_hash
    }

    /// The content digest of the block.
    pub open spec fn digest(self) -> Seq<char> {
        spec_sha256_hex(self.preimage())
    }

    /// Every transaction is valid and the stored hash is the content
    /// digest.
    pub open spec fn valid(self) -> bool {
        &&& forall|i: int| 0 <= i < self.transactions.len() ==> (#[trigger] self.transactions[i]).valid()
        &&& self.hash == self.digest()
    }

    /// The block with its transaction at `i` replaced by `t`; the stored
    /// hash stays.
    pub open spec fn with_transaction(self, i: int, t: TransactionView) -> BlockView {
        BlockView { transactions: self.transactions.update(i, t), ..self }
    }

    /// The block with nonce `nonce` and the hash that goes with it.
    pub open spec fn sealed(self, nonce: u64) -> BlockView {
        let b = BlockView { nonce, ..self };
        BlockView { hash: b.digest(), ..b }
    }

    /// With nonce `nonce` the block's digest has `difficulty` leading zeros.
    pub open spec fn solves(self, nonce: u64, difficulty: nat) -> bool {
        leading_zeros(self.sealed(nonce).hash, difficulty)
    }

    /// `nonce` is the least nonce above the block's own that solves it.
    pub open spec fn first_solution(self, nonce: u64, difficulty: nat) -> bool {
        &&& self.nonce < nonce
        &&& self.solves(nonce, difficulty)
        &&& forall|m: u64| self.nonce < m < nonce ==> !self.solves(m, difficulty)
    }

    /// An empty block with the given timestamp: nonce 0, no previous hash,
    /// no transactions, and the hash of that state.
    pub open spec fn blank(timestamp: Seq<char>) -> BlockView {
        (BlockView {
            timestamp,
            nonce: 0,
            hash: Seq::empty(),
            previous_hash: Seq::empty(),
            transactions: Seq::empty(),
        }).sealed(0)
    }

    /// The text of a whole block, for display.
    pub open spec fn text(self) -> Seq<char> {
        "{Transactions: "@ + self.transactions_text() + ", Timestamp: "@ + self.timestamp
            + ", Nonce: "@ + decimal_digits(self.nonce as nat) + ", Hash: "@ + self.hash
            + ", PreviousHash: "@ + self.previous_hash + "}"@
    }

    /// Equality of blocks: the same timestamp, hash and previous hash, and
    /// the same transaction list text. The nonce is not compared.
    pub open spec fn same_as(self, other: BlockView) -> bool {
        &&& self.timestamp == other.timestamp
        &&& self.hash == other.hash
        &&& self.previous_hash == other.previous_hash
        &&& self.transactions_text() == other.transactions_text()
    }
}

/// Only the empty list has an empty joined text.
pub proof fn lemma_joined_texts_empty(txs: Seq<TransactionView>)
    ensures
        joined_texts(txs).len() == 0 <==> txs.len() == 0,
{
    if txs.len() > 0 {
        lemma_text_not_empty(txs.last());
    }
}

/// Two lists of equal length that differ in one place only, where the
/// canonical texts differ, have different joined texts.
pub proof fn lemma_joined_texts_tell(a: Seq<TransactionView>, b: Seq<TransactionView>, i: int)
    requires
        a.len() == b.len(),
        0 <= i < a.len(),
        a[i].text() != b[i].text(),
        forall|k: int| 0 <= k < a.len() && k != i ==> a[k] == b[k],
    ensures
        joined_texts(a) != joined_texts(b),
    decreases a.len(),
{
    let none = Seq::<char>::empty();
    if a.len() == 1 {
        assert(joined_texts(a) == a[0].text());
        assert(joined_texts(b) == b[0].text());
    } else if i == a.len() - 1 {
        assert(a.drop_last() =~= b.drop_last());
        let opening = joined_texts(a.drop_last()) + ","@;
        assert(joined_texts(a) =~= opening + a[i].text() + none);
        assert(joined_texts(b) =~= opening + b[i].text() + none);
        if joined_texts(a) == joined_texts(b) {
            lemma_concat_cancel(opening, a[i].text(), b[i].text(), none);
        }
    } else {
        lemma_joined_texts_tell(a.drop_last(), b.drop_last(), i);
        let ending = ","@ + a.last().text();
        assert(a.last() == b.last());
        assert(joined_texts(a) =~= none + joined_texts(a.drop_last()) + ending);
        assert(joined_texts(b) =~= none + joined_texts(b.drop_last()) + ending);
        if joined_texts(a) == joined_texts(b) {
            lemma_concat_cancel(
                none,
                joined_texts(a.drop_last()),
                joined_texts(b.drop_last()),
                ending,
            );
        }
    }
}

/// A block in which one transaction is replaced by one of another
/// canonical text has another hashed text.
pub proof fn lemma_preimage_tells(block: BlockView, i: int, t: TransactionView)
    requires
        0 <= i < block.transactions.len(),
        t.text() != block.transactions[i].text(),
    ensures
        block.with_transaction(i, t).preimage() != block.preimage(),
{
    let changed = block.with_transaction(i, t);
    lemma_joined_texts_tell(changed.transactions, block.transactions, i);
    let opening = "["@;
    let ending = "]"@ + block.timestamp + decimal_digits(block.nonce as nat) + block.previous_hash;
    assert(block.preimage() =~= opening + joined_texts(block.transactions) + ending);
    assert(changed.preimage() =~= opening + joined_texts(changed.transactions) + ending);
    if changed.preimage() == block.preimage() {
        lemma_concat_cancel(
            opening,
            joined_texts(changed.transactions),
            joined_texts(block.transactions),
            ending,
        );
    }
}

/// Changing the amount of a transaction in a valid block is detected,
/// short of a collision of the digest: the hashed text changes, so if the
/// changed block is valid too, two different texts have the same digest.
pub proof fn lemma_changed_amount_is_detected(block: BlockView, i: int, amount: u64)
    requires
        block.valid(),
        0 <= i < block.transactions.len(),
        amount != block.transactions[i].amount,
    ensures
        ({
            let t = TransactionView { amount, ..block.transactions[i] };
            let changed = block.with_transaction(i, t);
            &&& changed.preimage() != block.preimage()
            &&& changed.valid() ==> spec_sha256_hex(changed.preimage()) == spec_sha256_hex(
                block.preimage(),
            )
        }),
{
    let t = TransactionView { amount, ..block.transactions[i] };
    lemma_text_tells_amount(block.transactions[i], amount);
    lemma_preimage_tells(block, i, t);
}

/// Changing the recipient of a transaction in a valid block is detected,
/// short of a collision of the digest.
pub proof fn lemma_changed_recipient_is_detected(
    block: BlockView,
    i: int,
    to_address: Seq<char>,
)
    requires
        block.valid(),
        0 <= i < block.transactions.len(),
        to_address != block.transactions[i].to_address,
    ensures
        ({
            let t = TransactionView { to_address, ..block.transactions[i] };
            let changed = block.with_transaction(i, t);
            &&& changed.preimage() != block.preimage()
            &&& changed.valid() ==> spec_sha256_hex(changed.preimage()) == spec_sha256_hex(
                block.preimage(),
            )
        }),
{
    let t = TransactionView { to_address, ..block.transactions[i] };
    lemma_text_tells_recipient(block.transactions[i], to_address);
    lemma_preimage_tells(block, i, t);
}

/// The views of a list of transactions.
pub open spec fn transaction_views(txs: Seq<Transaction>) -> Seq<TransactionView> {
    txs.map_values(|t: Transaction| t@)
}

/// An ordered container of transactions with its chain linkage.
///
/// The fields are open: a block is judged by [`Block::verify`], which
/// recomputes the hash from them.
pub struct Block {
    pub timestamp: String,
    pub nonce: u64,
    pub hash: String,
    pub previous_hash: String,
    pub transactions: Vec<Transaction>,
}

impl View for Block {
    type V = BlockView;

    open spec fn view(&self) -> BlockView {
        BlockView {
            timestamp: self.timestamp@,
            nonce: self.nonce,
            hash: self.hash@,
            previous_hash: self.previous_hash@,
            transactions: transaction_views(self.transactions@),
        }
    }
}

/// Whether `hash` starts with `difficulty` zeros.
pub fn has_leading_zeros(hash: &str, difficulty: usize) -> (met: bool)
    ensures
        met == leading_zeros(hash@, difficulty as nat),
{
    let n = hash.unicode_len();
    if n < difficulty {
        return false;
    }
    let mut i: usize = 0;
    while i < difficulty
        invariant
            i <= difficulty <= n,
            n == hash@.len(),
            forall|k: int| 0 <= k < i ==> hash@[k] == '0',
        decreases difficulty - i,
    {
        if hash.get_char(i) != '0' {
            return false;
        }
        i = i + 1;
    }
    true
}

impl Block {
    /// An empty block made now.
    pub fn new() -> (made: Self)
        ensures
            made@ == BlockView::blank(made@.timestamp),
    {
        Block::with_timestamp(utc_now_text())
    }

    /// An empty block with the given timestamp: nonce 0, no previous hash,
    /// and the hash of that state.
    pub fn with_timestamp(timestamp: String) -> (made: Self)
        ensures
            made@ == BlockView::blank(timestamp@),
    {
        let mut b = Block {
            timestamp,
            nonce: 0,
            hash: String::new(),
            previous_hash: String::new(),
            transactions: Vec::new(),
        };
        b.hash = b.calc_hash();
        assert(b@.transactions =~= Seq::empty());
        b
    }

    /// The content digest of the block as it stands.
    pub fn calc_hash(&self) -> (digest: String)
        ensures
            digest@ == self@.digest(),
    {
        let mut s = self.get_transactions_str();
        s.append(self.timestamp.as_str());
        s.append(decimal_string(self.nonce).as_str());
        s.append(self.previous_hash.as_str());
        assert(s@ =~= self@.preimage());
        hash_string(s.as_str())
    }

    /// The transaction list as text.
    pub fn get_transactions_str(&self) -> (text: String)
        ensures
            text@ == self@.transactions_text(),
    {
        let mut s = String::from_str("[");
        let mut i: usize = 0;
        while i < self.transactions.len()
            invariant
                i <= self.transactions.len(),
                s@ == "["@ + joined_texts(self@.transactions.take(i as int)),
            decreases self.transactions.len() - i,
        {
            let ghost before = self@.transactions.take(i as int);
            let ghost after = self@.transactions.take(i + 1);
            if i > 0 {
                s.append(",");
            }
            let t = self.transactions[i].print();
            s.append(t.as_str());
            proof {
                assert(after.drop_last() =~= before);
                assert(after.last() == self@.transactions[i as int]);
                assert(s@ =~= "["@ + joined_texts(after));
            }
            i = i + 1;
        }
        assert(self@.transactions.take(i as int) =~= self@.transactions);
        s.append("]");
        s
    }

    /// The proof-of-work search. Starting above the block's nonce, takes
    /// each nonce in turn and recomputes the hash, until the hash has
    /// `difficulty` leading zeros.
    ///
    /// Returns `true` once such a nonce is found: it is the least one above
    /// the starting nonce, and the stored hash is the block's digest with
    /// it. Returns `false`, with the block as it was, where no nonce up to
    /// `u64::MAX` solves the block.
    pub fn mine_block(&mut self, difficulty: usize) -> (mined: bool)
        ensures
            mined ==> old(self)@.first_solution(final(self)@.nonce, difficulty as nat),
            mined ==> final(self)@ == old(self)@.sealed(final(self)@.nonce),
            mined ==> final(self)@.hash == final(self)@.digest() && leading_zeros(
                final(self)@.hash,
                difficulty as nat,
            ),
            !mined ==> final(self)@ == old(self)@,
            !mined ==> forall|m: u64| old(self)@.nonce < m ==> !old(self)@.solves(m, difficulty as nat),
    {
        let ghost before = self@;
        let start_nonce = self.nonce;
        let start_hash = self.hash.clone();
        while self.nonce < u64::MAX
            invariant
                before == old(self)@,
                self@.timestamp == before.timestamp,
                self@.previous_hash == before.previous_hash,
                self@.transactions == before.transactions,
                before.nonce <= self.nonce,
                start_nonce == before.nonce,
                start_hash@ == before.hash,
                forall|m: u64| before.nonce < m <= self.nonce ==> !before.solves(m, difficulty as nat),
            decreases u64::MAX - self.nonce,
        {
            self.nonce = self.nonce + 1;
            self.hash = self.calc_hash();
            assert(self@ == before.sealed(self.nonce));
            if has_leading_zeros(self.hash.as_str(), difficulty) {
                return true;
            }
        }
        self.nonce = start_nonce;
        self.hash = start_hash;
        false
    }

    /// Whether every transaction verifies and the stored hash is the
    /// recomputed content digest.
    pub fn verify(&self) -> (valid: bool)
        ensures
            valid == self@.valid(),
    {
        let mut i: usize = 0;
        while i < self.transactions.len()
            invariant
                i <= self.transactions.len(),
                forall|k: int| 0 <= k < i ==> (#[trigger] self@.transactions[k]).valid(),
            decreases self.transactions.len() - i,
        {
            if !self.transactions[i].verify() {
                assert(!self@.transactions[i as int].valid());
                return false;
            }
            i = i + 1;
        }
        self.hash == self.calc_hash()
    }

    /// Appends a transaction. Nothing is checked here: the ledger checks a
    /// transaction before it pools it.
    pub fn add_transaction(&mut self, transaction: Transaction)
        ensures
            final(self)@ == (BlockView {
                transactions: old(self)@.transactions.push(transaction@),
                ..old(self)@
            }),
    {
        self.transactions.push(transaction);
        assert(self@.transactions =~= old(self)@.transactions.push(transaction@));
    }

    /// The transactions, in order.
    pub fn get_transactions(&self) -> (transactions: &Vec<Transaction>)
        ensures
            transaction_views(transactions@) == self@.transactions,
    {
        &self.transactions
    }

    /// Sets the link to the previous block.
    pub fn set_previous_hash(&mut self, hash: &str)
        ensures
            final(self)@ == (BlockView { previous_hash: hash@, ..old(self)@ }),
    {
        self.previous_hash = String::from_str(hash);
    }

    /// The stored hash of the previous block.
    pub fn get_previous_hash(&self) -> (hash: &str)
        ensures
            hash@ == self@.previous_hash,
    {
        self.previous_hash.as_str()
    }

    /// The stored hash.
    pub fn get_hash(&self) -> (hash: &str)
        ensures
            hash@ == self@.hash,
    {
        self.hash.as_str()
    }

    /// Sets the stored hash.
    pub fn set_hash(&mut self, hash: &str)
        ensures
            final(self)@ == (BlockView { hash: hash@, ..old(self)@ }),
    {
        self.hash = String::from_str(hash);
    }

    /// Sets the timestamp.
    pub fn set_timestamp(&mut self, timestamp: &str)
        ensures
            final(self)@ == (BlockView { timestamp: timestamp@, ..old(self)@ }),
    {
        self.timestamp = String::from_str(timestamp);
    }

    /// The text of the whole block, for display.
    pub fn print(&self) -> (text: String)
        ensures
            text@ == self@.text(),
    {
        let mut s = String::from_str("{Transactions: ");
        s.append(self.get_transactions_str().as_str());
        s.append(", Timestamp: ");
        s.append(self.timestamp.as_str());
        s.append(", Nonce: ");
        s.append(decimal_string(self.nonce).as_str());
        s.append(", Hash: ");
        s.append(self.hash.as_str());
        s.append(", PreviousHash: ");
        s.append(self.previous_hash.as_str());
        s.append("}");
        assert(s@ =~= self@.text());
        s
    }
}

impl Clone for Block {
    fn clone(&self) -> (copy: Self)
        ensures
            copy@ == self@,
    {
        let mut transactions: Vec<Transaction> = Vec::new();
        let mut i: usize = 0;
        while i < self.transactions.len()
            invariant
                i <= self.transactions.len(),
                transactions@ == self.transactions@.take(i as int),
            decreases self.transactions.len() - i,
        {
            transactions.push(self.transactions[i].clone());
            assert(transactions@ =~= self.transactions@.take(i + 1));
            i = i + 1;
        }
        assert(transactions@ =~= self.transactions@);
        Block {
            timestamp: self.timestamp.clone(),
            nonce: self.nonce,
            hash: self.hash.clone(),
            previous_hash: self.previous_hash.clone(),
            transactions,
        }
    }
}

impl PartialEq for Block {
    fn eq(&self, other: &Block) -> (same: bool) {
        self.timestamp == other.timestamp && self.hash == other.hash && self.previous_hash
            == other.previous_hash && self.get_transactions_str() == other.get_transactions_str()
    }
}

impl vstd::std_specs::cmp::PartialEqSpecImpl for Block {
    open spec fn obeys_eq_spec() -> bool {
        true
    }

    open spec fn eq_spec(&self, other: &Block) -> bool {
        self@.same_as(other@)
    }
}

} // verus!
