//! Signed value transfers.

use crate::clock::utc_now_text;
use crate::encoding::{
    decimal_digits, decimal_string, lemma_concat_cancel, lemma_decimal_injective,
};
use crate::keymanager::{
    ecdsa_verify, hash_string, spec_sha256_hex, spec_sign, spec_verify, KeyManager, KeyPair,
};
use vstd::prelude::*;
use vstd::string::StringExecFns;

verus! {

/// A transaction as plain values.
pub struct TransactionView {
    pub to_address: Seq<char>,
    pub amount: u64,
    pub timestamp: Seq<char>,
    pub hash: Seq<char>,
    pub signature: Seq<char>,
    pub public_key: Seq<char>,
}

impl TransactionView {
    /// The text that is hashed: recipient, sender, amount in decimal and
    /// timestamp, one after the other.
    pub open spec fn preimage(self) -> Seq<char> {
        self.to_address + self.public_key + decimal_digits(self.amount as nat) + self.timestamp
    }

    /// The content digest of the four hashed fields.
    pub open spec fn digest(self) -> Seq<char> {
        spec_sha256_hex(self.preimage())
    }

    /// The amount is not zero and the signature verifies over the stored
    /// hash under the sender's key. The stored hash is taken as it stands:
    /// that it is the digest of the other fields is not part of this.
    pub open spec fn valid(self) -> bool {
        self.amount != 0 && spec_verify(self.hash, self.signature, self.public_key)
    }

    /// The canonical text of a transaction. It is what a block hashes, so
    /// every field is in it.
    pub open spec fn text(self) -> Seq<char> {
        "{From: "@ + self.public_key + ", To: "@ + self.to_address + ", Amount: "@ + decimal_digits(
            self.amount as nat,
        ) + ", Timestamp: "@ + self.timestamp + ", Hash: "@ + self.hash + ", Signature: "@
            + self.signature + "}"@
    }
}

/// The canonical text of a transaction is never empty.
pub proof fn lemma_text_not_empty(t: TransactionView)
    ensures
        t.text().len() > 0,
{
    reveal_strlit("}");
}

/// The canonical text tells the amount: another amount gives another
/// text.
pub proof fn lemma_text_tells_amount(t: TransactionView, amount: u64)
    requires
        amount != t.amount,
    ensures
        (TransactionView { amount, ..t }).text() != t.text(),
{
    let changed = TransactionView { amount, ..t };
    let opening = "{From: "@ + t.public_key + ", To: "@ + t.to_address + ", Amount: "@;
    let ending = ", Timestamp: "@ + t.timestamp + ", Hash: "@ + t.hash + ", Signature: "@
        + t.signature + "}"@;
    assert(t.text() =~= opening + decimal_digits(t.amount as nat) + ending);
    assert(changed.text() =~= opening + decimal_digits(amount as nat) + ending);
    if changed.text() == t.text() {
        lemma_concat_cancel(
            opening,
            decimal_digits(amount as nat),
            decimal_digits(t.amount as nat),
            ending,
        );
        lemma_decimal_injective(amount as nat, t.amount as nat);
    }
}

/// The canonical text tells the recipient: another recipient gives another
/// text.
pub proof fn lemma_text_tells_recipient(t: TransactionView, to_address: Seq<char>)
    requires
        to_address != t.to_address,
    ensures
        (TransactionView { to_address, ..t }).text() != t.text(),
{
    let changed = TransactionView { to_address, ..t };
    let opening = "{From: "@ + t.public_key + ", To: "@;
    let ending = ", Amount: "@ + decimal_digits(t.amount as nat) + ", Timestamp: "@ + t.timestamp
        + ", Hash: "@ + t.hash + ", Signature: "@ + t.signature + "}"@;
    assert(t.text() =~= opening + t.to_address + ending);
    assert(changed.text() =~= opening + to_address + ending);
    if changed.text() == t.text() {
        lemma_concat_cancel(opening, to_address, t.to_address, ending);
    }
}

/// The transaction that the holder of `keys` makes at `timestamp` to send
/// `amount` to `to_address`: hashed over recipient, sender, amount and
/// timestamp, and signed over that hash.
pub open spec fn signed_transfer(
    keys: KeyPair,
    to_address: Seq<char>,
    amount: u64,
    timestamp: Seq<char>,
) -> TransactionView {
    let unsigned = TransactionView {
        to_address,
        amount,
        timestamp,
        hash: Seq::empty(),
        signature: Seq::empty(),
        public_key: keys.public_key,
    };
    TransactionView {
        hash: unsigned.digest(),
        signature: spec_sign(unsigned.digest(), keys.secret_key).unwrap(),
        ..unsigned
    }
}

/// A signed transfer of `amount` from the holder of `public_key` to
/// `to_address`.
///
/// The fields are open: a transaction is judged by [`Transaction::verify`]
/// and by the hash of the block that holds it, never by how it was made.
pub struct Transaction {
    pub to_address: String,
    pub amount: u64,
    pub timestamp: String,
    pub hash: String,
    pub signature: String,
    pub public_key: String,
}

impl View for Transaction {
    type V = TransactionView;

    open spec fn view(&self) -> TransactionView {
        TransactionView {
            to_address: self.to_address@,
            amount: self.amount,
            timestamp: self.timestamp@,
            hash: self.hash@,
            signature: self.signature@,
            public_key: self.public_key@,
        }
    }
}

impl Clone for Transaction {
    fn clone(&self) -> (copy: Self)
        ensures
            copy == *self,
    {
        Transaction {
            to_address: self.to_address.clone(),
            amount: self.amount,
            timestamp: self.timestamp.clone(),
            hash: self.hash.clone(),
            signature: self.signature.clone(),
            public_key: self.public_key.clone(),
        }
    }
}

impl Transaction {
    /// A transfer from `from_address` made now.
    pub fn new(from_address: &KeyManager, to_address: String, amount: u64) -> (made: Self)
        ensures
            made@ == signed_transfer(from_address@, to_address@, amount, made@.timestamp),
            made@.valid() <==> amount != 0,
    {
        Transaction::with_timestamp(from_address, to_address, amount, utc_now_text())
    }

    /// A transfer from `from_address` that carries the given timestamp: the
    /// hash is the digest of recipient, sender, amount and timestamp, and
    /// the signature is the sender's over that hash. It verifies unless the
    /// amount is zero.
    pub fn with_timestamp(
        from_address: &KeyManager,
        to_address: String,
        amount: u64,
        timestamp: String,
    ) -> (made: Self)
        ensures
            made@ == signed_transfer(from_address@, to_address@, amount, timestamp@),
            made@.valid() <==> amount != 0,
    {
        let mut t = Transaction {
            to_address,
            amount,
            timestamp,
            hash: String::new(),
            signature: String::new(),
            public_key: from_address.get_public_key(),
        };
        t.calc_hash();
        t.signature = from_address.sign(t.hash.clone());
        t
    }

    /// Sets the stored hash to the digest of the other hashed fields.
    pub fn calc_hash(&mut self)
        ensures
            final(self)@ == (TransactionView { hash: old(self)@.digest(), ..old(self)@ }),
    {
        let mut s = String::new();
        s.append(self.to_address.as_str());
        s.append(self.public_key.as_str());
        s.append(decimal_string(self.amount).as_str());
        s.append(self.timestamp.as_str());
        assert(s@ =~= self@.preimage());
        self.hash = hash_string(s.as_str());
    }

    /// Whether the transaction is authentic: a non-zero amount and a
    /// signature over the stored hash that verifies under the sender's key.
    pub fn verify(&self) -> (valid: bool)
        ensures
            valid == self@.valid(),
    {
        if self.amount == 0 {
            return false;
        }
        ecdsa_verify(self.hash.as_str(), self.signature.as_str(), self.public_key.as_str())
    }

    /// The recipient's address.
    pub fn get_to_address(&self) -> (address: &str)
        ensures
            address@ == self@.to_address,
    {
        self.to_address.as_str()
    }

    /// The amount transferred.
    pub fn get_amount(&self) -> (amount: u64)
        ensures
            amount == self@.amount,
    {
        self.amount
    }

    /// The sender's public key, which is the sender's address.
    pub fn get_public_key(&self) -> (key: &str)
        ensures
            key@ == self@.public_key,
    {
        self.public_key.as_str()
    }

    /// The canonical text of the transaction.
    pub fn print(&self) -> (text: String)
        ensures
            text@ == self@.text(),
    {
        let mut s = String::from_str("{From: ");
        s.append(self.public_key.as_str());
        s.append(", To: ");
        s.append(self.to_address.as_str());
        s.append(", Amount: ");
        s.append(decimal_string(self.amount).as_str());
        s.append(", Timestamp: ");
        s.append(self.timestamp.as_str());
        s.append(", Hash: ");
        s.append(self.hash.as_str());
        s.append(", Signature: ");
        s.append(self.signature.as_str());
        s.append("}");
        assert(s@ =~= self@.text());
        s
    }
}

} // verus!
