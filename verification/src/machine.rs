//! The ledger and the play transition.
//!
//! A [`SlotMachine`] maps account identities to unsigned credit balances: an
//! account with no entry reads as zero, deposits grow a balance, and `play`
//! debits one `ONE_UNIT` wager, then credits `REWARD_FACTOR` units back when
//! the host-supplied random byte falls below `PROB`. No balance ever wraps:
//! an operation that cannot keep its balance representable fails and leaves
//! the whole ledger unchanged.

use vstd::prelude::*;

use crate::account::is_valid_account_id;
use crate::account::valid_account_id;
use crate::errors::Error;

verus! {

/// One full unit of credit: the price of a single play.
pub const ONE_UNIT: u128 = 1_000_000;

/// Win threshold: a random byte strictly below it wins.
pub const PROB: u8 = 128;

/// How many units a win pays back.
pub const REWARD_FACTOR: u128 = 10;

/// The amount credited on a win.
pub const REWARD: u128 = REWARD_FACTOR * ONE_UNIT;

/// A play with this random byte wins.
pub open spec fn wins(random_byte: u8) -> bool {
    random_byte < PROB
}

/// What a play with this random byte credits back after the wager.
pub open spec fn payout(random_byte: u8) -> int {
    if wins(random_byte) {
        REWARD as int
    } else {
        0
    }
}

/// The balance a successful play leaves, given the balance before it.
pub open spec fn play_new_balance(balance: int, random_byte: u8) -> int {
    balance - ONE_UNIT + payout(random_byte)
}

/// The balance that a sequence of entries assigns to `id`: the value of the
/// first entry with that key, or zero when none is present.
pub open spec fn credits_of(entries: Seq<(String, u128)>, id: Seq<char>) -> u128
    decreases entries.len(),
{
    if entries.len() == 0 {
        0
    } else if entries[0].0@ == id {
        entries[0].1
    } else {
        credits_of(entries.drop_first(), id)
    }
}

/// No account has two entries in the sequence.
pub open spec fn unique_keys(entries: Seq<(String, u128)>) -> bool {
    forall|i: int, j: int|
        0 <= i < j < entries.len() ==> (#[trigger] entries[i]).0@ != (#[trigger] entries[j]).0@
}

/// The ledger root: the identity that initialized it and the balance mapping.
pub struct SlotMachine {
    owner_id: String,
    credits: Vec<(String, u128)>,
}

proof fn lemma_credits_of_absent(entries: Seq<(String, u128)>, id: Seq<char>)
    requires
        forall|k: int| 0 <= k < entries.len() ==> (#[trigger] entries[k]).0@ != id,
    ensures
        credits_of(entries, id) == 0,
    decreases entries.len(),
{
    if entries.len() > 0 {
        lemma_credits_of_absent(entries.drop_first(), id);
    }
}

proof fn lemma_credits_of_first(entries: Seq<(String, u128)>, id: Seq<char>, i: int)
    requires
        0 <= i < entries.len(),
        entries[i].0@ == id,
        forall|k: int| 0 <= k < i ==> (#[trigger] entries[k]).0@ != id,
    ensures
        credits_of(entries, id) == entries[i].1,
    decreases entries.len(),
{
    if i > 0 {
        lemma_credits_of_first(entries.drop_first(), id, i - 1);
    }
}

proof fn lemma_credits_of_update(entries: Seq<(String, u128)>, i: int, p: (String, u128))
    requires
        0 <= i < entries.len(),
        p.0@ == entries[i].0@,
        forall|k: int| 0 <= k < i ==> (#[trigger] entries[k]).0@ != entries[i].0@,
    ensures
        credits_of(entries.update(i, p), entries[i].0@) == p.1,
        forall|id: Seq<char>| id != entries[i].0@
            ==> credits_of(entries.update(i, p), id) == credits_of(entries, id),
    decreases entries.len(),
{
    let updated: Seq<(String, u128)> = entries.update(i, p);
    if i == 0 {
        assert(updated[0] == p);
        assert(updated.drop_first() =~= entries.drop_first());
        assert forall|id: Seq<char>| id != entries[i].0@
            implies credits_of(updated, id) == credits_of(entries, id) by {
            assert(credits_of(updated, id) == credits_of(updated.drop_first(), id));
            assert(credits_of(entries, id) == credits_of(entries.drop_first(), id));
        }
    } else {
        assert(updated[0] == entries[0]);
        assert(updated.drop_first() =~= entries.drop_first().update(i - 1, p));
        lemma_credits_of_update(entries.drop_first(), i - 1, p);
        assert(entries.drop_first()[i - 1] == entries[i]);
        assert(entries[0].0@ != entries[i].0@);
        assert forall|id: Seq<char>| id != entries[i].0@
            implies credits_of(updated, id) == credits_of(entries, id) by {
            if entries[0].0@ != id {
                assert(credits_of(updated, id) == credits_of(updated.drop_first(), id));
                assert(credits_of(entries, id) == credits_of(entries.drop_first(), id));
            }
        }
    }
}

proof fn lemma_credits_of_push(entries: Seq<(String, u128)>, p: (String, u128))
    requires
        forall|k: int| 0 <= k < entries.len() ==> (#[trigger] entries[k]).0@ != p.0@,
    ensures
        credits_of(entries.push(p), p.0@) == p.1,
        forall|id: Seq<char>| id != p.0@
            ==> credits_of(entries.push(p), id) == credits_of(entries, id),
    decreases entries.len(),
{
    let extended: Seq<(String, u128)> = entries.push(p);
    if entries.len() == 0 {
        assert(extended[0] == p);
        assert(extended.drop_first() =~= Seq::<(String, u128)>::empty());
        assert forall|id: Seq<char>| id != p.0@
            implies credits_of(extended, id) == credits_of(entries, id) by {
            assert(credits_of(extended, id) == credits_of(extended.drop_first(), id));
        }
    } else {
        assert(extended[0] == entries[0]);
        assert(extended.drop_first() =~= entries.drop_first().push(p));
        lemma_credits_of_push(entries.drop_first(), p);
        assert forall|id: Seq<char>| id != p.0@
            implies credits_of(extended, id) == credits_of(entries, id) by {
            if entries[0].0@ != id {
                assert(credits_of(extended, id) == credits_of(extended.drop_first(), id));
                assert(credits_of(entries, id) == credits_of(entries.drop_first(), id));
            }
        }
    }
}

impl SlotMachine {
    /// The identity that initialized the ledger.
    pub closed spec fn owner(self) -> Seq<char> {
        self.owner_id@
    }

    /// The credit balance of `id`; an account without an entry reads as zero.
    pub closed spec fn balance_of(self, id: Seq<char>) -> u128 {
        credits_of(self.credits@, id)
    }

    /// Representation invariant: no account has two entries.
    pub closed spec fn wf(self) -> bool {
        unique_keys(self.credits@)
    }

    /// Builds a fresh ledger owned by `owner_id`, with every balance zero.
    /// Rejects a malformed owner identity, and succeeds on any other.
    pub fn new(owner_id: String) -> (r: Result<SlotMachine, Error>)
        ensures
            valid_account_id(owner_id@) ==> (r matches Ok(m)
                && m.owner() == owner_id@
                && (forall|id: Seq<char>| m.balance_of(id) == 0)
                && m.wf()),
            !valid_account_id(owner_id@) ==> (r matches Err(e) && e == Error::InvalidIdentity),
    {
        if !is_valid_account_id(owner_id.as_str()) {
            return Err(Error::InvalidIdentity);
        }
        Ok(SlotMachine { owner_id, credits: Vec::new() })
    }

    /// A placeholder ledger for a slot that is not initialized yet.
    pub(crate) fn blank() -> (r: SlotMachine)
        ensures
            r.owner() == Seq::<char>::empty(),
            forall|id: Seq<char>| r.balance_of(id) == 0,
            r.wf(),
    {
        SlotMachine { owner_id: String::new(), credits: Vec::new() }
    }

    /// The identity that initialized the ledger.
    pub fn owner_id(&self) -> (r: &String)
        ensures
            r@ == self.owner(),
    {
        &self.owner_id
    }

    /// The stored entries: every account that has been touched, with its
    /// balance. An adapter serializes these to persist the ledger.
    pub fn entries(&self) -> (r: &Vec<(String, u128)>)
        ensures
            forall|id: Seq<char>| credits_of(r@, id) == self.balance_of(id),
            self.wf() ==> unique_keys(r@),
    {
        &self.credits
    }

    /// Restores a ledger from an owner and stored entries, as `entries` handed
    /// them out; every balance reads back from the entries.
    pub fn from_parts(owner_id: String, entries: Vec<(String, u128)>) -> (r: SlotMachine)
        ensures
            r.owner() == owner_id@,
            forall|id: Seq<char>| r.balance_of(id) == credits_of(entries@, id),
            unique_keys(entries@) ==> r.wf(),
    {
        SlotMachine { owner_id, credits: entries }
    }

    /// Where `account_id` stands in the entry vector, if anywhere.
    fn find_entry(&self, account_id: &String) -> (r: Option<usize>)
        ensures
            match r {
                Some(i) => i < self.credits@.len()
                    && self.credits@[i as int].0@ == account_id@
                    && forall|k: int| 0 <= k < i ==> (#[trigger] self.credits@[k]).0@ != account_id@,
                None => forall|k: int|
                    0 <= k < self.credits@.len() ==> (#[trigger] self.credits@[k]).0@ != account_id@,
            },
    {
        let n: usize = self.credits.len();
        let mut i: usize = 0;
        while i < n
            invariant
                n == self.credits@.len(),
                0 <= i <= n,
                forall|k: int| 0 <= k < i ==> (#[trigger] self.credits@[k]).0@ != account_id@,
            decreases n - i,
        {
            if self.credits[i].0 == *account_id {
                return Some(i);
            }
            i += 1;
        }
        None
    }

    /// Reads the balance of `account_id`: zero for an account never seen.
    /// A pure read; it never fails and never mutates.
    pub fn get_credits(&self, account_id: &String) -> (r: u128)
        ensures
            r == self.balance_of(account_id@),
    {
        match self.find_entry(account_id) {
            Some(i) => {
                proof {
                    lemma_credits_of_first(self.credits@, account_id@, i as int);
                }
                self.credits[i].1
            }
            None => {
                proof {
                    lemma_credits_of_absent(self.credits@, account_id@);
                }
                0
            }
        }
    }

    /// Writes `amount` as the balance of `account_id`, creating the entry on
    /// first contact and touching no other account.
    fn set_balance(&mut self, account_id: &String, amount: u128)
        ensures
            final(self).balance_of(account_id@) == amount,
            forall|id: Seq<char>| id != account_id@
                ==> final(self).balance_of(id) == old(self).balance_of(id),
            final(self).owner() == old(self).owner(),
            old(self).wf() ==> final(self).wf(),
    {
        match self.find_entry(account_id) {
            Some(i) => {
                let p = (account_id.clone(), amount);
                proof {
                    lemma_credits_of_update(self.credits@, i as int, p);
                }
                self.credits[i] = p;
                assert(forall|k: int|
                    0 <= k < self.credits@.len()
                        ==> (#[trigger] self.credits@[k]).0@ == old(self).credits@[k].0@);
            }
            None => {
                let p = (account_id.clone(), amount);
                proof {
                    lemma_credits_of_push(self.credits@, p);
                }
                self.credits.push(p);
            }
        }
    }

    /// Adds `amount` to the balance of `account_id`, treating an absent entry
    /// as zero. Fails with `ArithmeticOverflow`, and changes nothing, when the
    /// sum would not be representable.
    pub fn credit(&mut self, account_id: &String, amount: u128) -> (r: Result<(), Error>)
        ensures
            old(self).balance_of(account_id@) + amount <= u128::MAX ==> (r matches Ok(())
                && final(self).balance_of(account_id@) == old(self).balance_of(account_id@) + amount),
            old(self).balance_of(account_id@) + amount > u128::MAX
                ==> (r matches Err(e) && e == Error::ArithmeticOverflow
                && *final(self) == *old(self)),
            forall|id: Seq<char>| id != account_id@
                ==> final(self).balance_of(id) == old(self).balance_of(id),
            final(self).owner() == old(self).owner(),
            old(self).wf() ==> final(self).wf(),
    {
        let balance: u128 = self.get_credits(account_id);
        if amount > u128::MAX - balance {
            return Err(Error::ArithmeticOverflow);
        }
        self.set_balance(account_id, balance + amount);
        Ok(())
    }

    /// Accepts a deposit: the host-attached `amount` is added to the balance
    /// of `account_id`, with the same overflow policy as `credit`.
    pub fn deposit(&mut self, account_id: &String, amount: u128) -> (r: Result<(), Error>)
        ensures
            old(self).balance_of(account_id@) + amount <= u128::MAX ==> (r matches Ok(())
                && final(self).balance_of(account_id@) == old(self).balance_of(account_id@) + amount),
            old(self).balance_of(account_id@) + amount > u128::MAX
                ==> (r matches Err(e) && e == Error::ArithmeticOverflow
                && *final(self) == *old(self)),
            forall|id: Seq<char>| id != account_id@
                ==> final(self).balance_of(id) == old(self).balance_of(id),
            final(self).owner() == old(self).owner(),
            old(self).wf() ==> final(self).wf(),
    {
        self.credit(account_id, amount)
    }

    /// Takes `amount` out of the balance of `account_id`. Fails with
    /// `InsufficientCredits`, and changes nothing, when the account holds less.
    pub fn debit(&mut self, account_id: &String, amount: u128) -> (r: Result<(), Error>)
        ensures
            amount <= old(self).balance_of(account_id@) ==> (r matches Ok(())
                && final(self).balance_of(account_id@) == old(self).balance_of(account_id@) - amount),
            amount > old(self).balance_of(account_id@)
                ==> (r matches Err(e) && e == Error::InsufficientCredits
                && *final(self) == *old(self)),
            forall|id: Seq<char>| id != account_id@
                ==> final(self).balance_of(id) == old(self).balance_of(id),
            final(self).owner() == old(self).owner(),
            old(self).wf() ==> final(self).wf(),
    {
        let balance: u128 = self.get_credits(account_id);
        if amount > balance {
            return Err(Error::InsufficientCredits);
        }
        self.set_balance(account_id, balance - amount);
        Ok(())
    }

    /// One wager: debits `ONE_UNIT`, credits `REWARD` when `random_byte` is
    /// below `PROB`, and returns the random byte as the outcome code, so that
    /// the caller can re-check the decision. On an empty account it fails with
    /// `NoCredits`; on one too poor for the wager, with `InsufficientCredits`;
    /// on one too rich for the reward, with `ArithmeticOverflow`. Every failure
    /// leaves the ledger exactly as it was.
    pub fn play(&mut self, account_id: &String, random_byte: u8) -> (r: Result<u8, Error>)
        ensures
            ({
                let b = old(self).balance_of(account_id@);
                &&& b == 0 ==> (r matches Err(e) && e == Error::NoCredits && *final(self) == *old(self))
                &&& 0 < b < ONE_UNIT ==> (r matches Err(e) && e == Error::InsufficientCredits
                    && *final(self) == *old(self))
                &&& b >= ONE_UNIT && play_new_balance(b as int, random_byte) <= u128::MAX
                    ==> (r matches Ok(code) && code == random_byte
                    && final(self).balance_of(account_id@) == play_new_balance(b as int, random_byte))
                &&& b >= ONE_UNIT && play_new_balance(b as int, random_byte) > u128::MAX
                    ==> (r matches Err(e) && e == Error::ArithmeticOverflow
                    && *final(self) == *old(self))
            }),
            forall|id: Seq<char>| id != account_id@
                ==> final(self).balance_of(id) == old(self).balance_of(id),
            final(self).owner() == old(self).owner(),
            old(self).wf() ==> final(self).wf(),
    {
        let balance: u128 = self.get_credits(account_id);
        if balance == 0 {
            return Err(Error::NoCredits);
        }
        if balance < ONE_UNIT {
            return Err(Error::InsufficientCredits);
        }
        let win = random_byte < PROB;
        if win && balance - ONE_UNIT > u128::MAX - REWARD {
            return Err(Error::ArithmeticOverflow);
        }
        match self.debit(account_id, ONE_UNIT) {
            Ok(()) => {}
            Err(e) => {
                return Err(e);
            }
        }
        if win {
            match self.credit(account_id, REWARD) {
                Ok(()) => {}
                Err(e) => {
                    return Err(e);
                }
            }
        }
        Ok(random_byte)
    }
}

/// The play transition is not idempotent: from any balance that can afford the
/// wager, a play moves the balance, and a second play with the same random byte
/// debits the wager and pays the payout once more, so it lands somewhere else
/// than the first.
pub proof fn lemma_play_not_idempotent(balance: u128, random_byte: u8)
    requires
        ONE_UNIT <= balance,
    ensures
        play_new_balance(balance as int, random_byte) != balance,
        play_new_balance(play_new_balance(balance as int, random_byte), random_byte)
            != play_new_balance(balance as int, random_byte),
        play_new_balance(play_new_balance(balance as int, random_byte), random_byte)
            == balance - 2 * ONE_UNIT + 2 * payout(random_byte),
{
}

} // verus!

