use vstd::prelude::*;

verus! {

/// One account of a share ledger and its balance.
pub struct LedgerEntry {
    pub account: String,
    pub balance: u128,
}

/// Why a ledger refused a change. Each refusal leaves the ledger as it was.
#[derive(Debug, Clone, Copy, PartialEq, Eq)]
pub enum LedgerError {
    AlreadyRegistered,
    NotRegistered,
    BalanceOverflow,
    TotalSupplyOverflow,
    InsufficientBalance,
    SameAccount,
    ZeroAmount,
}

/// Sum of the balances of a sequence of entries.
pub open spec fn sum_of(s: Seq<LedgerEntry>) -> int
    decreases s.len(),
{
    if s.len() == 0 {
        0
    } else {
        sum_of(s.drop_last()) + s.last().balance
    }
}

/// Balance of account `a` in `s`: that of the last entry for `a`, 0 where there is none.
pub open spec fn balance_in(s: Seq<LedgerEntry>, a: Seq<char>) -> nat
    decreases s.len(),
{
    if s.len() == 0 {
        0
    } else if s.last().account@ == a {
        s.last().balance as nat
    } else {
        balance_in(s.drop_last(), a)
    }
}

pub open spec fn registered_in(s: Seq<LedgerEntry>, a: Seq<char>) -> bool {
    exists|i: int| 0 <= i < s.len() && (#[trigger] s[i]).account@ == a
}

pub open spec fn accounts_unique(s: Seq<LedgerEntry>) -> bool {
    forall|i: int, j: int|
        0 <= i < j < s.len() ==> (#[trigger] s[i]).account@ != (#[trigger] s[j]).account@
}

/// Balances per account plus the total supply of shares.
pub struct ShareLedger {
    entries: Vec<LedgerEntry>,
    total_supply: u128,
}

impl ShareLedger {
    pub closed spec fn entries(&self) -> Seq<LedgerEntry> {
        self.entries@
    }

    /// The balance of `a`; 0 for an account that is not registered.
    pub open spec fn balance(&self, a: Seq<char>) -> nat {
        balance_in(self.entries(), a)
    }

    pub open spec fn registered(&self, a: Seq<char>) -> bool {
        registered_in(self.entries(), a)
    }

    pub closed spec fn supply(&self) -> nat {
        self.total_supply as nat
    }

    /// Each account stands once, and the total supply is the sum of all balances.
    pub open spec fn wf(&self) -> bool {
        &&& accounts_unique(self.entries())
        &&& self.supply() == sum_of(self.entries())
    }

    pub fn new() -> (r: ShareLedger)
        ensures
            r.wf(),
            r.supply() == 0,
            forall|a: Seq<char>| !#[trigger] r.registered(a),
            forall|a: Seq<char>| #[trigger] r.balance(a) == 0,
    {
        ShareLedger { entries: Vec::new(), total_supply: 0 }
    }

    pub fn total_supply(&self) -> (r: u128)
        ensures
            r == self.supply(),
    {
        self.total_supply
    }

    /// No account holds more than the total supply.
    pub proof fn lemma_balance_le_supply(&self, a: Seq<char>)
        requires
            self.wf(),
        ensures
            self.balance(a) <= self.supply(),
    {
        if self.registered(a) {
            let i = choose|i: int|
                0 <= i < self.entries().len() && (#[trigger] self.entries()[i]).account@ == a;
            lemma_balance_at(self.entries(), i);
            lemma_balance_le_sum(self.entries(), i);
        } else {
            lemma_balance_unregistered(self.entries(), a);
        }
    }

    fn find(&self, a: &String) -> (r: Option<usize>)
        ensures
            match r {
                Some(i) => i < self.entries().len() && self.entries()[i as int].account@ == a@,
                None => !self.registered(a@),
            },
    {
        let mut i: usize = 0;
        while i < self.entries.len()
            invariant
                i <= self.entries@.len(),
                forall|j: int| 0 <= j < i ==> (#[trigger] self.entries@[j]).account@ != a@,
            decreases self.entries@.len() - i,
        {
            if self.entries[i].account == *a {
                return Some(i);
            }
            i = i + 1;
        }
        None
    }

    pub fn is_registered(&self, a: &String) -> (r: bool)
        ensures
            r == self.registered(a@),
    {
        self.find(a).is_some()
    }

    pub fn balance_of(&self, a: &String) -> (r: u128)
        requires
            self.wf(),
        ensures
            r == self.balance(a@),
    {
        match self.find(a) {
            Some(i) => {
                proof {
                    lemma_balance_at(self.entries(), i as int);
                }
                self.entries[i].balance
            },
            None => {
                proof {
                    lemma_balance_unregistered(self.entries(), a@);
                }
                0
            },
        }
    }

    /// Opens an account with balance 0.
    pub fn register(&mut self, a: &String) -> (r: Result<(), LedgerError>)
        requires
            old(self).wf(),
        ensures
            final(self).wf(),
            r is Err <==> old(self).registered(a@),
            r is Err ==> r == Err::<(), LedgerError>(LedgerError::AlreadyRegistered) && *final(self) == *old(self),
            final(self).registered(a@),
            forall|b: Seq<char>| b != a@ ==> final(self).registered(b) == old(self).registered(b),
            forall|b: Seq<char>| #[trigger] final(self).balance(b) == old(self).balance(b),
            final(self).supply() == old(self).supply(),
    {
        if self.find(a).is_some() {
            return Err(LedgerError::AlreadyRegistered);
        }
        let ghost s = self.entries();
        proof {
            lemma_balance_unregistered(s, a@);
        }
        self.entries.push(LedgerEntry { account: a.clone(), balance: 0 });
        proof {
            let t = self.entries();
            assert(t.drop_last() =~= s);
            assert(t[t.len() - 1].account@ == a@);
            assert forall|b: Seq<char>| b != a@ implies self.registered(b) == registered_in(s, b) by {
                if registered_in(s, b) {
                    let i = choose|i: int| 0 <= i < s.len() && (#[trigger] s[i]).account@ == b;
                    assert(t[i] == s[i]);
                }
                if self.registered(b) {
                    let i = choose|i: int| 0 <= i < t.len() && (#[trigger] t[i]).account@ == b;
                    assert(s[i] == t[i]);
                }
            }
        }
        Ok(())
    }

    /// Credits `amount` to the registered account `a` and adds it to the total supply.
    pub fn deposit(&mut self, a: &String, amount: u128) -> (r: Result<(), LedgerError>)
        requires
            old(self).wf(),
        ensures
            final(self).wf(),
            r == Err::<(), LedgerError>(LedgerError::NotRegistered) <==> !old(self).registered(a@),
            r == Err::<(), LedgerError>(LedgerError::BalanceOverflow) <==> old(self).registered(a@)
                && old(self).balance(a@) + amount > u128::MAX,
            r == Err::<(), LedgerError>(LedgerError::TotalSupplyOverflow) <==> old(self).registered(a@)
                && old(self).balance(a@) + amount <= u128::MAX
                && old(self).supply() + amount > u128::MAX,
            r is Ok <==> old(self).registered(a@) && old(self).balance(a@) + amount <= u128::MAX
                && old(self).supply() + amount <= u128::MAX,
            r is Err ==> *final(self) == *old(self),
            r is Ok ==> {
                &&& final(self).balance(a@) == old(self).balance(a@) + amount
                &&& final(self).supply() == old(self).supply() + amount
            },
            forall|b: Seq<char>| b != a@ ==> #[trigger] final(self).balance(b) == old(self).balance(b),
            forall|b: Seq<char>| #[trigger] final(self).registered(b) == old(self).registered(b),
    {
        let i = match self.find(a) {
            Some(i) => i,
            None => return Err(LedgerError::NotRegistered),
        };
        proof {
            lemma_balance_at(self.entries(), i as int);
        }
        let balance = self.entries[i].balance;
        let new_balance = match balance.checked_add(amount) {
            Some(v) => v,
            None => return Err(LedgerError::BalanceOverflow),
        };
        let new_supply = match self.total_supply.checked_add(amount) {
            Some(v) => v,
            None => return Err(LedgerError::TotalSupplyOverflow),
        };
        self.total_supply = new_supply;
        self.set_entry_balance(i, new_balance);
        Ok(())
    }

    /// Destroys `amount` shares of account `a`, from its balance and from the total supply.
    pub fn burn(&mut self, a: &String, amount: u128) -> (r: Result<(), LedgerError>)
        requires
            old(self).wf(),
        ensures
            final(self).wf(),
            r is Err <==> old(self).balance(a@) < amount,
            r is Err ==> r == Err::<(), LedgerError>(LedgerError::InsufficientBalance) && *final(self) == *old(self),
            r is Ok ==> {
                &&& final(self).balance(a@) == old(self).balance(a@) - amount
                &&& final(self).supply() == old(self).supply() - amount
            },
            forall|b: Seq<char>| b != a@ ==> #[trigger] final(self).balance(b) == old(self).balance(b),
            forall|b: Seq<char>| #[trigger] final(self).registered(b) == old(self).registered(b),
    {
        let i = match self.find(a) {
            Some(i) => i,
            None => {
                proof {
                    lemma_balance_unregistered(self.entries(), a@);
                }
                if amount == 0 {
                    return Ok(());
                }
                return Err(LedgerError::InsufficientBalance);
            },
        };
        proof {
            lemma_balance_at(self.entries(), i as int);
            lemma_balance_le_sum(self.entries(), i as int);
        }
        let balance = self.entries[i].balance;
        if balance < amount {
            return Err(LedgerError::InsufficientBalance);
        }
        let new_supply = self.total_supply - amount;
        self.total_supply = new_supply;
        self.set_entry_balance(i, balance - amount);
        Ok(())
    }

    /// Why a transfer of `amount` from `sender` to `receiver` is refused, if
    /// it is: the rules are checked in this order.
    pub open spec fn transfer_refusal(&self, sender: Seq<char>, receiver: Seq<char>, amount: u128) -> Option<
        LedgerError,
    > {
        if sender == receiver {
            Some(LedgerError::SameAccount)
        } else if amount == 0 {
            Some(LedgerError::ZeroAmount)
        } else if !self.registered(sender) {
            Some(LedgerError::NotRegistered)
        } else if self.balance(sender) < amount {
            Some(LedgerError::InsufficientBalance)
        } else if !self.registered(receiver) {
            Some(LedgerError::NotRegistered)
        } else {
            None
        }
    }

    /// Moves `amount` shares from `sender` to `receiver`, both registered and
    /// distinct; the total supply stays as it is.
    pub fn transfer(&mut self, sender: &String, receiver: &String, amount: u128) -> (r: Result<
        (),
        LedgerError,
    >)
        requires
            old(self).wf(),
        ensures
            final(self).wf(),
            r is Err <==> old(self).transfer_refusal(sender@, receiver@, amount) is Some,
            r matches Err(e) ==> old(self).transfer_refusal(sender@, receiver@, amount) == Some(e),
            r is Err ==> *final(self) == *old(self),
            r is Ok ==> {
                &&& final(self).balance(sender@) == old(self).balance(sender@) - amount
                &&& final(self).balance(receiver@) == old(self).balance(receiver@) + amount
                &&& final(self).supply() == old(self).supply()
            },
            forall|b: Seq<char>|
                b != sender@ && b != receiver@ ==> #[trigger] final(self).balance(b) == old(
                    self,
                ).balance(b),
            forall|b: Seq<char>| #[trigger] final(self).registered(b) == old(self).registered(b),
    {
        if *sender == *receiver {
            return Err(LedgerError::SameAccount);
        }
        if amount == 0 {
            return Err(LedgerError::ZeroAmount);
        }
        if !self.is_registered(sender) {
            proof {
                lemma_balance_unregistered(self.entries(), sender@);
            }
            return Err(LedgerError::NotRegistered);
        }
        if self.balance_of(sender) < amount {
            return Err(LedgerError::InsufficientBalance);
        }
        if !self.is_registered(receiver) {
            return Err(LedgerError::NotRegistered);
        }
        let debited = self.burn(sender, amount);
        assert(debited is Ok);
        proof {
            self.lemma_balance_le_supply(receiver@);
        }
        let credited = self.deposit(receiver, amount);
        assert(credited is Ok);
        Ok(())
    }

    /// Sets the balance of entry `i`; the caller has already moved the total supply.
    fn set_entry_balance(&mut self, i: usize, v: u128)
        requires
            accounts_unique(old(self).entries()),
            i < old(self).entries().len(),
        ensures
            accounts_unique(final(self).entries()),
            sum_of(final(self).entries()) == sum_of(old(self).entries())
                - old(self).entries()[i as int].balance + v,
            final(self).total_supply == old(self).total_supply,
            final(self).balance(old(self).entries()[i as int].account@) == v,
            forall|b: Seq<char>| b != old(self).entries()[i as int].account@
                ==> #[trigger] final(self).balance(b) == old(self).balance(b),
            forall|b: Seq<char>| #[trigger] final(self).registered(b) == old(self).registered(b),
    {
        let ghost s = self.entries();
        let account = self.entries[i].account.clone();
        self.entries.set(i, LedgerEntry { account, balance: v });
        proof {
            let t = self.entries();
            assert(t =~= s.update(i as int, LedgerEntry { account: t[i as int].account, balance: v }));
            lemma_sum_update(s, i as int, t[i as int]);
            assert(accounts_unique(t)) by {
                assert forall|j: int, k: int| 0 <= j < k < t.len() implies
                    (#[trigger] t[j]).account@ != (#[trigger] t[k]).account@ by {
                    assert(s[j].account@ != s[k].account@);
                }
            }
            lemma_balance_at(t, i as int);
            assert forall|b: Seq<char>| b != s[i as int].account@
                implies #[trigger] balance_in(t, b) == balance_in(s, b) by {
                lemma_balance_update_other(s, i as int, t[i as int], b);
            }
            assert forall|b: Seq<char>| #[trigger] registered_in(t, b) == registered_in(s, b) by {
                if registered_in(s, b) {
                    let j = choose|j: int| 0 <= j < s.len() && (#[trigger] s[j]).account@ == b;
                    assert(t[j].account@ == b);
                }
                if registered_in(t, b) {
                    let j = choose|j: int| 0 <= j < t.len() && (#[trigger] t[j]).account@ == b;
                    assert(s[j].account@ == b);
                }
            }
        }
    }
}

proof fn lemma_sum_update(s: Seq<LedgerEntry>, i: int, e: LedgerEntry)
    requires
        0 <= i < s.len(),
    ensures
        sum_of(s.update(i, e)) == sum_of(s) - s[i].balance + e.balance,
    decreases s.len(),
{
    let t = s.update(i, e);
    if i == s.len() - 1 {
        assert(t.drop_last() =~= s.drop_last());
    } else {
        assert(t.drop_last() =~= s.drop_last().update(i, e));
        lemma_sum_update(s.drop_last(), i, e);
    }
}

/// With unique accounts, the balance of the account at `i` is the one stored there.
proof fn lemma_balance_at(s: Seq<LedgerEntry>, i: int)
    requires
        accounts_unique(s),
        0 <= i < s.len(),
    ensures
        balance_in(s, s[i].account@) == s[i].balance,
    decreases s.len(),
{
    if i != s.len() - 1 {
        let p = s.drop_last();
        assert(s[i].account@ != s[s.len() - 1].account@);
        assert(accounts_unique(p)) by {
            assert forall|j: int, k: int| 0 <= j < k < p.len() implies
                (#[trigger] p[j]).account@ != (#[trigger] p[k]).account@ by {
                assert(s[j].account@ != s[k].account@);
            }
        }
        assert(p[i] == s[i]);
        lemma_balance_at(p, i);
    }
}

proof fn lemma_balance_unregistered(s: Seq<LedgerEntry>, a: Seq<char>)
    requires
        !registered_in(s, a),
    ensures
        balance_in(s, a) == 0,
    decreases s.len(),
{
    if s.len() > 0 {
        let p = s.drop_last();
        assert(s[s.len() - 1].account@ != a);
        assert(!registered_in(p, a)) by {
            if registered_in(p, a) {
                let j = choose|j: int| 0 <= j < p.len() && (#[trigger] p[j]).account@ == a;
                assert(s[j].account@ == a);
            }
        }
        lemma_balance_unregistered(p, a);
    }
}

proof fn lemma_balance_update_other(s: Seq<LedgerEntry>, i: int, e: LedgerEntry, b: Seq<char>)
    requires
        0 <= i < s.len(),
        s[i].account@ != b,
        e.account@ != b,
    ensures
        balance_in(s.update(i, e), b) == balance_in(s, b),
    decreases s.len(),
{
    let t = s.update(i, e);
    if i == s.len() - 1 {
        assert(t.drop_last() =~= s.drop_last());
    } else {
        assert(t.drop_last() =~= s.drop_last().update(i, e));
        lemma_balance_update_other(s.drop_last(), i, e, b);
    }
}

proof fn lemma_balance_le_sum(s: Seq<LedgerEntry>, i: int)
    requires
        0 <= i < s.len(),
    ensures
        s[i].balance <= sum_of(s),
    decreases s.len(),
{
    lemma_sum_nonneg(s.drop_last());
    if i != s.len() - 1 {
        assert(s.drop_last()[i] == s[i]);
        lemma_balance_le_sum(s.drop_last(), i);
    }
}

proof fn lemma_sum_nonneg(s: Seq<LedgerEntry>)
    ensures
        sum_of(s) >= 0,
    decreases s.len(),
{
    if s.len() > 0 {
        lemma_sum_nonneg(s.drop_last());
    }
}

} // verus!
