//! The fungible-asset ledger the registry collects fees and settles
//! sales through: balances keyed by identity, moved only by the atomic
//! `transfer`, which either moves the whole amount or changes nothing.

use vstd::prelude::*;
use crate::errors::Error;
use crate::name::bytes_eq;

verus! {

/// One identity's balance.
pub struct Account {
    pub id: Vec<u8>,
    pub amount: u64,
}

/// The balance map an account sequence stands for.
pub open spec fn accounts_map(s: Seq<Account>) -> Map<Seq<u8>, u64>
    decreases s.len(),
{
    if s.len() == 0 {
        Map::empty()
    } else {
        accounts_map(s.drop_last()).insert(s.last().id@, s.last().amount)
    }
}

/// The balance an identity holds under `m`: absent means zero.
pub open spec fn bal(m: Map<Seq<u8>, u64>, id: Seq<u8>) -> u64 {
    if m.dom().contains(id) {
        m[id]
    } else {
        0
    }
}

/// What `transfer` leaves behind and reports: the move fails, changing
/// nothing, when the payer's balance is short or the payee's would
/// outgrow its word; otherwise exactly `amount` moves.
pub open spec fn spec_token_transfer(
    m: Map<Seq<u8>, u64>,
    from: Seq<u8>,
    to: Seq<u8>,
    amount: u64,
) -> (Map<Seq<u8>, u64>, Result<(), Error>) {
    if bal(m, from) < amount {
        (m, Err(Error::TransferFailed))
    } else {
        let m1 = m.insert(from, (bal(m, from) - amount) as u64);
        if bal(m1, to) + amount > u64::MAX {
            (m, Err(Error::TransferFailed))
        } else {
            (m1.insert(to, (bal(m1, to) + amount) as u64), Ok(()))
        }
    }
}

/// The asset ledger.
pub struct Token {
    pub accounts: Vec<Account>,
}

impl View for Token {
    type V = Map<Seq<u8>, u64>;

    open spec fn view(&self) -> Map<Seq<u8>, u64> {
        accounts_map(self.accounts@)
    }
}

/// An identity in the map holds some account's row.
proof fn lemma_accounts_map_dom(s: Seq<Account>, id: Seq<u8>)
    ensures
        accounts_map(s).dom().contains(id) <==> exists|i: int|
            0 <= i < s.len() && (#[trigger] s[i]).id@ == id,
    decreases s.len(),
{
    if s.len() > 0 {
        lemma_accounts_map_dom(s.drop_last(), id);
        if s.last().id@ == id {
            assert(s[s.len() - 1].id@ == id);
        } else if accounts_map(s.drop_last()).dom().contains(id) {
            let i = choose|i: int|
                0 <= i < s.drop_last().len() && (#[trigger] s.drop_last()[i]).id@ == id;
            assert(s[i].id@ == id);
        } else {
            assert(forall|i: int| 0 <= i < s.len() - 1 ==> s.drop_last()[i] == s[i]);
        }
    }
}

/// No two rows share an identity.
pub open spec fn unique_ids(s: Seq<Account>) -> bool {
    forall|i: int, j: int|
        0 <= i < j < s.len() ==> (#[trigger] s[i]).id@ != (#[trigger] s[j]).id@
}

/// With unique identities, the map's value at a row's identity is that
/// row's amount.
proof fn lemma_accounts_map_at(s: Seq<Account>, i: int)
    requires
        unique_ids(s),
        0 <= i < s.len(),
    ensures
        accounts_map(s).dom().contains(s[i].id@),
        accounts_map(s)[s[i].id@] == s[i].amount,
    decreases s.len(),
{
    if i == s.len() - 1 {
    } else {
        assert(forall|j: int| 0 <= j < s.len() - 1 ==> s.drop_last()[j] == s[j]);
        lemma_accounts_map_at(s.drop_last(), i);
        assert(s[i].id@ != s[s.len() - 1].id@);
    }
}

/// Replacing a row's amount updates the map at its identity.
proof fn lemma_accounts_map_update(s: Seq<Account>, i: int, a: Account)
    requires
        unique_ids(s),
        0 <= i < s.len(),
        a.id@ == s[i].id@,
    ensures
        accounts_map(s.update(i, a)) == accounts_map(s).insert(a.id@, a.amount),
    decreases s.len(),
{
    let t = s.update(i, a);
    if i == s.len() - 1 {
        assert(t.drop_last() =~= s.drop_last());
        assert(accounts_map(t) =~= accounts_map(s).insert(a.id@, a.amount));
    } else {
        assert(forall|j: int| 0 <= j < s.len() - 1 ==> s.drop_last()[j] == s[j]);
        lemma_accounts_map_update(s.drop_last(), i, a);
        assert(t.drop_last() =~= s.drop_last().update(i, a));
        assert(t.last() == s.last());
        assert(s.last().id@ != a.id@);
        assert(accounts_map(t) =~= accounts_map(s).insert(a.id@, a.amount));
    }
}

impl Token {
    /// Identities are unique, so rows and map agree one by one.
    pub open spec fn wf(&self) -> bool {
        unique_ids(self.accounts@)
    }

    /// A ledger holding nothing.
    pub fn new() -> (r: Token)
        ensures
            r.wf(),
            r@ == Map::<Seq<u8>, u64>::empty(),
    {
        Token { accounts: Vec::new() }
    }

    /// The row index of an identity, if any.
    fn find(&self, id: &Vec<u8>) -> (r: Option<usize>)
        ensures
            match r {
                Some(i) => i < self.accounts@.len() && self.accounts@[i as int].id@ == id@,
                None => forall|i: int|
                    0 <= i < self.accounts@.len() ==> (#[trigger] self.accounts@[i]).id@ != id@,
            },
    {
        let mut i: usize = 0;
        while i < self.accounts.len()
            invariant
                0 <= i <= self.accounts@.len(),
                forall|j: int| 0 <= j < i ==> (#[trigger] self.accounts@[j]).id@ != id@,
            decreases self.accounts@.len() - i,
        {
            if bytes_eq(&self.accounts[i].id, id) {
                return Some(i);
            }
            i += 1;
        }
        None
    }

    /// The balance an identity holds.
    pub fn balance(&self, id: &Vec<u8>) -> (r: u64)
        requires
            self.wf(),
        ensures
            r == bal(self@, id@),
    {
        proof {
            lemma_accounts_map_dom(self.accounts@, id@);
        }
        match self.find(id) {
            Some(i) => {
                proof {
                    lemma_accounts_map_at(self.accounts@, i as int);
                }
                self.accounts[i].amount
            },
            None => 0,
        }
    }

    /// Sets an identity's balance outright.
    fn set_balance(&mut self, id: &Vec<u8>, amount: u64)
        requires
            old(self).wf(),
        ensures
            final (self).wf(),
            final (self)@ == old(self)@.insert(id@, amount),
    {
        let ghost s0 = self.accounts@;
        match self.find(id) {
            Some(i) => {
                let row = Account { id: id.clone(), amount };
                proof {
                    lemma_accounts_map_update(s0, i as int, row);
                }
                self.accounts.set(i, row);
            },
            None => {
                self.accounts.push(Account { id: id.clone(), amount });
                proof {
                    assert(self.accounts@.drop_last() =~= s0);
                    assert(forall|j: int| 0 <= j < s0.len() ==> self.accounts@[j] == s0[j]);
                }
            },
        }
    }

    /// Credits an identity out of nothing; the test scaffolding's way
    /// to fund parties.
    pub fn mint(&mut self, id: &Vec<u8>, amount: u64)
        requires
            old(self).wf(),
            bal(old(self)@, id@) + amount <= u64::MAX,
        ensures
            final (self).wf(),
            final (self)@ == old(self)@.insert(id@, (bal(old(self)@, id@) + amount) as u64),
    {
        let b = self.balance(id);
        self.set_balance(id, b + amount);
    }

    /// Moves `amount` from `from` to `to`, atomically: on any failure
    /// the ledger is exactly what it was.
    pub fn transfer(&mut self, from: &Vec<u8>, to: &Vec<u8>, amount: u64) -> (r: Result<(), Error>)
        requires
            old(self).wf(),
        ensures
            final (self).wf(),
            final (self)@ == spec_token_transfer(old(self)@, from@, to@, amount).0,
            r == spec_token_transfer(old(self)@, from@, to@, amount).1,
    {
        let from_balance = self.balance(from);
        if from_balance < amount {
            return Err(Error::TransferFailed);
        }
        let ghost m0 = self@;
        let ghost m1 = m0.insert(from@, (bal(m0, from@) - amount) as u64);
        let to_balance = if bytes_eq(from, to) {
            from_balance - amount
        } else {
            self.balance(to)
        };
        proof {
            assert(to_balance == bal(m1, to@));
        }
        if to_balance > u64::MAX - amount {
            return Err(Error::TransferFailed);
        }
        self.set_balance(from, from_balance - amount);
        self.set_balance(to, to_balance + amount);
        Ok(())
    }
}

} // verus!
