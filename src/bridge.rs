//! A simulated asset bridge: a balance ledger with deposits, withdrawals and
//! a placeholder proof check.
use vstd::prelude::*;
use crate::ledger::{balance_in, Ledger};

verus! {

/// The operations a bridge provides.
pub trait BridgeEngine {
    /// Balances by user.
    spec fn balances(&self) -> Map<Seq<char>, u64>;

    /// Credits `amount` to `user`; fails, leaving the balance, where the sum
    /// would not fit in a `u64`. Either way `user` ends up registered.
    fn deposit(&mut self, user: &str, amount: u64) -> (r: Result<(), String>)
        ensures
            r is Ok <==> balance_in(old(self).balances(), user@) + amount <= u64::MAX,
            r is Ok ==> final(self).balances() == old(self).balances().insert(
                user@,
                (balance_in(old(self).balances(), user@) + amount) as u64,
            ),
            r is Err ==> final(self).balances() == old(self).balances().insert(
                user@,
                balance_in(old(self).balances(), user@),
            ),
    ;

    /// Debits `amount` from `user`; fails, leaving the balance, where it
    /// exceeds the balance. Either way `user` ends up registered.
    fn withdraw(&mut self, user: &str, amount: u64) -> (r: Result<(), String>)
        ensures
            r is Ok <==> amount <= balance_in(old(self).balances(), user@),
            r is Ok ==> final(self).balances() == old(self).balances().insert(
                user@,
                (balance_in(old(self).balances(), user@) - amount) as u64,
            ),
            r is Err ==> final(self).balances() == old(self).balances().insert(
                user@,
                balance_in(old(self).balances(), user@),
            ),
    ;

    /// Accepts exactly the non-empty proofs.
    fn verify_proof(&self, proof_data: &[u8]) -> (r: bool)
        ensures
            r == (proof_data@.len() > 0),
    ;

    /// `user`'s balance; 0 for an unknown user.
    fn get_balance(&self, user: &str) -> (r: u64)
        ensures
            r == balance_in(self.balances(), user@),
    ;
}

/// A bridge that keeps balances in memory.
pub struct BridgeService {
    balances: Ledger,
}

impl BridgeService {
    /// A bridge with no balances.
    pub fn new() -> (r: Self)
        ensures
            r.balances() == Map::<Seq<char>, u64>::empty(),
    {
        BridgeService { balances: Ledger::new() }
    }

    /// Registers `user` with a zero balance where it has none.
    fn ensure_user(&mut self, user: &str)
        ensures
            final(self).balances() == old(self).balances().insert(
                user@,
                balance_in(old(self).balances(), user@),
            ),
    {
        self.balances.register(user);
    }
}

impl BridgeEngine for BridgeService {
    closed spec fn balances(&self) -> Map<Seq<char>, u64> {
        self.balances@
    }

    fn deposit(&mut self, user: &str, amount: u64) -> (r: Result<(), String>) {
        self.ensure_user(user);
        let balance: u64 = self.balances.balance(user);
        match balance.checked_add(amount) {
            Some(total) => {
                self.balances.set(user, total);
                Ok(())
            },
            None => Err("deposit would overflow the balance".to_owned()),
        }
    }

    fn withdraw(&mut self, user: &str, amount: u64) -> (r: Result<(), String>) {
        self.ensure_user(user);
        let balance: u64 = self.balances.balance(user);
        if balance < amount {
            return Err("insufficient balance for withdrawal".to_owned());
        }
        self.balances.set(user, balance - amount);
        Ok(())
    }

    fn verify_proof(&self, proof_data: &[u8]) -> (r: bool) {
        proof_data.len() > 0
    }

    fn get_balance(&self, user: &str) -> (r: u64) {
        self.balances.balance(user)
    }
}

} // verus!
