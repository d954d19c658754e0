//! A stand-in execution layer: it registers the accounts a transaction names
//! and keeps balances, without running any code.
use vstd::prelude::*;
use crate::ledger::{balance_in, Ledger};

verus! {

/// The operations an execution layer provides.
pub trait EvmExecutor {
    /// Balances by address.
    spec fn balances(&self) -> Map<Seq<char>, u64>;

    /// Accepts a transaction from `from` to `to`: both addresses end up
    /// registered and no balance changes.
    fn execute_transaction(&mut self, from: &str, to: &str, data: &[u8]) -> (r: Result<(), String>)
        ensures
            r is Ok,
            final(self).balances() == old(self).balances().insert(
                from@,
                balance_in(old(self).balances(), from@),
            ).insert(to@, balance_in(old(self).balances(), to@)),
    ;

    /// `address`'s balance; 0 for an unknown address.
    fn get_balance(&self, address: &str) -> (r: u64)
        ensures
            r == balance_in(self.balances(), address@),
    ;

    /// Sets `address`'s balance.
    fn set_balance(&mut self, address: &str, amount: u64)
        ensures
            final(self).balances() == old(self).balances().insert(address@, amount),
    ;
}

/// An execution layer that keeps balances in memory.
pub struct BasicEvmExecutor {
    balances: Ledger,
}

impl BasicEvmExecutor {
    /// An executor with no accounts.
    pub fn new() -> (r: Self)
        ensures
            r.balances() == Map::<Seq<char>, u64>::empty(),
    {
        BasicEvmExecutor { balances: Ledger::new() }
    }

    /// Registers `addr` with a zero balance where it has none.
    fn ensure_address(&mut self, addr: &str)
        ensures
            final(self).balances() == old(self).balances().insert(
                addr@,
                balance_in(old(self).balances(), addr@),
            ),
    {
        self.balances.register(addr);
    }
}

impl EvmExecutor for BasicEvmExecutor {
    closed spec fn balances(&self) -> Map<Seq<char>, u64> {
        self.balances@
    }

    fn execute_transaction(&mut self, from: &str, to: &str, data: &[u8]) -> (r: Result<(), String>) {
        let ghost before = self.balances();
        self.ensure_address(from);
        self.ensure_address(to);
        proof {
            let mid = before.insert(from@, balance_in(before, from@));
            assert(balance_in(mid, to@) == balance_in(before, to@));
        }
        Ok(())
    }

    fn get_balance(&self, address: &str) -> (r: u64) {
        self.balances.balance(address)
    }

    fn set_balance(&mut self, address: &str, amount: u64) {
        self.balances.set(address, amount);
    }
}

} // verus!
