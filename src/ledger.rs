use vstd::prelude::*;
use crate::error::CoreError;
use crate::user::{User, UserModel};

verus! {

/// Where the money of a deposit comes from.
#[derive(Debug, Clone, Copy, PartialEq, Eq, Structural)]
pub enum Funding {
    /// Moved from the user's cash on hand.
    Cash,
    /// New money from outside the user's holdings (a reward, a grant).
    External,
}

/// One economy operation, as a value.
#[derive(Debug, Clone, Copy, PartialEq, Eq, Structural)]
pub enum LedgerOp {
    Deposit(i32, Funding),
    Withdraw(i32),
    CreditCash(i32),
    DebitCash(i32),
}

/// The record after a deposit, or the error it fails with.
pub open spec fn deposit_spec(u: UserModel, amount: int, from: Funding) -> Result<UserModel, CoreError> {
    if amount <= 0 {
        Err(CoreError::InvalidAmount)
    } else if from == Funding::Cash && u.cash < amount {
        Err(CoreError::InsufficientCash)
    } else if u.balance + amount > i32::MAX {
        Err(CoreError::InvalidAmount)
    } else {
        Ok(
            UserModel {
                balance: u.balance + amount,
                cash: if from == Funding::Cash {
                    u.cash - amount
                } else {
                    u.cash
                },
                ..u
            },
        )
    }
}

/// The record after a withdrawal from the bank to cash, or the error it fails with.
pub open spec fn withdraw_spec(u: UserModel, amount: int) -> Result<UserModel, CoreError> {
    if amount <= 0 {
        Err(CoreError::InvalidAmount)
    } else if u.balance < amount {
        Err(CoreError::InsufficientBalance)
    } else if u.cash + amount > i32::MAX {
        Err(CoreError::InvalidAmount)
    } else {
        Ok(UserModel { balance: u.balance - amount, cash: u.cash + amount, ..u })
    }
}

/// The record after cash is credited, or the error it fails with.
pub open spec fn credit_cash_spec(u: UserModel, amount: int) -> Result<UserModel, CoreError> {
    if amount <= 0 || u.cash + amount > i32::MAX {
        Err(CoreError::InvalidAmount)
    } else {
        Ok(UserModel { cash: u.cash + amount, ..u })
    }
}

/// The record after cash is debited, or the error it fails with.
pub open spec fn debit_cash_spec(u: UserModel, amount: int) -> Result<UserModel, CoreError> {
    if amount <= 0 {
        Err(CoreError::InvalidAmount)
    } else if u.cash < amount {
        Err(CoreError::InsufficientCash)
    } else {
        Ok(UserModel { cash: u.cash - amount, ..u })
    }
}

/// The outcome of one operation.
pub open spec fn ledger_spec(u: UserModel, op: LedgerOp) -> Result<UserModel, CoreError> {
    match op {
        LedgerOp::Deposit(a, f) => deposit_spec(u, a as int, f),
        LedgerOp::Withdraw(a) => withdraw_spec(u, a as int),
        LedgerOp::CreditCash(a) => credit_cash_spec(u, a as int),
        LedgerOp::DebitCash(a) => debit_cash_spec(u, a as int),
    }
}

/// The record after each operation of `ops` in turn; a failed operation
/// leaves the record as it was.
pub open spec fn ledger_run(u: UserModel, ops: Seq<LedgerOp>) -> UserModel
    decreases ops.len(),
{
    if ops.len() == 0 {
        u
    } else {
        let next = match ledger_spec(u, ops[0]) {
            Ok(m) => m,
            Err(_) => u,
        };
        ledger_run(next, ops.drop_first())
    }
}

/// A successful operation keeps the record well formed.
pub proof fn lemma_ledger_step_keeps_wf(u: UserModel, op: LedgerOp)
    requires
        u.wf(),
    ensures
        ledger_spec(u, op) is Ok ==> ledger_spec(u, op)->Ok_0.wf(),
{
}

/// After any sequence of economy operations, balance and cash are still
/// not negative (and the whole record stays well formed).
pub proof fn lemma_ledger_never_negative(u: UserModel, ops: Seq<LedgerOp>)
    requires
        u.wf(),
    ensures
        ledger_run(u, ops).wf(),
        ledger_run(u, ops).balance >= 0,
        ledger_run(u, ops).cash >= 0,
    decreases ops.len(),
{
    if ops.len() > 0 {
        lemma_ledger_step_keeps_wf(u, ops[0]);
        let next = match ledger_spec(u, ops[0]) {
            Ok(m) => m,
            Err(_) => u,
        };
        lemma_ledger_never_negative(next, ops.drop_first());
    }
}

impl User {
    /// Moves `amount` into the bank balance, taking it from cash when
    /// `from` is `Funding::Cash`. All or nothing: on an error the record is
    /// unchanged.
    pub fn deposit(&mut self, amount: i32, from: Funding) -> (r: Result<(), CoreError>)
        ensures
            match deposit_spec(old(self)@, amount as int, from) {
                Ok(m) => r is Ok && final(self)@ == m,
                Err(e) => r == Err::<(), CoreError>(e) && final(self)@ == old(self)@,
            },
    {
        if amount <= 0 {
            return Err(CoreError::InvalidAmount);
        }
        if from == Funding::Cash && self.cash < amount {
            return Err(CoreError::InsufficientCash);
        }
        if self.balance > i32::MAX - amount {
            return Err(CoreError::InvalidAmount);
        }
        self.balance = self.balance + amount;
        if from == Funding::Cash {
            self.cash = self.cash - amount;
        }
        Ok(())
    }

    /// Moves `amount` from the bank balance to cash. All or nothing.
    pub fn withdraw(&mut self, amount: i32) -> (r: Result<(), CoreError>)
        ensures
            match withdraw_spec(old(self)@, amount as int) {
                Ok(m) => r is Ok && final(self)@ == m,
                Err(e) => r == Err::<(), CoreError>(e) && final(self)@ == old(self)@,
            },
    {
        if amount <= 0 {
            return Err(CoreError::InvalidAmount);
        }
        if self.balance < amount {
            return Err(CoreError::InsufficientBalance);
        }
        if self.cash > i32::MAX - amount {
            return Err(CoreError::InvalidAmount);
        }
        self.balance = self.balance - amount;
        self.cash = self.cash + amount;
        Ok(())
    }

    /// Adds `amount` to cash on hand. All or nothing.
    pub fn credit_cash(&mut self, amount: i32) -> (r: Result<(), CoreError>)
        ensures
            match credit_cash_spec(old(self)@, amount as int) {
                Ok(m) => r is Ok && final(self)@ == m,
                Err(e) => r == Err::<(), CoreError>(e) && final(self)@ == old(self)@,
            },
    {
        if amount <= 0 || self.cash > i32::MAX - amount {
            return Err(CoreError::InvalidAmount);
        }
        self.cash = self.cash + amount;
        Ok(())
    }

    /// Takes `amount` from cash on hand. All or nothing.
    pub fn debit_cash(&mut self, amount: i32) -> (r: Result<(), CoreError>)
        ensures
            match debit_cash_spec(old(self)@, amount as int) {
                Ok(m) => r is Ok && final(self)@ == m,
                Err(e) => r == Err::<(), CoreError>(e) && final(self)@ == old(self)@,
            },
    {
        if amount <= 0 {
            return Err(CoreError::InvalidAmount);
        }
        if self.cash < amount {
            return Err(CoreError::InsufficientCash);
        }
        self.cash = self.cash - amount;
        Ok(())
    }

    /// Applies one economy operation.
    pub fn apply_ledger_op(&mut self, op: LedgerOp) -> (r: Result<(), CoreError>)
        ensures
            match ledger_spec(old(self)@, op) {
                Ok(m) => r is Ok && final(self)@ == m,
                Err(e) => r == Err::<(), CoreError>(e) && final(self)@ == old(self)@,
            },
    {
        match op {
            LedgerOp::Deposit(a, f) => self.deposit(a, f),
            LedgerOp::Withdraw(a) => self.withdraw(a),
            LedgerOp::CreditCash(a) => self.credit_cash(a),
            LedgerOp::DebitCash(a) => self.debit_cash(a),
        }
    }
}

} // verus!
