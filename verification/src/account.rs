//! Accounts as the program sees them: plain values that the host reads from
//! the ledger before an instruction runs and writes back after it.

use vstd::prelude::*;
use crate::address::Address;

verus! {

/// One account handed to an instruction.
#[derive(Debug, PartialEq, Eq)]
pub struct Account {
    /// The address of the account.
    pub key: Address,
    /// The program that owns the account.
    pub owner: Address,
    /// The balance of the account. An account that holds nothing does not
    /// exist on the ledger yet.
    pub lamports: u64,
    /// The storage of the account.
    pub data: Vec<u8>,
    /// Whether the account has signed the transaction.
    pub is_signer: bool,
}

/// An account as a mathematical value.
pub struct AccountView {
    pub key: Address,
    pub owner: Address,
    pub lamports: u64,
    pub data: Seq<u8>,
    pub is_signer: bool,
}

impl View for Account {
    type V = AccountView;

    open spec fn view(&self) -> AccountView {
        AccountView {
            key: self.key,
            owner: self.owner,
            lamports: self.lamports,
            data: self.data@,
            is_signer: self.is_signer,
        }
    }
}

/// The accounts of an instruction as mathematical values, in their order.
pub open spec fn ledger(accounts: Seq<Account>) -> Seq<AccountView> {
    accounts.map_values(|account: Account| account@)
}

} // verus!
