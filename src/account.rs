//! The accounts that a tiered storage file stores.
use vstd::prelude::*;
use crate::meta::{AccountHash, Pubkey};

verus! {

/// An account: its balance, owner, flags and data.
#[derive(Clone, Debug, PartialEq, Eq)]
pub struct Account {
    pub lamports: u64,
    pub owner: Pubkey,
    pub executable: bool,
    /// `u64::MAX` marks an account that owes no rent
    pub rent_epoch: u64,
    pub data: Vec<u8>,
}

impl Account {
    pub fn new(lamports: u64, owner: Pubkey, executable: bool, rent_epoch: u64, data: Vec<u8>) -> (r: Account)
        ensures
            r.lamports == lamports,
            r.owner == owner,
            r.executable == executable,
            r.rent_epoch == rent_epoch,
            r.data@ == data@,
    {
        Account { lamports, owner, executable, rent_epoch, data }
    }
}

/// Where one written account went: its logical position times the alignment
/// boundary, and the size of its account block.
#[derive(Clone, Copy, Debug, PartialEq, Eq, Structural)]
pub struct StoredAccountInfo {
    pub offset: usize,
    pub size: usize,
}

/// A batch of accounts to store, each with its address, hash and write
/// version.
pub struct StorableAccountsWithHashesAndWriteVersions {
    /// the address and the account of each entry
    pub accounts: Vec<(Pubkey, Account)>,
    /// the hash of each entry; all zeroes marks an absent hash
    pub hashes: Vec<AccountHash>,
    /// the write version of each entry; `u64::MAX` marks an absent one
    pub write_versions: Vec<u64>,
}

impl StorableAccountsWithHashesAndWriteVersions {
    /// The three sequences have one entry per account.
    pub open spec fn wf(&self) -> bool {
        self.hashes@.len() == self.accounts@.len() && self.write_versions@.len()
            == self.accounts@.len()
    }

    /// Zips accounts with their hashes and write versions.
    pub fn new_with_hashes_and_write_versions(
        accounts: Vec<(Pubkey, Account)>,
        hashes: Vec<AccountHash>,
        write_versions: Vec<u64>,
    ) -> (r: StorableAccountsWithHashesAndWriteVersions)
        requires
            accounts@.len() == hashes@.len(),
            write_versions@.len() == hashes@.len(),
        ensures
            r.accounts@ == accounts@,
            r.hashes@ == hashes@,
            r.write_versions@ == write_versions@,
            r.wf(),
    {
        StorableAccountsWithHashesAndWriteVersions { accounts, hashes, write_versions }
    }

    /// The account, address, hash and write version at `index`.
    pub fn get(&self, index: usize) -> (r: (&Account, &Pubkey, &AccountHash, u64))
        requires
            self.wf(),
            index < self.accounts@.len(),
        ensures
            *r.0 == self.accounts@[index as int].1,
            *r.1 == self.accounts@[index as int].0,
            *r.2 == self.hashes@[index as int],
            r.3 == self.write_versions@[index as int],
    {
        let entry = &self.accounts[index];
        (&entry.1, &entry.0, &self.hashes[index], self.write_versions[index])
    }

    /// The account at `index`.
    pub fn account(&self, index: usize) -> (r: &Account)
        requires
            index < self.accounts@.len(),
        ensures
            *r == self.accounts@[index as int].1,
    {
        &self.accounts[index].1
    }

    /// The number of accounts.
    pub fn len(&self) -> (r: usize)
        ensures
            r == self.accounts@.len(),
    {
        self.accounts.len()
    }

    pub fn is_empty(&self) -> (r: bool)
        ensures
            r == (self.accounts@.len() == 0),
    {
        self.accounts.len() == 0
    }
}

} // verus!
