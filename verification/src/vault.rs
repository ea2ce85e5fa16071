use vstd::prelude::*;
use crate::addr::{Address, vault_addr_of, vault_seeds, derive_address};
use crate::auth::Authorization;
use crate::errors::CoreError;
use crate::events::{DepositEvent, ToggleLockEvent, WithdrawEvent};
use crate::records::{Record, RecordV, Vault, VaultV};
use crate::store::{AcctV, Store, distinct_addrs, lemma_map_of_update};

verus! {

impl Store {
    /// Create a vault whose authority is the caller, at the address derived
    /// from the vault tag and the caller's identity; the caller funds the
    /// custodial minimum.
    pub fn initialize_vault(&mut self, authority: &Address, payer_balance: u64) -> (r: Result<
        (Address, u64),
        CoreError,
    >)
        requires
            old(self).wf(),
        ensures
            final(self).wf(),
            final(self).same_config(old(self)),
            (match r {
                Ok((va, rest)) => {
                    &&& vault_addr_of(old(self).program_id@, authority@) matches Some(d) && d.0
                        == va@
                    &&& !old(self)@.contains_key(va@)
                    &&& payer_balance >= old(self).min_balance
                    &&& rest == payer_balance - old(self).min_balance
                    &&& final(self)@ == old(self)@.insert(
                        va@,
                        AcctV {
                            balance: old(self).min_balance,
                            rec: RecordV::Vault(
                                VaultV { vault_authority: authority@, locked: false },
                            ),
                        },
                    )
                },
                Err(CoreError::DerivationFailed) => {
                    &&& vault_addr_of(old(self).program_id@, authority@) is None
                    &&& *final(self) == *old(self)
                },
                Err(CoreError::AddressInUse) => {
                    &&& vault_addr_of(old(self).program_id@, authority@) matches Some(d) && old(
                        self,
                    )@.contains_key(d.0)
                    &&& *final(self) == *old(self)
                },
                Err(CoreError::InsufficientBalance) => {
                    &&& vault_addr_of(old(self).program_id@, authority@) matches Some(d) && !old(
                        self,
                    )@.contains_key(d.0)
                    &&& payer_balance < old(self).min_balance
                    &&& *final(self) == *old(self)
                },
                Err(_) => false,
            }),
    {
        let seeds = vault_seeds(authority);
        let (va, _bump) = match derive_address(&self.program_id, &seeds) {
            Some(d) => d,
            None => {
                return Err(CoreError::DerivationFailed);
            },
        };
        let va_ret = va.clone_addr();
        let rec = Record::Vault(
            Vault { vault_authority: authority.clone_addr(), locked: false },
        );
        match self.create(va, rec, payer_balance) {
            Ok(rest) => Ok((va_ret, rest)),
            Err(e) => Err(e),
        }
    }

    /// Deposit `amount` from the caller into the vault at `vault`. The
    /// transfer is atomic: on any error no balance changes. A locked vault
    /// refuses deposits.
    pub fn deposit(&mut self, vault: &Address, user: &Address, user_balance: u64, amount: u64) -> (r:
        Result<(u64, DepositEvent), CoreError>)
        requires
            old(self).wf(),
            old(self)@.contains_key(vault@),
            old(self)@[vault@].rec is Vault,
            old(self)@[vault@].balance + amount <= u64::MAX,
        ensures
            final(self).wf(),
            final(self).same_config(old(self)),
            (match r {
                Ok((user_rest, ev)) => {
                    &&& !old(self)@[vault@].rec->Vault_0.locked
                    &&& user_balance >= amount
                    &&& user_rest == user_balance - amount
                    &&& final(self)@ == old(self)@.insert(
                        vault@,
                        AcctV {
                            balance: (old(self)@[vault@].balance + amount) as u64,
                            rec: old(self)@[vault@].rec,
                        },
                    )
                    &&& ev.vault@ == vault@ && ev.user@ == user@ && ev.amount == amount
                },
                Err(CoreError::VaultLocked) => {
                    &&& old(self)@[vault@].rec->Vault_0.locked
                    &&& *final(self) == *old(self)
                },
                Err(CoreError::InsufficientBalance) => {
                    &&& !old(self)@[vault@].rec->Vault_0.locked
                    &&& user_balance < amount
                    &&& *final(self) == *old(self)
                },
                Err(_) => false,
            }),
    {
        let vi = self.find(vault).unwrap();
        let locked = match &self.entries[vi].rec {
            Record::Vault(v) => v.locked,
            _ => {
                proof {
                    assert(false);
                }
                true
            },
        };
        if locked {
            return Err(CoreError::VaultLocked);
        }
        if user_balance < amount {
            return Err(CoreError::InsufficientBalance);
        }
        let ghost pre = self.entries@;
        let mut e = self.entries.remove(vi);
        e.balance = e.balance + amount;
        self.entries.insert(vi, e);
        proof {
            assert(self.entries@ =~= pre.update(vi as int, self.entries@[vi as int]));
            assert(distinct_addrs(self.entries@)) by {
                assert forall|i: int, j: int| 0 <= i < j < self.entries@.len() implies self.entries@[i].addr@
                    != self.entries@[j].addr@ by {
                    assert(self.entries@[i].addr@ == pre[i].addr@);
                    assert(self.entries@[j].addr@ == pre[j].addr@);
                }
            }
            lemma_map_of_update(pre, vi as int, self.entries@[vi as int]);
        }
        Ok(
            (
                user_balance - amount,
                DepositEvent { vault: vault.clone_addr(), user: user.clone_addr(), amount },
            ),
        )
    }

    /// Withdraw `amount` from the vault at `vault` to its authority. The
    /// lock is checked first, then the caller's authority, then the balance;
    /// debit and credit happen in one atomic step.
    pub fn withdraw(
        &mut self,
        vault: &Address,
        auth: &Authorization,
        authority_balance: u64,
        amount: u64,
    ) -> (r: Result<(u64, WithdrawEvent), CoreError>)
        requires
            old(self).wf(),
            old(self)@.contains_key(vault@),
            old(self)@[vault@].rec is Vault,
            authority_balance + amount <= u64::MAX,
        ensures
            final(self).wf(),
            final(self).same_config(old(self)),
            (match r {
                Ok((authority_after, ev)) => {
                    &&& !old(self)@[vault@].rec->Vault_0.locked
                    &&& auth.identity() == old(self)@[vault@].rec->Vault_0.vault_authority
                    &&& old(self)@[vault@].balance >= amount
                    &&& authority_after == authority_balance + amount
                    &&& final(self)@ == old(self)@.insert(
                        vault@,
                        AcctV {
                            balance: (old(self)@[vault@].balance - amount) as u64,
                            rec: old(self)@[vault@].rec,
                        },
                    )
                    &&& ev.vault@ == vault@ && ev.vault_authority@ == old(
                        self,
                    )@[vault@].rec->Vault_0.vault_authority && ev.amount == amount
                },
                Err(CoreError::VaultLocked) => {
                    &&& old(self)@[vault@].rec->Vault_0.locked
                    &&& *final(self) == *old(self)
                },
                Err(CoreError::NotAuthority) => {
                    &&& !old(self)@[vault@].rec->Vault_0.locked
                    &&& auth.identity() != old(self)@[vault@].rec->Vault_0.vault_authority
                    &&& *final(self) == *old(self)
                },
                Err(CoreError::InsufficientBalance) => {
                    &&& !old(self)@[vault@].rec->Vault_0.locked
                    &&& auth.identity() == old(self)@[vault@].rec->Vault_0.vault_authority
                    &&& old(self)@[vault@].balance < amount
                    &&& *final(self) == *old(self)
                },
                Err(_) => false,
            }),
    {
        let vi = self.find(vault).unwrap();
        let (locked, vault_authority) = match &self.entries[vi].rec {
            Record::Vault(v) => (v.locked, v.vault_authority.clone_addr()),
            _ => {
                proof {
                    assert(false);
                }
                return Err(CoreError::VaultLocked);
            },
        };
        if locked {
            return Err(CoreError::VaultLocked);
        }
        match auth.verify_authority(&vault_authority) {
            Ok(()) => {},
            Err(e) => {
                return Err(e);
            },
        }
        if self.entries[vi].balance < amount {
            return Err(CoreError::InsufficientBalance);
        }
        let ghost pre = self.entries@;
        let mut e = self.entries.remove(vi);
        e.balance = e.balance - amount;
        self.entries.insert(vi, e);
        proof {
            assert(self.entries@ =~= pre.update(vi as int, self.entries@[vi as int]));
            assert(distinct_addrs(self.entries@)) by {
                assert forall|i: int, j: int| 0 <= i < j < self.entries@.len() implies self.entries@[i].addr@
                    != self.entries@[j].addr@ by {
                    assert(self.entries@[i].addr@ == pre[i].addr@);
                    assert(self.entries@[j].addr@ == pre[j].addr@);
                }
            }
            lemma_map_of_update(pre, vi as int, self.entries@[vi as int]);
        }
        Ok(
            (
                authority_balance + amount,
                WithdrawEvent { amount, vault_authority, vault: vault.clone_addr() },
            ),
        )
    }

    /// Invert the lock flag of the vault at `vault`; only the vault's
    /// recorded authority may do so.
    pub fn toggle_lock(&mut self, vault: &Address, auth: &Authorization) -> (r: Result<
        ToggleLockEvent,
        CoreError,
    >)
        requires
            old(self).wf(),
            old(self)@.contains_key(vault@),
            old(self)@[vault@].rec is Vault,
        ensures
            final(self).wf(),
            final(self).same_config(old(self)),
            (match r {
                Ok(ev) => {
                    &&& auth.identity() == old(self)@[vault@].rec->Vault_0.vault_authority
                    &&& final(self)@ == old(self)@.insert(
                        vault@,
                        AcctV {
                            balance: old(self)@[vault@].balance,
                            rec: RecordV::Vault(
                                VaultV {
                                    vault_authority: old(
                                        self,
                                    )@[vault@].rec->Vault_0.vault_authority,
                                    locked: !old(self)@[vault@].rec->Vault_0.locked,
                                },
                            ),
                        },
                    )
                    &&& ev.vault@ == vault@ && ev.vault_authority@ == old(
                        self,
                    )@[vault@].rec->Vault_0.vault_authority
                    &&& ev.locked == !old(self)@[vault@].rec->Vault_0.locked
                },
                Err(CoreError::NotAuthority) => {
                    &&& auth.identity() != old(self)@[vault@].rec->Vault_0.vault_authority
                    &&& *final(self) == *old(self)
                },
                Err(_) => false,
            }),
    {
        let vi = self.find(vault).unwrap();
        let vault_authority = match &self.entries[vi].rec {
            Record::Vault(v) => v.vault_authority.clone_addr(),
            _ => {
                proof {
                    assert(false);
                }
                return Err(CoreError::NotAuthority);
            },
        };
        match auth.verify_authority(&vault_authority) {
            Ok(()) => {},
            Err(e) => {
                return Err(e);
            },
        }
        let ghost pre = self.entries@;
        let mut e = self.entries.remove(vi);
        let new_locked = match &mut e.rec {
            Record::Vault(v) => {
                v.locked = !v.locked;
                v.locked
            },
            _ => {
                proof {
                    assert(false);
                }
                true
            },
        };
        self.entries.insert(vi, e);
        proof {
            assert(self.entries@ =~= pre.update(vi as int, self.entries@[vi as int]));
            assert(distinct_addrs(self.entries@)) by {
                assert forall|i: int, j: int| 0 <= i < j < self.entries@.len() implies self.entries@[i].addr@
                    != self.entries@[j].addr@ by {
                    assert(self.entries@[i].addr@ == pre[i].addr@);
                    assert(self.entries@[j].addr@ == pre[j].addr@);
                }
            }
            lemma_map_of_update(pre, vi as int, self.entries@[vi as int]);
        }
        Ok(
            ToggleLockEvent {
                vault: vault.clone_addr(),
                vault_authority,
                locked: new_locked,
            },
        )
    }
}

} // verus!
