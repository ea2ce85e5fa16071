use vstd::prelude::*;
use crate::addr::Address;

verus! {

/// Audit event emitted after a successful deposit; append-only and not used
/// for control flow.
#[derive(Debug)]
pub struct DepositEvent {
    pub vault: Address,
    pub user: Address,
    pub amount: u64,
}

/// Audit event emitted after a successful withdrawal.
#[derive(Debug)]
pub struct WithdrawEvent {
    pub amount: u64,
    pub vault_authority: Address,
    pub vault: Address,
}

/// Audit event emitted after the lock flag is toggled, carrying the new
/// state.
#[derive(Debug)]
pub struct ToggleLockEvent {
    pub vault: Address,
    pub vault_authority: Address,
    pub locked: bool,
}

} // verus!
