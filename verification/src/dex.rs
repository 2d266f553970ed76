//! The orchestration layer: accounts, token balances, pools and the public
//! operations over them.
//!
//! Accounts and tokens are identified by numeric handles; an embedding
//! binds them to host-specific identifiers outside the library.  Token
//! transfers are asynchronous: a withdrawal debits the balance, records a
//! pending transfer and hands the amount back to the caller, which later
//! reports success or failure through
//! [`Dex::exchange_callback_post_withdraw`].

use vstd::prelude::*;

use crate::errors::ErrorKind;
use crate::fp::u192x64::U192X64;
use crate::kv_map::KvMap;
use crate::kv_map128::KvMap128;
use crate::pool::{PoolV0, Amount};
use crate::util_types::{Side, Exact, PositionInit};


verus! {

/// Token handle.
pub type TokenId = u64;

/// Account handle.
pub type AccountId = u64;

/// Position identifier: globally unique, monotonically increasing.
pub type PositionId = u64;

/// Fee fraction denominator: fee fractions are quoted in units of
/// `1/10000`.
pub const FEE_DIVISOR: u16 = 10000;

/// Canonical identifier of a pool: an ordered pair of distinct tokens.
#[derive(Clone, Copy, Debug, PartialEq, Eq, Structural)]
pub struct PoolId {
    pub first: TokenId,
    pub second: TokenId,
}

impl PoolId {
    /// Canonical form: the greater handle first.
    pub open spec fn spec_wf(&self) -> bool {
        self.first > self.second
    }

    /// Packed key for the pool map.
    pub open spec fn spec_key(&self) -> int {
        (self.first as int) * 0x10000000000000000 + (self.second as int)
    }

    pub fn key(&self) -> (r: u128)
        ensures
            r == self.spec_key(),
    {
        (self.first as u128) * 0x10000000000000000 + (self.second as u128)
    }

    /// Build the canonical identifier; reports whether the tokens were
    /// swapped, and rejects equal tokens.
    pub fn try_from_pair(a: TokenId, b: TokenId) -> (r: Result<(PoolId, bool), ErrorKind>)
        ensures
            match r {
                Ok((id, swapped)) => {
                    &&& a != b
                    &&& id.spec_wf()
                    &&& (!swapped ==> id.first == a && id.second == b)
                    &&& (swapped ==> id.first == b && id.second == a)
                },
                Err(e) => a == b && e == ErrorKind::TokenDuplicates,
            },
    {
        if a == b {
            Err(ErrorKind::TokenDuplicates)
        } else if a > b {
            Ok((PoolId { first: a, second: b }, false))
        } else {
            Ok((PoolId { first: b, second: a }, true))
        }
    }

    /// The swap side on which `input_token` enters this pool.
    pub fn side(&self, input_token: TokenId) -> (r: Side)
        ensures
            r == if input_token == self.first {
                Side::Left
            } else {
                Side::Right
            },
    {
        if input_token == self.first {
            Side::Left
        } else {
            Side::Right
        }
    }
}

/// Tracks withdrawals that are in flight with the transfer collaborator.
pub struct WithdrawTracker {
    pub pending: Vec<(TokenId, Amount)>,
}

impl WithdrawTracker {
    pub fn new() -> (r: WithdrawTracker)
        ensures
            r.pending@.len() == 0,
    {
        WithdrawTracker { pending: Vec::new() }
    }

    pub fn is_any_withdraw_in_progress(&self) -> (r: bool)
        ensures
            r <==> self.pending@.len() > 0,
    {
        self.pending.len() > 0
    }

    pub fn is_token_withdraw_in_progress(&self, token_id: TokenId) -> (r: bool)
        ensures
            r <==> exists|i: int|
                0 <= i < self.pending@.len() && (#[trigger] self.pending@[i]).0 == token_id,
    {
        let mut i: usize = 0;
        while i < self.pending.len()
            invariant
                i <= self.pending@.len(),
                forall|j: int| 0 <= j < i ==> (#[trigger] self.pending@[j]).0 != token_id,
            decreases self.pending@.len() - i,
        {
            if self.pending[i].0 == token_id {
                proof {
                    assert(self.pending@[i as int].0 == token_id);
                }
                return true;
            }
            i = i + 1;
        }
        false
    }

    /// Record an in-flight withdrawal.
    pub fn track(&mut self, token_id: TokenId, amount: Amount)
        ensures
            final(self).pending@ == old(self).pending@.push((token_id, amount)),
    {
        self.pending.push((token_id, amount));
    }

    pub fn is_tracked(&self, token_id: TokenId, amount: Amount) -> (r: bool)
        ensures
            r <==> exists|i: int|
                0 <= i < self.pending@.len() && (#[trigger] self.pending@[i]) == (
                token_id,
                amount,
            ),
    {
        let mut i: usize = 0;
        while i < self.pending.len()
            invariant
                i <= self.pending@.len(),
                forall|j: int| 0 <= j < i ==> (#[trigger] self.pending@[j]) != (token_id, amount),
            decreases self.pending@.len() - i,
        {
            if self.pending[i].0 == token_id && self.pending[i].1 == amount {
                proof {
                    assert(self.pending@[i as int] == (token_id, amount));
                }
                return true;
            }
            i = i + 1;
        }
        false
    }

    /// Remove one matching in-flight record, if present; without a match
    /// nothing changes.
    pub fn untrack(&mut self, token_id: TokenId, amount: Amount)
        ensures
            (exists|i: int|
                0 <= i < old(self).pending@.len() && (#[trigger] old(self).pending@[i]) == (
                token_id,
                amount,
            )) ==> final(self).pending@.len() == old(self).pending@.len() - 1,
            !(exists|i: int|
                0 <= i < old(self).pending@.len() && (#[trigger] old(self).pending@[i]) == (
                token_id,
                amount,
            )) ==> *final(self) == *old(self),
    {
        let mut i: usize = 0;
        while i < self.pending.len()
            invariant
                i <= self.pending@.len(),
                *self == *old(self),
                forall|j: int| 0 <= j < i ==> (#[trigger] self.pending@[j]) != (token_id, amount),
            decreases self.pending@.len() - i,
        {
            if self.pending[i].0 == token_id && self.pending[i].1 == amount {
                proof {
                    assert(old(self).pending@[i as int] == (token_id, amount));
                }
                let _ = self.pending.remove(i);
                return ;
            }
            i = i + 1;
        }
    }
}

/// One registered account: its token balances, its positions and its
/// in-flight withdrawals.
pub struct AccountV0 {
    pub token_balances: KvMap<Amount>,
    pub positions: Vec<PositionId>,
    pub withdraw_tracker: WithdrawTracker,
}

impl AccountV0 {
    pub open spec fn wf(&self) -> bool {
        self.token_balances.wf_keys()
    }

    pub fn new() -> (r: AccountV0)
        ensures
            r.wf(),
            r.token_balances.entries@.len() == 0,
            r.positions@.len() == 0,
            r.withdraw_tracker.pending@.len() == 0,
            forall|t: TokenId| !r.token_balances.spec_contains(t),
    {
        AccountV0 {
            token_balances: KvMap::new(),
            positions: Vec::new(),
            withdraw_tracker: WithdrawTracker::new(),
        }
    }

    /// Register a token with a zero balance; keeps an existing balance.
    pub fn register_token(&mut self, token_id: TokenId)
        requires
            old(self).wf(),
        ensures
            final(self).wf(),
            final(self).token_balances.spec_contains(token_id),
            final(self).token_balances.same_except(&old(self).token_balances, token_id),
            old(self).token_balances.spec_contains(token_id) ==> final(self).token_balances
                == old(self).token_balances,
            final(self).positions == old(self).positions,
            final(self).withdraw_tracker == old(self).withdraw_tracker,
    {
        if !self.token_balances.contains_key(token_id) {
            self.token_balances.insert_new(token_id, 0);
        }
    }

    /// Remove a token with a zero balance; a nonzero balance is refused.
    pub fn unregister_token(&mut self, token_id: TokenId) -> (r: Result<(), ErrorKind>)
        requires
            old(self).wf(),
        ensures
            final(self).wf(),
            match r {
                Ok(()) => !final(self).token_balances.spec_contains(token_id) && final(self).token_balances.same_except(&old(self).token_balances, token_id),
                Err(e) => *final(self) == *old(self) && e == ErrorKind::NonZeroTokenBalance
                    && old(self).token_balances.spec_contains(token_id) && old(self).token_balances.spec_at(token_id) != 0,
            },
    {
        match self.token_balances.get(token_id) {
            Some(balance) => {
                if *balance == 0 {
                    let _ = self.token_balances.remove_key(token_id);
                    Ok(())
                } else {
                    Err(ErrorKind::NonZeroTokenBalance)
                }
            },
            None => Ok(()),
        }
    }

    /// Credit a deposited amount.
    pub fn deposit(&mut self, token_id: TokenId, amount: Amount) -> (r: Result<Amount, ErrorKind>)
        requires
            old(self).wf(),
        ensures
            final(self).wf(),
            final(self).positions == old(self).positions,
            final(self).withdraw_tracker == old(self).withdraw_tracker,
            match r {
                Ok(new_balance) => {
                    &&& old(self).token_balances.spec_contains(token_id)
                    &&& new_balance == old(self).token_balances.spec_at(token_id) + amount
                    &&& final(self).token_balances.spec_contains(token_id)
                    &&& final(self).token_balances.spec_at(token_id) == new_balance
                    &&& final(self).token_balances.same_except(
                        &old(self).token_balances,
                        token_id,
                    )
                },
                Err(e) => *final(self) == *old(self) && match e {
                    ErrorKind::TokenNotRegistered => !old(self).token_balances.spec_contains(
                        token_id,
                    ),
                    ErrorKind::DepositWouldOverflow => old(self).token_balances.spec_contains(
                        token_id,
                    ) && old(self).token_balances.spec_at(token_id) + amount > u128::MAX,
                    _ => false,
                },
            },
    {
        match self.token_balances.get(token_id) {
            Some(balance) => {
                let b = *balance;
                match b.checked_add(amount) {
                    Some(nb) => {
                        self.token_balances.set_existing(token_id, nb);
                        Ok(nb)
                    },
                    None => Err(ErrorKind::DepositWouldOverflow),
                }
            },
            None => Err(ErrorKind::TokenNotRegistered),
        }
    }

    /// Debit a withdrawn amount.
    pub fn withdraw(&mut self, token_id: TokenId, amount: Amount) -> (r: Result<Amount, ErrorKind>)
        requires
            old(self).wf(),
        ensures
            final(self).wf(),
            final(self).positions == old(self).positions,
            final(self).withdraw_tracker == old(self).withdraw_tracker,
            match r {
                Ok(new_balance) => {
                    &&& old(self).token_balances.spec_contains(token_id)
                    &&& old(self).token_balances.spec_at(token_id) >= amount
                    &&& new_balance == old(self).token_balances.spec_at(token_id) - amount
                    &&& final(self).token_balances.spec_contains(token_id)
                    &&& final(self).token_balances.spec_at(token_id) == new_balance
                    &&& final(self).token_balances.same_except(
                        &old(self).token_balances,
                        token_id,
                    )
                },
                Err(e) => *final(self) == *old(self) && match e {
                    ErrorKind::TokenNotRegistered => !old(self).token_balances.spec_contains(
                        token_id,
                    ),
                    ErrorKind::NotEnoughTokens => old(self).token_balances.spec_contains(
                        token_id,
                    ) && old(self).token_balances.spec_at(token_id) < amount,
                    _ => false,
                },
            },
    {
        match self.token_balances.get(token_id) {
            Some(balance) => {
                let b = *balance;
                if b < amount {
                    Err(ErrorKind::NotEnoughTokens)
                } else {
                    let nb = b - amount;
                    self.token_balances.set_existing(token_id, nb);
                    Ok(nb)
                }
            },
            None => Err(ErrorKind::TokenNotRegistered),
        }
    }

    /// Whether the account owns a position.
    pub fn owns_position(&self, position_id: PositionId) -> (r: bool)
        ensures
            r <==> exists|i: int|
                0 <= i < self.positions@.len() && (#[trigger] self.positions@[i]) == position_id,
    {
        let mut i: usize = 0;
        while i < self.positions.len()
            invariant
                i <= self.positions@.len(),
                forall|j: int| 0 <= j < i ==> (#[trigger] self.positions@[j]) != position_id,
            decreases self.positions@.len() - i,
        {
            if self.positions[i] == position_id {
                proof {
                    assert(self.positions@[i as int] == position_id);
                }
                return true;
            }
            i = i + 1;
        }
        false
    }

    /// Forget an owned position.
    pub fn remove_position(&mut self, position_id: PositionId)
        ensures
            final(self).positions@.len() <= old(self).positions@.len(),
            final(self).token_balances == old(self).token_balances,
            final(self).withdraw_tracker == old(self).withdraw_tracker,
    {
        let mut i: usize = 0;
        while i < self.positions.len()
            invariant
                i <= self.positions@.len(),
                self.token_balances == old(self).token_balances,
                self.withdraw_tracker == old(self).withdraw_tracker,
                self.positions@.len() == old(self).positions@.len(),
            decreases self.positions@.len() - i,
        {
            if self.positions[i] == position_id {
                let _ = self.positions.remove(i);
                return ;
            }
            i = i + 1;
        }
    }
}

/// The contract state: all pools, all accounts, and governance settings.
pub struct Dex {
    /// Account allowed to administer the contract.
    pub owner_id: AccountId,
    /// Accounts allowed to suspend and resume the payable interface.
    pub guards: Vec<AccountId>,
    /// Whether the payable interface is suspended.
    pub suspended: bool,
    /// All pools, keyed by packed pool identifier.
    pub pools: KvMap128<PoolV0>,
    /// All registered accounts.
    pub accounts: KvMap<AccountV0>,
    /// Tokens vouched for by the owner.
    pub verified_tokens: Vec<TokenId>,
    /// Number of pools ever created.
    pub pool_count: u64,
    /// Next unassigned position identifier.
    pub next_free_position_id: u64,
    /// Pool of each open position.
    pub position_to_pool_id: KvMap<PoolId>,
    /// Share of the collected fee that goes to the protocol, in units of
    /// `1/FEE_DIVISOR`.
    pub protocol_fee_fraction: u16,
}

impl Dex {
    pub open spec fn wf(&self) -> bool {
        &&& self.pools.wf_keys()
        &&& (forall|k: u128|
            self.pools.spec_contains(k) ==> (#[trigger] self.pools.spec_at(k)).wf())
        &&& (forall|k: u128|
            self.pools.spec_contains(k) ==> (#[trigger] self.pools.spec_at(
                k,
            )).reserve_invariant())
        &&& self.accounts.wf_keys()
        &&& (forall|k: u64|
            self.accounts.spec_contains(k) ==> (#[trigger] self.accounts.spec_at(k)).wf())
        &&& self.position_to_pool_id.wf_keys()
        &&& self.protocol_fee_fraction <= 10000
    }

    /// All state except the accounts map is unchanged.
    pub open spec fn only_accounts_changed(&self, old_self: &Dex) -> bool {
        &&& self.owner_id == old_self.owner_id
        &&& self.guards == old_self.guards
        &&& self.suspended == old_self.suspended
        &&& self.pools == old_self.pools
        &&& self.verified_tokens == old_self.verified_tokens
        &&& self.pool_count == old_self.pool_count
        &&& self.next_free_position_id == old_self.next_free_position_id
        &&& self.position_to_pool_id == old_self.position_to_pool_id
        &&& self.protocol_fee_fraction == old_self.protocol_fee_fraction
    }

    /// All state except the pools and accounts maps is unchanged.
    pub open spec fn only_pools_and_accounts_changed(&self, old_self: &Dex) -> bool {
        &&& self.owner_id == old_self.owner_id
        &&& self.guards == old_self.guards
        &&& self.suspended == old_self.suspended
        &&& self.verified_tokens == old_self.verified_tokens
        &&& self.pool_count == old_self.pool_count
        &&& self.next_free_position_id == old_self.next_free_position_id
        &&& self.position_to_pool_id == old_self.position_to_pool_id
        &&& self.protocol_fee_fraction == old_self.protocol_fee_fraction
    }

    /// All state except the pools, accounts and position-index maps is
    /// unchanged.
    pub open spec fn only_position_state_changed(&self, old_self: &Dex) -> bool {
        &&& self.owner_id == old_self.owner_id
        &&& self.guards == old_self.guards
        &&& self.suspended == old_self.suspended
        &&& self.verified_tokens == old_self.verified_tokens
        &&& self.protocol_fee_fraction == old_self.protocol_fee_fraction
    }

    /// Whether an account is one of the guard accounts.
    pub open spec fn spec_is_guard(&self, a: AccountId) -> bool {
        exists|i: int| 0 <= i < self.guards@.len() && (#[trigger] self.guards@[i]) == a
    }

    /// A fresh contract owned by `owner_id`.
    pub fn new(owner_id: AccountId, protocol_fee_fraction: u16) -> (r: Result<Dex, ErrorKind>)
        ensures
            match r {
                Ok(d) => {
                    &&& d.wf()
                    &&& d.owner_id == owner_id
                    &&& d.protocol_fee_fraction == protocol_fee_fraction
                    &&& !d.suspended
                    &&& d.pool_count == 0
                    &&& d.next_free_position_id == 0
                },
                Err(e) => protocol_fee_fraction > 10000 && e == ErrorKind::InvalidParams,
            },
    {
        if protocol_fee_fraction > 10000 {
            return Err(ErrorKind::InvalidParams);
        }
        Ok(
            Dex {
                owner_id,
                guards: Vec::new(),
                suspended: false,
                pools: KvMap128::new(),
                accounts: KvMap::new(),
                verified_tokens: Vec::new(),
                pool_count: 0,
                next_free_position_id: 0,
                position_to_pool_id: KvMap::new(),
                protocol_fee_fraction: protocol_fee_fraction,
            },
        )
    }

    /// The engine version.
    pub fn get_version(&self) -> (r: &'static str)
        ensures
            r@ == "0.1.0"@,
    {
        "0.1.0"
    }

    pub fn protocol_fee_fraction(&self) -> (r: u16)
        ensures
            r == self.protocol_fee_fraction,
    {
        self.protocol_fee_fraction
    }

    /// Fee rate of a level, in ticks.
    pub fn fee_rate_ticks(&self, fee_level: u8) -> (r: u16)
        requires
            fee_level < 8,
        ensures
            (r as nat) == vstd::arithmetic::power2::pow2(fee_level as nat),
    {
        crate::tick::fee_rate_ticks(fee_level)
    }

    /// All fee rates, in ticks.
    pub fn fee_rates_ticks(&self) -> (r: Vec<u16>)
        ensures
            r@.len() == 8,
            forall|i: int|
                0 <= i < 8 ==> (r@[i] as nat) == vstd::arithmetic::power2::pow2(i as nat),
    {
        crate::tick::fee_rates_ticks()
    }

    fn ensure_payable_api_resumed(&self) -> (r: Result<(), ErrorKind>)
        ensures
            match r {
                Ok(()) => !self.suspended,
                Err(e) => self.suspended && e == ErrorKind::PayableAPISuspended,
            },
    {
        if self.suspended {
            Err(ErrorKind::PayableAPISuspended)
        } else {
            Ok(())
        }
    }

    fn is_guard(&self, caller: AccountId) -> (r: bool)
        ensures
            r <==> exists|i: int|
                0 <= i < self.guards@.len() && (#[trigger] self.guards@[i]) == caller,
    {
        let mut i: usize = 0;
        while i < self.guards.len()
            invariant
                i <= self.guards@.len(),
                forall|j: int| 0 <= j < i ==> (#[trigger] self.guards@[j]) != caller,
            decreases self.guards@.len() - i,
        {
            if self.guards[i] == caller {
                proof {
                    assert(self.guards@[i as int] == caller);
                }
                return true;
            }
            i = i + 1;
        }
        false
    }

    /// Suspend the payable interface; guards and the owner may do so.
    pub fn suspend_payable_api(&mut self, caller: AccountId) -> (r: Result<(), ErrorKind>)
        requires
            old(self).wf(),
        ensures
            final(self).wf(),
            match r {
                Ok(()) => {
                    &&& (caller == old(self).owner_id || old(self).spec_is_guard(caller))
                    &&& !old(self).suspended
                    &&& final(self).suspended
                    &&& *final(self) == (Dex { suspended: true, ..*old(self) })
                },
                Err(e) => *final(self) == *old(self) && match e {
                    ErrorKind::PermissionDenied => caller != old(self).owner_id && !old(self).spec_is_guard(caller),
                    ErrorKind::GuardChangeStateDenied => (caller == old(self).owner_id || old(self).spec_is_guard(caller)) && old(self).suspended,
                    _ => false,
                },
            },
    {
        if caller != self.owner_id && !self.is_guard(caller) {
            return Err(ErrorKind::PermissionDenied);
        }
        if self.suspended {
            return Err(ErrorKind::GuardChangeStateDenied);
        }
        self.suspended = true;
        Ok(())
    }

    /// Resume the payable interface; guards and the owner may do so.
    pub fn resume_payable_api(&mut self, caller: AccountId) -> (r: Result<(), ErrorKind>)
        requires
            old(self).wf(),
        ensures
            final(self).wf(),
            match r {
                Ok(()) => {
                    &&& (caller == old(self).owner_id || old(self).spec_is_guard(caller))
                    &&& old(self).suspended
                    &&& !final(self).suspended
                    &&& *final(self) == (Dex { suspended: false, ..*old(self) })
                },
                Err(e) => *final(self) == *old(self) && match e {
                    ErrorKind::PermissionDenied => caller != old(self).owner_id && !old(self).spec_is_guard(caller),
                    ErrorKind::GuardChangeStateDenied => (caller == old(self).owner_id || old(self).spec_is_guard(caller)) && !old(self).suspended,
                    _ => false,
                },
            },
    {
        if caller != self.owner_id && !self.is_guard(caller) {
            return Err(ErrorKind::PermissionDenied);
        }
        if !self.suspended {
            return Err(ErrorKind::GuardChangeStateDenied);
        }
        self.suspended = false;
        Ok(())
    }

    /// Change the protocol's fee share; only the owner may do so, only
    /// while the payable interface is live, and only to a fraction
    /// strictly between zero and half.
    pub fn set_protocol_fee_fraction(&mut self, caller: AccountId, fraction: u16) -> (r: Result<
        (),
        ErrorKind,
    >)
        requires
            old(self).wf(),
        ensures
            final(self).wf(),
            match r {
                Ok(()) => {
                    &&& !old(self).suspended
                    &&& caller == old(self).owner_id
                    &&& 0 < fraction <= 5000
                    &&& *final(self) == (Dex { protocol_fee_fraction: fraction, ..*old(self) })
                },
                Err(e) => *final(self) == *old(self) && match e {
                    ErrorKind::PayableAPISuspended => old(self).suspended,
                    ErrorKind::PermissionDenied => !old(self).suspended && caller != old(self).owner_id,
                    ErrorKind::IllegalFee => !old(self).suspended && caller == old(self).owner_id && (fraction == 0 || fraction > 5000),
                    _ => false,
                },
            },
    {
        match self.ensure_payable_api_resumed() {
            Ok(()) => {},
            Err(e) => {
                return Err(e);
            },
        }
        if caller != self.owner_id {
            return Err(ErrorKind::PermissionDenied);
        }
        if fraction == 0 || fraction > 5000 {
            return Err(ErrorKind::IllegalFee);
        }
        self.protocol_fee_fraction = fraction;
        Ok(())
    }

    /// Register tokens as vouched for; only the owner may do so.
    pub fn add_verified_tokens(&mut self, caller: AccountId, tokens: &Vec<TokenId>) -> (r: Result<
        (),
        ErrorKind,
    >)
        requires
            old(self).wf(),
        ensures
            final(self).wf(),
    {
        if caller != self.owner_id {
            return Err(ErrorKind::PermissionDenied);
        }
        let mut i: usize = 0;
        while i < tokens.len()
            invariant
                self.wf(),
            decreases tokens@.len() - i,
        {
            self.verified_tokens.push(tokens[i]);
            i = i + 1;
        }
        Ok(())
    }

    /// Remove tokens from the vouched set; only the owner may do so.
    pub fn remove_verified_tokens(&mut self, caller: AccountId, tokens: &Vec<TokenId>) -> (r:
        Result<(), ErrorKind>)
        requires
            old(self).wf(),
        ensures
            final(self).wf(),
    {
        if caller != self.owner_id {
            return Err(ErrorKind::PermissionDenied);
        }
        let mut i: usize = 0;
        while i < tokens.len()
            invariant
                self.wf(),
            decreases tokens@.len() - i,
        {
            let t = tokens[i];
            let mut j: usize = 0;
            while j < self.verified_tokens.len()
                invariant
                    self.wf(),
                decreases self.verified_tokens@.len() - j,
            {
                if self.verified_tokens[j] == t {
                    let _ = self.verified_tokens.remove(j);
                } else {
                    j = j + 1;
                }
            }
            i = i + 1;
        }
        Ok(())
    }

    pub fn get_verified_tokens(&self) -> (r: Vec<TokenId>)
        ensures
            r@ == self.verified_tokens@,
    {
        let mut r: Vec<TokenId> = Vec::new();
        let mut i: usize = 0;
        while i < self.verified_tokens.len()
            invariant
                i <= self.verified_tokens@.len(),
                r@ =~= self.verified_tokens@.take(i as int),
            decreases self.verified_tokens@.len() - i,
        {
            r.push(self.verified_tokens[i]);
            i = i + 1;
        }
        proof {
            assert(r@ =~= self.verified_tokens@);
        }
        r
    }

    /// Add guard accounts; only the owner may do so.
    pub fn add_guard_accounts(&mut self, caller: AccountId, accounts: &Vec<AccountId>) -> (r:
        Result<(), ErrorKind>)
        requires
            old(self).wf(),
        ensures
            final(self).wf(),
    {
        if caller != self.owner_id {
            return Err(ErrorKind::PermissionDenied);
        }
        let mut i: usize = 0;
        while i < accounts.len()
            invariant
                self.wf(),
            decreases accounts@.len() - i,
        {
            self.guards.push(accounts[i]);
            i = i + 1;
        }
        Ok(())
    }

    /// Remove guard accounts; only the owner may do so.
    pub fn remove_guard_accounts(&mut self, caller: AccountId, accounts: &Vec<AccountId>) -> (r:
        Result<(), ErrorKind>)
        requires
            old(self).wf(),
        ensures
            final(self).wf(),
    {
        if caller != self.owner_id {
            return Err(ErrorKind::PermissionDenied);
        }
        let mut i: usize = 0;
        while i < accounts.len()
            invariant
                self.wf(),
            decreases accounts@.len() - i,
        {
            let a = accounts[i];
            let mut j: usize = 0;
            while j < self.guards.len()
                invariant
                    self.wf(),
                decreases self.guards@.len() - j,
            {
                if self.guards[j] == a {
                    let _ = self.guards.remove(j);
                } else {
                    j = j + 1;
                }
            }
            i = i + 1;
        }
        Ok(())
    }

    /// Register the calling account.  Registration is idempotent: if the
    /// account already exists, nothing changes and the call succeeds.
    pub fn register_account(&mut self, caller: AccountId) -> (r: Result<(), ErrorKind>)
        requires
            old(self).wf(),
        ensures
            final(self).wf(),
            match r {
                Ok(()) => {
                    &&& !old(self).suspended
                    &&& final(self).accounts.spec_contains(caller)
                    &&& final(self).only_accounts_changed(old(self))
                    &&& final(self).accounts.same_except(&old(self).accounts, caller)
                    &&& (old(self).accounts.spec_contains(caller) ==> *final(self) == *old(self))
                },
                Err(e) => *final(self) == *old(self) && e == ErrorKind::PayableAPISuspended
                    && old(self).suspended,
            },
    {
        match self.ensure_payable_api_resumed() {
            Ok(()) => {},
            Err(e) => {
                return Err(e);
            },
        }
        if self.accounts.contains_key(caller) {
            return Ok(());
        }
        self.accounts.insert_new(caller, AccountV0::new());
        Ok(())
    }

    /// Unregister the calling account.  Succeeds as a no-op when no
    /// account exists; removal requires that the account holds no tokens,
    /// owns no positions and has no withdrawal in flight.
    #[verifier::loop_isolation(false)]
    pub fn unregister_account(&mut self, caller: AccountId) -> (r: Result<Option<()>, ErrorKind>)
        requires
            old(self).wf(),
        ensures
            final(self).wf(),
            match r {
                Ok(None) => {
                    &&& *final(self) == *old(self)
                    &&& !old(self).suspended
                    &&& !old(self).accounts.spec_contains(caller)
                },
                Ok(Some(())) => {
                    &&& !old(self).suspended
                    &&& old(self).accounts.spec_contains(caller)
                    &&& old(self).accounts.spec_at(caller).withdraw_tracker.pending@.len() == 0
                    &&& old(self).accounts.spec_at(caller).positions@.len() == 0
                    &&& (forall|j: int|
                        0 <= j < old(self).accounts.spec_at(
                            caller,
                        ).token_balances.entries@.len() ==> (#[trigger] old(self).accounts.spec_at(
                            caller,
                        ).token_balances.entries@[j]).1 == 0)
                    &&& !final(self).accounts.spec_contains(caller)
                    &&& final(self).only_accounts_changed(old(self))
                    &&& final(self).accounts.same_except(&old(self).accounts, caller)
                },
                Err(e) => *final(self) == *old(self) && {
                    let account = old(self).accounts.spec_at(caller);
                    match e {
                        ErrorKind::PayableAPISuspended => old(self).suspended,
                        ErrorKind::WithdrawInProgress => !old(self).suspended && old(self).accounts.spec_contains(caller)
                            && account.withdraw_tracker.pending@.len() > 0,
                        ErrorKind::UserHasPositions => !old(self).suspended && old(self).accounts.spec_contains(caller)
                            && account.withdraw_tracker.pending@.len() == 0
                            && account.positions@.len() > 0,
                        ErrorKind::TokensStorageNotEmpty => !old(self).suspended && old(self).accounts.spec_contains(caller)
                            && account.withdraw_tracker.pending@.len() == 0
                            && account.positions@.len() == 0 && exists|j: int|
                            0 <= j < account.token_balances.entries@.len() && (
                            #[trigger] account.token_balances.entries@[j]).1 != 0,
                        _ => false,
                    }
                },
            },
    {
        match self.ensure_payable_api_resumed() {
            Ok(()) => {},
            Err(e) => {
                return Err(e);
            },
        }
        match self.accounts.get(caller) {
            Some(account) => {
                if account.withdraw_tracker.is_any_withdraw_in_progress() {
                    return Err(ErrorKind::WithdrawInProgress);
                }
                if account.positions.len() > 0 {
                    return Err(ErrorKind::UserHasPositions);
                }
                let mut i: usize = 0;
                let n = account.token_balances.len();
                while i < n
                    invariant
                        self.wf(),
                        self.accounts.spec_contains(caller),
                        *self == *old(self),
                        n == self.accounts.spec_at(caller).token_balances.entries@.len(),
                        forall|j: int|
                            0 <= j < i ==> (#[trigger] self.accounts.spec_at(
                                caller,
                            ).token_balances.entries@[j]).1 == 0,
                    decreases n - i,
                {
                    let acct = match self.accounts.get(caller) {
                        Some(a) => a,
                        None => {
                            proof {
                                assert(false);
                            }
                            return Err(ErrorKind::InternalLogicError);
                        },
                    };
                    if acct.token_balances.entries[i].1 != 0 {
                        proof {
                            let bal = old(self).accounts.spec_at(caller).token_balances;
                            assert((bal.entries@[i as int]).1 != 0);
                            assert(exists|j: int|
                                0 <= j < bal.entries@.len() && (#[trigger] bal.entries@[j]).1
                                    != 0);
                        }
                        return Err(ErrorKind::TokensStorageNotEmpty);
                    }
                    i = i + 1;
                }
                let _ = self.accounts.remove_key(caller);
                Ok(Some(()))
            },
            None => Ok(None),
        }
    }

    /// Balance of one token of one account.
    pub fn get_deposit(&self, account_id: AccountId, token_id: TokenId) -> (r: Result<
        Amount,
        ErrorKind,
    >)
        requires
            self.wf(),
        ensures
            match r {
                Ok(v) => self.accounts.spec_contains(account_id) && self.accounts.spec_at(
                    account_id,
                ).token_balances.spec_contains(token_id) && v == self.accounts.spec_at(
                    account_id,
                ).token_balances.spec_at(token_id),
                Err(e) => match e {
                    ErrorKind::AccountNotRegistered => !self.accounts.spec_contains(account_id),
                    ErrorKind::TokenNotRegistered => self.accounts.spec_contains(account_id)
                        && !self.accounts.spec_at(account_id).token_balances.spec_contains(
                        token_id,
                    ),
                    _ => false,
                },
            },
    {
        match self.accounts.get(account_id) {
            Some(account) => {
                match account.token_balances.get(token_id) {
                    Some(b) => Ok(*b),
                    None => Err(ErrorKind::TokenNotRegistered),
                }
            },
            None => Err(ErrorKind::AccountNotRegistered),
        }
    }

    /// Register tokens on an account.
    #[verifier::loop_isolation(false)]
    pub fn register_tokens(&mut self, account_id: AccountId, tokens: &Vec<TokenId>) -> (r: Result<
        (),
        ErrorKind,
    >)
        requires
            old(self).wf(),
        ensures
            final(self).wf(),
            match r {
                Ok(()) => {
                    &&& !old(self).suspended
                    &&& old(self).accounts.spec_contains(account_id)
                    &&& final(self).accounts.spec_contains(account_id)
                    &&& forall|i: int|
                        0 <= i < tokens@.len() ==> final(self).accounts.spec_at(
                            account_id,
                        ).token_balances.spec_contains(#[trigger] tokens@[i])
                    &&& final(self).only_accounts_changed(old(self))
                    &&& final(self).accounts.same_except(&old(self).accounts, account_id)
                },
                Err(e) => *final(self) == *old(self) && match e {
                    ErrorKind::PayableAPISuspended => old(self).suspended,
                    ErrorKind::AccountNotRegistered => !old(self).suspended && !old(self).accounts.spec_contains(account_id),
                    _ => false,
                },
            },
    {
        match self.ensure_payable_api_resumed() {
            Ok(()) => {},
            Err(e) => {
                return Err(e);
            },
        }
        if !self.accounts.contains_key(account_id) {
            return Err(ErrorKind::AccountNotRegistered);
        }
        let mut account = self.accounts.remove_key(account_id);
        let ghost mid = *self;
        let mut i: usize = 0;
        while i < tokens.len()
            invariant
                account.wf(),
                i <= tokens@.len(),
                *self == mid,
                forall|j: int|
                    0 <= j < i ==> account.token_balances.spec_contains(#[trigger] tokens@[j]),
            decreases tokens@.len() - i,
        {
            account.register_token(tokens[i]);
            i = i + 1;
        }
        self.accounts.insert_new(account_id, account);
        Ok(())
    }

    /// Unregister tokens on an account; each must have a zero balance and
    /// no withdrawal in flight.  On an error nothing changes.
    #[verifier::loop_isolation(false)]
    pub fn unregister_tokens(&mut self, account_id: AccountId, tokens: &Vec<TokenId>) -> (r:
        Result<(), ErrorKind>)
        requires
            old(self).wf(),
        ensures
            final(self).wf(),
            match r {
                Ok(()) => {
                    &&& !old(self).suspended
                    &&& old(self).accounts.spec_contains(account_id)
                    &&& final(self).accounts.spec_contains(account_id)
                    &&& forall|i: int|
                        0 <= i < tokens@.len() ==> !final(self).accounts.spec_at(
                            account_id,
                        ).token_balances.spec_contains(#[trigger] tokens@[i])
                    &&& final(self).only_accounts_changed(old(self))
                    &&& final(self).accounts.same_except(&old(self).accounts, account_id)
                },
                Err(e) => *final(self) == *old(self) && {
                    let acct = old(self).accounts.spec_at(account_id);
                    match e {
                        ErrorKind::PayableAPISuspended => old(self).suspended,
                        ErrorKind::AccountNotRegistered => !old(self).suspended && !old(self).accounts.spec_contains(account_id),
                        ErrorKind::WithdrawInProgress => old(self).accounts.spec_contains(
                            account_id,
                        ) && exists|i: int, j: int|
                            0 <= i < tokens@.len() && 0 <= j
                                < acct.withdraw_tracker.pending@.len() && (
                            #[trigger] acct.withdraw_tracker.pending@[j]).0
                                == #[trigger] tokens@[i],
                        ErrorKind::NonZeroTokenBalance => old(self).accounts.spec_contains(
                            account_id,
                        ) && exists|i: int|
                            acct.token_balances.spec_contains(#[trigger] tokens@[i]) && 0 <= i
                                < tokens@.len() && acct.token_balances.spec_at(tokens@[i]) != 0,
                        _ => false,
                    }
                },
            },
    {
        match self.ensure_payable_api_resumed() {
            Ok(()) => {},
            Err(e) => {
                return Err(e);
            },
        }
        // validate every token before mutating
        {
            let account = match self.accounts.get(account_id) {
                Some(a) => a,
                None => {
                    return Err(ErrorKind::AccountNotRegistered);
                },
            };
            let mut i: usize = 0;
            while i < tokens.len()
                invariant
                    i <= tokens@.len(),
                decreases tokens@.len() - i,
            {
                let t = tokens[i];
                if account.withdraw_tracker.is_token_withdraw_in_progress(t) {
                    proof {
                        let acct = old(self).accounts.spec_at(account_id);
                        let j = choose|j: int|
                            0 <= j < acct.withdraw_tracker.pending@.len() && (
                            #[trigger] acct.withdraw_tracker.pending@[j]).0 == t;
                        assert(acct.withdraw_tracker.pending@[j].0 == tokens@[i as int]);
                    }
                    return Err(ErrorKind::WithdrawInProgress);
                }
                match account.token_balances.get(t) {
                    Some(b) => {
                        if *b != 0 {
                            proof {
                                let acct = old(self).accounts.spec_at(account_id);
                                assert(acct.token_balances.spec_contains(tokens@[i as int])
                                    && acct.token_balances.spec_at(tokens@[i as int]) != 0);
                            }
                            return Err(ErrorKind::NonZeroTokenBalance);
                        }
                    },
                    None => {},
                }
                i = i + 1;
            }
        }
        // commit: every removal is now known to succeed
        let mut account = self.accounts.remove_key(account_id);
        let ghost mid = *self;
        let mut i: usize = 0;
        while i < tokens.len()
            invariant
                account.wf(),
                i <= tokens@.len(),
                *self == mid,
                forall|j: int|
                    0 <= j < i ==> !account.token_balances.spec_contains(#[trigger] tokens@[j]),
            decreases tokens@.len() - i,
        {
            match account.unregister_token(tokens[i]) {
                Ok(()) => {},
                Err(_) => {
                    let _ = account.token_balances.remove_key(tokens[i]);
                },
            }
            i = i + 1;
        }
        self.accounts.insert_new(account_id, account);
        Ok(())
    }

    /// Credit a deposit arriving from outside.
    pub fn deposit(&mut self, account_id: AccountId, token_id: TokenId, amount: Amount) -> (r:
        Result<Amount, ErrorKind>)
        requires
            old(self).wf(),
        ensures
            final(self).wf(),
            match r {
                Ok(new_balance) => {
                    &&& !old(self).suspended
                    &&& old(self).accounts.spec_contains(account_id)
                    &&& final(self).accounts.spec_contains(account_id)
                    &&& new_balance == old(self).accounts.spec_at(
                        account_id,
                    ).token_balances.spec_at(token_id) + amount
                    &&& final(self).accounts.spec_at(account_id).token_balances.spec_at(
                        token_id,
                    ) == new_balance
                    &&& final(self).only_accounts_changed(old(self))
                    &&& final(self).accounts.same_except(&old(self).accounts, account_id)
                },
                Err(e) => *final(self) == *old(self) && {
                    let tb = old(self).accounts.spec_at(account_id).token_balances;
                    match e {
                        ErrorKind::PayableAPISuspended => old(self).suspended,
                        ErrorKind::AccountNotRegistered => !old(self).suspended && !old(self).accounts.spec_contains(account_id),
                        ErrorKind::TokenNotRegistered => !old(self).suspended && old(self).accounts.spec_contains(account_id) && !tb.spec_contains(token_id),
                        ErrorKind::DepositWouldOverflow => !old(self).suspended && old(self).accounts.spec_contains(account_id) && tb.spec_contains(token_id)
                            && tb.spec_at(token_id) + amount > u128::MAX,
                        _ => false,
                    }
                },
            },
    {
        match self.ensure_payable_api_resumed() {
            Ok(()) => {},
            Err(e) => {
                return Err(e);
            },
        }
        // validate before mutating, so an error leaves the state untouched
        let balance: Amount = match self.accounts.get(account_id) {
            Some(account) => {
                match account.token_balances.get(token_id) {
                    Some(b) => *b,
                    None => {
                        return Err(ErrorKind::TokenNotRegistered);
                    },
                }
            },
            None => {
                return Err(ErrorKind::AccountNotRegistered);
            },
        };
        let new_balance = match balance.checked_add(amount) {
            Some(v) => v,
            None => {
                return Err(ErrorKind::DepositWouldOverflow);
            },
        };
        let mut account = self.accounts.remove_key(account_id);
        match account.deposit(token_id, amount) {
            Ok(_) => {},
            Err(_) => {
                proof {
                    assert(false);
                }
            },
        }
        self.accounts.insert_new(account_id, account);
        Ok(new_balance)
    }

    /// Start a withdrawal: debit the balance, track the in-flight
    /// transfer, and hand back the amount to actually send.  A zero
    /// `amount` withdraws the full balance; a zero balance is a no-op.
    pub fn withdraw(&mut self, account_id: AccountId, token_id: TokenId, amount: Amount) -> (r:
        Result<Option<Amount>, ErrorKind>)
        requires
            old(self).wf(),
        ensures
            final(self).wf(),
            match r {
                Ok(None) => {
                    &&& *final(self) == *old(self)
                    &&& !old(self).suspended
                    &&& old(self).accounts.spec_contains(account_id)
                    &&& amount == 0
                },
                Ok(Some(v)) => {
                    &&& !old(self).suspended
                    &&& old(self).accounts.spec_contains(account_id)
                    &&& {
                        let acct = old(self).accounts.spec_at(account_id);
                        let acct2 = final(self).accounts.spec_at(account_id);
                        &&& acct.token_balances.spec_contains(token_id)
                        &&& v == (if amount == 0 {
                            acct.token_balances.spec_at(token_id)
                        } else {
                            amount
                        })
                        &&& v > 0
                        &&& acct.token_balances.spec_at(token_id) >= v
                        &&& acct2.token_balances.spec_at(token_id)
                            == acct.token_balances.spec_at(token_id) - v
                        &&& acct2.withdraw_tracker.pending@ == acct.withdraw_tracker.pending@.push(
                            (token_id, v),
                        )
                        &&& acct2.positions == acct.positions
                    }
                    &&& final(self).only_accounts_changed(old(self))
                    &&& final(self).accounts.same_except(&old(self).accounts, account_id)
                },
                Err(e) => *final(self) == *old(self) && {
                    let tb = old(self).accounts.spec_at(account_id).token_balances;
                    match e {
                        ErrorKind::PayableAPISuspended => old(self).suspended,
                        ErrorKind::AccountNotRegistered => !old(self).suspended && !old(self).accounts.spec_contains(account_id),
                        ErrorKind::TokenNotRegistered => !old(self).suspended && old(self).accounts.spec_contains(account_id) && amount > 0 && !tb.spec_contains(
                            token_id,
                        ),
                        ErrorKind::NotEnoughTokens => !old(self).suspended && old(self).accounts.spec_contains(account_id) && amount > 0 && tb.spec_contains(
                            token_id,
                        ) && tb.spec_at(token_id) < amount,
                        _ => false,
                    }
                },
            },
    {
        match self.ensure_payable_api_resumed() {
            Ok(()) => {},
            Err(e) => {
                return Err(e);
            },
        }
        // validate before mutating, so an error leaves the state untouched
        let effective: Amount = match self.accounts.get(account_id) {
            Some(account) => {
                match account.token_balances.get(token_id) {
                    Some(b) => {
                        if amount == 0 {
                            *b
                        } else {
                            if *b < amount {
                                return Err(ErrorKind::NotEnoughTokens);
                            }
                            amount
                        }
                    },
                    None => {
                        if amount == 0 {
                            return Ok(None);
                        }
                        return Err(ErrorKind::TokenNotRegistered);
                    },
                }
            },
            None => {
                return Err(ErrorKind::AccountNotRegistered);
            },
        };
        if effective == 0 {
            return Ok(None);
        }
        let mut account = self.accounts.remove_key(account_id);
        match account.withdraw(token_id, effective) {
            Ok(_) => {},
            Err(_) => {
                proof {
                    assert(false);
                }
            },
        }
        account.withdraw_tracker.track(token_id, effective);
        self.accounts.insert_new(account_id, account);
        Ok(Some(effective))
    }

    /// Resolution of an asynchronous transfer: on failure the debited
    /// amount is restored; either way the in-flight record is dropped.
    pub fn exchange_callback_post_withdraw(
        &mut self,
        account_id: AccountId,
        token_id: TokenId,
        amount: Amount,
        success: bool,
    ) -> (r: Result<(), ErrorKind>)
        requires
            old(self).wf(),
        ensures
            final(self).wf(),
            match r {
                Ok(()) => {
                    &&& old(self).accounts.spec_contains(account_id)
                    &&& {
                        let acct = old(self).accounts.spec_at(account_id);
                        let acct2 = final(self).accounts.spec_at(account_id);
                        &&& acct2.withdraw_tracker.pending@.len()
                            == acct.withdraw_tracker.pending@.len() - 1
                        &&& (success ==> acct2.token_balances == acct.token_balances)
                        &&& (!success ==> acct2.token_balances.spec_at(token_id)
                            == acct.token_balances.spec_at(token_id) + amount)
                    }
                    &&& final(self).only_accounts_changed(old(self))
                    &&& final(self).accounts.same_except(&old(self).accounts, account_id)
                },
                Err(e) => *final(self) == *old(self) && {
                    let acct = old(self).accounts.spec_at(account_id);
                    match e {
                        ErrorKind::AccountNotRegistered => !old(self).accounts.spec_contains(
                            account_id,
                        ),
                        ErrorKind::IllegalWithdrawAmount => old(self).accounts.spec_contains(
                            account_id,
                        ) && !(exists|i: int|
                            0 <= i < acct.withdraw_tracker.pending@.len() && (
                            #[trigger] acct.withdraw_tracker.pending@[i]) == (token_id, amount)),
                        ErrorKind::TokenNotRegistered | ErrorKind::DepositWouldOverflow =>
                            !success,
                        _ => false,
                    }
                },
            },
    {
        // validate before mutating, so an error leaves the state untouched
        match self.accounts.get(account_id) {
            Some(account) => {
                if !account.withdraw_tracker.is_tracked(token_id, amount) {
                    return Err(ErrorKind::IllegalWithdrawAmount);
                }
                if !success {
                    match account.token_balances.get(token_id) {
                        Some(b) => {
                            if amount > u128::MAX - *b {
                                return Err(ErrorKind::DepositWouldOverflow);
                            }
                        },
                        None => {
                            return Err(ErrorKind::TokenNotRegistered);
                        },
                    }
                }
            },
            None => {
                return Err(ErrorKind::AccountNotRegistered);
            },
        }
        let mut account = self.accounts.remove_key(account_id);
        account.withdraw_tracker.untrack(token_id, amount);
        if !success {
            match account.deposit(token_id, amount) {
                Ok(_) => {},
                Err(_) => {
                    proof {
                        assert(false);
                    }
                },
            }
        }
        self.accounts.insert_new(account_id, account);
        Ok(())
    }
}

/// One action of a batched request.
pub enum Action {
    RegisterAccount,
    RegisterTokens(Vec<TokenId>),
    SwapExactIn(SwapAction),
    SwapExactOut(SwapAction),
    Deposit(TokenId, Amount),
    Withdraw(TokenId, Amount),
    OpenPosition { tokens: (TokenId, TokenId), fee_rate: u16, position: PositionInit },
    ClosePosition(PositionId),
    WithdrawFee(PositionId),
}

/// One swap path and its fixed amount.
pub struct Path {
    pub tokens: Vec<TokenId>,
    pub amount: Amount,
}

/// Parameters of one swap action.
pub struct SwapAction {
    pub token_in: TokenId,
    pub token_out: TokenId,
    /// Amount to exchange; `None` takes the previous action's output.
    pub amount: Option<Amount>,
    /// Minimum output for exact-in, maximum input for exact-out.
    pub amount_limit: Amount,
}

/// Result of one executed action.
pub enum ActionResult {
    RegisterAccount,
    RegisterTokens,
    SwapExactIn(Amount),
    SwapExactOut(Amount),
    Deposit,
    Withdraw(Option<Amount>),
    OpenPosition(PositionId),
    ClosePosition,
    WithdrawFee,
}

/// The fee level with the given fee rate in ticks.
pub fn fee_level_from_rate(fee_rate: u16) -> (r: Result<u8, ErrorKind>)
    ensures
        match r {
            Ok(l) => l < 8 && (fee_rate as nat) == vstd::arithmetic::power2::pow2(l as nat),
            Err(e) => e == ErrorKind::IllegalFee,
        },
{
    proof {
        vstd::arithmetic::power2::lemma2_to64();
    }
    match fee_rate {
        1 => Ok(0),
        2 => Ok(1),
        4 => Ok(2),
        8 => Ok(3),
        16 => Ok(4),
        32 => Ok(5),
        64 => Ok(6),
        128 => Ok(7),
        _ => Err(ErrorKind::IllegalFee),
    }
}

impl Dex {
    /// Open a position: derive the pool from the token pair (creating it
    /// for a first position), charge the deposit from the caller's
    /// balances, and record the position.  Runs on a working copy of the
    /// pool; an error leaves the whole state unchanged.
    ///
    /// Returns the position id, the charged amounts in caller token order,
    /// and the accounted net liquidity.
    #[verifier::loop_isolation(false)]
    pub fn open_position(
        &mut self,
        caller: AccountId,
        token_a: TokenId,
        token_b: TokenId,
        fee_rate: u16,
        position: &PositionInit,
    ) -> (r: Result<(PositionId, Amount, Amount, U192X64), ErrorKind>)
        requires
            old(self).wf(),
        ensures
            final(self).wf(),
            match r {
                Ok((id, da, db, liq)) => {
                    &&& !old(self).suspended
                    &&& old(self).accounts.spec_contains(caller)
                    &&& token_a != token_b
                    &&& id == old(self).next_free_position_id
                    &&& final(self).next_free_position_id == old(self).next_free_position_id + 1
                    &&& final(self).position_to_pool_id.spec_contains(id)
                    &&& final(self).position_to_pool_id.same_except(
                        &old(self).position_to_pool_id,
                        id,
                    )
                    &&& liq.wf()
                    &&& da <= position.amount_ranges.0.max && da >= position.amount_ranges.0.min
                    &&& db <= position.amount_ranges.1.max && db >= position.amount_ranges.1.min
                    &&& {
                        // the caller pays exactly the returned amounts
                        let tb = old(self).accounts.spec_at(caller).token_balances;
                        let tb2 = final(self).accounts.spec_at(caller).token_balances;
                        &&& tb2.spec_at(token_a) == tb.spec_at(token_a) - da
                        &&& tb2.spec_at(token_b) == tb.spec_at(token_b) - db
                    }
                    &&& exists|k: u128|
                        #[trigger] final(self).pools.spec_contains(k) && final(self).pools.spec_at(k).spec_price_set()
                    &&& final(self).accounts.same_except(&old(self).accounts, caller)
                    &&& final(self).only_position_state_changed(old(self))
                },
                Err(_) => *final(self) == *old(self),
            },
    {
        match self.ensure_payable_api_resumed() {
            Ok(()) => {},
            Err(e) => {
                return Err(e);
            },
        }
        if !self.accounts.contains_key(caller) {
            return Err(ErrorKind::AccountNotRegistered);
        }
        let (pool_id, transposed) = match PoolId::try_from_pair(token_a, token_b) {
            Ok(v) => v,
            Err(e) => {
                return Err(e);
            },
        };
        let fee_level = match fee_level_from_rate(fee_rate) {
            Ok(l) => l,
            Err(e) => {
                return Err(e);
            },
        };
        let position_t = position.transpose_if(transposed);
        // the caller's tokens must be registered
        match self.get_deposit(caller, pool_id.first) {
            Ok(_) => {},
            Err(e) => {
                return Err(e);
            },
        }
        match self.get_deposit(caller, pool_id.second) {
            Ok(_) => {},
            Err(e) => {
                return Err(e);
            },
        }
        let position_id = self.next_free_position_id;
        if position_id == u64::MAX {
            return Err(ErrorKind::InternalLogicError);
        }
        if self.position_to_pool_id.contains_key(position_id) {
            return Err(ErrorKind::PositionAlreadyExists);
        }
        let key = pool_id.key();
        let existed = self.pools.contains_key(key);
        // run the opening on a working copy (or a fresh pool)
        let mut work: PoolV0 = if existed {
            match self.pools.get(key) {
                Some(p) => p.snapshot(),
                None => {
                    return Err(ErrorKind::InternalLogicError);
                },
            }
        } else {
            if self.pool_count == u64::MAX {
                return Err(ErrorKind::InternalLogicError);
            }
            PoolV0::new()
        };
        let (deposited, liq) = match work.open_position(&position_t, fee_level, position_id) {
            Ok(v) => v,
            Err(e) => {
                return Err(e);
            },
        };
        // the caller must cover the actual charge, not the offered maxima
        {
            let bal_first = match self.get_deposit(caller, pool_id.first) {
                Ok(b) => b,
                Err(e) => {
                    return Err(e);
                },
            };
            let bal_second = match self.get_deposit(caller, pool_id.second) {
                Ok(b) => b,
                Err(e) => {
                    return Err(e);
                },
            };
            if bal_first < deposited.0 || bal_second < deposited.1 {
                return Err(ErrorKind::NotEnoughTokens);
            }
        }
        // commit
        let mut account = self.accounts.remove_key(caller);
        match account.withdraw(pool_id.first, deposited.0) {
            Ok(_) => {},
            Err(_) => {
                proof {
                    assert(false);
                }
            },
        }
        match account.withdraw(pool_id.second, deposited.1) {
            Ok(_) => {},
            Err(_) => {
                proof {
                    assert(false);
                }
            },
        }
        account.positions.push(position_id);
        self.accounts.insert_new(caller, account);
        if existed {
            self.pools.set_existing(key, work);
        } else {
            self.pools.insert_new(key, work);
            self.pool_count = self.pool_count + 1;
        }
        self.position_to_pool_id.insert_new(position_id, pool_id);
        self.next_free_position_id = position_id + 1;
        proof {
            assert(final(self).pools.spec_contains(key)
                && final(self).pools.spec_at(key).spec_price_set());
        }
        let in_caller_order = crate::util_types::swap_if(transposed, deposited);
        Ok((position_id, in_caller_order.0, in_caller_order.1, liq))
    }

    /// Open a position with full tick range and plain maximum amounts.
    pub fn open_position_full(
        &mut self,
        caller: AccountId,
        token_a: TokenId,
        token_b: TokenId,
        fee_rate: u16,
        amount_a: Amount,
        amount_b: Amount,
    ) -> (r: Result<(PositionId, Amount, Amount, U192X64), ErrorKind>)
        requires
            old(self).wf(),
        ensures
            final(self).wf(),
    {
        let init = PositionInit::new_full_range(1, amount_a, 1, amount_b);
        self.open_position(caller, token_a, token_b, fee_rate, &init)
    }

    /// Close a position owned by the caller: withdraw its reward, return
    /// its balance and reward to the caller's account, and delete it.
    /// Runs on a working copy of the pool; an error leaves the whole
    /// state unchanged.
    #[verifier::loop_isolation(false)]
    pub fn close_position(&mut self, caller: AccountId, position_id: PositionId) -> (r: Result<
        (),
        ErrorKind,
    >)
        requires
            old(self).wf(),
        ensures
            final(self).wf(),
            match r {
                Ok(()) => {
                    &&& !old(self).suspended
                    &&& old(self).accounts.spec_contains(caller)
                    &&& old(self).position_to_pool_id.spec_contains(position_id)
                    &&& !final(self).position_to_pool_id.spec_contains(position_id)
                    &&& final(self).position_to_pool_id.same_except(
                        &old(self).position_to_pool_id,
                        position_id,
                    )
                    &&& {
                        // whatever leaves the pool is credited to the caller,
                        // token by token: nothing is created or destroyed
                        let pid = old(self).position_to_pool_id.spec_at(position_id);
                        let key = pid.spec_key() as u128;
                        let tb = old(self).accounts.spec_at(caller).token_balances;
                        let tb2 = final(self).accounts.spec_at(caller).token_balances;
                        &&& old(self).pools.spec_contains(key)
                        &&& final(self).pools.spec_contains(key)
                        &&& exists|c0: Amount, c1: Amount|
                            #![trigger tb.spec_at(pid.first) + c0, tb.spec_at(pid.second) + c1]
                            {
                                &&& tb2.spec_at(pid.first) == tb.spec_at(pid.first) + c0
                                &&& tb2.spec_at(pid.second) == tb.spec_at(pid.second) + c1
                                &&& final(self).pools.spec_at(key).total_reserves.0 == old(self).pools.spec_at(key).total_reserves.0 - c0
                                &&& final(self).pools.spec_at(key).total_reserves.1 == old(self).pools.spec_at(key).total_reserves.1 - c1
                            }
                        &&& final(self).pools.same_except(&old(self).pools, key)
                    }
                    &&& final(self).accounts.same_except(&old(self).accounts, caller)
                    &&& final(self).only_position_state_changed(old(self))
                    &&& final(self).pool_count == old(self).pool_count
                    &&& final(self).next_free_position_id == old(self).next_free_position_id
                },
                Err(_) => *final(self) == *old(self),
            },
    {
        match self.ensure_payable_api_resumed() {
            Ok(()) => {},
            Err(e) => {
                return Err(e);
            },
        }
        if !self.accounts.contains_key(caller) {
            return Err(ErrorKind::AccountNotRegistered);
        }
        let pool_id: PoolId = match self.position_to_pool_id.get(position_id) {
            Some(p) => *p,
            None => {
                return Err(ErrorKind::PositionDoesNotExist);
            },
        };
        {
            let account = match self.accounts.get(caller) {
                Some(a) => a,
                None => {
                    return Err(ErrorKind::AccountNotRegistered);
                },
            };
            if !account.owns_position(position_id) {
                return Err(ErrorKind::NotYourPosition);
            }
        }
        if pool_id.first == pool_id.second {
            return Err(ErrorKind::InternalLogicError);
        }
        let key = pool_id.key();
        // run the closing on a working copy of the pool
        let mut work = match self.pools.get(key) {
            Some(p) => p.snapshot(),
            None => {
                return Err(ErrorKind::InternalLogicError);
            },
        };
        let (fees, amounts) = match work.withdraw_fee_and_close_position(position_id) {
            Ok(v) => v,
            Err(e) => {
                return Err(e);
            },
        };
        let c0 = match amounts.0.checked_add(fees.0) {
            Some(v) => v,
            None => {
                return Err(ErrorKind::DepositWouldOverflow);
            },
        };
        let c1 = match amounts.1.checked_add(fees.1) {
            Some(v) => v,
            None => {
                return Err(ErrorKind::DepositWouldOverflow);
            },
        };
        // the credits must be creditable before anything is committed
        {
            let account = match self.accounts.get(caller) {
                Some(a) => a,
                None => {
                    return Err(ErrorKind::AccountNotRegistered);
                },
            };
            match account.token_balances.get(pool_id.first) {
                Some(b) => {
                    if c0 > u128::MAX - *b {
                        return Err(ErrorKind::DepositWouldOverflow);
                    }
                },
                None => {
                    return Err(ErrorKind::TokenNotRegistered);
                },
            }
            match account.token_balances.get(pool_id.second) {
                Some(b) => {
                    if c1 > u128::MAX - *b {
                        return Err(ErrorKind::DepositWouldOverflow);
                    }
                },
                None => {
                    return Err(ErrorKind::TokenNotRegistered);
                },
            }
        }
        // commit
        let mut account = self.accounts.remove_key(caller);
        match account.deposit(pool_id.first, c0) {
            Ok(_) => {},
            Err(_) => {
                proof {
                    assert(false);
                }
            },
        }
        match account.deposit(pool_id.second, c1) {
            Ok(_) => {},
            Err(_) => {
                proof {
                    assert(false);
                }
            },
        }
        account.remove_position(position_id);
        self.accounts.insert_new(caller, account);
        self.pools.set_existing(key, work);
        let _ = self.position_to_pool_id.remove_key(position_id);
        proof {
            let tb = old(self).accounts.spec_at(caller).token_balances;
            assert(tb.spec_at(pool_id.first) + c0 == tb.spec_at(pool_id.first) + c0);
            assert(tb.spec_at(pool_id.second) + c1 == tb.spec_at(pool_id.second) + c1);
        }
        Ok(())
    }

    /// Withdraw the accrued LP reward of a position into the caller's
    /// balances.  Runs on a working copy of the pool; an error leaves the
    /// whole state unchanged.
    ///
    /// The credited amounts are exactly what leaves the pool's total
    /// reserves, and the pool's LP-fee pot drops by at least that much
    /// (the rounded-off fraction stays in the pool).
    #[verifier::loop_isolation(false)]
    pub fn withdraw_fee(&mut self, caller: AccountId, position_id: PositionId) -> (r: Result<
        (Amount, Amount),
        ErrorKind,
    >)
        requires
            old(self).wf(),
        ensures
            final(self).wf(),
            match r {
                Ok((f0, f1)) => {
                    &&& !old(self).suspended
                    &&& old(self).accounts.spec_contains(caller)
                    &&& old(self).position_to_pool_id.spec_contains(position_id)
                    &&& {
                        let pid = old(self).position_to_pool_id.spec_at(position_id);
                        let key = pid.spec_key() as u128;
                        let tb = old(self).accounts.spec_at(caller).token_balances;
                        let tb2 = final(self).accounts.spec_at(caller).token_balances;
                        &&& old(self).pools.spec_contains(key)
                        &&& final(self).pools.spec_contains(key)
                        &&& tb2.spec_at(pid.first) == tb.spec_at(pid.first) + f0
                        &&& tb2.spec_at(pid.second) == tb.spec_at(pid.second) + f1
                        &&& final(self).pools.spec_at(key).total_reserves.0 == old(self).pools.spec_at(key).total_reserves.0 - f0
                        &&& final(self).pools.spec_at(key).total_reserves.1 == old(self).pools.spec_at(key).total_reserves.1 - f1
                        &&& final(self).pools.same_except(&old(self).pools, key)
                    }
                    &&& final(self).accounts.same_except(&old(self).accounts, caller)
                    &&& final(self).only_pools_and_accounts_changed(old(self))
                },
                Err(_) => *final(self) == *old(self),
            },
    {
        match self.ensure_payable_api_resumed() {
            Ok(()) => {},
            Err(e) => {
                return Err(e);
            },
        }
        if !self.accounts.contains_key(caller) {
            return Err(ErrorKind::AccountNotRegistered);
        }
        let pool_id: PoolId = match self.position_to_pool_id.get(position_id) {
            Some(p) => *p,
            None => {
                return Err(ErrorKind::PositionDoesNotExist);
            },
        };
        {
            let account = match self.accounts.get(caller) {
                Some(a) => a,
                None => {
                    return Err(ErrorKind::AccountNotRegistered);
                },
            };
            if !account.owns_position(position_id) {
                return Err(ErrorKind::NotYourPosition);
            }
        }
        if pool_id.first == pool_id.second {
            return Err(ErrorKind::InternalLogicError);
        }
        let key = pool_id.key();
        let mut work = match self.pools.get(key) {
            Some(p) => p.snapshot(),
            None => {
                return Err(ErrorKind::InternalLogicError);
            },
        };
        let fees = match work.withdraw_fee(position_id) {
            Ok(v) => v,
            Err(e) => {
                return Err(e);
            },
        };
        // the credits must be creditable before anything is committed
        {
            let account = match self.accounts.get(caller) {
                Some(a) => a,
                None => {
                    return Err(ErrorKind::AccountNotRegistered);
                },
            };
            match account.token_balances.get(pool_id.first) {
                Some(b) => {
                    if fees.0 > u128::MAX - *b {
                        return Err(ErrorKind::DepositWouldOverflow);
                    }
                },
                None => {
                    return Err(ErrorKind::TokenNotRegistered);
                },
            }
            match account.token_balances.get(pool_id.second) {
                Some(b) => {
                    if fees.1 > u128::MAX - *b {
                        return Err(ErrorKind::DepositWouldOverflow);
                    }
                },
                None => {
                    return Err(ErrorKind::TokenNotRegistered);
                },
            }
        }
        // commit
        let mut account = self.accounts.remove_key(caller);
        match account.deposit(pool_id.first, fees.0) {
            Ok(_) => {},
            Err(_) => {
                proof {
                    assert(false);
                }
            },
        }
        match account.deposit(pool_id.second, fees.1) {
            Ok(_) => {},
            Err(_) => {
                proof {
                    assert(false);
                }
            },
        }
        self.accounts.insert_new(caller, account);
        self.pools.set_existing(key, work);
        Ok(fees)
    }

    /// Withdraw the protocol fee of one pool into the owner's balances:
    /// exactly what the pool holds above its position reserves and its
    /// accrued LP fees.  An error leaves the whole state unchanged.
    #[verifier::loop_isolation(false)]
    pub fn withdraw_protocol_fee(&mut self, caller: AccountId, token_a: TokenId, token_b: TokenId)
        -> (r: Result<(Amount, Amount), ErrorKind>)
        requires
            old(self).wf(),
        ensures
            final(self).wf(),
            match r {
                Ok((p0, p1)) => {
                    &&& caller == old(self).owner_id
                    &&& {
                        let tb = old(self).accounts.spec_at(caller).token_balances;
                        let tb2 = final(self).accounts.spec_at(caller).token_balances;
                        exists|key: u128|
                            {
                                &&& #[trigger] old(self).pools.spec_contains(key)
                                &&& final(self).pools.spec_contains(key)
                                &&& final(self).pools.spec_at(key).total_reserves.0 == old(self).pools.spec_at(key).total_reserves.0 - p0
                                &&& final(self).pools.spec_at(key).total_reserves.1 == old(self).pools.spec_at(key).total_reserves.1 - p1
                                &&& final(self).pools.same_except(&old(self).pools, key)
                            }
                    }
                    &&& {
                        let tb = old(self).accounts.spec_at(caller).token_balances;
                        let tb2 = final(self).accounts.spec_at(caller).token_balances;
                        exists|t0: TokenId, t1: TokenId|
                            {
                                &&& #[trigger] tb2.spec_at(t0) == tb.spec_at(t0) + p0
                                &&& #[trigger] tb2.spec_at(t1) == tb.spec_at(t1) + p1
                            }
                    }
                    &&& final(self).accounts.same_except(&old(self).accounts, caller)
                    &&& final(self).only_pools_and_accounts_changed(old(self))
                },
                Err(_) => *final(self) == *old(self),
            },
    {
        if caller != self.owner_id {
            return Err(ErrorKind::PermissionDenied);
        }
        let (pool_id, _) = match PoolId::try_from_pair(token_a, token_b) {
            Ok(v) => v,
            Err(e) => {
                return Err(e);
            },
        };
        let key = pool_id.key();
        let mut work = match self.pools.get(key) {
            Some(p) => p.snapshot(),
            None => {
                return Err(ErrorKind::PoolNotRegistered);
            },
        };
        let payout = match work.withdraw_protocol_fee() {
            Ok(v) => v,
            Err(_) => {
                proof {
                    assert(false);
                }
                return Err(ErrorKind::InternalLogicError);
            },
        };
        // the credits must be creditable before anything is committed
        {
            let account = match self.accounts.get(caller) {
                Some(a) => a,
                None => {
                    return Err(ErrorKind::AccountNotRegistered);
                },
            };
            match account.token_balances.get(pool_id.first) {
                Some(b) => {
                    if payout.0 > u128::MAX - *b {
                        return Err(ErrorKind::DepositWouldOverflow);
                    }
                },
                None => {
                    return Err(ErrorKind::TokenNotRegistered);
                },
            }
            match account.token_balances.get(pool_id.second) {
                Some(b) => {
                    if payout.1 > u128::MAX - *b {
                        return Err(ErrorKind::DepositWouldOverflow);
                    }
                },
                None => {
                    return Err(ErrorKind::TokenNotRegistered);
                },
            }
        }
        // commit
        let mut account = self.accounts.remove_key(caller);
        match account.deposit(pool_id.first, payout.0) {
            Ok(_) => {},
            Err(_) => {
                proof {
                    assert(false);
                }
            },
        }
        match account.deposit(pool_id.second, payout.1) {
            Ok(_) => {},
            Err(_) => {
                proof {
                    assert(false);
                }
            },
        }
        self.accounts.insert_new(caller, account);
        self.pools.set_existing(key, work);
        proof {
            assert(old(self).pools.spec_contains(key));
            let tb = old(self).accounts.spec_at(caller).token_balances;
            assert(final(self).accounts.spec_at(caller).token_balances.spec_at(pool_id.first)
                == tb.spec_at(pool_id.first) + payout.0);
            assert(final(self).accounts.spec_at(caller).token_balances.spec_at(pool_id.second)
                == tb.spec_at(pool_id.second) + payout.1);
        }
        Ok(payout)
    }

    /// A deep working copy of the whole contract state.  Batched
    /// operations run the copy and commit it only when every step
    /// succeeded, which makes the batch all-or-nothing.
    #[verifier::loop_isolation(false)]
    fn snapshot(&self) -> (r: Dex)
        requires
            self.wf(),
        ensures
            r.wf(),
            r.owner_id == self.owner_id,
            r.suspended == self.suspended,
            r.protocol_fee_fraction == self.protocol_fee_fraction,
            r.pool_count == self.pool_count,
            r.next_free_position_id == self.next_free_position_id,
    {
        let mut guards: Vec<AccountId> = Vec::new();
        let mut i: usize = 0;
        while i < self.guards.len()
            invariant
                i <= self.guards@.len(),
                guards@ =~= self.guards@.take(i as int),
            decreases self.guards@.len() - i,
        {
            guards.push(self.guards[i]);
            i = i + 1;
        }
        let mut verified_tokens: Vec<TokenId> = Vec::new();
        let mut i2: usize = 0;
        while i2 < self.verified_tokens.len()
            invariant
                i2 <= self.verified_tokens@.len(),
                verified_tokens@ =~= self.verified_tokens@.take(i2 as int),
            decreases self.verified_tokens@.len() - i2,
        {
            verified_tokens.push(self.verified_tokens[i2]);
            i2 = i2 + 1;
        }
        // accounts, each deep-copied
        let mut accounts: KvMap<AccountV0> = KvMap::new();
        let mut a: usize = 0;
        while a < self.accounts.entries.len()
            invariant
                accounts.wf_keys(),
                a <= self.accounts.entries@.len(),
                forall|k: u64|
                    accounts.spec_contains(k) ==> (#[trigger] accounts.spec_at(k)).wf(),
            decreases self.accounts.entries@.len() - a,
        {
            let key = self.accounts.entries[a].0;
            let src = &self.accounts.entries[a].1;
            proof {
                assert(self.accounts.entries@[a as int].0 == key);
                assert(self.accounts.spec_contains(key));
                let j = self.accounts.spec_idx(key);
                if j != a as int {
                    assert(self.accounts.entries@[j].0 != self.accounts.entries@[a as int].0);
                }
                assert(self.accounts.spec_at(key).wf());
            }
            if !accounts.contains_key(key) {
                let mut balances: Vec<(TokenId, Amount)> = Vec::new();
                let mut b: usize = 0;
                while b < src.token_balances.entries.len()
                    invariant
                        b <= src.token_balances.entries@.len(),
                        balances@ =~= src.token_balances.entries@.take(b as int),
                    decreases src.token_balances.entries@.len() - b,
                {
                    balances.push(src.token_balances.entries[b]);
                    b = b + 1;
                }
                let token_balances = KvMap { entries: balances };
                proof {
                    assert(token_balances.entries@ =~= src.token_balances.entries@);
                    assert forall|x: int, y: int|
                        0 <= x < y < token_balances.entries@.len() implies (
                    #[trigger] token_balances.entries@[x]).0 != (
                    #[trigger] token_balances.entries@[y]).0 by {
                        assert((src.token_balances.entries@[x]).0
                            != (src.token_balances.entries@[y]).0);
                    }
                }
                let mut positions: Vec<PositionId> = Vec::new();
                let mut p: usize = 0;
                while p < src.positions.len()
                    invariant
                        p <= src.positions@.len(),
                        positions@ =~= src.positions@.take(p as int),
                    decreases src.positions@.len() - p,
                {
                    positions.push(src.positions[p]);
                    p = p + 1;
                }
                let mut pending: Vec<(TokenId, Amount)> = Vec::new();
                let mut w: usize = 0;
                while w < src.withdraw_tracker.pending.len()
                    invariant
                        w <= src.withdraw_tracker.pending@.len(),
                        pending@ =~= src.withdraw_tracker.pending@.take(w as int),
                    decreases src.withdraw_tracker.pending@.len() - w,
                {
                    pending.push(src.withdraw_tracker.pending[w]);
                    w = w + 1;
                }
                accounts.insert_new(
                    key,
                    AccountV0 {
                        token_balances,
                        positions,
                        withdraw_tracker: WithdrawTracker { pending },
                    },
                );
            }
            a = a + 1;
        }
        // pools, each deep-copied
        let mut pools: KvMap128<PoolV0> = KvMap128::new();
        let mut q: usize = 0;
        while q < self.pools.entries.len()
            invariant
                pools.wf_keys(),
                q <= self.pools.entries@.len(),
                forall|k: u128| pools.spec_contains(k) ==> (#[trigger] pools.spec_at(k)).wf(),
                forall|k: u128|
                    pools.spec_contains(k) ==> (#[trigger] pools.spec_at(k)).reserve_invariant(),
            decreases self.pools.entries@.len() - q,
        {
            let key = self.pools.entries[q].0;
            let src = &self.pools.entries[q].1;
            proof {
                assert(self.pools.entries@[q as int].0 == key);
                assert(self.pools.spec_contains(key));
                let j = self.pools.spec_idx(key);
                if j != q as int {
                    assert(self.pools.entries@[j].0 != self.pools.entries@[q as int].0);
                }
                assert(self.pools.spec_at(key).wf());
                assert(self.pools.spec_at(key).reserve_invariant());
            }
            if !pools.contains_key(key) {
                pools.insert_new(key, src.snapshot());
            }
            q = q + 1;
        }
        // the position index holds plain values
        let mut index_entries: Vec<(PositionId, PoolId)> = Vec::new();
        let mut x: usize = 0;
        while x < self.position_to_pool_id.entries.len()
            invariant
                x <= self.position_to_pool_id.entries@.len(),
                index_entries@ =~= self.position_to_pool_id.entries@.take(x as int),
            decreases self.position_to_pool_id.entries@.len() - x,
        {
            index_entries.push(self.position_to_pool_id.entries[x]);
            x = x + 1;
        }
        let position_to_pool_id = KvMap { entries: index_entries };
        proof {
            assert(position_to_pool_id.entries@ =~= self.position_to_pool_id.entries@);
            assert forall|m: int, n: int|
                0 <= m < n < position_to_pool_id.entries@.len() implies (
            #[trigger] position_to_pool_id.entries@[m]).0 != (
            #[trigger] position_to_pool_id.entries@[n]).0 by {
                assert((self.position_to_pool_id.entries@[m]).0
                    != (self.position_to_pool_id.entries@[n]).0);
            }
        }
        Dex {
            owner_id: self.owner_id,
            guards,
            suspended: self.suspended,
            pools,
            accounts,
            verified_tokens,
            pool_count: self.pool_count,
            next_free_position_id: self.next_free_position_id,
            position_to_pool_id,
            protocol_fee_fraction: self.protocol_fee_fraction,
        }
    }

    /// Take a working copy of one pool for a hop: the buffered copy when
    /// the pool was already touched on this path, a fresh snapshot
    /// otherwise.
    #[verifier::loop_isolation(false)]
    fn take_hop_pool(&self, updated: &mut Vec<(u128, PoolV0)>, key: u128) -> (r: Result<
        PoolV0,
        ErrorKind,
    >)
        requires
            self.wf(),
            forall|j: int|
                0 <= j < old(updated)@.len() ==> (#[trigger] old(updated)@[j]).1.wf() && old(
                    updated,
                )@[j].1.reserve_invariant() && self.pools.spec_contains(old(updated)@[j].0),
        ensures
            forall|j: int|
                0 <= j < final(updated)@.len() ==> (#[trigger] final(updated)@[j]).1.wf()
                    && final(updated)@[j].1.reserve_invariant() && self.pools.spec_contains(
                    final(updated)@[j].0,
                ),
            match r {
                Ok(p) => p.wf() && p.reserve_invariant() && self.pools.spec_contains(key),
                Err(e) => *final(updated) == *old(updated) && e == ErrorKind::PoolNotRegistered
                    && !self.pools.spec_contains(key),
            },
    {
        let mut j: usize = 0;
        while j < updated.len()
            invariant
                j <= updated@.len(),
                *updated == *old(updated),
            decreases updated@.len() - j,
        {
            if updated[j].0 == key {
                proof {
                    assert(updated@[j as int].0 == key);
                }
                let (_k, pool) = updated.remove(j);
                return Ok(pool);
            }
            j = j + 1;
        }
        match self.pools.get(key) {
            Some(p) => Ok(p.snapshot()),
            None => Err(ErrorKind::PoolNotRegistered),
        }
    }

    /// Write the buffered pool copies back into the pool map.
    #[verifier::loop_isolation(false)]
    fn commit_hop_pools(&mut self, updated: Vec<(u128, PoolV0)>)
        requires
            old(self).wf(),
            forall|j: int|
                0 <= j < updated@.len() ==> (#[trigger] updated@[j]).1.wf()
                    && updated@[j].1.reserve_invariant() && old(self).pools.spec_contains(
                    updated@[j].0,
                ),
        ensures
            final(self).wf(),
            final(self).accounts == old(self).accounts,
            final(self).only_pools_and_accounts_changed(old(self)),
    {
        let mut updated = updated;
        let ghost pre = *self;
        while updated.len() > 0
            invariant
                self.wf(),
                self.accounts == pre.accounts,
                self.only_pools_and_accounts_changed(&pre),
                forall|m: int|
                    0 <= m < updated@.len() ==> (#[trigger] updated@[m]).1.wf()
                        && updated@[m].1.reserve_invariant() && self.pools.spec_contains(
                        updated@[m].0,
                    ),
            decreases updated@.len(),
        {
            let (key, pool) = updated.remove(0);
            self.pools.set_existing(key, pool);
        }
    }

    /// Exact-in swap along a token path: pay `amount_in` of the first
    /// token, receive the last token, requiring at least `min_amount_out`.
    /// All hops run on working copies; an error leaves the whole state
    /// unchanged.
    ///
    /// Returns `(amount_in, amount_out)`.
    #[verifier::loop_isolation(false)]
    pub fn swap_exact_in(&mut self, caller: AccountId, tokens: &Vec<TokenId>, amount_in: Amount,
        min_amount_out: Amount) -> (r: Result<(Amount, Amount), ErrorKind>)
        requires
            old(self).wf(),
        ensures
            final(self).wf(),
            match r {
                Ok((a_in, out)) => {
                    &&& a_in == amount_in
                    &&& out >= min_amount_out
                    &&& out > 0
                    &&& tokens@.len() >= 2
                    &&& !old(self).suspended
                    &&& old(self).accounts.spec_contains(caller)
                    &&& {
                        let first = tokens@[0];
                        let last = tokens@[tokens@.len() - 1];
                        let tb = old(self).accounts.spec_at(caller).token_balances;
                        let tb2 = final(self).accounts.spec_at(caller).token_balances;
                        if first != last {
                            tb2.spec_at(first) == tb.spec_at(first) - amount_in && tb2.spec_at(
                                last,
                            ) == tb.spec_at(last) + out
                        } else {
                            tb2.spec_at(first) == tb.spec_at(first) - amount_in + out
                        }
                    }
                    &&& final(self).accounts.same_except(&old(self).accounts, caller)
                    &&& final(self).only_pools_and_accounts_changed(old(self))
                },
                Err(_) => *final(self) == *old(self),
            },
    {
        match self.ensure_payable_api_resumed() {
            Ok(()) => {},
            Err(e) => {
                return Err(e);
            },
        }
        if tokens.len() < 2 {
            return Err(ErrorKind::AtLeastOneSwap);
        }
        let first = tokens[0];
        let last = tokens[tokens.len() - 1];
        // the caller must cover the input
        let bal_first = match self.get_deposit(caller, first) {
            Ok(b) => b,
            Err(e) => {
                return Err(e);
            },
        };
        if bal_first < amount_in {
            return Err(ErrorKind::NotEnoughTokens);
        }
        // run every hop on working copies; nothing is committed yet
        let mut updated: Vec<(u128, PoolV0)> = Vec::new();
        let mut amount = amount_in;
        let pff = self.protocol_fee_fraction;
        let mut i: usize = 0;
        while i < tokens.len() - 1
            invariant
                i <= tokens@.len() - 1,
                forall|j: int|
                    0 <= j < updated@.len() ==> (#[trigger] updated@[j]).1.wf()
                        && updated@[j].1.reserve_invariant() && self.pools.spec_contains(
                        updated@[j].0,
                    ),
            decreases tokens@.len() - i,
        {
            let (pool_id, _) = match PoolId::try_from_pair(tokens[i], tokens[i + 1]) {
                Ok(v) => v,
                Err(e) => {
                    return Err(e);
                },
            };
            let side = pool_id.side(tokens[i]);
            let key = pool_id.key();
            let mut work = match self.take_hop_pool(&mut updated, key) {
                Ok(p) => p,
                Err(e) => {
                    return Err(e);
                },
            };
            let out = match work.swap_exact_in_impl(side, amount, pff) {
                Ok((_a, o)) => o,
                Err(e) => {
                    return Err(e);
                },
            };
            updated.push((key, work));
            amount = out;
            i = i + 1;
        }
        if amount < min_amount_out {
            return Err(ErrorKind::Slippage);
        }
        if amount == 0 {
            return Err(ErrorKind::SwapAmountTooSmall);
        }
        // the credited balance must fit
        {
            let acct = match self.accounts.get(caller) {
                Some(a) => a,
                None => {
                    return Err(ErrorKind::AccountNotRegistered);
                },
            };
            let bal_last = match acct.token_balances.get(last) {
                Some(b) => *b,
                None => {
                    return Err(ErrorKind::TokenNotRegistered);
                },
            };
            if first != last {
                if amount > u128::MAX - bal_last {
                    return Err(ErrorKind::DepositWouldOverflow);
                }
            } else {
                if amount > u128::MAX - (bal_last - amount_in) {
                    return Err(ErrorKind::DepositWouldOverflow);
                }
            }
        }
        // commit: settle the caller's balances, then write the pools back
        let mut account = self.accounts.remove_key(caller);
        match account.withdraw(first, amount_in) {
            Ok(_) => {},
            Err(_) => {
                proof {
                    assert(false);
                }
            },
        }
        match account.deposit(last, amount) {
            Ok(_) => {},
            Err(_) => {
                proof {
                    assert(false);
                }
            },
        }
        self.accounts.insert_new(caller, account);
        self.commit_hop_pools(updated);
        Ok((amount_in, amount))
    }

    /// Exact-out swap along a token path: receive exactly `amount_out` of
    /// the last token, paying at most `max_amount_in` of the first.  All
    /// hops run on working copies; an error leaves the whole state
    /// unchanged.
    ///
    /// Returns `(amount_in, amount_out)`.
    #[verifier::loop_isolation(false)]
    pub fn swap_exact_out(&mut self, caller: AccountId, tokens: &Vec<TokenId>, amount_out: Amount,
        max_amount_in: Amount) -> (r: Result<(Amount, Amount), ErrorKind>)
        requires
            old(self).wf(),
        ensures
            final(self).wf(),
            match r {
                Ok((a_in, out)) => {
                    &&& out == amount_out
                    &&& a_in <= max_amount_in
                    &&& tokens@.len() >= 2
                    &&& !old(self).suspended
                    &&& old(self).accounts.spec_contains(caller)
                    &&& {
                        let first = tokens@[0];
                        let last = tokens@[tokens@.len() - 1];
                        let tb = old(self).accounts.spec_at(caller).token_balances;
                        let tb2 = final(self).accounts.spec_at(caller).token_balances;
                        if first != last {
                            tb2.spec_at(first) == tb.spec_at(first) - a_in && tb2.spec_at(last)
                                == tb.spec_at(last) + out
                        } else {
                            tb2.spec_at(first) == tb.spec_at(first) - a_in + out
                        }
                    }
                    &&& final(self).accounts.same_except(&old(self).accounts, caller)
                    &&& final(self).only_pools_and_accounts_changed(old(self))
                },
                Err(_) => *final(self) == *old(self),
            },
    {
        match self.ensure_payable_api_resumed() {
            Ok(()) => {},
            Err(e) => {
                return Err(e);
            },
        }
        if tokens.len() < 2 {
            return Err(ErrorKind::AtLeastOneSwap);
        }
        let first = tokens[0];
        let last = tokens[tokens.len() - 1];
        if !self.accounts.contains_key(caller) {
            return Err(ErrorKind::AccountNotRegistered);
        }
        // walk the path backwards on working copies, computing each hop's
        // required input; nothing is committed yet
        let mut updated: Vec<(u128, PoolV0)> = Vec::new();
        let mut needed = amount_out;
        let pff = self.protocol_fee_fraction;
        let mut j: usize = tokens.len() - 1;
        while j > 0
            invariant
                j < tokens@.len(),
                forall|m: int|
                    0 <= m < updated@.len() ==> (#[trigger] updated@[m]).1.wf()
                        && updated@[m].1.reserve_invariant() && self.pools.spec_contains(
                        updated@[m].0,
                    ),
            decreases j,
        {
            let (pool_id, _) = match PoolId::try_from_pair(tokens[j - 1], tokens[j]) {
                Ok(v) => v,
                Err(e) => {
                    return Err(e);
                },
            };
            let side = pool_id.side(tokens[j - 1]);
            let key = pool_id.key();
            let mut work = match self.take_hop_pool(&mut updated, key) {
                Ok(p) => p,
                Err(e) => {
                    return Err(e);
                },
            };
            let a_in = match work.swap_exact_out(side, needed, max_amount_in, pff) {
                Ok((a, _o)) => a,
                Err(e) => {
                    return Err(e);
                },
            };
            updated.push((key, work));
            needed = a_in;
            j = j - 1;
        }
        if needed > max_amount_in {
            return Err(ErrorKind::Slippage);
        }
        // the caller must cover the computed input, and the credit must fit
        {
            let acct = match self.accounts.get(caller) {
                Some(a) => a,
                None => {
                    return Err(ErrorKind::AccountNotRegistered);
                },
            };
            let bal_first = match acct.token_balances.get(first) {
                Some(b) => *b,
                None => {
                    return Err(ErrorKind::TokenNotRegistered);
                },
            };
            if bal_first < needed {
                return Err(ErrorKind::NotEnoughTokens);
            }
            let bal_last = match acct.token_balances.get(last) {
                Some(b) => *b,
                None => {
                    return Err(ErrorKind::TokenNotRegistered);
                },
            };
            if first != last {
                if amount_out > u128::MAX - bal_last {
                    return Err(ErrorKind::DepositWouldOverflow);
                }
            } else {
                if amount_out > u128::MAX - (bal_last - needed) {
                    return Err(ErrorKind::DepositWouldOverflow);
                }
            }
        }
        // commit
        let mut account = self.accounts.remove_key(caller);
        match account.withdraw(first, needed) {
            Ok(_) => {},
            Err(_) => {
                proof {
                    assert(false);
                }
            },
        }
        match account.deposit(last, amount_out) {
            Ok(_) => {},
            Err(_) => {
                proof {
                    assert(false);
                }
            },
        }
        self.accounts.insert_new(caller, account);
        self.commit_hop_pools(updated);
        Ok((needed, amount_out))
    }

    /// Execute a batch of actions for the caller.  `RegisterAccount` may
    /// appear only first; swap actions may chain through their outputs.
    /// The whole batch runs on a working copy and commits only when every
    /// action succeeded: a failing action leaves the state unchanged.
    pub fn execute_actions(&mut self, caller: AccountId, actions: Vec<Action>) -> (r: Result<
        Vec<ActionResult>,
        ErrorKind,
    >)
        requires
            old(self).wf(),
        ensures
            final(self).wf(),
            match r {
                Ok(results) => results@.len() == actions@.len(),
                Err(_) => *final(self) == *old(self),
            },
    {
        match self.ensure_payable_api_resumed() {
            Ok(()) => {},
            Err(e) => {
                return Err(e);
            },
        }
        let mut work = self.snapshot();
        let mut results: Vec<ActionResult> = Vec::new();
        let mut prev_out: Option<Amount> = None;
        let mut i: usize = 0;
        let n = actions.len();
        #[verifier::loop_isolation(false)]
        while i < n
            invariant
                work.wf(),
                n == actions@.len(),
                i <= n,
                results@.len() == i,
            decreases n - i,
        {
            let result: ActionResult = match &actions[i] {
                Action::RegisterAccount => {
                    if i != 0 {
                        return Err(ErrorKind::UnexpectedRegisterAccount);
                    }
                    match work.register_account(caller) {
                        Ok(()) => ActionResult::RegisterAccount,
                        Err(e) => {
                            return Err(e);
                        },
                    }
                },
                Action::RegisterTokens(tokens) => {
                    match work.register_tokens(caller, tokens) {
                        Ok(()) => ActionResult::RegisterTokens,
                        Err(e) => {
                            return Err(e);
                        },
                    }
                },
                Action::SwapExactIn(a) => {
                    let amount: Amount = match a.amount {
                        Some(v) => v,
                        None => match prev_out {
                            Some(v) => v,
                            None => {
                                return Err(ErrorKind::WrongActionResult);
                            },
                        },
                    };
                    let mut path: Vec<TokenId> = Vec::new();
                    path.push(a.token_in);
                    path.push(a.token_out);
                    match work.swap_exact_in(caller, &path, amount, a.amount_limit) {
                        Ok((_in, out)) => {
                            prev_out = Some(out);
                            ActionResult::SwapExactIn(out)
                        },
                        Err(e) => {
                            return Err(e);
                        },
                    }
                },
                Action::SwapExactOut(a) => {
                    let amount: Amount = match a.amount {
                        Some(v) => v,
                        None => match prev_out {
                            Some(v) => v,
                            None => {
                                return Err(ErrorKind::WrongActionResult);
                            },
                        },
                    };
                    let mut path: Vec<TokenId> = Vec::new();
                    path.push(a.token_in);
                    path.push(a.token_out);
                    match work.swap_exact_out(caller, &path, amount, a.amount_limit) {
                        Ok((ain, _out)) => {
                            prev_out = Some(ain);
                            ActionResult::SwapExactOut(ain)
                        },
                        Err(e) => {
                            return Err(e);
                        },
                    }
                },
                Action::Deposit(token, amount) => {
                    match work.deposit(caller, *token, *amount) {
                        Ok(_) => ActionResult::Deposit,
                        Err(e) => {
                            return Err(e);
                        },
                    }
                },
                Action::Withdraw(token, amount) => {
                    match work.withdraw(caller, *token, *amount) {
                        Ok(sent) => ActionResult::Withdraw(sent),
                        Err(e) => {
                            return Err(e);
                        },
                    }
                },
                Action::OpenPosition { tokens, fee_rate, position } => {
                    match work.open_position(caller, tokens.0, tokens.1, *fee_rate, position) {
                        Ok((id, _, _, _)) => ActionResult::OpenPosition(id),
                        Err(e) => {
                            return Err(e);
                        },
                    }
                },
                Action::ClosePosition(id) => {
                    match work.close_position(caller, *id) {
                        Ok(()) => ActionResult::ClosePosition,
                        Err(e) => {
                            return Err(e);
                        },
                    }
                },
                Action::WithdrawFee(id) => {
                    match work.withdraw_fee(caller, *id) {
                        Ok(_) => ActionResult::WithdrawFee,
                        Err(e) => {
                            return Err(e);
                        },
                    }
                },
            };
            results.push(result);
            i = i + 1;
        }
        *self = work;
        Ok(results)
    }
}

impl PoolV0 {
    /// Crude price estimate of the pool: the ratio of its total reserves.
    pub fn primitive_price(&self) -> (r: Result<U192X64, ErrorKind>)
        requires
            self.wf(),
        ensures
            match r {
                Ok(v) => v.wf(),
                Err(_) => true,
            },
    {
        let left = U192X64::from_u128(self.total_reserves.0);
        let right = U192X64::from_u128(self.total_reserves.1);
        if right.is_zero() {
            return Err(ErrorKind::InsufficientLiquidity);
        }
        match left.checked_div(&right) {
            Some(v) => Ok(v),
            None => Err(ErrorKind::ConvOverflow),
        }
    }

    /// Total liquidity over all levels, embedding each level's fee factor.
    pub fn total_liquidity(&self) -> (r: Result<U192X64, ErrorKind>)
        requires
            self.wf(),
        ensures
            match r {
                Ok(v) => v.wf(),
                Err(_) => true,
            },
    {
        let mut acc = U192X64::zero();
        let mut l: u8 = 0;
        #[verifier::loop_isolation(false)]
        while l < 8
            invariant
                acc.wf(),
            decreases 8 - l,
        {
            let f = crate::price::one_over_sqrt_one_minus_fee_rate(l);
            let f_liq = crate::pool_ops::u128x128_to_liquidity_pub(&f);
            let term = match self.net_liquidities[l as usize].checked_mul(&f_liq) {
                Some(v) => v,
                None => {
                    return Err(ErrorKind::ConvOverflow);
                },
            };
            acc = match acc.checked_add(&term) {
                Some(v) => v,
                None => {
                    return Err(ErrorKind::ConvOverflow);
                },
            };
            l = l + 1;
        }
        Ok(acc)
    }
}

impl Dex {
    fn pool_ref(&self, a: TokenId, b: TokenId) -> (r: Result<&PoolV0, ErrorKind>)
        requires
            self.wf(),
        ensures
            match r {
                Ok(p) => p.wf(),
                Err(_) => true,
            },
    {
        let (pool_id, _) = match PoolId::try_from_pair(a, b) {
            Ok(v) => v,
            Err(e) => {
                return Err(e);
            },
        };
        match self.pools.get(pool_id.key()) {
            Some(p) => Ok(p),
            None => Err(ErrorKind::PoolNotRegistered),
        }
    }

    fn price_of_pair(&self, a: TokenId, b: TokenId) -> (r: Result<U192X64, ErrorKind>)
        requires
            self.wf(),
        ensures
            match r {
                Ok(v) => v.wf(),
                Err(_) => true,
            },
    {
        let (pool_id, swapped) = match PoolId::try_from_pair(a, b) {
            Ok(v) => v,
            Err(e) => {
                return Err(e);
            },
        };
        let pool = match self.pools.get(pool_id.key()) {
            Some(p) => p,
            None => {
                return Err(ErrorKind::PoolNotRegistered);
            },
        };
        let price = match pool.primitive_price() {
            Ok(p) => p,
            Err(e) => {
                return Err(e);
            },
        };
        if swapped {
            if price.is_zero() {
                return Err(ErrorKind::InsufficientLiquidity);
            }
            let one = U192X64::one();
            match one.checked_div(&price) {
                Some(v) => Ok(v),
                None => Err(ErrorKind::ConvOverflow),
            }
        } else {
            Ok(price)
        }
    }

    fn total_liquidity_of_pair(&self, a: TokenId, b: TokenId) -> (r: Result<U192X64, ErrorKind>)
        requires
            self.wf(),
        ensures
            match r {
                Ok(v) => v.wf(),
                Err(_) => true,
            },
    {
        let pool = match self.pool_ref(a, b) {
            Ok(p) => p,
            Err(e) => {
                return Err(e);
            },
        };
        pool.total_liquidity()
    }

    /// Estimated liquidity of a swap path of two, three or four tokens:
    /// the geometric combination of the hop liquidities deflated by the
    /// intermediate prices.
    pub fn calculate_path_liquidity(&self, tokens: &Vec<TokenId>) -> (r: Result<
        U192X64,
        ErrorKind,
    >)
        requires
            self.wf(),
        ensures
            match r {
                Ok(v) => v.wf() && (tokens@.len() == 2 || tokens@.len() == 3 || tokens@.len()
                    == 4),
                Err(_) => true,
            },
            (tokens@.len() != 2 && tokens@.len() != 3 && tokens@.len() != 4) ==> r == Err::<
                U192X64,
                ErrorKind,
            >(ErrorKind::InvalidParams),
    {
        if tokens.len() == 2 {
            self.total_liquidity_of_pair(tokens[0], tokens[1])
        } else if tokens.len() == 3 {
            let liq_xa = match self.total_liquidity_of_pair(tokens[0], tokens[1]) {
                Ok(v) => v,
                Err(e) => {
                    return Err(e);
                },
            };
            let liq_ay = match self.total_liquidity_of_pair(tokens[1], tokens[2]) {
                Ok(v) => v,
                Err(e) => {
                    return Err(e);
                },
            };
            let price_xa = match self.price_of_pair(tokens[0], tokens[1]) {
                Ok(v) => v,
                Err(e) => {
                    return Err(e);
                },
            };
            let price_ay = match self.price_of_pair(tokens[1], tokens[2]) {
                Ok(v) => v,
                Err(e) => {
                    return Err(e);
                },
            };
            let num = match liq_xa.checked_mul(&liq_ay) {
                Some(v) => v,
                None => {
                    return Err(ErrorKind::ConvOverflow);
                },
            };
            let p2 = match price_xa.checked_mul(&price_xa) {
                Some(v) => v,
                None => {
                    return Err(ErrorKind::ConvOverflow);
                },
            };
            let q2 = match price_ay.checked_mul(&price_ay) {
                Some(v) => v,
                None => {
                    return Err(ErrorKind::ConvOverflow);
                },
            };
            let den = match p2.checked_mul(&q2) {
                Some(v) => v,
                None => {
                    return Err(ErrorKind::ConvOverflow);
                },
            };
            if den.is_zero() {
                return Err(ErrorKind::InsufficientLiquidity);
            }
            let ratio = match num.checked_div(&den) {
                Some(v) => v,
                None => {
                    return Err(ErrorKind::ConvOverflow);
                },
            };
            Ok(ratio.integer_sqrt())
        } else if tokens.len() == 4 {
            let liq_xa = match self.total_liquidity_of_pair(tokens[0], tokens[1]) {
                Ok(v) => v,
                Err(e) => {
                    return Err(e);
                },
            };
            let liq_ab = match self.total_liquidity_of_pair(tokens[1], tokens[2]) {
                Ok(v) => v,
                Err(e) => {
                    return Err(e);
                },
            };
            let liq_by = match self.total_liquidity_of_pair(tokens[2], tokens[3]) {
                Ok(v) => v,
                Err(e) => {
                    return Err(e);
                },
            };
            let price_xa = match self.price_of_pair(tokens[0], tokens[1]) {
                Ok(v) => v,
                Err(e) => {
                    return Err(e);
                },
            };
            let price_by = match self.price_of_pair(tokens[2], tokens[3]) {
                Ok(v) => v,
                Err(e) => {
                    return Err(e);
                },
            };
            let num = match liq_xa.checked_mul(&liq_ab) {
                Some(v) => match v.checked_mul(&liq_by) {
                    Some(v2) => v2,
                    None => {
                        return Err(ErrorKind::ConvOverflow);
                    },
                },
                None => {
                    return Err(ErrorKind::ConvOverflow);
                },
            };
            let p2 = match price_xa.checked_mul(&price_xa) {
                Some(v) => v,
                None => {
                    return Err(ErrorKind::ConvOverflow);
                },
            };
            let q2 = match price_by.checked_mul(&price_by) {
                Some(v) => v,
                None => {
                    return Err(ErrorKind::ConvOverflow);
                },
            };
            let den = match p2.checked_mul(&q2) {
                Some(v) => v,
                None => {
                    return Err(ErrorKind::ConvOverflow);
                },
            };
            if den.is_zero() {
                return Err(ErrorKind::InsufficientLiquidity);
            }
            let ratio = match num.checked_div(&den) {
                Some(v) => v,
                None => {
                    return Err(ErrorKind::ConvOverflow);
                },
            };
            // lift into the wide symmetric type for the cube root
            let wide = crate::fp::u192x192::U192X192::from_raw(crate::fp::fp_widen_limbs(
                ratio.raw(),
                2,
                6,
            ));
            let root = wide.integer_cbrt();
            match crate::fp::fp_narrow_limbs(root.raw(), 2, 4) {
                Some(limbs) => Ok(U192X64::from_raw(limbs)),
                None => Err(ErrorKind::ConvOverflow),
            }
        } else {
            Err(ErrorKind::InvalidParams)
        }
    }
}

impl Dex {
    /// Exact-in swaps over several paths at once; the combined output must
    /// reach `min_amount_out`.  The whole batch runs on a working copy and
    /// commits only when every path succeeded and the combined output is
    /// acceptable: a failure leaves the state unchanged.
    ///
    /// Returns one `(amount_in, amount_out)` pair per path.
    #[verifier::loop_isolation(false)]
    pub fn multiple_path_swap_exact_in(
        &mut self,
        caller: AccountId,
        paths: &Vec<Path>,
        min_amount_out: Amount,
    ) -> (r: Result<Vec<(Amount, Amount)>, ErrorKind>)
        requires
            old(self).wf(),
        ensures
            final(self).wf(),
            match r {
                Ok(pairs) => pairs@.len() == paths@.len(),
                Err(_) => *final(self) == *old(self),
            },
    {
        match self.ensure_payable_api_resumed() {
            Ok(()) => {},
            Err(e) => {
                return Err(e);
            },
        }
        let mut work = self.snapshot();
        let mut pairs: Vec<(Amount, Amount)> = Vec::new();
        let mut total_out: Amount = 0;
        let mut i: usize = 0;
        let n = paths.len();
        while i < n
            invariant
                work.wf(),
                n == paths@.len(),
                i <= n,
                pairs@.len() == i,
            decreases n - i,
        {
            let path = &paths[i];
            let (a_in, a_out) = match work.swap_exact_in(caller, &path.tokens, path.amount, 0) {
                Ok(v) => v,
                Err(e) => {
                    return Err(e);
                },
            };
            total_out = match total_out.checked_add(a_out) {
                Some(v) => v,
                None => {
                    return Err(ErrorKind::DepositWouldOverflow);
                },
            };
            pairs.push((a_in, a_out));
            i = i + 1;
        }
        if total_out < min_amount_out {
            return Err(ErrorKind::Slippage);
        }
        *self = work;
        Ok(pairs)
    }

    /// Exact-out swaps over several paths at once; the combined input must
    /// stay within `max_amount_in`.  The whole batch runs on a working
    /// copy and commits only when every path succeeded within the
    /// allowance: a failure leaves the state unchanged.
    ///
    /// Returns one `(amount_in, amount_out)` pair per path.
    #[verifier::loop_isolation(false)]
    pub fn multiple_path_swap_exact_out(
        &mut self,
        caller: AccountId,
        paths: &Vec<Path>,
        max_amount_in: Amount,
    ) -> (r: Result<Vec<(Amount, Amount)>, ErrorKind>)
        requires
            old(self).wf(),
        ensures
            final(self).wf(),
            match r {
                Ok(pairs) => pairs@.len() == paths@.len(),
                Err(_) => *final(self) == *old(self),
            },
    {
        match self.ensure_payable_api_resumed() {
            Ok(()) => {},
            Err(e) => {
                return Err(e);
            },
        }
        let mut work = self.snapshot();
        let mut pairs: Vec<(Amount, Amount)> = Vec::new();
        let mut total_in: Amount = 0;
        let mut i: usize = 0;
        let n = paths.len();
        while i < n
            invariant
                work.wf(),
                n == paths@.len(),
                i <= n,
                pairs@.len() == i,
            decreases n - i,
        {
            let path = &paths[i];
            let (a_in, a_out) = match work.swap_exact_out(
                caller,
                &path.tokens,
                path.amount,
                max_amount_in,
            ) {
                Ok(v) => v,
                Err(e) => {
                    return Err(e);
                },
            };
            total_in = match total_in.checked_add(a_in) {
                Some(v) => v,
                None => {
                    return Err(ErrorKind::DepositWouldOverflow);
                },
            };
            pairs.push((a_in, a_out));
            i = i + 1;
        }
        if total_in > max_amount_in {
            return Err(ErrorKind::Slippage);
        }
        *self = work;
        Ok(pairs)
    }
}

} // verus!



