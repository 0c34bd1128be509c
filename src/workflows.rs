//! The pool's operations, each split in the decision taken before its ledger
//! transfers and the commit made once they succeeded.
use crate::address::{address_key, ascii_lowercase, convert_eth_address_to_subaccount, sub_identity_of};
use crate::errors::{
    GetBtcDepositAddressError, StakeError, UnlockTokensInQueueError, UnstakeError,
    UpdateBalanceError, WithdrawBtcError,
};
use crate::signature::{signature_accepted, verify_signature};
use crate::state::{
    lemma_owed_covers, lemma_owed_push, lemma_owed_update, lemma_pending_front,
    lemma_address_key_idempotent, lemma_pending_push, lemma_records_push, lemma_records_update,
    owed_otbtc, pending_unbond, record_sound, unique_addresses, BtcStakingPoolState, Staker, UnstakeRequest,
};
use crate::types::{
    GetBtcAddressArgs, StakeArgs, UnstakeArgs, UpdateBalanceArgs, UtxoStatus, WithdrawBtcArgs,
};
use vstd::prelude::*;
use vstd::utf8::encode_utf8;

verus! {

/// What an authenticated request was granted: the staker's custody
/// sub-account, and the nonce the signature was checked against.
#[derive(Debug, Clone, Copy, PartialEq, Eq)]
pub struct Authorized {
    pub subaccount: [u8; 32],
    pub tx_nonce: u64,
}

/// Why a signed request is turned away before any transfer.
#[derive(Debug, Clone, Copy, PartialEq, Eq)]
pub enum Refusal {
    InvalidEthereumAddress,
    LackOfStakerRecord,
    NotEnoughBalance,
    InvalidSignature,
}

/// The ckBTC balance, or with `derivative` the otBTC balance, of a staker.
pub open spec fn balance_of(s: Staker, derivative: bool) -> u64 {
    if derivative {
        s.otbtc_balance
    } else {
        s.ckbtc_balance
    }
}

/// The record after a committed stake of `amount`.
pub open spec fn staked(s: Staker, amount: u64) -> Staker {
    Staker {
        tx_nonce: (s.tx_nonce + 1) as u64,
        ckbtc_balance: (s.ckbtc_balance - amount) as u64,
        otbtc_balance: (s.otbtc_balance + amount) as u64,
        ..s
    }
}

/// The record after a committed unstake of `amount`.
pub open spec fn unstaked(s: Staker, amount: u64) -> Staker {
    Staker {
        tx_nonce: (s.tx_nonce + 1) as u64,
        otbtc_balance: (s.otbtc_balance - amount) as u64,
        ..s
    }
}

/// The record after a committed withdrawal of `amount`.
pub open spec fn withdrawn(s: Staker, amount: u64) -> Staker {
    Staker {
        tx_nonce: (s.tx_nonce + 1) as u64,
        ckbtc_balance: (s.ckbtc_balance - amount) as u64,
        ..s
    }
}

/// The record after `amount` ckBTC was credited to it.
pub open spec fn credited(s: Staker, amount: u64) -> Staker {
    Staker { ckbtc_balance: (s.ckbtc_balance + amount) as u64, ..s }
}

/// Two states with the same collaborators and unbonding period.
pub open spec fn same_config(a: BtcStakingPoolState, b: BtcStakingPoolState) -> bool {
    a.ckbtc_minting_account == b.ckbtc_minting_account && a.ckbtc_ledger_account
        == b.ckbtc_ledger_account && a.otbtc_ledger_account == b.otbtc_ledger_account
        && a.unbonding_period == b.unbonding_period
}

/// The first gate that a request of `amount` by address `a` fails before its
/// signature is looked at, checked in order: the address, the record, the
/// balance.
pub open spec fn refusal(
    pool: BtcStakingPoolState,
    a: Seq<char>,
    amount: u64,
    derivative: bool,
) -> Option<Refusal> {
    if sub_identity_of(encode_utf8(a)) is None {
        Some(Refusal::InvalidEthereumAddress)
    } else if !pool.stakers().contains_key(a) {
        Some(Refusal::LackOfStakerRecord)
    } else if balance_of(pool.stakers()[a], derivative) < amount {
        Some(Refusal::NotEnoughBalance)
    } else {
        None
    }
}

/// `auth` holds the sub-account of `a` and the current nonce of its record,
/// and `signature` authorises `action` on `amount` at that nonce for `a`.
pub open spec fn grants(
    pool: BtcStakingPoolState,
    a: Seq<char>,
    action: Seq<char>,
    amount: u64,
    signature: Seq<u8>,
    auth: Authorized,
) -> bool {
    &&& sub_identity_of(encode_utf8(a)) == Some(auth.subaccount@)
    &&& pool.stakers().contains_key(a)
    &&& auth.tx_nonce == pool.stakers()[a].tx_nonce
    &&& signature_accepted(pool.stakers()[a].eth_address@, auth.tx_nonce, action, amount, signature)
}

/// The outcome of the gates of a signed request, in terms of `Refusal`: past
/// the address, record and balance gates, the request is granted exactly when
/// the signature authorises `action` on `amount` at the record's nonce.
pub open spec fn gate_outcome(
    pool: BtcStakingPoolState,
    a: Seq<char>,
    amount: u64,
    derivative: bool,
    action: Seq<char>,
    signature: Seq<u8>,
    r: Result<Authorized, Refusal>,
) -> bool {
    match refusal(pool, a, amount, derivative) {
        Some(f) => r == Err::<Authorized, Refusal>(f),
        None => {
            &&& r is Ok <==> signature_accepted(
                pool.stakers()[a].eth_address@,
                pool.stakers()[a].tx_nonce,
                action,
                amount,
                signature,
            )
            &&& match r {
                Ok(auth) => grants(pool, a, action, amount, signature, auth),
                Err(f) => f == Refusal::InvalidSignature,
            }
        },
    }
}

/// The gates of a signed request whose balance is the ckBTC one, or with
/// `derivative` the otBTC one.
fn authorize(
    pool: &BtcStakingPoolState,
    eth_address: &String,
    amount: u64,
    derivative: bool,
    action: &str,
    signature: &Vec<u8>,
) -> (r: Result<Authorized, Refusal>)
    requires
        pool.wf(),
    ensures
        gate_outcome(*pool, eth_address@, amount, derivative, action@, signature@, r),
{
    let subaccount = match convert_eth_address_to_subaccount(eth_address.as_str()) {
        Ok(s) => s,
        Err(_) => return Err(Refusal::InvalidEthereumAddress),
    };
    let staker = match pool.get_staker(eth_address) {
        Some(s) => s,
        None => return Err(Refusal::LackOfStakerRecord),
    };
    let balance = if derivative {
        staker.otbtc_balance
    } else {
        staker.ckbtc_balance
    };
    if balance < amount {
        return Err(Refusal::NotEnoughBalance);
    }
    match verify_signature(staker, action, amount, signature) {
        Ok(()) => Ok(Authorized { subaccount, tx_nonce: staker.tx_nonce }),
        Err(_) => Err(Refusal::InvalidSignature),
    }
}


/// Why a commit that follows the transfers of a signed request cannot be
/// made on the current state: the record is gone, another action was
/// committed since the check (the nonce moved on), or the balance no longer
/// covers the amount.
pub open spec fn stale(
    pool: BtcStakingPoolState,
    a: Seq<char>,
    tx_nonce: u64,
    amount: u64,
    derivative: bool,
) -> Option<Refusal> {
    if !pool.stakers().contains_key(a) {
        Some(Refusal::LackOfStakerRecord)
    } else if pool.stakers()[a].tx_nonce != tx_nonce {
        Some(Refusal::InvalidSignature)
    } else if balance_of(pool.stakers()[a], derivative) < amount {
        Some(Refusal::NotEnoughBalance)
    } else {
        None
    }
}

/// `s1` is `s0` after a committed stake of `amount` by `a`.
pub open spec fn stake_step(
    s0: BtcStakingPoolState,
    s1: BtcStakingPoolState,
    a: Seq<char>,
    amount: u64,
) -> bool {
    &&& s1.stakers() == s0.stakers().insert(a, staked(s0.stakers()[a], amount))
    &&& s1.queue() == s0.queue()
    &&& s1.total_ckbtc_in_pool == s0.total_ckbtc_in_pool + amount
}

/// `s1` is `s0` after a committed unstake of `amount` by `a` at time `now`:
/// one request, due one unbonding period later, joins the tail of the queue.
pub open spec fn unstake_step(
    s0: BtcStakingPoolState,
    s1: BtcStakingPoolState,
    a: Seq<char>,
    amount: u64,
    now: u64,
) -> bool {
    &&& s1.stakers() == s0.stakers().insert(a, unstaked(s0.stakers()[a], amount))
    &&& s1.queue() == s0.queue().push(s1.queue().last())
    &&& s1.queue().last().eth_address@ == a
    &&& s1.queue().last().amount == amount
    &&& s1.queue().last().unlock_time == now + s0.unbonding_period
    &&& s1.total_ckbtc_in_pool == s0.total_ckbtc_in_pool
}

/// `s1` is `s0` after a committed withdrawal of `amount` by `a`.
pub open spec fn withdraw_step(
    s0: BtcStakingPoolState,
    s1: BtcStakingPoolState,
    a: Seq<char>,
    amount: u64,
) -> bool {
    &&& s1.stakers() == s0.stakers().insert(a, withdrawn(s0.stakers()[a], amount))
    &&& s1.queue() == s0.queue()
    &&& s1.total_ckbtc_in_pool == s0.total_ckbtc_in_pool
}

/// `s1` is `s0` after the head of its queue was released: the head leaves
/// the queue and its amount moves from the pool to its staker's balance.
pub open spec fn release_step(s0: BtcStakingPoolState, s1: BtcStakingPoolState) -> bool {
    let head = s0.queue()[0];
    &&& s0.queue().len() > 0
    &&& s1.queue() == s0.queue().subrange(1, s0.queue().len() as int)
    &&& s1.total_ckbtc_in_pool == s0.total_ckbtc_in_pool - head.amount
    &&& s1.stakers() == s0.stakers().insert(
        head.eth_address@,
        credited(s0.stakers()[head.eth_address@], head.amount),
    )
}

/// What releasing the head of the queue needs: the amount and where it goes,
/// with the head's unlock time to tell it from a later request.
#[derive(Debug, Clone, Copy, PartialEq, Eq)]
pub struct UnlockPlan {
    pub amount: u64,
    pub subaccount: [u8; 32],
    pub unlock_time: u64,
}

/// The head of the queue is still the request that `plan` was made for.
pub open spec fn plan_is_head(pool: BtcStakingPoolState, plan: UnlockPlan) -> bool {
    let head = pool.queue()[0];
    &&& pool.queue().len() > 0
    &&& pool.stakers().contains_key(head.eth_address@)
    &&& head.amount == plan.amount
    &&& head.unlock_time == plan.unlock_time
    &&& pool.stakers()[head.eth_address@].subaccount@ == plan.subaccount@
}

fn same_subaccount(a: &[u8; 32], b: &[u8; 32]) -> (r: bool)
    ensures
        r == (a@ == b@),
{
    let mut i: usize = 0;
    while i < 32
        invariant
            i <= 32,
            a@.len() == 32,
            b@.len() == 32,
            forall|j: int| 0 <= j < i ==> a@[j] == b@[j],
        decreases 32 - i,
    {
        if a[i] != b[i] {
            return false;
        }
        i += 1;
    }
    assert(a@ =~= b@);
    true
}

impl BtcStakingPoolState {
    fn replace_record(&mut self, i: usize, rec: Staker)
        requires
            unique_addresses(old(self).stakers_map@),
            i < old(self).stakers_map@.len(),
            rec.eth_address@ == old(self).stakers_map@[i as int].eth_address@,
            record_sound(rec),
            forall|j: int|
                0 <= j < old(self).stakers_map@.len() ==> record_sound(
                    #[trigger] old(self).stakers_map@[j],
                ),
        ensures
            unique_addresses(final(self).stakers_map@),
            forall|j: int|
                0 <= j < final(self).stakers_map@.len() ==> record_sound(
                    #[trigger] final(self).stakers_map@[j],
                ),
            owed_otbtc(final(self).stakers_map@) + old(self).stakers_map@[i as int].otbtc_balance
                == owed_otbtc(old(self).stakers_map@) + rec.otbtc_balance,
            final(self).stakers() == old(self).stakers().insert(rec.eth_address@, rec),
            final(self).queue() == old(self).queue(),
            final(self).total_ckbtc_in_pool == old(self).total_ckbtc_in_pool,
            same_config(*old(self), *final(self)),
    {
        proof {
            lemma_records_update(self.stakers_map@, i as int, rec);
            lemma_owed_update(self.stakers_map@, i as int, rec);
        }
        self.stakers_map[i] = rec;
    }

    /// The gates of a stake: a valid address, a record, enough ckBTC, and a
    /// signature of `"{nonce}:stake:{amount}"` by the address.
    pub fn check_stake(&self, args: &StakeArgs) -> (r: Result<Authorized, StakeError>)
        requires
            self.wf(),
        ensures
            match refusal(*self, address_key(args.eth_address@), args.amount, false) {
                Some(Refusal::InvalidEthereumAddress) => r matches Err(
                    StakeError::InvalidEthereumAddress,
                ),
                Some(Refusal::LackOfStakerRecord) => r matches Err(StakeError::LackOfStakerRecord),
                Some(_) => r matches Err(StakeError::NotEnoughCkbtcBalance),
                None => (r is Ok <==> signature_accepted(
                    self.stakers()[address_key(args.eth_address@)].eth_address@,
                    self.stakers()[address_key(args.eth_address@)].tx_nonce,
                    "stake"@,
                    args.amount,
                    args.signature@,
                )) && match r {
                    Ok(auth) => grants(
                        *self,
                        address_key(args.eth_address@),
                        "stake"@,
                        args.amount,
                        args.signature@,
                        auth,
                    ),
                    Err(e) => e matches StakeError::InvalidSignature,
                },
            },
    {
        match authorize(self, &ascii_lowercase(args.eth_address.as_str()), args.amount, false, "stake", &args.signature) {
            Ok(auth) => Ok(auth),
            Err(Refusal::InvalidEthereumAddress) => Err(StakeError::InvalidEthereumAddress),
            Err(Refusal::LackOfStakerRecord) => Err(StakeError::LackOfStakerRecord),
            Err(Refusal::NotEnoughBalance) => Err(StakeError::NotEnoughCkbtcBalance),
            Err(Refusal::InvalidSignature) => Err(StakeError::InvalidSignature),
        }
    }

    /// Commits a stake of `amount` by `eth_address` once both transfers
    /// succeeded: the nonce moves on, `amount` moves from the ckBTC to the
    /// otBTC balance, and the pool holds `amount` more.
    pub fn commit_stake(&mut self, eth_address: &String, auth: Authorized, amount: u64) -> (r:
        Result<(), StakeError>)
        requires
            old(self).wf(),
            old(self).total_ckbtc_in_pool + amount <= u64::MAX,
            old(self).stakers().contains_key(address_key(eth_address@)) ==> old(self).stakers()[address_key(eth_address@)].tx_nonce
                < u64::MAX,
        ensures
            final(self).wf(),
            same_config(*old(self), *final(self)),
            stale(*old(self), address_key(eth_address@), auth.tx_nonce, amount, false) is Some ==> (r matches Err(
                StakeError::StateChangedDuringTransfer,
            ) && *final(self) == *old(self)),
            stale(*old(self), address_key(eth_address@), auth.tx_nonce, amount, false) is None ==> (r is Ok && stake_step(*old(self), *final(self), address_key(eth_address@), amount)),
    {
        let key = ascii_lowercase(eth_address.as_str());
        let eth_address = &key;
        let i = match self.find_staker(eth_address) {
            Some(i) => i,
            None => return Err(StakeError::StateChangedDuringTransfer),
        };
        let rec = &self.stakers_map[i];
        if rec.tx_nonce != auth.tx_nonce {
            return Err(StakeError::StateChangedDuringTransfer);
        }
        if rec.ckbtc_balance < amount {
            return Err(StakeError::StateChangedDuringTransfer);
        }
        proof {
            lemma_owed_covers(self.stakers_map@, i as int);
        }
        let next = Staker {
            eth_address: rec.eth_address.clone(),
            subaccount: rec.subaccount,
            tx_nonce: rec.tx_nonce + 1,
            ckbtc_balance: rec.ckbtc_balance - amount,
            otbtc_balance: rec.otbtc_balance + amount,
        };
        assert(next == staked(old(self).stakers()[eth_address@], amount));
        self.replace_record(i, next);
        self.total_ckbtc_in_pool = self.total_ckbtc_in_pool + amount;
        Ok(())
    }

    /// The gates of an unstake: a valid address, a record, enough otBTC, and
    /// a signature of `"{nonce}:unstake:{amount}"` by the address.
    pub fn check_unstake(&self, args: &UnstakeArgs) -> (r: Result<Authorized, UnstakeError>)
        requires
            self.wf(),
        ensures
            match refusal(*self, address_key(args.eth_address@), args.amount, true) {
                Some(Refusal::InvalidEthereumAddress) => r matches Err(
                    UnstakeError::InvalidEthereumAddress,
                ),
                Some(Refusal::LackOfStakerRecord) => r matches Err(UnstakeError::LackOfStakerRecord),
                Some(_) => r matches Err(UnstakeError::NotEnoughOtbtcBalance),
                None => (r is Ok <==> signature_accepted(
                    self.stakers()[address_key(args.eth_address@)].eth_address@,
                    self.stakers()[address_key(args.eth_address@)].tx_nonce,
                    "unstake"@,
                    args.amount,
                    args.signature@,
                )) && match r {
                    Ok(auth) => grants(
                        *self,
                        address_key(args.eth_address@),
                        "unstake"@,
                        args.amount,
                        args.signature@,
                        auth,
                    ),
                    Err(e) => e matches UnstakeError::InvalidSignature,
                },
            },
    {
        match authorize(self, &ascii_lowercase(args.eth_address.as_str()), args.amount, true, "unstake", &args.signature) {
            Ok(auth) => Ok(auth),
            Err(Refusal::InvalidEthereumAddress) => Err(UnstakeError::InvalidEthereumAddress),
            Err(Refusal::LackOfStakerRecord) => Err(UnstakeError::LackOfStakerRecord),
            Err(Refusal::NotEnoughBalance) => Err(UnstakeError::NotEnoughOtbtcBalance),
            Err(Refusal::InvalidSignature) => Err(UnstakeError::InvalidSignature),
        }
    }

    /// Commits an unstake of `amount` by `eth_address` at time `now` once the
    /// otBTC came back: the nonce moves on, the otBTC balance drops by
    /// `amount`, and a request due at `now` plus the unbonding period joins
    /// the tail of the queue.
    pub fn commit_unstake(
        &mut self,
        eth_address: &String,
        auth: Authorized,
        amount: u64,
        now: u64,
    ) -> (r: Result<(), UnstakeError>)
        requires
            old(self).wf(),
            now + old(self).unbonding_period <= u64::MAX,
            old(self).stakers().contains_key(address_key(eth_address@)) ==> old(self).stakers()[address_key(eth_address@)].tx_nonce
                < u64::MAX,
        ensures
            final(self).wf(),
            same_config(*old(self), *final(self)),
            stale(*old(self), address_key(eth_address@), auth.tx_nonce, amount, true) is Some ==> (r matches Err(
                UnstakeError::StateChangedDuringTransfer,
            ) && *final(self) == *old(self)),
            stale(*old(self), address_key(eth_address@), auth.tx_nonce, amount, true) is None ==> (r is Ok && unstake_step(*old(self), *final(self), address_key(eth_address@), amount, now)),
    {
        let key = ascii_lowercase(eth_address.as_str());
        let eth_address = &key;
        let i = match self.find_staker(eth_address) {
            Some(i) => i,
            None => return Err(UnstakeError::StateChangedDuringTransfer),
        };
        let rec = &self.stakers_map[i];
        if rec.tx_nonce != auth.tx_nonce {
            return Err(UnstakeError::StateChangedDuringTransfer);
        }
        if rec.otbtc_balance < amount {
            return Err(UnstakeError::StateChangedDuringTransfer);
        }
        let next = Staker {
            eth_address: rec.eth_address.clone(),
            subaccount: rec.subaccount,
            tx_nonce: rec.tx_nonce + 1,
            ckbtc_balance: rec.ckbtc_balance,
            otbtc_balance: rec.otbtc_balance - amount,
        };
        assert(next == unstaked(old(self).stakers()[eth_address@], amount));
        self.replace_record(i, next);
        let request = UnstakeRequest {
            eth_address: eth_address.clone(),
            amount,
            unlock_time: now + self.unbonding_period,
        };
        proof {
            lemma_pending_push(self.unstaking_queue@, request);
        }
        self.unstaking_queue.push_back(request);
        Ok(())
    }

    /// The gates of a withdrawal: a valid address, a record, enough ckBTC,
    /// and a signature of `"{nonce}:withdraw:{amount}"` by the address.
    pub fn check_withdraw(&self, args: &WithdrawBtcArgs) -> (r: Result<
        Authorized,
        WithdrawBtcError,
    >)
        requires
            self.wf(),
        ensures
            match refusal(*self, address_key(args.eth_address@), args.amount, false) {
                Some(Refusal::InvalidEthereumAddress) => r matches Err(
                    WithdrawBtcError::InvalidEthereumAddress,
                ),
                Some(Refusal::LackOfStakerRecord) => r matches Err(
                    WithdrawBtcError::LackOfStakerRecord,
                ),
                Some(_) => r matches Err(WithdrawBtcError::NotEnoughCkbtcBalance),
                None => (r is Ok <==> signature_accepted(
                    self.stakers()[address_key(args.eth_address@)].eth_address@,
                    self.stakers()[address_key(args.eth_address@)].tx_nonce,
                    "withdraw"@,
                    args.amount,
                    args.signature@,
                )) && match r {
                    Ok(auth) => grants(
                        *self,
                        address_key(args.eth_address@),
                        "withdraw"@,
                        args.amount,
                        args.signature@,
                        auth,
                    ),
                    Err(e) => e matches WithdrawBtcError::InvalidSignature,
                },
            },
    {
        match authorize(
            self,
            &ascii_lowercase(args.eth_address.as_str()),
            args.amount,
            false,
            "withdraw",
            &args.signature,
        ) {
            Ok(auth) => Ok(auth),
            Err(Refusal::InvalidEthereumAddress) => Err(WithdrawBtcError::InvalidEthereumAddress),
            Err(Refusal::LackOfStakerRecord) => Err(WithdrawBtcError::LackOfStakerRecord),
            Err(Refusal::NotEnoughBalance) => Err(WithdrawBtcError::NotEnoughCkbtcBalance),
            Err(Refusal::InvalidSignature) => Err(WithdrawBtcError::InvalidSignature),
        }
    }

    /// Commits a withdrawal of `amount` by `eth_address` once the ckBTC left
    /// for the minter: the nonce moves on and the ckBTC balance drops by
    /// `amount`.
    pub fn commit_withdraw(&mut self, eth_address: &String, auth: Authorized, amount: u64) -> (r:
        Result<(), WithdrawBtcError>)
        requires
            old(self).wf(),
            old(self).stakers().contains_key(address_key(eth_address@)) ==> old(self).stakers()[address_key(eth_address@)].tx_nonce
                < u64::MAX,
        ensures
            final(self).wf(),
            same_config(*old(self), *final(self)),
            stale(*old(self), address_key(eth_address@), auth.tx_nonce, amount, false) is Some ==> (r matches Err(
                WithdrawBtcError::StateChangedDuringTransfer,
            ) && *final(self) == *old(self)),
            stale(*old(self), address_key(eth_address@), auth.tx_nonce, amount, false) is None ==> (r is Ok && withdraw_step(*old(self), *final(self), address_key(eth_address@), amount)),
    {
        let key = ascii_lowercase(eth_address.as_str());
        let eth_address = &key;
        let i = match self.find_staker(eth_address) {
            Some(i) => i,
            None => return Err(WithdrawBtcError::StateChangedDuringTransfer),
        };
        let rec = &self.stakers_map[i];
        if rec.tx_nonce != auth.tx_nonce {
            return Err(WithdrawBtcError::StateChangedDuringTransfer);
        }
        if rec.ckbtc_balance < amount {
            return Err(WithdrawBtcError::StateChangedDuringTransfer);
        }
        let next = Staker {
            eth_address: rec.eth_address.clone(),
            subaccount: rec.subaccount,
            tx_nonce: rec.tx_nonce + 1,
            ckbtc_balance: rec.ckbtc_balance - amount,
            otbtc_balance: rec.otbtc_balance,
        };
        assert(next == withdrawn(old(self).stakers()[eth_address@], amount));
        self.replace_record(i, next);
        Ok(())
    }

    /// Looks at the head of the queue only. An empty queue needs nothing; a
    /// head whose staker is gone, or whose unlock time is after `now`, is
    /// refused; otherwise the head's amount is to go to its staker's
    /// sub-account.
    pub fn plan_unlock(&self, now: u64) -> (r: Result<Option<UnlockPlan>, UnlockTokensInQueueError>)
        requires
            self.wf(),
        ensures
            self.queue().len() == 0 ==> r matches Ok(None),
            !(r matches Err(UnlockTokensInQueueError::LackOfStakerRecord)),
            self.queue().len() > 0 && !self.stakers().contains_key(self.queue()[0].eth_address@)
                ==> r matches Err(UnlockTokensInQueueError::LackOfStakerRecord),
            self.queue().len() > 0 && self.stakers().contains_key(self.queue()[0].eth_address@)
                && now < self.queue()[0].unlock_time ==> r matches Err(
                UnlockTokensInQueueError::UnlockTimeNotReached,
            ),
            self.queue().len() > 0 && self.stakers().contains_key(self.queue()[0].eth_address@)
                && now >= self.queue()[0].unlock_time ==> (r matches Ok(Some(p)) && p.amount
                == self.queue()[0].amount && p.unlock_time == self.queue()[0].unlock_time
                && p.subaccount == self.stakers()[self.queue()[0].eth_address@].subaccount),
    {
        if self.unstaking_queue.len() == 0 {
            return Ok(None);
        }
        let head = &self.unstaking_queue[0];
        let staker = match self.get_staker(&head.eth_address) {
            Some(s) => s,
            None => return Err(UnlockTokensInQueueError::LackOfStakerRecord),
        };
        if now < head.unlock_time {
            return Err(UnlockTokensInQueueError::UnlockTimeNotReached);
        }
        Ok(
            Some(
                UnlockPlan {
                    amount: head.amount,
                    subaccount: staker.subaccount,
                    unlock_time: head.unlock_time,
                },
            ),
        )
    }

    /// Commits the release that `plan` was made for once its ckBTC reached
    /// the staker: the head leaves the queue, the pool holds its amount less,
    /// and the staker's ckBTC balance grows by it. Where the head is no longer
    /// that request (another release settled it meanwhile), nothing changes.
    pub fn commit_unlock(&mut self, plan: UnlockPlan) -> (r: Result<(), UnlockTokensInQueueError>)
        requires
            old(self).wf(),
            old(self).queue().len() > 0 && old(self).stakers().contains_key(old(self).queue()[0].eth_address@)
                ==> old(self).stakers()[old(self).queue()[0].eth_address@].ckbtc_balance + old(self).queue()[0].amount
                <= u64::MAX,
        ensures
            final(self).wf(),
            same_config(*old(self), *final(self)),
            plan_is_head(*old(self), plan) ==> r is Ok && release_step(*old(self), *final(self)),
            !(r matches Err(UnlockTokensInQueueError::LackOfStakerRecord)),
            old(self).queue().len() > 0 && !old(self).stakers().contains_key(old(self).queue()[0].eth_address@)
                ==> (r matches Err(UnlockTokensInQueueError::LackOfStakerRecord) && *final(self) == *old(self)),
            !plan_is_head(*old(self), plan) && !(old(self).queue().len() > 0
                && !old(self).stakers().contains_key(old(self).queue()[0].eth_address@)) ==> (r matches Err(
                UnlockTokensInQueueError::QueueHeadChanged,
            ) && *final(self) == *old(self)),
    {
        if self.unstaking_queue.len() == 0 {
            return Err(UnlockTokensInQueueError::QueueHeadChanged);
        }
        let head = &self.unstaking_queue[0];
        let amount = head.amount;
        let i = match self.find_staker(&head.eth_address) {
            Some(i) => i,
            None => return Err(UnlockTokensInQueueError::LackOfStakerRecord),
        };
        if amount != plan.amount || head.unlock_time != plan.unlock_time || !same_subaccount(
            &self.stakers_map[i].subaccount,
            &plan.subaccount,
        ) {
            return Err(UnlockTokensInQueueError::QueueHeadChanged);
        }
        let rec = &self.stakers_map[i];
        let next = Staker {
            eth_address: rec.eth_address.clone(),
            subaccount: rec.subaccount,
            tx_nonce: rec.tx_nonce,
            ckbtc_balance: rec.ckbtc_balance + amount,
            otbtc_balance: rec.otbtc_balance,
        };
        assert(next == credited(old(self).stakers()[old(self).queue()[0].eth_address@], amount));
        proof {
            lemma_pending_front(self.unstaking_queue@);
        }
        self.unstaking_queue.pop_front();
        self.replace_record(i, next);
        self.total_ckbtc_in_pool = self.total_ckbtc_in_pool - amount;
        Ok(())
    }
}

/// The ckBTC minted for one UTXO: its minted amount, or nothing for one that
/// was too small, tainted or not yet minted.
pub open spec fn minted_of(u: UtxoStatus) -> nat {
    match u {
        UtxoStatus::Minted { minted_amount, .. } => minted_amount as nat,
        _ => 0,
    }
}

/// The ckBTC minted over all the UTXOs of a reply.
pub open spec fn minted_sum(s: Seq<UtxoStatus>) -> nat
    decreases s.len(),
{
    if s.len() == 0 {
        0
    } else {
        minted_sum(s.drop_last()) + minted_of(s.last())
    }
}

/// A prefix mints no more than the whole.
pub proof fn lemma_minted_prefix(s: Seq<UtxoStatus>, k: int)
    requires
        0 <= k <= s.len(),
    ensures
        minted_sum(s.take(k)) <= minted_sum(s),
    decreases s.len(),
{
    if k < s.len() {
        lemma_minted_prefix(s.drop_last(), k);
        assert(s.drop_last().take(k) =~= s.take(k));
    } else {
        assert(s.take(k) =~= s);
    }
}

/// The ckBTC minted over all the UTXOs of a reply, where it fits in a `u64`.
pub fn total_minted(statuses: &Vec<UtxoStatus>) -> (r: Option<u64>)
    ensures
        r is None <==> minted_sum(statuses@) > u64::MAX,
        r matches Some(t) ==> t == minted_sum(statuses@),
{
    let mut total: u64 = 0;
    let mut i: usize = 0;
    while i < statuses.len()
        invariant
            i <= statuses@.len(),
            total == minted_sum(statuses@.take(i as int)),
        decreases statuses@.len() - i,
    {
        let minted: u64 = match &statuses[i] {
            UtxoStatus::Minted { minted_amount, .. } => *minted_amount,
            _ => 0,
        };
        assert(statuses@.take(i + 1).drop_last() =~= statuses@.take(i as int));
        assert(minted == minted_of(statuses@[i as int]));
        if minted > u64::MAX - total {
            proof {
                lemma_minted_prefix(statuses@, i + 1);
            }
            return None;
        }
        total = total + minted;
        i += 1;
    }
    assert(statuses@.take(i as int) =~= statuses@);
    Some(total)
}

/// `s1` is `s0` after `amount` ckBTC was credited to `a`, whose record is
/// made (nonce 0, empty balances, the sub-account `sub`) where there was none.
pub open spec fn deposit_step(
    s0: BtcStakingPoolState,
    s1: BtcStakingPoolState,
    a: Seq<char>,
    sub: Seq<u8>,
    amount: u64,
) -> bool {
    let rec = s1.stakers()[a];
    &&& s1.stakers().contains_key(a)
    &&& s1.stakers().remove(a) == s0.stakers().remove(a)
    &&& if s0.stakers().contains_key(a) {
        rec == credited(s0.stakers()[a], amount)
    } else {
        &&& rec.eth_address@ == a
        &&& rec.subaccount@ == sub
        &&& rec.tx_nonce == 0
        &&& rec.ckbtc_balance == amount
        &&& rec.otbtc_balance == 0
    }
    &&& s1.queue() == s0.queue()
    &&& s1.total_ckbtc_in_pool == s0.total_ckbtc_in_pool
}

/// The arguments that ask the minter for the deposit address of
/// `eth_address`: the pool as owner, the address's sub-account.
pub fn deposit_address_args(eth_address: &String, pool_id: candid::Principal) -> (r: Result<
    GetBtcAddressArgs,
    GetBtcDepositAddressError,
>)
    ensures
        match sub_identity_of(encode_utf8(eth_address@)) {
            Some(sub) => r matches Ok(args) && args.owner == Some(pool_id) && (
            args.subaccount matches Some(x) && x@ == sub),
            None => r matches Err(GetBtcDepositAddressError::InvalidEthereumAddress),
        },
{
    match convert_eth_address_to_subaccount(eth_address.as_str()) {
        Ok(sub) => Ok(GetBtcAddressArgs { owner: Some(pool_id), subaccount: Some(sub) }),
        Err(_) => Err(GetBtcDepositAddressError::InvalidEthereumAddress),
    }
}

/// The arguments that ask the minter to credit the deposits of
/// `eth_address`: the pool as owner, the address's sub-account.
pub fn update_balance_args(eth_address: &String, pool_id: candid::Principal) -> (r: Result<
    UpdateBalanceArgs,
    UpdateBalanceError,
>)
    ensures
        match sub_identity_of(encode_utf8(eth_address@)) {
            Some(sub) => r matches Ok(args) && args.owner == Some(pool_id) && (
            args.subaccount matches Some(x) && x@ == sub),
            None => r matches Err(UpdateBalanceError::InvalidEthereumAddress),
        },
{
    match convert_eth_address_to_subaccount(eth_address.as_str()) {
        Ok(sub) => Ok(UpdateBalanceArgs { owner: Some(pool_id), subaccount: Some(sub) }),
        Err(_) => Err(UpdateBalanceError::InvalidEthereumAddress),
    }
}

impl BtcStakingPoolState {
    /// Credits `amount` minted ckBTC to `eth_address`, making its record
    /// first where there is none.
    pub fn credit_deposit(&mut self, eth_address: &String, amount: u64) -> (r: Result<
        (),
        UpdateBalanceError,
    >)
        requires
            old(self).wf(),
            old(self).stakers().contains_key(address_key(eth_address@)) ==> old(self).stakers()[address_key(eth_address@)].ckbtc_balance
                + amount <= u64::MAX,
        ensures
            final(self).wf(),
            same_config(*old(self), *final(self)),
            match sub_identity_of(encode_utf8(address_key(eth_address@))) {
                Some(sub) => r is Ok && deposit_step(
                    *old(self),
                    *final(self),
                    address_key(eth_address@),
                    sub,
                    amount,
                ),
                None => r matches Err(UpdateBalanceError::InvalidEthereumAddress) && *final(self)
                    == *old(self),
            },
    {
        let key = ascii_lowercase(eth_address.as_str());
        proof {
            lemma_address_key_idempotent(eth_address@);
        }
        let eth_address = &key;
        let subaccount = match convert_eth_address_to_subaccount(eth_address.as_str()) {
            Ok(s) => s,
            Err(_) => return Err(UpdateBalanceError::InvalidEthereumAddress),
        };
        match self.find_staker(eth_address) {
            Some(i) => {
                let rec = &self.stakers_map[i];
                let next = Staker {
                    eth_address: rec.eth_address.clone(),
                    subaccount: rec.subaccount,
                    tx_nonce: rec.tx_nonce,
                    ckbtc_balance: rec.ckbtc_balance + amount,
                    otbtc_balance: rec.otbtc_balance,
                };
                assert(next == credited(old(self).stakers()[eth_address@], amount));
                self.replace_record(i, next);
                assert(self.stakers().remove(eth_address@) =~= old(self).stakers().remove(
                    eth_address@,
                ));
            },
            None => {
                let rec = Staker {
                    eth_address: eth_address.clone(),
                    subaccount,
                    tx_nonce: 0,
                    ckbtc_balance: amount,
                    otbtc_balance: 0,
                };
                assert(record_sound(rec));
                proof {
                    lemma_records_push(self.stakers_map@, rec);
                    lemma_owed_push(self.stakers_map@, rec);
                }
                self.stakers_map.push(rec);
                assert(self.stakers().remove(eth_address@) =~= old(self).stakers().remove(
                    eth_address@,
                ));
            },
        }
        assert forall|j: int| 0 <= j < self.unstaking_queue@.len() implies self.stakers().contains_key(
            (#[trigger] self.unstaking_queue@[j]).eth_address@,
        ) by {
            assert(old(self).stakers().contains_key(old(self).unstaking_queue@[j].eth_address@));
        }
        Ok(())
    }
}

/// The fee a ledger charges for each transfer, in e8s.
pub const TRANSFER_FEE: u64 = 10000;

/// A transfer the pool asks a ledger to make.
#[derive(Debug, Clone, Copy, PartialEq, Eq)]
pub struct Transfer {
    /// The ledger that makes it.
    pub ledger: candid::Principal,
    /// The pool's sub-account the tokens leave; `None` for its main account.
    pub from_subaccount: Option<[u8; 32]>,
    /// The owner of the receiving account.
    pub to_owner: candid::Principal,
    /// The receiving account's sub-account.
    pub to_subaccount: [u8; 32],
    pub amount: u64,
    pub fee: u64,
}

/// The all-zero sub-account: an owner's main account.
pub open spec fn main_subaccount() -> Seq<u8> {
    Seq::new(32, |i: int| 0u8)
}

fn zero_subaccount() -> (r: [u8; 32])
    ensures
        r@ == main_subaccount(),
{
    let r = [0u8; 32];
    assert(r@ =~= main_subaccount());
    r
}

/// `t` moves `amount` on `ledger` from `from` (`None`: the pool's main
/// account) to the account of `to_owner` with sub-account `to`.
pub open spec fn transfer_is(
    t: Transfer,
    ledger: candid::Principal,
    from: Option<Seq<u8>>,
    to_owner: candid::Principal,
    to: Seq<u8>,
    amount: u64,
) -> bool {
    &&& t.ledger == ledger
    &&& match from {
        Some(f) => t.from_subaccount matches Some(x) && x@ == f,
        None => t.from_subaccount is None,
    }
    &&& t.to_owner == to_owner
    &&& t.to_subaccount@ == to
    &&& t.amount == amount
    &&& t.fee == TRANSFER_FEE
}

impl BtcStakingPoolState {
    /// The two transfers of a granted stake, in order: `amount` ckBTC from
    /// the staker's sub-account to the pool's main account, then `amount`
    /// otBTC from the pool's main account to the staker's sub-account.
    pub fn stake_transfers(&self, auth: Authorized, amount: u64, pool_id: candid::Principal) -> (r: (
        Transfer,
        Transfer,
    ))
        ensures
            transfer_is(
                r.0,
                self.ckbtc_ledger_account,
                Some(auth.subaccount@),
                pool_id,
                main_subaccount(),
                amount,
            ),
            transfer_is(r.1, self.otbtc_ledger_account, None, pool_id, auth.subaccount@, amount),
    {
        let debit = Transfer {
            ledger: self.ckbtc_ledger_account,
            from_subaccount: Some(auth.subaccount),
            to_owner: pool_id,
            to_subaccount: zero_subaccount(),
            amount,
            fee: TRANSFER_FEE,
        };
        let credit = Transfer {
            ledger: self.otbtc_ledger_account,
            from_subaccount: None,
            to_owner: pool_id,
            to_subaccount: auth.subaccount,
            amount,
            fee: TRANSFER_FEE,
        };
        (debit, credit)
    }

    /// The transfer of a granted unstake: `amount` otBTC from the staker's
    /// sub-account back to the pool's main account.
    pub fn unstake_transfer(&self, auth: Authorized, amount: u64, pool_id: candid::Principal) -> (r:
        Transfer)
        ensures
            transfer_is(
                r,
                self.otbtc_ledger_account,
                Some(auth.subaccount@),
                pool_id,
                main_subaccount(),
                amount,
            ),
    {
        Transfer {
            ledger: self.otbtc_ledger_account,
            from_subaccount: Some(auth.subaccount),
            to_owner: pool_id,
            to_subaccount: zero_subaccount(),
            amount,
            fee: TRANSFER_FEE,
        }
    }

    /// The transfer of a planned release: the head's amount of ckBTC from the
    /// pool's main account to the staker's sub-account.
    pub fn release_transfer(&self, plan: UnlockPlan, pool_id: candid::Principal) -> (r: Transfer)
        ensures
            transfer_is(r, self.ckbtc_ledger_account, None, pool_id, plan.subaccount@, plan.amount),
    {
        Transfer {
            ledger: self.ckbtc_ledger_account,
            from_subaccount: None,
            to_owner: pool_id,
            to_subaccount: plan.subaccount,
            amount: plan.amount,
            fee: TRANSFER_FEE,
        }
    }

    /// The transfer of a granted withdrawal: `amount` ckBTC from the
    /// staker's sub-account to the minter's main account.
    pub fn withdraw_transfer(&self, auth: Authorized, amount: u64) -> (r: Transfer)
        ensures
            transfer_is(
                r,
                self.ckbtc_ledger_account,
                Some(auth.subaccount@),
                self.ckbtc_minting_account,
                main_subaccount(),
                amount,
            ),
    {
        Transfer {
            ledger: self.ckbtc_ledger_account,
            from_subaccount: Some(auth.subaccount),
            to_owner: self.ckbtc_minting_account,
            to_subaccount: zero_subaccount(),
            amount,
            fee: TRANSFER_FEE,
        }
    }
}

} // verus!
