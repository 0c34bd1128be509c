//! The arguments and replies of the pool's operations.
use vstd::prelude::*;

verus! {

/// An unspent transaction output on the Bitcoin network.
#[verifier::external_type_specification]
#[verifier::external_body]
pub struct ExUtxo(ic_btc_interface::Utxo);

/// The arguments of the minter's `get_btc_address`.
#[derive(Debug, Clone, PartialEq, Eq)]
pub struct GetBtcAddressArgs {
    pub owner: Option<candid::Principal>,
    pub subaccount: Option<[u8; 32]>,
}

/// The arguments of the minter's `update_balance`.
#[derive(Debug, Clone, PartialEq, Eq)]
pub struct UpdateBalanceArgs {
    /// The owner of the account on the ledger.
    pub owner: Option<candid::Principal>,
    /// The desired subaccount on the ledger, if any.
    pub subaccount: Option<[u8; 32]>,
}

/// The outcome of processing one deposited UTXO.
#[derive(Debug)]
pub enum UtxoStatus {
    /// The UTXO value does not cover the check's cost.
    ValueTooSmall(ic_btc_interface::Utxo),
    /// The check found issues with the deposited UTXO.
    Tainted(ic_btc_interface::Utxo),
    /// The UTXO passed the check but nothing was minted yet; retry later.
    Checked(ic_btc_interface::Utxo),
    /// The minter minted ckBTC for the UTXO.
    Minted {
        /// The mint transaction's index on the ledger.
        block_index: u64,
        /// The minted amount (UTXO value minus fees).
        minted_amount: u64,
        /// The UTXO that caused the balance update.
        utxo: ic_btc_interface::Utxo,
    },
}

/// The minter's reply to `update_balance`.
#[derive(Debug)]
pub struct UpdateBalanceResponse(pub Vec<UtxoStatus>);

/// A signed request to stake `amount` ckBTC.
#[derive(Debug, Clone, PartialEq, Eq)]
pub struct StakeArgs {
    pub eth_address: String,
    pub amount: u64,
    pub signature: Vec<u8>,
}

/// A signed request to unstake `amount` otBTC.
#[derive(Debug, Clone, PartialEq, Eq)]
pub struct UnstakeArgs {
    pub eth_address: String,
    pub amount: u64,
    pub signature: Vec<u8>,
}

/// A signed request to withdraw `amount` ckBTC.
#[derive(Debug, Clone, PartialEq, Eq)]
pub struct WithdrawBtcArgs {
    pub eth_address: String,
    pub amount: u64,
    pub signature: Vec<u8>,
}

} // verus!
