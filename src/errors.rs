//! The errors of each operation of the pool.
use vstd::prelude::*;

verus! {

/// Why a deposit address could not be had.
#[derive(Debug, Clone, PartialEq, Eq)]
pub enum GetBtcDepositAddressError {
    /// The specified address is not a valid Ethereum address.
    InvalidEthereumAddress,
    /// The call to the ckBTC minter failed.
    CkbtcMinterError(String),
}

/// Why a deposit could not be credited.
#[derive(Debug, Clone, PartialEq, Eq)]
pub enum UpdateBalanceError {
    /// The specified address is not a valid Ethereum address.
    InvalidEthereumAddress,
    /// The call to the ckBTC minter failed.
    CkbtcMinterError(String),
}

/// Why a stake failed.
#[derive(Debug, Clone, PartialEq, Eq)]
pub enum StakeError {
    /// The specified address is not a valid Ethereum address.
    InvalidEthereumAddress,
    /// Staker record not found.
    LackOfStakerRecord,
    /// The specified amount is larger than the available ckBTC balance.
    NotEnoughCkbtcBalance,
    /// The signature is invalid.
    InvalidSignature,
    /// The call to the ckBTC ledger failed.
    CkbtcLedgerError(String),
    /// The ckBTC ledger refused the transfer.
    CkbtcTransferError(String),
    /// The call to the otBTC ledger failed.
    OtbtcLedgerError(String),
    /// The otBTC ledger refused the transfer.
    OtbtcTransferError(String),
    /// The transfers went through, but the record changed meanwhile (it is
    /// gone, another action was committed, or the balance no longer covers
    /// the amount), so nothing was committed.
    StateChangedDuringTransfer,
}

/// Why an unstake failed.
#[derive(Debug, Clone, PartialEq, Eq)]
pub enum UnstakeError {
    /// The specified address is not a valid Ethereum address.
    InvalidEthereumAddress,
    /// Staker record not found.
    LackOfStakerRecord,
    /// The specified amount is larger than the available otBTC balance.
    NotEnoughOtbtcBalance,
    /// The signature is invalid.
    InvalidSignature,
    /// The call to the otBTC ledger failed.
    OtbtcLedgerError(String),
    /// The otBTC ledger refused the transfer.
    OtbtcTransferError(String),
    /// The transfers went through, but the record changed meanwhile (it is
    /// gone, another action was committed, or the balance no longer covers
    /// the amount), so nothing was committed.
    StateChangedDuringTransfer,
}

/// Why the head of the unbonding queue was not released.
#[derive(Debug, Clone, PartialEq, Eq)]
pub enum UnlockTokensInQueueError {
    /// Staker record not found.
    LackOfStakerRecord,
    /// The unlock time of the head request has not been reached yet.
    UnlockTimeNotReached,
    /// The head of the queue is no longer the request that was paid out; it
    /// was settled by another release meanwhile.
    QueueHeadChanged,
    /// The call to the ckBTC ledger failed.
    CkbtcLedgerError(String),
    /// The ckBTC ledger refused the transfer.
    CkbtcTransferError(String),
}

/// Why a withdrawal failed.
#[derive(Debug, Clone, PartialEq, Eq)]
pub enum WithdrawBtcError {
    /// The specified address is not a valid Ethereum address.
    InvalidEthereumAddress,
    /// Staker record not found.
    LackOfStakerRecord,
    /// The specified amount is larger than the available ckBTC balance.
    NotEnoughCkbtcBalance,
    /// The signature is invalid.
    InvalidSignature,
    /// The call to the ckBTC ledger failed.
    CkbtcLedgerError(String),
    /// The ckBTC ledger refused the transfer.
    CkbtcTransferError(String),
    /// The transfers went through, but the record changed meanwhile (it is
    /// gone, another action was committed, or the balance no longer covers
    /// the amount), so nothing was committed.
    StateChangedDuringTransfer,
}

/// Why a signature was not accepted.
#[derive(Debug, Clone, PartialEq, Eq)]
pub enum VerifySignatureError {
    /// The signature is not 65 bytes long.
    InvalidSignatureLength,
    /// The digest of the signed text was not accepted as a message.
    FailedParsingSigningMessage(String),
    /// The last byte of the signature is no recovery id.
    InvalidRecoveryIdInSignature(String),
    /// The first 64 bytes of the signature are no signature.
    FailedParsingSignature(String),
    /// No public key could be recovered.
    FailedRecoveringPublicKey(String),
    /// The recovered key belongs to another address.
    SignerAddressMismatch,
}

} // verus!
