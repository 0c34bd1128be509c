//! Properties of the pool that span several operations.
use crate::state::BtcStakingPoolState;
use crate::workflows::{
    credited, grants, release_step, stake_step, stale, unstake_step, withdraw_step, Authorized,
    Refusal,
};
use crate::signature::{lemma_signing_text_binds_nonce, signing_text};
use vstd::prelude::*;
use vstd::utf8::encode_utf8;

verus! {

/// A stake of `amount`, then an unstake of the same amount, then the release
/// of the request that the unstake queued, give the staker back the ckBTC and
/// otBTC balances it had before the stake, and the pool the ckBTC total and
/// queue it had; only the staker's nonce has moved on, by two. Other records
/// are untouched.
pub proof fn lemma_stake_unstake_release_round_trip(
    s0: BtcStakingPoolState,
    s1: BtcStakingPoolState,
    s2: BtcStakingPoolState,
    s3: BtcStakingPoolState,
    a: Seq<char>,
    amount: u64,
    now: u64,
)
    requires
        s0.stakers().contains_key(a),
        s0.stakers()[a].ckbtc_balance >= amount,
        s0.stakers()[a].otbtc_balance + amount <= u64::MAX,
        s0.stakers()[a].tx_nonce + 2 <= u64::MAX,
        s0.queue().len() == 0,
        stake_step(s0, s1, a, amount),
        unstake_step(s1, s2, a, amount, now),
        release_step(s2, s3),
    ensures
        s3.stakers().contains_key(a),
        s3.stakers()[a].ckbtc_balance == s0.stakers()[a].ckbtc_balance,
        s3.stakers()[a].otbtc_balance == s0.stakers()[a].otbtc_balance,
        s3.stakers()[a].tx_nonce == s0.stakers()[a].tx_nonce + 2,
        s3.stakers()[a].subaccount == s0.stakers()[a].subaccount,
        s3.stakers().remove(a) == s0.stakers().remove(a),
        s3.total_ckbtc_in_pool == s0.total_ckbtc_in_pool,
        s3.queue() == s0.queue(),
{
    assert(s2.queue().len() == 1);
    assert(s2.queue()[0] == s2.queue().last());
    assert(s3.stakers().remove(a) =~= s0.stakers().remove(a));
    assert(s3.queue() =~= s0.queue());
}

/// Releases go by position in the queue, not by due time: a release from a
/// queue whose first two requests are A then B settles A, crediting A's
/// staker with A's amount, and leaves B at the head.
pub proof fn lemma_release_is_fifo(s0: BtcStakingPoolState, s1: BtcStakingPoolState)
    requires
        s0.queue().len() >= 2,
        release_step(s0, s1),
    ensures
        s1.queue().len() == s0.queue().len() - 1,
        s1.queue()[0] == s0.queue()[1],
        s1.stakers() == s0.stakers().insert(
            s0.queue()[0].eth_address@,
            credited(s0.stakers()[s0.queue()[0].eth_address@], s0.queue()[0].amount),
        ),
        s1.total_ckbtc_in_pool == s0.total_ckbtc_in_pool - s0.queue()[0].amount,
{
}

/// After a committed stake, unstake or withdrawal by `a` at nonce `N`, the
/// staker's nonce is `N + 1`: the gates grant nothing at `N` any more, a commit
/// that carries an authorization at `N` finds its nonce spent and is refused,
/// and
/// every signature is now judged against the text signed at `N + 1`, which
/// differs from the text at `N` for every action and amount. That a signature
/// over one text does not verify over another is the signature scheme's own
/// guarantee.
pub proof fn lemma_committed_nonce_is_spent(
    s0: BtcStakingPoolState,
    s1: BtcStakingPoolState,
    a: Seq<char>,
    amount: u64,
    now: u64,
)
    requires
        s0.stakers().contains_key(a),
        s0.stakers()[a].tx_nonce < u64::MAX,
        stake_step(s0, s1, a, amount) || unstake_step(s0, s1, a, amount, now) || withdraw_step(
            s0,
            s1,
            a,
            amount,
        ),
    ensures
        s1.stakers().contains_key(a),
        s1.stakers()[a].tx_nonce == s0.stakers()[a].tx_nonce + 1,
        forall|action: Seq<char>, other: u64, signature: Seq<u8>, auth: Authorized|
            auth.tx_nonce == s0.stakers()[a].tx_nonce ==> !#[trigger] grants(
                s1,
                a,
                action,
                other,
                signature,
                auth,
            ),
        forall|other: u64, derivative: bool|
            #[trigger] stale(s1, a, s0.stakers()[a].tx_nonce, other, derivative) == Some(
                Refusal::InvalidSignature,
            ),
        forall|action: Seq<char>, other: u64|
            #[trigger] signing_text(s1.stakers()[a].tx_nonce, encode_utf8(action), other)
                != signing_text(s0.stakers()[a].tx_nonce, encode_utf8(action), other),
{
    assert forall|action: Seq<char>, other: u64|
        #[trigger] signing_text(s1.stakers()[a].tx_nonce, encode_utf8(action), other)
            != signing_text(s0.stakers()[a].tx_nonce, encode_utf8(action), other) by {
        lemma_signing_text_binds_nonce(
            s1.stakers()[a].tx_nonce,
            s0.stakers()[a].tx_nonce,
            encode_utf8(action),
            other,
        );
    }
}

} // verus!
