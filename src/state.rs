//! The pool's records: stakers, unbonding requests and the pool itself.
use crate::address::{address_key, ascii_lower_char, sub_identity_of};
use vstd::prelude::*;
use vstd::utf8::encode_utf8;

verus! {

/// A principal of the Internet Computer: the identity of a collaborating
/// service. The pool only keeps it and hands it on.
#[verifier::external_type_specification]
#[verifier::external_body]
pub struct ExPrincipal(candid::Principal);

/// One staker, keyed by the Ethereum address that owns it.
#[derive(Debug, Clone)]
pub struct Staker {
    /// The owner's Ethereum address as text, forty hex digits.
    pub eth_address: String,
    /// The custody sub-account derived from `eth_address`.
    pub subaccount: [u8; 32],
    /// The number of signed actions committed so far.
    pub tx_nonce: u64,
    /// ckBTC credited to this staker and neither staked nor withdrawn.
    pub ckbtc_balance: u64,
    /// otBTC owed to this staker.
    pub otbtc_balance: u64,
}

/// A request to release unstaked ckBTC once `unlock_time` has come.
#[derive(Debug, Clone)]
pub struct UnstakeRequest {
    pub eth_address: String,
    pub amount: u64,
    pub unlock_time: u64,
}


/// The identities of the three collaborating services.
#[derive(Debug, Clone, Copy, PartialEq, Eq)]
pub struct InitArgs {
    pub ckbtc_minting_account: candid::Principal,
    pub ckbtc_ledger_account: candid::Principal,
    pub otbtc_ledger_account: candid::Principal,
}

/// The unbonding period a new pool starts with: 1_209_600_000_000 time
/// units (60 * 60 * 24 * 14 * 1_000_000).
pub const DEFAULT_UNBONDING_PERIOD: u64 = 1209600000000;

/// The whole state of the pool.
#[derive(Debug)]
pub struct BtcStakingPoolState {
    pub ckbtc_minting_account: candid::Principal,
    pub ckbtc_ledger_account: candid::Principal,
    pub otbtc_ledger_account: candid::Principal,
    /// The staker records, at most one per address (see `wf`).
    pub stakers_map: Vec<Staker>,
    /// Unbonding requests, oldest first.
    pub unstaking_queue: std::collections::VecDeque<UnstakeRequest>,
    /// ckBTC held by the pool for active stakes and pending unbonding.
    pub total_ckbtc_in_pool: u64,
    /// Time between an unstake and the release of its ckBTC, in nanoseconds.
    pub unbonding_period: u64,
}

/// Record `i` of `s` belongs to address `a`.
pub open spec fn record_at(s: Seq<Staker>, a: Seq<char>, i: int) -> bool {
    0 <= i < s.len() && s[i].eth_address@ == a
}

/// No two records share an address.
pub open spec fn unique_addresses(s: Seq<Staker>) -> bool {
    forall|i: int, j: int|
        0 <= i < s.len() && 0 <= j < s.len() && i != j ==> #[trigger] s[i].eth_address@
            != #[trigger] s[j].eth_address@
}

/// The records as a map from address to record.
pub open spec fn records(s: Seq<Staker>) -> Map<Seq<char>, Staker> {
    Map::new(
        |a: Seq<char>| exists|i: int| record_at(s, a, i),
        |a: Seq<char>| s[choose|i: int| record_at(s, a, i)],
    )
}

/// In records without repeated addresses, the record at `i` is the one the
/// map gives for its address.
pub proof fn lemma_records_at(s: Seq<Staker>, i: int)
    requires
        unique_addresses(s),
        0 <= i < s.len(),
    ensures
        records(s).contains_key(s[i].eth_address@),
        records(s)[s[i].eth_address@] == s[i],
{
    let a = s[i].eth_address@;
    assert(record_at(s, a, i));
    let j = choose|j: int| record_at(s, a, j);
    assert(i == j);
}

/// Replacing a record by one with the same address updates the map at that
/// address.
pub proof fn lemma_records_update(s: Seq<Staker>, i: int, rec: Staker)
    requires
        unique_addresses(s),
        0 <= i < s.len(),
        rec.eth_address@ == s[i].eth_address@,
    ensures
        unique_addresses(s.update(i, rec)),
        records(s.update(i, rec)) == records(s).insert(rec.eth_address@, rec),
{
    let t = s.update(i, rec);
    assert forall|j: int, k: int|
        0 <= j < t.len() && 0 <= k < t.len() && j != k implies #[trigger] t[j].eth_address@
            != #[trigger] t[k].eth_address@ by {
        assert(s[j].eth_address@ != s[k].eth_address@);
    }
    lemma_records_at(t, i);
    assert forall|a: Seq<char>| #[trigger] records(t).contains_key(a) == records(s).insert(
        rec.eth_address@,
        rec,
    ).contains_key(a) by {
        if exists|j: int| record_at(s, a, j) {
            let j = choose|j: int| record_at(s, a, j);
            assert(record_at(t, a, j) || a == rec.eth_address@);
        }
        if exists|j: int| record_at(t, a, j) {
            let j = choose|j: int| record_at(t, a, j);
            assert(record_at(s, a, j) || a == rec.eth_address@);
        }
    }
    assert forall|a: Seq<char>| #[trigger] records(t).contains_key(a) && a != rec.eth_address@
        implies records(t)[a] == records(s)[a] by {
        let j = choose|j: int| record_at(t, a, j);
        assert(record_at(s, a, j));
        lemma_records_at(s, j);
        lemma_records_at(t, j);
    }
    assert(records(t) =~= records(s).insert(rec.eth_address@, rec));
}

/// Appending a record for a new address adds it to the map.
pub proof fn lemma_records_push(s: Seq<Staker>, rec: Staker)
    requires
        unique_addresses(s),
        !records(s).contains_key(rec.eth_address@),
    ensures
        unique_addresses(s.push(rec)),
        records(s.push(rec)) == records(s).insert(rec.eth_address@, rec),
{
    let t = s.push(rec);
    assert forall|j: int, k: int|
        0 <= j < t.len() && 0 <= k < t.len() && j != k implies #[trigger] t[j].eth_address@
            != #[trigger] t[k].eth_address@ by {
        if j < s.len() && k < s.len() {
            assert(s[j].eth_address@ != s[k].eth_address@);
        } else if j < s.len() {
            assert(!record_at(s, rec.eth_address@, j));
        } else {
            assert(!record_at(s, rec.eth_address@, k));
        }
    }
    lemma_records_at(t, s.len() as int);
    assert forall|a: Seq<char>| #[trigger] records(t).contains_key(a) == records(s).insert(
        rec.eth_address@,
        rec,
    ).contains_key(a) by {
        if exists|j: int| record_at(s, a, j) {
            let j = choose|j: int| record_at(s, a, j);
            assert(record_at(t, a, j));
        }
        if exists|j: int| record_at(t, a, j) {
            let j = choose|j: int| record_at(t, a, j);
            assert(record_at(s, a, j) || a == rec.eth_address@);
        }
    }
    assert forall|a: Seq<char>| #[trigger] records(t).contains_key(a) && a != rec.eth_address@
        implies records(t)[a] == records(s)[a] by {
        let j = choose|j: int| record_at(t, a, j);
        assert(record_at(s, a, j));
        lemma_records_at(s, j);
        lemma_records_at(t, j);
    }
    assert(records(t) =~= records(s).insert(rec.eth_address@, rec));
}

/// The otBTC owed to all stakers together.
pub open spec fn owed_otbtc(s: Seq<Staker>) -> nat
    decreases s.len(),
{
    if s.len() == 0 {
        0
    } else {
        owed_otbtc(s.drop_last()) + s.last().otbtc_balance as nat
    }
}

/// The ckBTC that all queued requests wait for.
pub open spec fn pending_unbond(q: Seq<UnstakeRequest>) -> nat
    decreases q.len(),
{
    if q.len() == 0 {
        0
    } else {
        pending_unbond(q.drop_last()) + q.last().amount as nat
    }
}

/// Replacing one record changes the otBTC owed by the difference of the two.
pub proof fn lemma_owed_update(s: Seq<Staker>, i: int, rec: Staker)
    requires
        0 <= i < s.len(),
    ensures
        owed_otbtc(s.update(i, rec)) + s[i].otbtc_balance == owed_otbtc(s) + rec.otbtc_balance,
    decreases s.len(),
{
    if i == s.len() - 1 {
        assert(s.update(i, rec).drop_last() =~= s.drop_last());
    } else {
        lemma_owed_update(s.drop_last(), i, rec);
        assert(s.update(i, rec).drop_last() =~= s.drop_last().update(i, rec));
    }
}

/// A record's otBTC is part of what all records owe.
pub proof fn lemma_owed_covers(s: Seq<Staker>, i: int)
    requires
        0 <= i < s.len(),
    ensures
        s[i].otbtc_balance <= owed_otbtc(s),
    decreases s.len(),
{
    if i < s.len() - 1 {
        lemma_owed_covers(s.drop_last(), i);
    }
}

/// Appending a record adds its otBTC to what is owed.
pub proof fn lemma_owed_push(s: Seq<Staker>, rec: Staker)
    ensures
        owed_otbtc(s.push(rec)) == owed_otbtc(s) + rec.otbtc_balance,
{
    assert(s.push(rec).drop_last() =~= s);
}

/// Queuing a request adds its amount to what is pending.
pub proof fn lemma_pending_push(q: Seq<UnstakeRequest>, req: UnstakeRequest)
    ensures
        pending_unbond(q.push(req)) == pending_unbond(q) + req.amount,
{
    assert(q.push(req).drop_last() =~= q);
}

/// What is pending is the head's amount and what the rest waits for.
pub proof fn lemma_pending_front(q: Seq<UnstakeRequest>)
    requires
        q.len() > 0,
    ensures
        pending_unbond(q) == q[0].amount + pending_unbond(q.subrange(1, q.len() as int)),
    decreases q.len(),
{
    if q.len() == 1 {
        assert(q.drop_last() =~= Seq::<UnstakeRequest>::empty());
        assert(q.subrange(1, 1) =~= Seq::<UnstakeRequest>::empty());
    } else {
        lemma_pending_front(q.drop_last());
        assert(q.subrange(1, q.len() as int).drop_last() =~= q.drop_last().subrange(
            1,
            q.len() - 1,
        ));
    }
}

/// A record filed as it should be: under its address in lower case, with
/// the sub-account derived from that address.
pub open spec fn record_sound(r: Staker) -> bool {
    &&& r.eth_address@ == address_key(r.eth_address@)
    &&& sub_identity_of(encode_utf8(r.eth_address@)) == Some(r.subaccount@)
}

/// Lower-casing twice is lower-casing once.
pub proof fn lemma_address_key_idempotent(a: Seq<char>)
    ensures
        address_key(address_key(a)) == address_key(a),
{
    assert forall|i: int| 0 <= i < a.len() implies ascii_lower_char(ascii_lower_char(a[i]))
        == ascii_lower_char(a[i]) by {
        let c = a[i];
        if 'A' <= c && c <= 'Z' {
            assert(!('A' <= ascii_lower_char(c) && ascii_lower_char(c) <= 'Z'));
        }
    }
    assert(address_key(address_key(a)) =~= address_key(a));
}

impl BtcStakingPoolState {
    /// Well-formed: at most one record per address, each filed as it should
    /// be; every queued request belongs to a staker with a record; and the
    /// pool's ckBTC is exactly the otBTC owed to stakers plus the ckBTC
    /// queued for release.
    pub open spec fn wf(&self) -> bool {
        &&& unique_addresses(self.stakers_map@)
        &&& forall|i: int|
            0 <= i < self.stakers_map@.len() ==> record_sound(#[trigger] self.stakers_map@[i])
        &&& forall|j: int|
            0 <= j < self.unstaking_queue@.len() ==> self.stakers().contains_key(
                (#[trigger] self.unstaking_queue@[j]).eth_address@,
            )
        &&& self.total_ckbtc_in_pool == owed_otbtc(self.stakers_map@) + pending_unbond(
            self.unstaking_queue@,
        )
    }

    /// The staker records by address.
    pub open spec fn stakers(&self) -> Map<Seq<char>, Staker> {
        records(self.stakers_map@)
    }

    /// The unbonding queue, oldest request first.
    pub open spec fn queue(&self) -> Seq<UnstakeRequest> {
        self.unstaking_queue@
    }

    /// A new pool: no stakers, an empty queue, nothing in the pool, and the
    /// default unbonding period.
    pub fn new(init_args: InitArgs) -> (r: Self)
        ensures
            r.wf(),
            r.stakers() == Map::<Seq<char>, Staker>::empty(),
            r.queue() == Seq::<UnstakeRequest>::empty(),
            r.total_ckbtc_in_pool == 0,
            r.unbonding_period == DEFAULT_UNBONDING_PERIOD,
            r.ckbtc_minting_account == init_args.ckbtc_minting_account,
            r.ckbtc_ledger_account == init_args.ckbtc_ledger_account,
            r.otbtc_ledger_account == init_args.otbtc_ledger_account,
    {
        let r = BtcStakingPoolState {
            ckbtc_minting_account: init_args.ckbtc_minting_account,
            ckbtc_ledger_account: init_args.ckbtc_ledger_account,
            otbtc_ledger_account: init_args.otbtc_ledger_account,
            stakers_map: Vec::new(),
            unstaking_queue: std::collections::VecDeque::new(),
            total_ckbtc_in_pool: 0,
            unbonding_period: DEFAULT_UNBONDING_PERIOD,
        };
        assert(r.stakers() =~= Map::<Seq<char>, Staker>::empty());
        assert(owed_otbtc(r.stakers_map@) == 0);
        assert(pending_unbond(r.unstaking_queue@) == 0);
        r
    }

    /// The position of the record of `eth_address`, if there is one.
    pub fn find_staker(&self, eth_address: &String) -> (r: Option<usize>)
        requires
            self.wf(),
        ensures
            r is None <==> !self.stakers().contains_key(eth_address@),
            r matches Some(i) ==> record_at(self.stakers_map@, eth_address@, i as int)
                && self.stakers()[eth_address@] == self.stakers_map@[i as int],
    {
        let mut i: usize = 0;
        while i < self.stakers_map.len()
            invariant
                self.wf(),
                i <= self.stakers_map@.len(),
                forall|j: int| 0 <= j < i ==> !record_at(self.stakers_map@, eth_address@, j),
            decreases self.stakers_map@.len() - i,
        {
            if self.stakers_map[i].eth_address == *eth_address {
                proof {
                    lemma_records_at(self.stakers_map@, i as int);
                }
                return Some(i);
            }
            i += 1;
        }
        None
    }

    /// The record of `eth_address`, if there is one.
    pub fn get_staker(&self, eth_address: &String) -> (r: Option<&Staker>)
        requires
            self.wf(),
        ensures
            r is None <==> !self.stakers().contains_key(eth_address@),
            r matches Some(s) ==> *s == self.stakers()[eth_address@],
    {
        match self.find_staker(eth_address) {
            Some(i) => Some(&self.stakers_map[i]),
            None => None,
        }
    }
}

} // verus!
