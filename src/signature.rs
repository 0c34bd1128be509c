//! Signed, nonce-bound authorisation of a staker's actions.
use crate::address::{encode_hex, hex_encoded, keccak256, keccak256_of};
use crate::errors::VerifySignatureError;
use crate::state::Staker;
use vstd::prelude::*;
use vstd::utf8::encode_utf8;

verus! {

/// The order of the secp256k1 group.
pub open spec fn secp256k1_order() -> nat {
    (0xFFFFFFFFFFFFFFFFFFFFFFFFFFFFFFFEu128 as nat) * (0x10000000000000000u128 as nat) * (
    0x10000000000000000u128 as nat) + (0xBAAEDCE6AF48A03BBFD25E8CD0364141u128 as nat)
}

/// The number that bytes stand for, most significant byte first.
pub open spec fn big_endian_value(b: Seq<u8>) -> nat
    decreases b.len(),
{
    if b.len() == 0 {
        0
    } else {
        big_endian_value(b.drop_last()) * 256 + b.last() as nat
    }
}

/// A signature in the standard 64-byte form: `r` then `s`, each below the
/// group order.
pub open spec fn is_standard_signature(payload: Seq<u8>) -> bool {
    &&& payload.len() == 64
    &&& big_endian_value(payload.subrange(0, 32)) < secp256k1_order()
    &&& big_endian_value(payload.subrange(32, 64)) < secp256k1_order()
}

/// The uncompressed public key recovered from a standard signature
/// `payload` with recovery id `id` over the 32-byte message `digest`, or
/// nothing where no key can be recovered.
pub uninterp spec fn recovered_key_of(digest: Seq<u8>, payload: Seq<u8>, id: u8) -> Option<Seq<u8>>;

/// The stage at which recovering a signer's key failed.
enum RecoveryFailure {
    Message(String),
    RecoveryId(String),
    Signature(String),
    Recover(String),
}

/// Relies on libsecp256k1 (errors are rendered by their derived `Debug`,
/// the variant's name): `Message::parse_slice` accepts exactly 32 bytes,
/// `RecoveryId::parse` exactly ids below four, `Signature::parse_standard_slice`
/// exactly 64 bytes whose two halves are below the group order; `recover`
/// depends on its arguments alone; `PublicKey::serialize` gives the
/// uncompressed key.
#[verifier::external_body]
fn recover_signer_key(digest: &[u8], payload: &[u8], id: u8) -> (r: Result<[u8; 65], RecoveryFailure>)
    ensures
        (r matches Err(RecoveryFailure::Message(_))) <==> digest@.len() != 32,
        (r matches Err(RecoveryFailure::RecoveryId(_))) <==> (digest@.len() == 32 && id >= 4),
        (r matches Err(RecoveryFailure::Signature(_))) <==> (digest@.len() == 32 && id < 4
            && !is_standard_signature(payload@)),
        r matches Err(RecoveryFailure::Message(e)) ==> e@ == "InvalidInputLength"@,
        r matches Err(RecoveryFailure::RecoveryId(e)) ==> e@ == "InvalidRecoveryId"@,
        r matches Err(RecoveryFailure::Signature(e)) ==> e@ == (if payload@.len() != 64 {
            "InvalidInputLength"@
        } else {
            "InvalidSignature"@
        }),
        r matches Err(RecoveryFailure::Recover(e)) ==> e@ == "InvalidSignature"@,
        digest@.len() == 32 && id < 4 && is_standard_signature(payload@) ==> match r {
            Ok(key) => recovered_key_of(digest@, payload@, id) == Some(key@),
            Err(_) => recovered_key_of(digest@, payload@, id) is None,
        },
{
    let message = match libsecp256k1::Message::parse_slice(digest) {
        Ok(m) => m, Err(e) => return Err(RecoveryFailure::Message(format!("{e:?}"))),
    };
    let recovery_id = match libsecp256k1::RecoveryId::parse(id) {
        Ok(i) => i, Err(e) => return Err(RecoveryFailure::RecoveryId(format!("{e:?}"))),
    };
    let signature = match libsecp256k1::Signature::parse_standard_slice(payload) {
        Ok(s) => s, Err(e) => return Err(RecoveryFailure::Signature(format!("{e:?}"))),
    };
    match libsecp256k1::recover(&message, &signature, &recovery_id) {
        Ok(key) => Ok(key.serialize()),
        Err(e) => Err(RecoveryFailure::Recover(format!("{e:?}"))),
    }
}

/// The decimal digits of a number, in ASCII, most significant first.
pub open spec fn decimal_digits(n: nat) -> Seq<u8>
    decreases n,
{
    if n < 10 {
        seq![(48 + n) as u8]
    } else {
        decimal_digits(n / 10).push((48 + n % 10) as u8)
    }
}

/// The text a staker signs to authorise `action` on `amount` at `nonce`:
/// `"{nonce}:{action}:{amount}"` in UTF-8.
pub open spec fn signing_text(nonce: u64, action: Seq<u8>, amount: u64) -> Seq<u8> {
    decimal_digits(nonce as nat) + seq![58u8] + action + seq![58u8] + decimal_digits(amount as nat)
}

/// ASCII lower case of a byte; other bytes stay.
pub open spec fn ascii_lower(b: u8) -> u8 {
    if 65 <= b && b <= 90 {
        (b + 32) as u8
    } else {
        b
    }
}

/// Equal texts up to ASCII case.
pub open spec fn eq_ignore_ascii_case(a: Seq<u8>, b: Seq<u8>) -> bool {
    a.len() == b.len() && forall|i: int| 0 <= i < a.len() ==> ascii_lower(#[trigger] a[i]) == ascii_lower(b[i])
}

/// The Ethereum address, as lower-case hex text, of an uncompressed public
/// key: the last 20 bytes of the Keccak-256 digest of the key without its
/// format tag.
pub open spec fn signer_address_text(key: Seq<u8>) -> Seq<u8> {
    hex_encoded(keccak256_of(key.subrange(1, key.len() as int)).subrange(12, 32))
}

/// The digest a staker signs to authorise `action` on `amount` at `nonce`.
pub open spec fn signed_digest(nonce: u64, action: Seq<char>, amount: u64) -> Seq<u8> {
    keccak256_of(signing_text(nonce, encode_utf8(action), amount))
}

/// The key recovered from a 65-byte signature (64 bytes, then the recovery
/// id) over the digest for `action` on `amount` at `nonce`.
pub open spec fn signer_key(nonce: u64, action: Seq<char>, amount: u64, signature: Seq<u8>) -> Option<
    Seq<u8>,
> {
    recovered_key_of(signed_digest(nonce, action, amount), signature.subrange(0, 64), signature[64])
}

/// The signature's shape is right and it parses: 65 bytes, a standard
/// signature, then a recovery id below four.
pub open spec fn well_formed_signature(signature: Seq<u8>) -> bool {
    &&& signature.len() == 65
    &&& signature[64] < 4
    &&& is_standard_signature(signature.subrange(0, 64))
}

/// `signature` authorises `action` on `amount` at `nonce` for the owner of
/// `eth_address`: it is well formed, and the key recovered from it over the
/// signed digest has that address (up to ASCII case).
pub open spec fn signature_accepted(
    eth_address: Seq<char>,
    nonce: u64,
    action: Seq<char>,
    amount: u64,
    signature: Seq<u8>,
) -> bool {
    &&& well_formed_signature(signature)
    &&& signer_key(nonce, action, amount, signature) matches Some(key)
    &&& eq_ignore_ascii_case(signer_address_text(key), encode_utf8(eth_address))
}

fn push_decimal(out: &mut Vec<u8>, n: u64)
    ensures
        final(out)@ == old(out)@ + decimal_digits(n as nat),
    decreases n,
{
    if n >= 10 {
        push_decimal(out, n / 10);
    }
    out.push((48 + n % 10) as u8);
    assert(out@ =~= old(out)@ + decimal_digits(n as nat));
}

fn push_range(out: &mut Vec<u8>, src: &[u8], from: usize, to: usize)
    requires
        from <= to <= src@.len(),
    ensures
        final(out)@ == old(out)@ + src@.subrange(from as int, to as int),
{
    let mut i = from;
    while i < to
        invariant
            from <= i <= to <= src@.len(),
            out@ == old(out)@ + src@.subrange(from as int, i as int),
        decreases to - i,
    {
        out.push(src[i]);
        i += 1;
        assert(out@ =~= old(out)@ + src@.subrange(from as int, i as int));
    }
}

/// The bytes a staker signs (before hashing) to authorise `action` on
/// `amount` at `nonce`.
pub fn signing_message(nonce: u64, action: &str, amount: u64) -> (r: Vec<u8>)
    ensures
        r@ == signing_text(nonce, encode_utf8(action@), amount),
{
    let mut out: Vec<u8> = Vec::new();
    push_decimal(&mut out, nonce);
    out.push(58u8);
    let text = action.as_bytes();
    push_range(&mut out, text, 0, text.len());
    out.push(58u8);
    push_decimal(&mut out, amount);
    assert(text@.subrange(0, text@.len() as int) =~= text@);
    assert(out@ =~= signing_text(nonce, encode_utf8(action@), amount));
    out
}

fn to_ascii_lower(b: u8) -> (r: u8)
    ensures
        r == ascii_lower(b),
{
    if 65 <= b && b <= 90 {
        b + 32
    } else {
        b
    }
}

fn bytes_eq_ignore_ascii_case(a: &[u8], b: &[u8]) -> (r: bool)
    ensures
        r == eq_ignore_ascii_case(a@, b@),
{
    if a.len() != b.len() {
        return false;
    }
    let mut i: usize = 0;
    while i < a.len()
        invariant
            a@.len() == b@.len(),
            i <= a@.len(),
            forall|j: int| 0 <= j < i ==> ascii_lower(#[trigger] a@[j]) == ascii_lower(b@[j]),
        decreases a@.len() - i,
    {
        if to_ascii_lower(a[i]) != to_ascii_lower(b[i]) {
            return false;
        }
        i += 1;
    }
    true
}

/// Whether an uncompressed public key belongs to the Ethereum address given as
/// text, compared without regard to ASCII case.
pub fn signer_matches(key: &[u8; 65], eth_address: &str) -> (r: bool)
    ensures
        r == eq_ignore_ascii_case(signer_address_text(key@), encode_utf8(eth_address@)),
{
    let mut body: Vec<u8> = Vec::new();
    push_range(&mut body, key.as_slice(), 1, 65);
    let digest = keccak256(body.as_slice());
    let mut tail: Vec<u8> = Vec::new();
    push_range(&mut tail, digest.as_slice(), 12, 32);
    let text = encode_hex(tail.as_slice());
    assert(body@ =~= key@.subrange(1, 65));
    assert(tail@ =~= keccak256_of(key@.subrange(1, 65)).subrange(12, 32));
    bytes_eq_ignore_ascii_case(text.as_slice(), eth_address.as_bytes())
}

/// Checks that `signature` authorises `action` on `amount` for `staker` at the
/// staker's current nonce. The signed message is the Keccak-256 digest of
/// `signing_message(staker.tx_nonce, action, amount)`; the signature is 64
/// bytes followed by a recovery id. Nothing is changed.
pub fn verify_signature(staker: &Staker, action: &str, amount: u64, signature: &Vec<u8>) -> (r:
    Result<(), VerifySignatureError>)
    ensures
        r is Ok <==> signature_accepted(
            staker.eth_address@,
            staker.tx_nonce,
            action@,
            amount,
            signature@,
        ),
        (r matches Err(VerifySignatureError::InvalidSignatureLength)) <==> signature@.len() != 65,
        (r matches Err(VerifySignatureError::InvalidRecoveryIdInSignature(_))) <==> (
        signature@.len() == 65 && signature@[64] >= 4),
        !(r matches Err(VerifySignatureError::FailedParsingSigningMessage(_))),
        r matches Err(VerifySignatureError::InvalidRecoveryIdInSignature(e)) ==> e@
            == "InvalidRecoveryId"@,
        r matches Err(VerifySignatureError::FailedParsingSignature(e)) ==> e@ == "InvalidSignature"@,
        r matches Err(VerifySignatureError::FailedRecoveringPublicKey(e)) ==> e@
            == "InvalidSignature"@,
        (r matches Err(VerifySignatureError::FailedParsingSignature(_))) <==> (signature@.len()
            == 65 && signature@[64] < 4 && !is_standard_signature(signature@.subrange(0, 64))),
        (r matches Err(VerifySignatureError::FailedRecoveringPublicKey(_))) <==> (
        well_formed_signature(signature@) && signer_key(
            staker.tx_nonce,
            action@,
            amount,
            signature@,
        ) is None),
        (r matches Err(VerifySignatureError::SignerAddressMismatch)) <==> (well_formed_signature(
            signature@,
        ) && (signer_key(staker.tx_nonce, action@, amount, signature@) matches Some(key)
            && !eq_ignore_ascii_case(signer_address_text(key), encode_utf8(staker.eth_address@)))),
{
    if signature.len() != 65 {
        return Err(VerifySignatureError::InvalidSignatureLength);
    }
    let text = signing_message(staker.tx_nonce, action, amount);
    let digest = keccak256(text.as_slice());
    let mut payload: Vec<u8> = Vec::new();
    push_range(&mut payload, signature.as_slice(), 0, 64);
    assert(payload@ == signature@.subrange(0, 64));
    let key = match recover_signer_key(digest.as_slice(), payload.as_slice(), signature[64]) {
        Ok(k) => k,
        Err(RecoveryFailure::Message(e)) => {
            return Err(VerifySignatureError::FailedParsingSigningMessage(e))
        },
        Err(RecoveryFailure::RecoveryId(e)) => {
            return Err(VerifySignatureError::InvalidRecoveryIdInSignature(e))
        },
        Err(RecoveryFailure::Signature(e)) => {
            return Err(VerifySignatureError::FailedParsingSignature(e))
        },
        Err(RecoveryFailure::Recover(e)) => {
            return Err(VerifySignatureError::FailedRecoveringPublicKey(e))
        },
    };
    if signer_matches(&key, staker.eth_address.as_str()) {
        Ok(())
    } else {
        Err(VerifySignatureError::SignerAddressMismatch)
    }
}

/// Decimal digits are ASCII digits, at least one of them.
pub proof fn lemma_decimal_digits_are_digits(n: nat)
    ensures
        decimal_digits(n).len() >= 1,
        forall|i: int|
            0 <= i < decimal_digits(n).len() ==> 48 <= #[trigger] decimal_digits(n)[i] <= 57,
    decreases n,
{
    if n >= 10 {
        lemma_decimal_digits_are_digits(n / 10);
    }
}

/// Different numbers have different decimal digits.
pub proof fn lemma_decimal_digits_injective(m: nat, n: nat)
    requires
        decimal_digits(m) == decimal_digits(n),
    ensures
        m == n,
    decreases m + n,
{
    lemma_decimal_digits_are_digits(m / 10);
    lemma_decimal_digits_are_digits(n / 10);
    if m >= 10 && n >= 10 {
        assert(decimal_digits(m).drop_last() =~= decimal_digits(m / 10));
        assert(decimal_digits(n).drop_last() =~= decimal_digits(n / 10));
        assert(decimal_digits(m).last() == (48 + m % 10) as u8);
        assert(decimal_digits(n).last() == (48 + n % 10) as u8);
        assert(m % 10 == n % 10);
        lemma_decimal_digits_injective(m / 10, n / 10);
        assert(m == n) by (nonlinear_arith)
            requires
                m / 10 == n / 10,
                m % 10 == n % 10,
        ;
    } else if m >= 10 {
        assert(decimal_digits(m).len() >= 2);
    } else if n >= 10 {
        assert(decimal_digits(n).len() >= 2);
    } else {
        assert(decimal_digits(m)[0] == (48 + m) as u8);
        assert(decimal_digits(n)[0] == (48 + n) as u8);
    }
}

/// The signed text binds the nonce: texts for two different nonces differ,
/// whatever the action and amount, so a signature given at one nonce is not a
/// signature of the text at any other.
pub proof fn lemma_signing_text_binds_nonce(m: u64, n: u64, action: Seq<u8>, amount: u64)
    requires
        m != n,
    ensures
        signing_text(m, action, amount) != signing_text(n, action, amount),
{
    let dm = decimal_digits(m as nat);
    let dn = decimal_digits(n as nat);
    let tm = signing_text(m, action, amount);
    let tn = signing_text(n, action, amount);
    lemma_decimal_digits_are_digits(m as nat);
    lemma_decimal_digits_are_digits(n as nat);
    if dm.len() == dn.len() {
        if dm == dn {
            lemma_decimal_digits_injective(m as nat, n as nat);
        }
        assert(!(dm =~= dn));
        let i = choose|i: int| 0 <= i < dm.len() && dm[i] != dn[i];
        assert(tm[i] == dm[i]);
        assert(tn[i] == dn[i]);
    } else if dm.len() < dn.len() {
        assert(tm[dm.len() as int] == 58u8);
        assert(tn[dm.len() as int] == dn[dm.len() as int]);
    } else {
        assert(tn[dn.len() as int] == 58u8);
        assert(tm[dn.len() as int] == dm[dn.len() as int]);
    }
}

/// The signed text binds the action and the amount: at one nonce, texts for
/// two different action and amount pairs differ, so a signature given for one
/// pair is not a signature of the text for any other.
pub proof fn lemma_signing_text_binds_request(
    nonce: u64,
    a1: Seq<u8>,
    m1: u64,
    a2: Seq<u8>,
    m2: u64,
)
    requires
        a1 != a2 || m1 != m2,
    ensures
        signing_text(nonce, a1, m1) != signing_text(nonce, a2, m2),
{
    let t1 = signing_text(nonce, a1, m1);
    let t2 = signing_text(nonce, a2, m2);
    let d1 = decimal_digits(m1 as nat);
    let d2 = decimal_digits(m2 as nat);
    let p = decimal_digits(nonce as nat) + seq![58u8];
    lemma_decimal_digits_are_digits(m1 as nat);
    lemma_decimal_digits_are_digits(m2 as nat);
    assert(t1 =~= p + a1 + seq![58u8] + d1);
    assert(t2 =~= p + a2 + seq![58u8] + d2);
    if t1 == t2 {
        let len = t1.len() as int;
        if d1.len() < d2.len() {
            let i = len - 1 - d1.len();
            assert(t1[i] == 58u8);
            assert(t2[i] == d2[d2.len() - 1 - d1.len()]);
        } else if d2.len() < d1.len() {
            let i = len - 1 - d2.len();
            assert(t2[i] == 58u8);
            assert(t1[i] == d1[d1.len() - 1 - d2.len()]);
        } else {
            assert(t1.subrange(len - d1.len(), len) =~= d1);
            assert(t2.subrange(len - d2.len(), len) =~= d2);
            lemma_decimal_digits_injective(m1 as nat, m2 as nat);
            assert(t1.subrange(p.len() as int, len - d1.len() - 1) =~= a1);
            assert(t2.subrange(p.len() as int, len - d2.len() - 1) =~= a2);
        }
    }
}

} // verus!
